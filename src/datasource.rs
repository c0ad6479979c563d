//! The per-request dataset: the applicant's data, the bureau records that
//! were fetched so far, the fetchers that bring the others, and the variables
//! that modules publish.
use vstd::prelude::*;
use crate::nodes::{NodeResult, NodeValue, error_value, EvalNode, Expr};
use crate::json::text_is;
use crate::BuildError;
use crate::records::{
    ApplicationDataV1, ExperianV1_0, ExperianV1_1, MockedExperianV1_0Fetcher,
    MockedExperianV1_1Fetcher, one_more_call,
};

verus! {

/// What a dataset holds, with variables as a list of bindings in the order
/// they were published.
pub ghost struct DatasetModel {
    pub application_data_v1: Option<ApplicationDataV1>,
    pub experian_v1_0: Option<ExperianV1_0>,
    pub experian_v1_0_fetcher: Option<MockedExperianV1_0Fetcher>,
    pub experian_v1_1: Option<ExperianV1_1>,
    pub experian_v1_1_fetcher: Option<MockedExperianV1_1Fetcher>,
    pub variables: Seq<(Seq<char>, NodeValue)>,
}

/// A dataset with no seed, no records, no fetchers and no variables.
pub open spec fn empty_dataset() -> DatasetModel {
    DatasetModel {
        application_data_v1: None,
        experian_v1_0: None,
        experian_v1_0_fetcher: None,
        experian_v1_1: None,
        experian_v1_1_fetcher: None,
        variables: seq![],
    }
}

/// The newest binding of `name` among the first `n` bindings.
pub open spec fn lookup_upto(vars: Seq<(Seq<char>, NodeValue)>, n: int, name: Seq<char>) -> Option<
    NodeValue,
>
    decreases n,
{
    if n <= 0 || n > vars.len() {
        None
    } else if vars[n - 1].0 == name {
        Some(vars[n - 1].1)
    } else {
        lookup_upto(vars, n - 1, name)
    }
}

/// The value a variable is bound to, the newest binding first.
pub open spec fn lookup_variable(d: DatasetModel, name: Seq<char>) -> Option<NodeValue> {
    lookup_upto(d.variables, d.variables.len() as int, name)
}

/// The dataset after `name` is published with `value`.
pub open spec fn publish_variable(d: DatasetModel, name: Seq<char>, value: NodeValue) -> DatasetModel {
    DatasetModel { variables: d.variables.push((name, value)), ..d }
}

/// A read of the version 1.0 record: the cached one, else one fetched and
/// cached, else none when no fetcher is registered.
pub open spec fn get_v1_0(d: DatasetModel) -> (Option<ExperianV1_0>, DatasetModel) {
    match d.experian_v1_0 {
        Some(x) => (Some(x), d),
        None => match d.experian_v1_0_fetcher {
            Some(f) => (
                Some(f.data),
                DatasetModel {
                    experian_v1_0: Some(f.data),
                    experian_v1_0_fetcher: Some(
                        MockedExperianV1_0Fetcher { calls: one_more_call(f.calls), ..f },
                    ),
                    ..d
                },
            ),
            None => (None, d),
        },
    }
}

/// A read of the version 1.1 record, as for version 1.0.
pub open spec fn get_v1_1(d: DatasetModel) -> (Option<ExperianV1_1>, DatasetModel) {
    match d.experian_v1_1 {
        Some(x) => (Some(x), d),
        None => match d.experian_v1_1_fetcher {
            Some(f) => (
                Some(f.data),
                DatasetModel {
                    experian_v1_1: Some(f.data),
                    experian_v1_1_fetcher: Some(
                        MockedExperianV1_1Fetcher { calls: one_more_call(f.calls), ..f },
                    ),
                    ..d
                },
            ),
            None => (None, d),
        },
    }
}

pub struct DecisionDataset {
    pub application_data_v1: Option<ApplicationDataV1>,
    pub experian_v1_0: Option<ExperianV1_0>,
    pub experian_v1_0_fetcher: Option<MockedExperianV1_0Fetcher>,
    pub experian_v1_1: Option<ExperianV1_1>,
    pub experian_v1_1_fetcher: Option<MockedExperianV1_1Fetcher>,
    pub variables: Vec<(String, NodeResult)>,
}

impl View for DecisionDataset {
    type V = DatasetModel;

    open spec fn view(&self) -> DatasetModel {
        DatasetModel {
            application_data_v1: self.application_data_v1,
            experian_v1_0: self.experian_v1_0,
            experian_v1_0_fetcher: self.experian_v1_0_fetcher,
            experian_v1_1: self.experian_v1_1,
            experian_v1_1_fetcher: self.experian_v1_1_fetcher,
            variables: self.variables@.map_values(|b: (String, NodeResult)| (b.0@, b.1@)),
        }
    }
}

impl DecisionDataset {
    /// A dataset seeded with an applicant's data, with a fetcher for each
    /// bureau record and nothing fetched yet.
    pub fn new(application_data: ApplicationDataV1) -> (r: Self)
        ensures
            r@.application_data_v1 == Some(application_data),
            r@.experian_v1_0 is None,
            r@.experian_v1_0_fetcher == Some(
                MockedExperianV1_0Fetcher { data: ExperianV1_0 { score: 1000 }, calls: 0 },
            ),
            r@.experian_v1_1 is None,
            r@.experian_v1_1_fetcher == Some(
                MockedExperianV1_1Fetcher { data: ExperianV1_1 { score: 1000, debt: 0 }, calls: 0 },
            ),
            r@.variables.len() == 0,
    {
        DecisionDataset {
            application_data_v1: Some(application_data),
            experian_v1_0: None,
            experian_v1_0_fetcher: Some(MockedExperianV1_0Fetcher::test()),
            experian_v1_1: None,
            experian_v1_1_fetcher: Some(MockedExperianV1_1Fetcher::test()),
            variables: Vec::new(),
        }
    }

    /// A dataset with the given seed and fetchers, nothing fetched yet.
    pub fn with_fetchers(
        application_data: Option<ApplicationDataV1>,
        experian_v1_0_fetcher: Option<MockedExperianV1_0Fetcher>,
        experian_v1_1_fetcher: Option<MockedExperianV1_1Fetcher>,
    ) -> (r: Self)
        ensures
            r@.application_data_v1 == application_data,
            r@.experian_v1_0 is None,
            r@.experian_v1_0_fetcher == experian_v1_0_fetcher,
            r@.experian_v1_1 is None,
            r@.experian_v1_1_fetcher == experian_v1_1_fetcher,
            r@.variables.len() == 0,
    {
        DecisionDataset {
            application_data_v1: application_data,
            experian_v1_0: None,
            experian_v1_0_fetcher,
            experian_v1_1: None,
            experian_v1_1_fetcher,
            variables: Vec::new(),
        }
    }

    /// A dataset with no seed, no records and no fetchers.
    pub fn get_empty() -> (r: Self)
        ensures
            r@.application_data_v1 is None,
            r@.experian_v1_0 is None,
            r@.experian_v1_0_fetcher is None,
            r@.experian_v1_1 is None,
            r@.experian_v1_1_fetcher is None,
            r@.variables.len() == 0,
            r@ == empty_dataset(),
    {
        let r = DecisionDataset {
            application_data_v1: None,
            experian_v1_0: None,
            experian_v1_0_fetcher: None,
            experian_v1_1: None,
            experian_v1_1_fetcher: None,
            variables: Vec::new(),
        };
        assert(r@.variables =~= seq![]);
        r
    }

    pub fn get_application_data_v1(&self) -> (r: Option<&ApplicationDataV1>)
        ensures
            r.is_some() == self.application_data_v1.is_some(),
            r.is_some() ==> *r.unwrap() == self.application_data_v1.unwrap(),
    {
        match &self.application_data_v1 {
            Some(a) => Some(a),
            None => None,
        }
    }

    /// The version 1.0 record; the fetcher is called only when no record is
    /// cached, and what it brings is cached.
    pub fn get_experian_v1_0(&mut self) -> (r: Option<ExperianV1_0>)
        ensures
            (r, final(self)@) == get_v1_0(old(self)@),
    {
        if self.experian_v1_0.is_none() {
            match &mut self.experian_v1_0_fetcher {
                Some(f) => {
                    let data = f.fetch(&self.application_data_v1);
                    self.experian_v1_0 = Some(data);
                },
                None => {},
            }
        }
        self.experian_v1_0
    }

    /// The version 1.1 record, fetched and cached as for version 1.0.
    pub fn get_experian_v1_1(&mut self) -> (r: Option<ExperianV1_1>)
        ensures
            (r, final(self)@) == get_v1_1(old(self)@),
    {
        if self.experian_v1_1.is_none() {
            match &mut self.experian_v1_1_fetcher {
                Some(f) => {
                    let data = f.fetch(&self.application_data_v1);
                    self.experian_v1_1 = Some(data);
                },
                None => {},
            }
        }
        self.experian_v1_1
    }

    /// The value bound to a variable, the newest binding first.
    pub fn get_variable(&self, name: &String) -> (r: Option<NodeResult>)
        ensures
            r.is_some() == lookup_variable(self@, name@).is_some(),
            r.is_some() ==> lookup_variable(self@, name@) == Some(r.unwrap()@),
    {
        let mut i: usize = self.variables.len();
        while i > 0
            invariant
                i <= self.variables.len(),
                lookup_upto(self@.variables, i as int, name@) == lookup_variable(self@, name@),
            decreases i,
        {
            if self.variables[i - 1].0 == *name {
                proof {
                    assert(self@.variables[i - 1] == (self.variables[i - 1].0@, self.variables[i - 1].1@));
                }
                return Some(self.variables[i - 1].1.duplicate());
            }
            proof {
                assert(self@.variables[i - 1] == (self.variables[i - 1].0@, self.variables[i - 1].1@));
            }
            i = i - 1;
        }
        None
    }

    /// Publishes a variable; it shadows any earlier binding of the name.
    pub fn set_variable(&mut self, name: String, value: NodeResult)
        ensures
            final(self)@ == publish_variable(old(self)@, name@, value@),
    {
        self.variables.push((name, value));
        assert(final(self)@.variables =~= old(self)@.variables.push((name@, value@)));
    }
}

/// The fields an input node can read.
#[derive(PartialEq, Eq, Structural, Clone, Copy, Debug)]
pub enum InputField {
    FirstName,
    LastName,
    Age,
    Experian10Score,
    Experian11Score,
    Experian11Debt,
}

/// What reading `field` gives, and the dataset after the read (a bureau
/// record may be fetched and cached on the way).
pub open spec fn read_input(field: InputField, d: DatasetModel) -> (NodeValue, DatasetModel) {
    match field {
        InputField::FirstName => match d.application_data_v1 {
            Some(a) => (NodeValue::Text(a.first_name@), d),
            None => (NodeValue::Error("`application_data_v1` not configured"@), d),
        },
        InputField::LastName => match d.application_data_v1 {
            Some(a) => (NodeValue::Text(a.last_name@), d),
            None => (NodeValue::Error("`application_data_v1` not configured"@), d),
        },
        InputField::Age => match d.application_data_v1 {
            Some(a) => (NodeValue::Numeric(a.age), d),
            None => (NodeValue::Error("`application_data_v1` not configured"@), d),
        },
        InputField::Experian10Score => match get_v1_0(d).0 {
            Some(x) => (NodeValue::Numeric(x.score), get_v1_0(d).1),
            None => (NodeValue::Error("`experian_v1_0` not configured"@), get_v1_0(d).1),
        },
        InputField::Experian11Score => match get_v1_1(d).0 {
            Some(x) => (NodeValue::Numeric(x.score), get_v1_1(d).1),
            None => (NodeValue::Error("`experian_v1_1` not configured"@), get_v1_1(d).1),
        },
        InputField::Experian11Debt => match get_v1_1(d).0 {
            Some(x) => (NodeValue::Numeric(x.debt), get_v1_1(d).1),
            None => (NodeValue::Error("`experian_v1_1` not configured"@), get_v1_1(d).1),
        },
    }
}

/// A node that reads one field of a record in the dataset.
#[derive(PartialEq, Eq, Structural, Clone, Copy, Debug)]
pub struct DecisionDataInputNode {
    pub field: InputField,
}

impl DecisionDataInputNode {
    pub fn eval(&self, decision_dataset: &mut DecisionDataset) -> (r: NodeResult)
        ensures
            (r@, final(decision_dataset)@) == read_input(self.field, old(decision_dataset)@),
    {
        match self.field {
            InputField::FirstName => match decision_dataset.get_application_data_v1() {
                Some(a) => NodeResult::Text(a.first_name()),
                None => error_value("`application_data_v1` not configured"),
            },
            InputField::LastName => match decision_dataset.get_application_data_v1() {
                Some(a) => NodeResult::Text(a.last_name()),
                None => error_value("`application_data_v1` not configured"),
            },
            InputField::Age => match decision_dataset.get_application_data_v1() {
                Some(a) => NodeResult::Numeric(a.age()),
                None => error_value("`application_data_v1` not configured"),
            },
            InputField::Experian10Score => match decision_dataset.get_experian_v1_0() {
                Some(x) => NodeResult::Numeric(x.score()),
                None => error_value("`experian_v1_0` not configured"),
            },
            InputField::Experian11Score => match decision_dataset.get_experian_v1_1() {
                Some(x) => NodeResult::Numeric(x.score()),
                None => error_value("`experian_v1_1` not configured"),
            },
            InputField::Experian11Debt => match decision_dataset.get_experian_v1_1() {
                Some(x) => NodeResult::Numeric(x.debt()),
                None => error_value("`experian_v1_1` not configured"),
            },
        }
    }
}

/// A record type whose fields input nodes can read by name.
pub trait DecisionDataRequestHandler {
    /// The field a name stands for, if the record has it.
    spec fn field_named(name: Seq<char>) -> Option<InputField>;

    /// The node that reads the field named `name`.
    fn parse_node(name: &String) -> (r: Option<DecisionDataInputNode>)
        ensures
            match Self::field_named(name@) {
                Some(f) => r == Some(DecisionDataInputNode { field: f }),
                None => r is None,
            },
    ;
}

/// The index of the first `.` in a path, or -1.
pub open spec fn dot_index_from(p: Seq<char>, i: int) -> int
    decreases p.len() - i,
{
    if i < 0 || i >= p.len() {
        -1
    } else if p[i] == '.' {
        i
    } else {
        dot_index_from(p, i + 1)
    }
}

proof fn lemma_dot_index_range(p: Seq<char>, i: int)
    requires
        0 <= i,
    ensures
        -1 <= dot_index_from(p, i) < p.len(),
        dot_index_from(p, i) >= 0 ==> i <= dot_index_from(p, i) && p[dot_index_from(p, i)] == '.',
    decreases p.len() - i,
{
    if i < p.len() && p[i] != '.' {
        lemma_dot_index_range(p, i + 1);
    }
}

/// The field `field` of the record type named `record`.
pub open spec fn record_field(record: Seq<char>, field: Seq<char>) -> Option<InputField> {
    if record == "application_data_v1"@ {
        <ApplicationDataV1 as DecisionDataRequestHandler>::field_named(field)
    } else if record == "experian_v1_0"@ {
        <ExperianV1_0 as DecisionDataRequestHandler>::field_named(field)
    } else if record == "experian_v1_1"@ {
        <ExperianV1_1 as DecisionDataRequestHandler>::field_named(field)
    } else {
        None
    }
}

/// What an input path `<record>.<field>` of a strategy document reads: the
/// field after its first dot of the record type before it.  A path without
/// a dot names no field.
pub open spec fn parse_input_path(p: Seq<char>) -> Result<Expr, BuildError> {
    let k = dot_index_from(p, 0);
    if k < 0 {
        Err(BuildError::UnknownInput)
    } else {
        match record_field(p.subrange(0, k), p.subrange(k + 1, p.len() as int)) {
            Some(f) => Ok(Expr::Input(f)),
            None => Err(BuildError::UnknownInput),
        }
    }
}

/// The index of the first `.` in `s`.
fn find_dot(s: &str) -> (r: Option<usize>)
    ensures
        match r {
            Some(k) => dot_index_from(s@, 0) == k as int,
            None => dot_index_from(s@, 0) < 0,
        },
{
    let n = s.unicode_len();
    let mut i: usize = 0;
    while i < n
        invariant
            n == s@.len(),
            i <= n,
            dot_index_from(s@, i as int) == dot_index_from(s@, 0),
        decreases n - i,
    {
        if s.get_char(i) == '.' {
            return Some(i);
        }
        i = i + 1;
    }
    None
}

/// The node that reads field `field` of the record type named `record`.
fn record_field_node(record: &String, field: &String) -> (r: Option<DecisionDataInputNode>)
    ensures
        match record_field(record@, field@) {
            Some(f) => r == Some(DecisionDataInputNode { field: f }),
            None => r is None,
        },
{
    if text_is(record, "application_data_v1") {
        ApplicationDataV1::parse_node(field)
    } else if text_is(record, "experian_v1_0") {
        ExperianV1_0::parse_node(field)
    } else if text_is(record, "experian_v1_1") {
        ExperianV1_1::parse_node(field)
    } else {
        None
    }
}

/// Builds the node an input path reads; such a node is never constant.
pub fn deserialize_input_node(path: &str) -> (r: Result<(EvalNode, bool), BuildError>)
    ensures
        match parse_input_path(path@) {
            Ok(x) => r is Ok && r->Ok_0.0@ == x && !r->Ok_0.1,
            Err(e) => r == Err::<(EvalNode, bool), BuildError>(e),
        },
{
    match find_dot(path) {
        None => Err(BuildError::UnknownInput),
        Some(k) => {
            proof {
                lemma_dot_index_range(path@, 0);
            }
            let n = path.unicode_len();
            let record = String::from_str(path.substring_char(0, k));
            let field = String::from_str(path.substring_char(k + 1, n));
            match record_field_node(&record, &field) {
                Some(node) => Ok((EvalNode::Input(node), false)),
                None => Err(BuildError::UnknownInput),
            }
        },
    }
}

/// A second read of the version 1.0 record returns what the first did and
/// changes nothing.
proof fn lemma_get_v1_0_settles(d: DatasetModel)
    ensures
        get_v1_0(get_v1_0(d).1) == (get_v1_0(d).0, get_v1_0(d).1),
{
}

/// A second read of the version 1.1 record returns what the first did and
/// changes nothing.
proof fn lemma_get_v1_1_settles(d: DatasetModel)
    ensures
        get_v1_1(get_v1_1(d).1) == (get_v1_1(d).0, get_v1_1(d).1),
{
}

/// The dataset after `n` reads of the version 1.0 record.
pub open spec fn repeat_get_v1_0(d: DatasetModel, n: nat) -> DatasetModel
    decreases n,
{
    if n == 0 {
        d
    } else {
        repeat_get_v1_0(get_v1_0(d).1, (n - 1) as nat)
    }
}

/// The dataset after `n` reads of the version 1.1 record.
pub open spec fn repeat_get_v1_1(d: DatasetModel, n: nat) -> DatasetModel
    decreases n,
{
    if n == 0 {
        d
    } else {
        repeat_get_v1_1(get_v1_1(d).1, (n - 1) as nat)
    }
}

/// Any number of reads of a record, one or more, call its fetcher exactly
/// once when nothing was cached and never when a record was: the dataset
/// after them is the dataset after the first read, and every later read
/// returns what the first one did.
pub proof fn lemma_fetch_memoized_v1_0(d: DatasetModel, n: nat)
    requires
        n >= 1,
    ensures
        repeat_get_v1_0(d, n) == get_v1_0(d).1,
        get_v1_0(repeat_get_v1_0(d, n)).0 == get_v1_0(d).0,
        d.experian_v1_0 is None && d.experian_v1_0_fetcher is Some
            && d.experian_v1_0_fetcher->Some_0.calls < u64::MAX ==> repeat_get_v1_0(d, n).experian_v1_0_fetcher->Some_0.calls
            == d.experian_v1_0_fetcher->Some_0.calls + 1,
        d.experian_v1_0 is Some ==> repeat_get_v1_0(d, n) == d,
    decreases n,
{
    lemma_get_v1_0_settles(d);
    if n > 1 {
        lemma_fetch_memoized_v1_0(get_v1_0(d).1, (n - 1) as nat);
    } else {
        assert(repeat_get_v1_0(get_v1_0(d).1, 0) == get_v1_0(d).1);
    }
}

/// As for version 1.0: one or more reads of the version 1.1 record call its
/// fetcher at most once.
pub proof fn lemma_fetch_memoized_v1_1(d: DatasetModel, n: nat)
    requires
        n >= 1,
    ensures
        repeat_get_v1_1(d, n) == get_v1_1(d).1,
        get_v1_1(repeat_get_v1_1(d, n)).0 == get_v1_1(d).0,
        d.experian_v1_1 is None && d.experian_v1_1_fetcher is Some
            && d.experian_v1_1_fetcher->Some_0.calls < u64::MAX ==> repeat_get_v1_1(d, n).experian_v1_1_fetcher->Some_0.calls
            == d.experian_v1_1_fetcher->Some_0.calls + 1,
        d.experian_v1_1 is Some ==> repeat_get_v1_1(d, n) == d,
    decreases n,
{
    lemma_get_v1_1_settles(d);
    if n > 1 {
        lemma_fetch_memoized_v1_1(get_v1_1(d).1, (n - 1) as nat);
    } else {
        assert(repeat_get_v1_1(get_v1_1(d).1, 0) == get_v1_1(d).1);
    }
}

/// The version 1.0 record a read would give: the cached one, else the one
/// the fetcher hands out.
pub open spec fn record_v1_0(d: DatasetModel) -> Option<ExperianV1_0> {
    match d.experian_v1_0 {
        Some(x) => Some(x),
        None => match d.experian_v1_0_fetcher {
            Some(f) => Some(f.data),
            None => None,
        },
    }
}

/// The version 1.1 record a read would give.
pub open spec fn record_v1_1(d: DatasetModel) -> Option<ExperianV1_1> {
    match d.experian_v1_1 {
        Some(x) => Some(x),
        None => match d.experian_v1_1_fetcher {
            Some(f) => Some(f.data),
            None => None,
        },
    }
}

/// Two datasets that no read can tell apart: the same seed, the same
/// records to read and the same variables.  They may differ in what is
/// cached and in how often the fetchers were called.
pub open spec fn reads_alike(d1: DatasetModel, d2: DatasetModel) -> bool {
    &&& d1.application_data_v1 == d2.application_data_v1
    &&& record_v1_0(d1) == record_v1_0(d2)
    &&& record_v1_1(d1) == record_v1_1(d2)
    &&& d1.variables == d2.variables
}

/// Reading a field gives the same value on datasets that read alike, and
/// leaves a dataset that reads as it did.
pub proof fn lemma_read_input_alike(f: InputField, d1: DatasetModel, d2: DatasetModel)
    requires
        reads_alike(d1, d2),
    ensures
        read_input(f, d1).0 == read_input(f, d2).0,
        reads_alike(read_input(f, d1).1, d1),
{
}

} // verus!
