//! Rules: state machines over conditions, entered at condition 1.
use vstd::prelude::*;
use crate::datasource::{DecisionDataset, DatasetModel, reads_alike};
use crate::json::{JsonValue, member, member_str, text_is};
use crate::nodes::{
    EvalNode, Expr, NodeResult, NodeValue, eval_expr, fold_expr, parse_expr, deserialize_node,
    lemma_eval_alike,
};
use crate::operations::fits_i32;
use crate::{BuildError, EvalError, EvalResult};

verus! {

/// Where a condition leads: a verdict, or the condition with the given id.
#[derive(PartialEq, Eq, Structural, Clone, Copy, Debug)]
pub enum ConditionResult {
    Accept,
    Reject,
    Condition(i32),
}

/// One state of a rule: a boolean node and where each answer leads.
pub struct Condition {
    pub condition_id: i32,
    pub node: EvalNode,
    pub if_true: ConditionResult,
    pub if_false: ConditionResult,
}

/// What evaluating a condition gives, and the dataset after it.
pub open spec fn condition_step(c: Condition, d: DatasetModel) -> (Result<ConditionResult, EvalError>, DatasetModel) {
    let (v, d1) = eval_expr(c.node@, d);
    match v {
        NodeValue::Boolean(b) => (Ok(if b { c.if_true } else { c.if_false }), d1),
        _ => (Err(EvalError::NotBoolean(c.condition_id)), d1),
    }
}

impl Condition {
    pub fn eval(&self, input: &mut DecisionDataset) -> (r: Result<ConditionResult, EvalError>)
        ensures
            (r, final(input)@) == condition_step(*self, old(input)@),
    {
        match self.node.eval(input) {
            NodeResult::Boolean(b) => if b {
                Ok(self.if_true)
            } else {
                Ok(self.if_false)
            },
            _ => Err(EvalError::NotBoolean(self.condition_id)),
        }
    }
}

/// The first index at or after `i` of a condition with id `id`, or -1.
pub open spec fn index_from(conds: Seq<Condition>, id: i32, i: int) -> int
    decreases conds.len() - i,
{
    if i < 0 || i >= conds.len() {
        -1
    } else if conds[i].condition_id == id {
        i
    } else {
        index_from(conds, id, i + 1)
    }
}

/// The first index of a condition with id `id`, or -1.
pub open spec fn condition_index(conds: Seq<Condition>, id: i32) -> int {
    index_from(conds, id, 0)
}

proof fn lemma_index_from_range(conds: Seq<Condition>, id: i32, i: int)
    ensures
        -1 <= index_from(conds, id, i) < conds.len(),
        index_from(conds, id, i) >= 0 ==> conds[index_from(conds, id, i)].condition_id == id,
    decreases conds.len() - i,
{
    if 0 <= i < conds.len() && conds[i].condition_id != id {
        lemma_index_from_range(conds, id, i + 1);
    }
}

/// Runs a rule from condition `cur`, with at most `fuel` more conditions to
/// visit.
pub open spec fn run_conditions(conds: Seq<Condition>, cur: i32, fuel: nat, d: DatasetModel) -> (
    Result<EvalResult, EvalError>,
    DatasetModel,
)
    decreases fuel,
{
    let k = condition_index(conds, cur);
    if k < 0 {
        (Err(EvalError::MissingCondition(cur)), d)
    } else if fuel == 0 {
        (Err(EvalError::GotoCycle(cur)), d)
    } else {
        let (step, d1) = condition_step(conds[k], d);
        match step {
            Err(e) => (Err(e), d1),
            Ok(ConditionResult::Accept) => (Ok(EvalResult::Accept), d1),
            Ok(ConditionResult::Reject) => (Ok(EvalResult::Reject), d1),
            Ok(ConditionResult::Condition(n)) => run_conditions(conds, n, (fuel - 1) as nat, d1),
        }
    }
}

/// A rule named by id, whose evaluation starts at the condition with id 1.
pub struct Rule {
    pub rule_id: i32,
    pub rule_name: String,
    pub conditions: Vec<Condition>,
}

/// The verdict of a rule, and the dataset after it.  A rule visits at most
/// as many conditions as it has: a path longer than that repeats one.
pub open spec fn eval_rule(r: Rule, d: DatasetModel) -> (Result<EvalResult, EvalError>, DatasetModel) {
    run_conditions(r.conditions@, 1, r.conditions.len() as nat, d)
}

impl Rule {
    /// The index of the condition with id `id`, if any.
    fn find_condition(&self, id: i32) -> (r: Option<usize>)
        ensures
            match r {
                Some(k) => condition_index(self.conditions@, id) == k as int,
                None => condition_index(self.conditions@, id) < 0,
            },
    {
        let mut i: usize = 0;
        while i < self.conditions.len()
            invariant
                i <= self.conditions.len(),
                index_from(self.conditions@, id, i as int) == condition_index(self.conditions@, id),
            decreases self.conditions.len() - i,
        {
            if self.conditions[i].condition_id == id {
                return Some(i);
            }
            i = i + 1;
        }
        None
    }

    pub fn eval(&self, input: &mut DecisionDataset) -> (r: Result<EvalResult, EvalError>)
        ensures
            (r, final(input)@) == eval_rule(*self, old(input)@),
    {
        let mut curr_condition_id: i32 = 1;
        let mut fuel: usize = self.conditions.len();
        loop
            invariant
                run_conditions(self.conditions@, curr_condition_id, fuel as nat, input@) == eval_rule(
                    *self,
                    old(input)@,
                ),
            decreases fuel,
        {
            let k = match self.find_condition(curr_condition_id) {
                Some(k) => k,
                None => {
                    return Err(EvalError::MissingCondition(curr_condition_id));
                },
            };
            proof {
                lemma_index_from_range(self.conditions@, curr_condition_id, 0);
            }
            if fuel == 0 {
                return Err(EvalError::GotoCycle(curr_condition_id));
            }
            match self.conditions[k].eval(input) {
                Err(e) => {
                    return Err(e);
                },
                Ok(ConditionResult::Accept) => {
                    return Ok(EvalResult::Accept);
                },
                Ok(ConditionResult::Reject) => {
                    return Ok(EvalResult::Reject);
                },
                Ok(ConditionResult::Condition(n)) => {
                    curr_condition_id = n;
                    fuel = fuel - 1;
                },
            }
        }
    }
}

/// The value of a string of decimal digits.
pub open spec fn digits_value(s: Seq<char>) -> int
    decreases s.len(),
{
    if s.len() == 0 {
        0
    } else {
        digits_value(s.drop_last()) * 10 + (s.last() as int - '0' as int)
    }
}

pub open spec fn is_digit(c: char) -> bool {
    '0' <= c && c <= '9'
}

pub open spec fn all_digits(s: Seq<char>) -> bool {
    forall|i: int| 0 <= i < s.len() ==> is_digit(#[trigger] s[i])
}

/// The `i32` that a decimal text stands for: an optional sign, then one
/// digit or more.
pub open spec fn parse_i32_text(s: Seq<char>) -> Option<i32> {
    let signed = s.len() > 0 && (s[0] == '-' || s[0] == '+');
    let body = if signed {
        s.subrange(1, s.len() as int)
    } else {
        s
    };
    let v = if signed && s[0] == '-' {
        -digits_value(body)
    } else {
        digits_value(body)
    };
    if body.len() == 0 || !all_digits(body) {
        None
    } else if fits_i32(v) {
        Some(v as i32)
    } else {
        None
    }
}

proof fn lemma_digits_value_nonneg(s: Seq<char>)
    requires
        forall|i: int| 0 <= i < s.len() ==> is_digit(#[trigger] s[i]),
    ensures
        digits_value(s) >= 0,
    decreases s.len(),
{
    if s.len() > 0 {
        lemma_digits_value_nonneg(s.drop_last());
    }
}

/// Once the value of a prefix of digits passes `bound`, more digits keep it
/// past.
proof fn lemma_digits_value_grows(s: Seq<char>, k: int)
    requires
        0 <= k <= s.len(),
        forall|i: int| 0 <= i < s.len() ==> is_digit(#[trigger] s[i]),
    ensures
        digits_value(s) >= digits_value(s.subrange(0, k)),
    decreases s.len() - k,
{
    if k < s.len() {
        lemma_digits_value_grows(s, k + 1);
        let p = s.subrange(0, k + 1);
        assert(p.drop_last() =~= s.subrange(0, k));
        lemma_digits_value_nonneg(s.subrange(0, k));
    } else {
        assert(s.subrange(0, k) =~= s);
    }
}

/// Reads the `i32` written in decimal in `s`.
pub fn parse_i32(s: &str) -> (r: Option<i32>)
    ensures
        r == parse_i32_text(s@),
{
    let n = s.unicode_len();
    if n == 0 {
        return None;
    }
    let first = s.get_char(0);
    let signed = first == '-' || first == '+';
    let negative = first == '-';
    let start: usize = if signed {
        1
    } else {
        0
    };
    let ghost body = if signed {
        s@.subrange(1, s@.len() as int)
    } else {
        s@
    };
    if start == n {
        return None;
    }
    let mut value: i64 = 0;
    let mut i: usize = start;
    while i < n
        invariant
            n == s@.len(),
            n > 0,
            signed == (s@[0] == '-' || s@[0] == '+'),
            negative == (s@[0] == '-'),
            start == (if signed { 1usize } else { 0usize }),
            body == (if signed { s@.subrange(1, s@.len() as int) } else { s@ }),
            start <= i <= n,
            body == s@.subrange(start as int, n as int),
            forall|j: int| 0 <= j < i - start ==> is_digit(#[trigger] body[j]),
            value == digits_value(body.subrange(0, i - start)),
            0 <= value <= 0x8000_0000,
        decreases n - i,
    {
        let c = s.get_char(i);
        assert(body[i - start] == c);
        if !('0' <= c && c <= '9') {
            assert(!is_digit(body[i - start]));
            assert(!all_digits(body));
            return None;
        }
        let d = (c as u32 - '0' as u32) as i64;
        proof {
            let p = body.subrange(0, i + 1 - start);
            assert(p.drop_last() =~= body.subrange(0, i - start));
            assert(p.last() == c);
        }
        value = value * 10 + d;
        assert(value == digits_value(body.subrange(0, i + 1 - start)));
        if value > 0x8000_0000 {
            proof {
                if all_digits(body) {
                    lemma_digits_value_grows(body, i + 1 - start);
                    assert(digits_value(body) > 0x8000_0000);
                }
            }
            return None;
        }
        i = i + 1;
    }
    assert(body.subrange(0, n - start) =~= body);
    if negative {
        if value > 0x8000_0000 {
            return None;
        }
        Some((-value) as i32)
    } else {
        if value > 0x7fff_ffff {
            return None;
        }
        Some(value as i32)
    }
}

/// Where a decision of a strategy document leads.
pub open spec fn parse_decision(j: JsonValue) -> Result<ConditionResult, BuildError> {
    match member_str(j, "type"@) {
        None => Err(BuildError::Malformed),
        Some(t) => if t == "return"@ {
            match member_str(j, "value"@) {
                None => Err(BuildError::Malformed),
                Some(v) => if v == "ACCEPT"@ {
                    Ok(ConditionResult::Accept)
                } else if v == "REJECT"@ {
                    Ok(ConditionResult::Reject)
                } else {
                    Err(BuildError::UnknownDecision)
                },
            }
        } else if t == "goto"@ {
            match member_str(j, "value"@) {
                None => Err(BuildError::Malformed),
                Some(v) => match parse_i32_text(v) {
                    Some(n) => Ok(ConditionResult::Condition(n)),
                    None => Err(BuildError::BadConditionId),
                },
            }
        } else {
            Err(BuildError::UnknownDecision)
        },
    }
}

/// A condition as plain values: its id, its folded node and its two
/// decisions.
pub type ConditionModel = (i32, Expr, ConditionResult, ConditionResult);

impl Condition {
    pub open spec fn model(&self) -> ConditionModel {
        (self.condition_id, self.node@, self.if_true, self.if_false)
    }
}

/// The condition a strategy document describes: its node is read first,
/// then its id, then the decision for true and the one for false.
pub open spec fn parse_condition(j: JsonValue) -> Result<ConditionModel, BuildError> {
    match member(j, "condition"@) {
        None => Err(BuildError::Malformed),
        Some(cj) => match parse_expr(cj) {
            Err(e) => Err(e),
            Ok(x) => match member_str(j, "condition_id"@) {
                None => Err(BuildError::Malformed),
                Some(id) => match parse_i32_text(id) {
                    None => Err(BuildError::BadConditionId),
                    Some(n) => match member(j, "true"@) {
                        None => Err(BuildError::Malformed),
                        Some(tj) => match parse_decision(tj) {
                            Err(e) => Err(e),
                            Ok(t) => match member(j, "false"@) {
                                None => Err(BuildError::Malformed),
                                Some(fj) => match parse_decision(fj) {
                                    Err(e) => Err(e),
                                    Ok(f) => Ok((n, fold_expr(x), t, f)),
                                },
                            },
                        },
                    },
                },
            },
        },
    }
}

pub fn deserialize_condition_decision(v: &JsonValue) -> (r: Result<ConditionResult, BuildError>)
    ensures
        r == parse_decision(*v),
{
    let t = match v.get_str("type") {
        Some(t) => t,
        None => {
            return Err(BuildError::Malformed);
        },
    };
    if text_is(t, "return") {
        match v.get_str("value") {
            None => Err(BuildError::Malformed),
            Some(value) => if text_is(value, "ACCEPT") {
                Ok(ConditionResult::Accept)
            } else if text_is(value, "REJECT") {
                Ok(ConditionResult::Reject)
            } else {
                Err(BuildError::UnknownDecision)
            },
        }
    } else if text_is(t, "goto") {
        match v.get_str("value") {
            None => Err(BuildError::Malformed),
            Some(value) => match parse_i32(value.as_str()) {
                Some(n) => Ok(ConditionResult::Condition(n)),
                None => Err(BuildError::BadConditionId),
            },
        }
    } else {
        Err(BuildError::UnknownDecision)
    }
}

pub fn deserialize_condition(v: &JsonValue) -> (r: Result<Condition, BuildError>)
    ensures
        match parse_condition(*v) {
            Ok(m) => r is Ok && r->Ok_0.model() == m,
            Err(e) => r is Err && r->Err_0 == e,
        },
{
    let cj = match v.get("condition") {
        Some(x) => x,
        None => {
            return Err(BuildError::Malformed);
        },
    };
    let node = match deserialize_node(cj) {
        Ok((node, _)) => node,
        Err(e) => {
            return Err(e);
        },
    };
    let condition_id = match v.get_str("condition_id") {
        Some(id) => match parse_i32(id.as_str()) {
            Some(n) => n,
            None => {
                return Err(BuildError::BadConditionId);
            },
        },
        None => {
            return Err(BuildError::Malformed);
        },
    };
    let if_true = match v.get("true") {
        Some(x) => deserialize_condition_decision(x)?,
        None => {
            return Err(BuildError::Malformed);
        },
    };
    let if_false = match v.get("false") {
        Some(x) => deserialize_condition_decision(x)?,
        None => {
            return Err(BuildError::Malformed);
        },
    };
    Ok(Condition { condition_id, node, if_true, if_false })
}

impl Condition {
    pub fn deserialize(value: &JsonValue) -> (r: Result<Self, BuildError>)
        ensures
            match parse_condition(*value) {
                Ok(m) => r is Ok && r->Ok_0.model() == m,
                Err(e) => r is Err && r->Err_0 == e,
            },
    {
        deserialize_condition(value)
    }
}

/// A rule as plain values: its id, its name and its conditions.
pub type RuleModel = (i32, Seq<char>, Seq<ConditionModel>);

impl Rule {
    /// A well-formed rule holds its entry condition, id 1, and no id twice.
    pub open spec fn wf(&self) -> bool {
        &&& exists|i: int| 0 <= i < self.conditions.len() && (#[trigger] self.conditions@[i]).condition_id == 1
        &&& forall|i: int, k: int|
            0 <= i < k < self.conditions.len() ==> (#[trigger] self.conditions@[i]).condition_id
                != (#[trigger] self.conditions@[k]).condition_id
    }

    pub open spec fn model(&self) -> RuleModel {
        (self.rule_id, self.rule_name@, self.conditions@.map_values(|c: Condition| c.model()))
    }
}

/// The conditions of the first `n` entries of an array; the first that
/// fails gives the error.
pub open spec fn parse_conditions(items: Seq<JsonValue>, n: int) -> Result<Seq<ConditionModel>, BuildError>
    decreases n,
{
    if 0 < n <= items.len() {
        match parse_conditions(items, n - 1) {
            Err(e) => Err(e),
            Ok(cs) => match parse_condition(items[n - 1]) {
                Ok(c) => Ok(cs.push(c)),
                Err(e) => Err(e),
            },
        }
    } else {
        Ok(seq![])
    }
}

/// Whether the conditions hold the entry condition and no id twice.
pub open spec fn conditions_check(cs: Seq<ConditionModel>) -> Result<(), BuildError> {
    if !(exists|i: int| 0 <= i < cs.len() && (#[trigger] cs[i]).0 == 1) {
        Err(BuildError::MissingEntryCondition)
    } else if exists|i: int, k: int| 0 <= i < k < cs.len() && (#[trigger] cs[i]).0 == (#[trigger] cs[k]).0 {
        Err(BuildError::DuplicateCondition)
    } else {
        Ok(())
    }
}

/// The rule with the given id and name and the conditions of `items`.
pub open spec fn rule_from(id: i32, name: Seq<char>, items: Seq<JsonValue>) -> Result<RuleModel, BuildError> {
    match parse_conditions(items, items.len() as int) {
        Err(e) => Err(e),
        Ok(cs) => match conditions_check(cs) {
            Err(e) => Err(e),
            Ok(_) => Ok((id, name, cs)),
        },
    }
}

/// The rule a strategy document describes: its id, its name, then its
/// conditions in order.
pub open spec fn parse_rule(j: JsonValue) -> Result<RuleModel, BuildError> {
    match member(j, "rule_id"@) {
        Some(JsonValue::Int(id)) => if !fits_i32(id as int) {
            Err(BuildError::Malformed)
        } else {
            match member_str(j, "rule_name"@) {
                None => Err(BuildError::Malformed),
                Some(name) => match member(j, "conditions"@) {
                    Some(JsonValue::Array(items)) => rule_from(id as i32, name, items@),
                    _ => Err(BuildError::Malformed),
                },
            }
        },
        _ => Err(BuildError::Malformed),
    }
}

proof fn lemma_conditions_err(items: Seq<JsonValue>, k: int, n: int)
    requires
        0 < k <= n <= items.len(),
        parse_conditions(items, k) is Err,
    ensures
        parse_conditions(items, n) == parse_conditions(items, k),
    decreases n - k,
{
    if n > k {
        lemma_conditions_err(items, k, n - 1);
    }
}

/// Checks that the conditions hold the entry condition and no id twice.
fn check_conditions(conditions: &Vec<Condition>) -> (r: Result<(), BuildError>)
    ensures
        r == conditions_check(conditions@.map_values(|c: Condition| c.model())),
{
    let ghost cs = conditions@.map_values(|c: Condition| c.model());
    let mut has_entry = false;
    let mut i: usize = 0;
    while i < conditions.len()
        invariant
            i <= conditions.len(),
            cs == conditions@.map_values(|c: Condition| c.model()),
            has_entry == exists|j: int| 0 <= j < i && (#[trigger] cs[j]).0 == 1,
        decreases conditions.len() - i,
    {
        assert(cs[i as int] == conditions[i as int].model());
        if conditions[i].condition_id == 1 {
            has_entry = true;
        }
        i = i + 1;
    }
    if !has_entry {
        return Err(BuildError::MissingEntryCondition);
    }
    let mut a: usize = 0;
    while a < conditions.len()
        invariant
            a <= conditions.len(),
            cs == conditions@.map_values(|c: Condition| c.model()),
            exists|j: int| 0 <= j < cs.len() && (#[trigger] cs[j]).0 == 1,
            forall|x: int, y: int| 0 <= x < a && x < y < cs.len() ==> (#[trigger] cs[x]).0 != (#[trigger] cs[y]).0,
        decreases conditions.len() - a,
    {
        let mut b: usize = a + 1;
        while b < conditions.len()
            invariant
                a < conditions.len(),
                a + 1 <= b <= conditions.len(),
                cs == conditions@.map_values(|c: Condition| c.model()),
                exists|j: int| 0 <= j < cs.len() && (#[trigger] cs[j]).0 == 1,
                forall|x: int, y: int| 0 <= x < a && x < y < cs.len() ==> (#[trigger] cs[x]).0 != (#[trigger] cs[y]).0,
                forall|y: int| a < y < b ==> cs[a as int].0 != (#[trigger] cs[y]).0,
            decreases conditions.len() - b,
        {
            assert(cs[a as int] == conditions[a as int].model());
            assert(cs[b as int] == conditions[b as int].model());
            if conditions[a].condition_id == conditions[b].condition_id {
                assert(cs[a as int].0 == cs[b as int].0);
                return Err(BuildError::DuplicateCondition);
            }
            b = b + 1;
        }
        a = a + 1;
    }
    Ok(())
}

pub fn deserialize_rule(v: &JsonValue) -> (r: Result<Rule, BuildError>)
    ensures
        r is Ok ==> r->Ok_0.wf(),
        match parse_rule(*v) {
            Ok(m) => r is Ok && r->Ok_0.model() == m,
            Err(e) => r is Err && r->Err_0 == e,
        },
{
    let rule_id = match v.get("rule_id") {
        Some(JsonValue::Int(id)) => if *id >= i32::MIN as i64 && *id <= i32::MAX as i64 {
            *id as i32
        } else {
            return Err(BuildError::Malformed);
        },
        _ => {
            return Err(BuildError::Malformed);
        },
    };
    let rule_name = match v.get_str("rule_name") {
        Some(name) => name.clone(),
        None => {
            return Err(BuildError::Malformed);
        },
    };
    let items = match v.get("conditions") {
        Some(JsonValue::Array(items)) => items,
        _ => {
            return Err(BuildError::Malformed);
        },
    };
    assert(parse_rule(*v) == rule_from(rule_id, rule_name@, items@));
    let mut conditions: Vec<Condition> = Vec::new();
    assert(conditions@.map_values(|c: Condition| c.model()) =~= seq![]);
    let mut i: usize = 0;
    while i < items.len()
        invariant
            i <= items.len(),
            conditions.len() == i,
            parse_rule(*v) == rule_from(rule_id, rule_name@, items@),
            parse_conditions(items@, i as int) == Ok::<Seq<ConditionModel>, BuildError>(
                conditions@.map_values(|c: Condition| c.model()),
            ),
        decreases items.len() - i,
    {
        let c = match deserialize_condition(&items[i]) {
            Ok(c) => c,
            Err(e) => {
                proof {
                    lemma_conditions_err(items@, i as int + 1, items.len() as int);
                }
                return Err(e);
            },
        };
        let ghost before = conditions@.map_values(|c: Condition| c.model());
        conditions.push(c);
        assert(conditions@.map_values(|c: Condition| c.model()) =~= before.push(c.model()));
        i = i + 1;
    }
    check_conditions(&conditions)?;
    let r = Rule { rule_id, rule_name, conditions };
    proof {
        let cs = r.conditions@.map_values(|c: Condition| c.model());
        assert forall|i: int| 0 <= i < r.conditions.len() implies #[trigger] cs[i] == r.conditions@[i].model() by {}
        let w = choose|i: int| 0 <= i < cs.len() && (#[trigger] cs[i]).0 == 1;
        assert(cs[w] == r.conditions@[w].model());
        assert forall|i: int, k: int| 0 <= i < k < r.conditions.len() implies (#[trigger] r.conditions@[i]).condition_id
            != (#[trigger] r.conditions@[k]).condition_id by {
            assert(cs[i] == r.conditions@[i].model());
            assert(cs[k] == r.conditions@[k].model());
        }
    }
    Ok(r)
}

/// A rule run gives the same outcome on datasets that read alike, and leaves
/// a dataset that reads as the one it started from.
pub proof fn lemma_run_conditions_alike(
    conds: Seq<Condition>,
    cur: i32,
    fuel: nat,
    d1: DatasetModel,
    d2: DatasetModel,
)
    requires
        reads_alike(d1, d2),
    ensures
        run_conditions(conds, cur, fuel, d1).0 == run_conditions(conds, cur, fuel, d2).0,
        reads_alike(run_conditions(conds, cur, fuel, d1).1, d1),
    decreases fuel,
{
    let k = condition_index(conds, cur);
    if k >= 0 && fuel > 0 {
        lemma_index_from_range(conds, cur, 0);
        let e = conds[k].node@;
        lemma_eval_alike(e, d1, d2);
        lemma_eval_alike(e, d2, d1);
        let a1 = eval_expr(e, d1).1;
        let a2 = eval_expr(e, d2).1;
        match condition_step(conds[k], d1).0 {
            Ok(ConditionResult::Condition(n)) => {
                lemma_run_conditions_alike(conds, n, (fuel - 1) as nat, a1, a2);
            },
            _ => {},
        }
    }
}

/// A rule gives the same verdict on datasets that read alike.
pub proof fn lemma_eval_rule_alike(r: Rule, d1: DatasetModel, d2: DatasetModel)
    requires
        reads_alike(d1, d2),
    ensures
        eval_rule(r, d1).0 == eval_rule(r, d2).0,
        reads_alike(eval_rule(r, d1).1, d1),
{
    lemma_run_conditions_alike(r.conditions@, 1, r.conditions.len() as nat, d1, d2);
}

} // verus!
