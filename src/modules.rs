//! Modules: composites of rules and other modules, with the variables they
//! publish and the strategy that turns their children's verdicts into one.
use vstd::prelude::*;
use crate::datasource::{DecisionDataset, DatasetModel, lookup_variable, publish_variable};
use crate::json::{JsonValue, key_index, member, member_str, text_is, lemma_key_index_range};
use crate::nodes::{EvalNode, Expr, NodeResult, NodeValue, eval_expr, fold_expr, parse_expr, deserialize_node};
use crate::operations::fits_i32;
use crate::rules::{Rule, RuleModel, eval_rule, parse_rule, deserialize_rule};
use crate::{BuildError, EvalError, EvalResult};

verus! {

/// What a reference to the variable `name` reads.
pub open spec fn read_variable(name: Seq<char>, d: DatasetModel) -> NodeValue {
    match lookup_variable(d, name) {
        Some(v) => v,
        None => NodeValue::Error("Variable `"@ + name + "` does not exist"@),
    }
}

/// A node that reads a variable published by an enclosing module.
pub struct InputNode {
    pub variable: String,
}

impl InputNode {
    pub fn eval(&self, input: &DecisionDataset) -> (r: NodeResult)
        ensures
            r@ == read_variable(self.variable@, input@),
    {
        match input.get_variable(&self.variable) {
            Some(v) => v,
            None => {
                let mut msg = String::from_str("Variable `");
                msg.append(self.variable.as_str());
                msg.append("` does not exist");
                NodeResult::Error(msg)
            },
        }
    }
}

/// The number of rejects among some verdicts.
pub open spec fn reject_count(results: Seq<EvalResult>) -> nat
    decreases results.len(),
{
    if results.len() == 0 {
        0
    } else {
        reject_count(results.drop_last()) + if results.last() == EvalResult::Reject {
            1nat
        } else {
            0nat
        }
    }
}

/// The strategy that rejects as soon as one child rejects.
#[derive(PartialEq, Eq, Structural, Clone, Copy, Debug)]
pub struct PassAllModuleStrategy {}

/// The strategy that tolerates up to `limit` rejecting children.
#[derive(PartialEq, Eq, Structural, Clone, Copy, Debug)]
pub struct FailAtMostXModuleStrategy {
    pub limit: i32,
}

/// Counts the rejects among `results`.
fn count_rejects(results: &Vec<EvalResult>) -> (r: usize)
    ensures
        r == reject_count(results@),
{
    let mut count: usize = 0;
    let mut i: usize = 0;
    while i < results.len()
        invariant
            i <= results.len(),
            count <= i,
            count == reject_count(results@.subrange(0, i as int)),
        decreases results.len() - i,
    {
        assert(results@.subrange(0, i + 1).drop_last() =~= results@.subrange(0, i as int));
        if results[i] == EvalResult::Reject {
            count = count + 1;
        }
        i = i + 1;
    }
    assert(results@.subrange(0, results.len() as int) =~= results@);
    count
}

impl PassAllModuleStrategy {
    pub fn reject(&self, results: &Vec<EvalResult>) -> (r: bool)
        ensures
            r == (reject_count(results@) > 0),
    {
        count_rejects(results) > 0
    }
}

impl FailAtMostXModuleStrategy {
    pub fn new(limit: i32) -> (r: Self)
        ensures
            r.limit == limit,
    {
        Self { limit }
    }

    pub fn reject(&self, results: &Vec<EvalResult>) -> (r: bool)
        ensures
            r == (reject_count(results@) > self.limit),
    {
        let n = count_rejects(results);
        if self.limit < 0 {
            true
        } else {
            n > self.limit as usize
        }
    }
}

/// How a module turns the verdicts of its children into its own.
#[derive(PartialEq, Eq, Structural, Clone, Copy, Debug)]
pub enum ModuleStrategy {
    PassAll(PassAllModuleStrategy),
    FailAtMostX(FailAtMostXModuleStrategy),
}

/// Whether a module rejects, given the verdicts of its children so far.
pub open spec fn strategy_rejects(strategy: ModuleStrategy, results: Seq<EvalResult>) -> bool {
    match strategy {
        ModuleStrategy::PassAll(_) => reject_count(results) > 0,
        ModuleStrategy::FailAtMostX(s) => reject_count(results) > s.limit,
    }
}

impl ModuleStrategy {
    pub fn reject(&self, results: &Vec<EvalResult>) -> (r: bool)
        ensures
            r == strategy_rejects(*self, results@),
    {
        match self {
            ModuleStrategy::PassAll(s) => s.reject(results),
            ModuleStrategy::FailAtMostX(s) => s.reject(results),
        }
    }
}

/// A named expression that a module evaluates once, before its children,
/// and publishes for them.
pub struct Variable {
    pub name: String,
    pub definition: EvalNode,
}

impl Variable {
    /// A reference to the variable named by the first part of a path.
    pub fn parse_node(parts: &Vec<&str>) -> (r: InputNode)
        requires
            parts.len() > 0,
        ensures
            r.variable@ == parts[0]@,
    {
        InputNode { variable: String::from_str(parts[0]) }
    }
}

/// The dataset after the variables from index `i` on are evaluated and
/// published, in order.
pub open spec fn publish_from(vars: Seq<Variable>, i: int, d: DatasetModel) -> DatasetModel
    decreases vars.len() - i,
{
    if i < 0 || i >= vars.len() {
        d
    } else {
        let (v, d1) = eval_expr(vars[i].definition@, d);
        publish_from(vars, i + 1, publish_variable(d1, vars[i].name@, v))
    }
}

/// A composite of rules and modules, known by its name.
pub trait Module {
    spec fn name(&self) -> Seq<char>;

    fn module_name(&self) -> (r: String)
        ensures
            r@ == self.name(),
    ;
}

impl Module for SimpleModule {
    open spec fn name(&self) -> Seq<char> {
        self.module_name@
    }

    fn module_name(&self) -> (r: String) {
        self.module_name.clone()
    }
}

impl Module for PassAllModule {
    open spec fn name(&self) -> Seq<char> {
        self.module_name@
    }

    fn module_name(&self) -> (r: String) {
        self.module_name.clone()
    }
}

/// A child of a module.
pub enum ModuleChildren {
    SimpleModule(SimpleModule),
    PassAllModule(PassAllModule),
    Rule(Rule),
}

/// A module that rejects as soon as one child rejects, with no variables.
pub struct PassAllModule {
    pub module_name: String,
    pub children: Vec<ModuleChildren>,
}

/// A module with variables, children and an accept strategy.
pub struct SimpleModule {
    pub module_name: String,
    pub children: Vec<ModuleChildren>,
    pub accept_strategy: ModuleStrategy,
    pub variables: Vec<Variable>,
}

pub open spec fn pass_all() -> ModuleStrategy {
    ModuleStrategy::PassAll(PassAllModuleStrategy {})
}

/// The verdict of a child, and the dataset after it.
pub open spec fn eval_child(c: ModuleChildren, d: DatasetModel) -> (Result<EvalResult, EvalError>, DatasetModel)
    decreases c,
{
    match c {
        ModuleChildren::Rule(r) => eval_rule(r, d),
        ModuleChildren::SimpleModule(m) => eval_simple(m, d),
        ModuleChildren::PassAllModule(m) => run_children(m.children, pass_all(), 0, seq![], d),
    }
}

/// The verdict of a module: its variables are published, then its children
/// are evaluated in order until the strategy rejects.
pub open spec fn eval_simple(m: SimpleModule, d: DatasetModel) -> (Result<EvalResult, EvalError>, DatasetModel)
    decreases m,
{
    run_children(m.children, m.accept_strategy, 0, seq![], publish_from(m.variables@, 0, d))
}

/// Evaluates the children from index `i` on, given the verdicts of those
/// before it: a reject of the strategy stops the module at once.
pub open spec fn run_children(
    children: Vec<ModuleChildren>,
    strategy: ModuleStrategy,
    i: int,
    results: Seq<EvalResult>,
    d: DatasetModel,
) -> (Result<EvalResult, EvalError>, DatasetModel)
    decreases children, children.len() - i,
{
    if i < 0 || i >= children.len() {
        (Ok(EvalResult::Accept), d)
    } else {
        let (r, d1) = eval_child(children[i], d);
        match r {
            Err(e) => (Err(e), d1),
            Ok(v) => if strategy_rejects(strategy, results.push(v)) {
                (Ok(EvalResult::Reject), d1)
            } else {
                run_children(children, strategy, i + 1, results.push(v), d1)
            },
        }
    }
}

/// Evaluates the variables in order and publishes each value.
fn publish_variables(variables: &Vec<Variable>, input: &mut DecisionDataset)
    ensures
        final(input)@ == publish_from(variables@, 0, old(input)@),
{
    let mut i: usize = 0;
    while i < variables.len()
        invariant
            i <= variables.len(),
            publish_from(variables@, i as int, input@) == publish_from(variables@, 0, old(input)@),
        decreases variables.len() - i,
    {
        let variable = &variables[i];
        let k = variable.definition.eval(input);
        input.set_variable(variable.name.clone(), k);
        i = i + 1;
    }
}

/// Evaluates children in order until the strategy rejects.
fn eval_children(
    children: &Vec<ModuleChildren>,
    strategy: &ModuleStrategy,
    input: &mut DecisionDataset,
) -> (r: Result<EvalResult, EvalError>)
    ensures
        (r, final(input)@) == run_children(*children, *strategy, 0, seq![], old(input)@),
    decreases children,
{
    let mut child_results: Vec<EvalResult> = Vec::new();
    let mut i: usize = 0;
    while i < children.len()
        invariant
            i <= children.len(),
            child_results@.len() == i,
            run_children(*children, *strategy, i as int, child_results@, input@) == run_children(
                *children,
                *strategy,
                0,
                seq![],
                old(input)@,
            ),
        decreases children.len() - i,
    {
        proof {
            assert(decreases_to!(*children => children[i as int]));
        }
        let result = match children[i].eval(input) {
            Ok(v) => v,
            Err(e) => {
                return Err(e);
            },
        };
        child_results.push(result);
        if strategy.reject(&child_results) {
            return Ok(EvalResult::Reject);
        }
        i = i + 1;
    }
    Ok(EvalResult::Accept)
}

impl ModuleChildren {
    pub fn eval(&self, input: &mut DecisionDataset) -> (r: Result<EvalResult, EvalError>)
        ensures
            (r, final(input)@) == eval_child(*self, old(input)@),
        decreases self,
    {
        match self {
            ModuleChildren::Rule(rule) => rule.eval(input),
            ModuleChildren::SimpleModule(module) => module.eval(input),
            ModuleChildren::PassAllModule(module) => module.eval(input),
        }
    }
}

impl SimpleModule {
    pub fn new(
        module_name: String,
        children: Vec<ModuleChildren>,
        accept_strategy: ModuleStrategy,
        variables: Vec<Variable>,
    ) -> (r: Self)
        ensures
            r == (SimpleModule { module_name, children, accept_strategy, variables }),
    {
        Self { module_name, children, accept_strategy, variables }
    }

    pub fn eval(&self, input: &mut DecisionDataset) -> (r: Result<EvalResult, EvalError>)
        ensures
            (r, final(input)@) == eval_simple(*self, old(input)@),
        decreases self,
    {
        publish_variables(&self.variables, input);
        eval_children(&self.children, &self.accept_strategy, input)
    }
}

impl PassAllModule {
    pub fn new(module_name: String, children: Vec<ModuleChildren>) -> (r: Self)
        ensures
            r == (PassAllModule { module_name, children }),
    {
        Self { module_name, children }
    }

    pub fn eval(&self, input: &mut DecisionDataset) -> (r: Result<EvalResult, EvalError>)
        ensures
            (r, final(input)@) == run_children(self.children, pass_all(), 0, seq![], old(input)@),
        decreases self,
    {
        eval_children(&self.children, &ModuleStrategy::PassAll(PassAllModuleStrategy {}), input)
    }
}

/// A module or rule as plain values.
pub ghost enum ModuleModel {
    Simple {
        name: Seq<char>,
        strategy: ModuleStrategy,
        variables: Seq<(Seq<char>, Expr)>,
        children: Seq<ModuleModel>,
    },
    PassAll { name: Seq<char>, children: Seq<ModuleModel> },
    Rule(RuleModel),
}

/// The models of the first `n` children.
pub open spec fn child_models_upto(v: &Vec<ModuleChildren>, n: int) -> Seq<ModuleModel>
    decreases v, n,
{
    if 0 < n <= v.len() {
        child_models_upto(v, n - 1).push(v[n - 1].model())
    } else {
        Seq::empty()
    }
}

pub open spec fn variable_models(vars: Seq<Variable>) -> Seq<(Seq<char>, Expr)> {
    vars.map_values(|v: Variable| (v.name@, v.definition@))
}

impl ModuleChildren {
    pub open spec fn model(&self) -> ModuleModel
        decreases self,
    {
        match self {
            ModuleChildren::Rule(r) => ModuleModel::Rule(r.model()),
            ModuleChildren::SimpleModule(m) => ModuleModel::Simple {
                name: m.module_name@,
                strategy: m.accept_strategy,
                variables: variable_models(m.variables@),
                children: child_models_upto(&m.children, m.children.len() as int),
            },
            ModuleChildren::PassAllModule(m) => ModuleModel::PassAll {
                name: m.module_name@,
                children: child_models_upto(&m.children, m.children.len() as int),
            },
        }
    }
}

impl SimpleModule {
    pub open spec fn model(&self) -> ModuleModel {
        ModuleModel::Simple {
            name: self.module_name@,
            strategy: self.accept_strategy,
            variables: variable_models(self.variables@),
            children: child_models_upto(&self.children, self.children.len() as int),
        }
    }
}

pub proof fn lemma_child_models_push(v: &Vec<ModuleChildren>, w: &Vec<ModuleChildren>, n: int)
    requires
        0 <= n <= v.len(),
        w@ == v@.push(w@.last()),
    ensures
        child_models_upto(w, n) == child_models_upto(v, n),
    decreases n,
{
    if n > 0 {
        lemma_child_models_push(v, w, n - 1);
        assert(w[n - 1] == v[n - 1]);
    }
}

/// The variable a strategy document describes: its name, then its folded
/// definition.
pub open spec fn parse_variable(j: JsonValue) -> Result<(Seq<char>, Expr), BuildError> {
    match member_str(j, "name"@) {
        None => Err(BuildError::Malformed),
        Some(name) => match member(j, "definition"@) {
            None => Err(BuildError::Malformed),
            Some(dj) => match parse_expr(dj) {
                Err(e) => Err(e),
                Ok(x) => Ok((name, fold_expr(x))),
            },
        },
    }
}

/// The variables of the first `n` entries of an array; the first that
/// fails gives the error.
pub open spec fn parse_variables(items: Seq<JsonValue>, n: int) -> Result<Seq<(Seq<char>, Expr)>, BuildError>
    decreases n,
{
    if 0 < n <= items.len() {
        match parse_variables(items, n - 1) {
            Err(e) => Err(e),
            Ok(vs) => match parse_variable(items[n - 1]) {
                Ok(x) => Ok(vs.push(x)),
                Err(e) => Err(e),
            },
        }
    } else {
        Ok(seq![])
    }
}

/// The accept strategy a module of a strategy document names.
pub open spec fn parse_strategy(j: JsonValue) -> Result<ModuleStrategy, BuildError> {
    match member_str(j, "module_type"@) {
        None => Err(BuildError::Malformed),
        Some(t) => if t == "all"@ {
            Ok(ModuleStrategy::PassAll(PassAllModuleStrategy {}))
        } else if t == "pass_some"@ {
            match member(j, "module_config"@) {
                Some(cfg) => match member(cfg, "limit"@) {
                    Some(JsonValue::Int(l)) => if fits_i32(l as int) {
                        Ok(ModuleStrategy::FailAtMostX(FailAtMostXModuleStrategy { limit: l as i32 }))
                    } else {
                        Err(BuildError::Malformed)
                    },
                    _ => Err(BuildError::Malformed),
                },
                None => Err(BuildError::Malformed),
            }
        } else {
            Err(BuildError::UnknownModuleType)
        },
    }
}

/// A module of a strategy document once its children are read: then its
/// variables, its type and its name.
pub open spec fn module_with_children(j: JsonValue, children: Seq<ModuleModel>) -> Result<ModuleModel, BuildError> {
    match member(j, "variables"@) {
        Some(JsonValue::Array(vs)) => match parse_variables(vs@, vs.len() as int) {
            Err(e) => Err(e),
            Ok(variables) => match parse_strategy(j) {
                Err(e) => Err(e),
                Ok(strategy) => match member_str(j, "module_name"@) {
                    None => Err(BuildError::Malformed),
                    Some(name) => Ok(ModuleModel::Simple { name, strategy, variables, children }),
                },
            },
        },
        _ => Err(BuildError::Malformed),
    }
}

/// The module a strategy document describes: its children first.
pub open spec fn parse_module(j: JsonValue) -> Result<ModuleModel, BuildError>
    decreases j, 0int,
{
    match j {
        JsonValue::Object(entries) => {
            let k = key_index(entries@, "children"@);
            if 0 <= k < entries.len() {
                match entries[k].1 {
                    JsonValue::Array(items) => match parse_children(&items, items.len() as int) {
                        Err(e) => Err(e),
                        Ok(cs) => module_with_children(j, cs),
                    },
                    _ => Err(BuildError::Malformed),
                }
            } else {
                Err(BuildError::Malformed)
            }
        },
        _ => Err(BuildError::Malformed),
    }
}

/// A child of a module: a rule when its type says so, else a module.
pub open spec fn parse_child(j: JsonValue) -> Result<ModuleModel, BuildError>
    decreases j, 1int,
{
    match member_str(j, "type"@) {
        None => Err(BuildError::Malformed),
        Some(t) => if t == "rule"@ {
            match parse_rule(j) {
                Ok(r) => Ok(ModuleModel::Rule(r)),
                Err(e) => Err(e),
            }
        } else {
            parse_module(j)
        },
    }
}

/// The children of the first `n` entries of an array; the first that fails
/// gives the error.
pub open spec fn parse_children(items: &Vec<JsonValue>, n: int) -> Result<Seq<ModuleModel>, BuildError>
    decreases items, n,
{
    if 0 < n <= items.len() {
        match parse_children(items, n - 1) {
            Err(e) => Err(e),
            Ok(cs) => match parse_child(items[n - 1]) {
                Ok(c) => Ok(cs.push(c)),
                Err(e) => Err(e),
            },
        }
    } else {
        Ok(seq![])
    }
}

proof fn lemma_children_err(items: &Vec<JsonValue>, k: int, n: int)
    requires
        0 < k <= n <= items.len(),
        parse_children(items, k) is Err,
    ensures
        parse_children(items, n) == parse_children(items, k),
    decreases n - k,
{
    if n > k {
        lemma_children_err(items, k, n - 1);
    }
}

proof fn lemma_variables_err(items: Seq<JsonValue>, k: int, n: int)
    requires
        0 < k <= n <= items.len(),
        parse_variables(items, k) is Err,
    ensures
        parse_variables(items, n) == parse_variables(items, k),
    decreases n - k,
{
    if n > k {
        lemma_variables_err(items, k, n - 1);
    }
}

impl Variable {
    pub fn deserialize(value: &JsonValue) -> (r: Result<Self, BuildError>)
        ensures
            match parse_variable(*value) {
                Ok(m) => r is Ok && (r->Ok_0.name@, r->Ok_0.definition@) == m,
                Err(e) => r is Err && r->Err_0 == e,
            },
    {
        let name = match value.get_str("name") {
            Some(n) => n.clone(),
            None => {
                return Err(BuildError::Malformed);
            },
        };
        let definition = match value.get("definition") {
            Some(d) => match deserialize_node(d) {
                Ok((node, _)) => node,
                Err(e) => {
                    return Err(e);
                },
            },
            None => {
                return Err(BuildError::Malformed);
            },
        };
        Ok(Variable { name, definition })
    }
}

fn deserialize_variables(items: &Vec<JsonValue>) -> (r: Result<Vec<Variable>, BuildError>)
    ensures
        match parse_variables(items@, items.len() as int) {
            Ok(m) => r is Ok && variable_models(r->Ok_0@) == m,
            Err(e) => r is Err && r->Err_0 == e,
        },
{
    let mut variables: Vec<Variable> = Vec::new();
    assert(variable_models(variables@) =~= seq![]);
    let mut i: usize = 0;
    while i < items.len()
        invariant
            i <= items.len(),
            variables.len() == i,
            parse_variables(items@, i as int) == Ok::<Seq<(Seq<char>, Expr)>, BuildError>(
                variable_models(variables@),
            ),
        decreases items.len() - i,
    {
        let x = match Variable::deserialize(&items[i]) {
            Ok(x) => x,
            Err(e) => {
                proof {
                    lemma_variables_err(items@, i as int + 1, items.len() as int);
                }
                return Err(e);
            },
        };
        let ghost before = variable_models(variables@);
        variables.push(x);
        assert(variable_models(variables@) =~= before.push((x.name@, x.definition@)));
        i = i + 1;
    }
    Ok(variables)
}

fn deserialize_strategy(value: &JsonValue) -> (r: Result<ModuleStrategy, BuildError>)
    ensures
        r == parse_strategy(*value),
{
    let module_type = match value.get_str("module_type") {
        Some(t) => t,
        None => {
            return Err(BuildError::Malformed);
        },
    };
    if text_is(module_type, "all") {
        Ok(ModuleStrategy::PassAll(PassAllModuleStrategy {}))
    } else if text_is(module_type, "pass_some") {
        match value.get("module_config") {
            Some(cfg) => match cfg.get("limit") {
                Some(JsonValue::Int(l)) => if *l >= i32::MIN as i64 && *l <= i32::MAX as i64 {
                    Ok(ModuleStrategy::FailAtMostX(FailAtMostXModuleStrategy::new(*l as i32)))
                } else {
                    Err(BuildError::Malformed)
                },
                _ => Err(BuildError::Malformed),
            },
            None => Err(BuildError::Malformed),
        }
    } else {
        Err(BuildError::UnknownModuleType)
    }
}

/// Builds a child of a module: a rule when its type says so, else a module.
pub fn deserialize_module_children(value: &JsonValue) -> (r: Result<ModuleChildren, BuildError>)
    ensures
        match parse_child(*value) {
            Ok(m) => r is Ok && r->Ok_0.model() == m,
            Err(e) => r is Err && r->Err_0 == e,
        },
    decreases value, 1int,
{
    let child_type = match value.get_str("type") {
        Some(t) => t,
        None => {
            return Err(BuildError::Malformed);
        },
    };
    if text_is(child_type, "rule") {
        match deserialize_rule(value) {
            Ok(r) => Ok(ModuleChildren::Rule(r)),
            Err(e) => Err(e),
        }
    } else {
        match deserialize_module(value) {
            Ok(m) => Ok(ModuleChildren::SimpleModule(m)),
            Err(e) => Err(e),
        }
    }
}

/// Builds a module of a strategy document.
pub fn deserialize_module(value: &JsonValue) -> (r: Result<SimpleModule, BuildError>)
    ensures
        match parse_module(*value) {
            Ok(m) => r is Ok && r->Ok_0.model() == m,
            Err(e) => r is Err && r->Err_0 == e,
        },
    decreases value, 0int,
{
    let entries = match value {
        JsonValue::Object(entries) => entries,
        _ => {
            return Err(BuildError::Malformed);
        },
    };
    proof {
        lemma_key_index_range(entries@, "children"@, 0);
    }
    let items = match value.get("children") {
        Some(JsonValue::Array(items)) => items,
        _ => {
            return Err(BuildError::Malformed);
        },
    };
    let ghost k = key_index(entries@, "children"@);
    assert(entries[k].1 == JsonValue::Array(*items));
    let mut children: Vec<ModuleChildren> = Vec::new();
    let mut i: usize = 0;
    while i < items.len()
        invariant
            *value == JsonValue::Object(*entries),
            k == key_index(entries@, "children"@),
            0 <= k < entries.len(),
            entries[k].1 == JsonValue::Array(*items),
            i <= items.len(),
            children.len() == i,
            parse_children(items, i as int) == Ok::<Seq<ModuleModel>, BuildError>(
                child_models_upto(&children, i as int),
            ),
        decreases items.len() - i,
    {
        proof {
            assert(decreases_to!(*value => value->Object_0));
            assert(decreases_to!(*entries => entries[k]));
            assert(decreases_to!(entries[k] => entries[k].1));
            assert(decreases_to!(entries[k].1 => entries[k].1->Array_0));
            assert(decreases_to!(*items => items[i as int]));
        }
        let c = match deserialize_module_children(&items[i]) {
            Ok(c) => c,
            Err(e) => {
                proof {
                    lemma_children_err(items, i as int + 1, items.len() as int);
                }
                return Err(e);
            },
        };
        let ghost before = children;
        children.push(c);
        proof {
            lemma_child_models_push(&before, &children, i as int);
        }
        i = i + 1;
    }
    let ghost cs = child_models_upto(&children, children.len() as int);
    assert(parse_module(*value) == module_with_children(*value, cs));
    let variables = match value.get("variables") {
        Some(JsonValue::Array(vs)) => deserialize_variables(vs)?,
        _ => {
            return Err(BuildError::Malformed);
        },
    };
    let accept_strategy = deserialize_strategy(value)?;
    let module_name = match value.get_str("module_name") {
        Some(name) => name.clone(),
        None => {
            return Err(BuildError::Malformed);
        },
    };
    Ok(SimpleModule::new(module_name, children, accept_strategy, variables))
}

/// Under the pass-all strategy a module stops at its first rejecting child:
/// when the children before index `i` all accepted and child `i` rejects,
/// the module rejects and the dataset is the one child `i` left, so no later
/// child is evaluated.
pub proof fn lemma_pass_all_short_circuit(
    children: Vec<ModuleChildren>,
    i: int,
    results: Seq<EvalResult>,
    d: DatasetModel,
)
    requires
        0 <= i < children.len(),
        reject_count(results) == 0,
        eval_child(children[i], d).0 == Ok::<EvalResult, EvalError>(EvalResult::Reject),
    ensures
        run_children(children, pass_all(), i, results, d) == (
            Ok::<EvalResult, EvalError>(EvalResult::Reject),
            eval_child(children[i], d).1,
        ),
{
    let rs = results.push(EvalResult::Reject);
    assert(rs.drop_last() =~= results);
    assert(reject_count(rs) == 1);
}

} // verus!
