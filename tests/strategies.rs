use decision_engine::datasource::{deserialize_input_node, DecisionDataset};
use decision_engine::deserializers::DefaultDeserializer;
use decision_engine::json::JsonValue;
use decision_engine::modules::{deserialize_module, FailAtMostXModuleStrategy, Module, ModuleChildren, ModuleStrategy, PassAllModuleStrategy, SimpleModule};
use decision_engine::modules::InputNode;
use decision_engine::nodes::{deserialize_node, BinOpNode, ConstantRootNode, EvalNode, NodeResult};
use decision_engine::operations::{BinaryOperation, GreaterThanOrEqualsOperation};
use decision_engine::rules::{Condition, ConditionResult, Rule};
use decision_engine::records::{ApplicationDataV1, ExperianV1_0, MockedExperianV1_0Fetcher};
use decision_engine::results::SubmoduleResult;
use decision_engine::rules::deserialize_rule;
use decision_engine::visitor::{ResultAggregatingVisitor, ResultStack};
use decision_engine::results::ModuleResult;
use decision_engine::{BuildError, DecisionStrategy, EvalError, EvalResult};

fn s(x: &str) -> JsonValue {
    JsonValue::Str(x.to_string())
}

fn obj(pairs: Vec<(&str, JsonValue)>) -> JsonValue {
    JsonValue::Object(pairs.into_iter().map(|(k, v)| (k.to_string(), v)).collect())
}

fn konst(v: JsonValue) -> JsonValue {
    obj(vec![("type", s("constant")), ("value", v)])
}

fn input(path: &str) -> JsonValue {
    obj(vec![("type", s("input")), ("value", s(path))])
}

fn op(name: &str, l: JsonValue, r: JsonValue) -> JsonValue {
    obj(vec![("type", s("op")), ("op", s(name)), ("lvalue", l), ("rvalue", r)])
}

fn ret(v: &str) -> JsonValue {
    obj(vec![("type", s("return")), ("value", s(v))])
}

fn goto(id: &str) -> JsonValue {
    obj(vec![("type", s("goto")), ("value", s(id))])
}

fn condition(id: &str, node: JsonValue, t: JsonValue, f: JsonValue) -> JsonValue {
    obj(vec![("condition_id", s(id)), ("condition", node), ("true", t), ("false", f)])
}

fn rule(id: i64, conditions: Vec<JsonValue>) -> JsonValue {
    obj(vec![
        ("type", s("rule")),
        ("rule_id", JsonValue::Int(id)),
        ("rule_name", s("r")),
        ("conditions", JsonValue::Array(conditions)),
    ])
}

/// A rule that returns `verdict` without reading anything.
fn fixed_rule(id: i64, verdict: &str) -> JsonValue {
    rule(id, vec![condition("1", konst(JsonValue::Bool(true)), ret(verdict), ret(verdict))])
}

/// A rule that reads the version 1.0 bureau score and accepts.
fn score_reading_rule(id: i64) -> JsonValue {
    rule(
        id,
        vec![condition(
            "1",
            op(">=", input("experian_v1_0.score"), konst(JsonValue::Int(0))),
            ret("ACCEPT"),
            ret("ACCEPT"),
        )],
    )
}

fn module(kind: &str, limit: Option<i64>, variables: Vec<JsonValue>, children: Vec<JsonValue>) -> JsonValue {
    let mut pairs = vec![
        ("module_type", s(kind)),
        ("module_name", s("m")),
        ("variables", JsonValue::Array(variables)),
        ("children", JsonValue::Array(children)),
    ];
    if let Some(l) = limit {
        pairs.push(("module_config", obj(vec![("limit", JsonValue::Int(l))])));
    }
    obj(pairs)
}

fn dataset(age: i32, score: i32) -> DecisionDataset {
    DecisionDataset::with_fetchers(
        Some(ApplicationDataV1::new("A".to_string(), "B".to_string(), age)),
        Some(MockedExperianV1_0Fetcher::new(ExperianV1_0 { score })),
        None,
    )
}

fn age_score_rule() -> JsonValue {
    rule(
        7,
        vec![
            condition(
                "1",
                op(">=", input("application_data_v1.age"), konst(JsonValue::Int(18))),
                goto("2"),
                ret("REJECT"),
            ),
            condition(
                "2",
                op(">=", input("experian_v1_0.score"), konst(JsonValue::Int(700))),
                ret("ACCEPT"),
                ret("REJECT"),
            ),
        ],
    )
}

#[test]
fn rule_traversal_underage_rejects_without_condition_two() {
    let r = deserialize_rule(&age_score_rule()).unwrap();
    let mut d = dataset(17, 800);
    assert_eq!(r.eval(&mut d), Ok(EvalResult::Reject));
    assert_eq!(d.experian_v1_0_fetcher.unwrap().calls(), 0);
}

#[test]
fn rule_traversal_low_score_rejects() {
    let r = deserialize_rule(&age_score_rule()).unwrap();
    let mut d = dataset(20, 650);
    assert_eq!(r.eval(&mut d), Ok(EvalResult::Reject));
}

#[test]
fn rule_traversal_good_score_accepts() {
    let r = deserialize_rule(&age_score_rule()).unwrap();
    let mut d = dataset(20, 750);
    assert_eq!(r.eval(&mut d), Ok(EvalResult::Accept));
    assert_eq!(d.experian_v1_0_fetcher.unwrap().calls(), 1);
}

#[test]
fn rule_errors_are_reported() {
    let missing = deserialize_rule(&rule(1, vec![condition("1", konst(JsonValue::Bool(true)), goto("5"), ret("REJECT"))])).unwrap();
    assert_eq!(missing.eval(&mut dataset(1, 1)), Err(EvalError::MissingCondition(5)));
    let numeric = deserialize_rule(&rule(1, vec![condition("1", konst(JsonValue::Int(3)), ret("ACCEPT"), ret("REJECT"))])).unwrap();
    assert_eq!(numeric.eval(&mut dataset(1, 1)), Err(EvalError::NotBoolean(1)));
    let looping = deserialize_rule(&rule(1, vec![condition("1", konst(JsonValue::Bool(true)), goto("1"), ret("REJECT"))])).unwrap();
    assert_eq!(looping.eval(&mut dataset(1, 1)), Err(EvalError::GotoCycle(1)));
}

#[test]
fn pass_all_stops_at_first_reject() {
    let m = deserialize_module(&module(
        "all",
        None,
        vec![],
        vec![fixed_rule(1, "ACCEPT"), fixed_rule(2, "REJECT"), score_reading_rule(3)],
    ))
    .unwrap();
    let mut d = dataset(30, 900);
    assert_eq!(m.eval(&mut d), Ok(EvalResult::Reject));
    assert_eq!(d.experian_v1_0_fetcher.unwrap().calls(), 0);
}

#[test]
fn pass_all_reads_every_child_when_all_accept() {
    let m = deserialize_module(&module("all", None, vec![], vec![fixed_rule(1, "ACCEPT"), score_reading_rule(3)])).unwrap();
    let mut d = dataset(30, 900);
    assert_eq!(m.eval(&mut d), Ok(EvalResult::Accept));
    assert_eq!(d.experian_v1_0_fetcher.unwrap().calls(), 1);
}

#[test]
fn fail_at_most_one_rejects_on_second_reject() {
    let m = deserialize_module(&module(
        "pass_some",
        Some(1),
        vec![],
        vec![fixed_rule(1, "REJECT"), fixed_rule(2, "ACCEPT"), fixed_rule(3, "REJECT")],
    ))
    .unwrap();
    assert_eq!(m.eval(&mut dataset(30, 900)), Ok(EvalResult::Reject));
}

#[test]
fn fail_at_most_one_tolerates_one_reject() {
    let m = deserialize_module(&module(
        "pass_some",
        Some(1),
        vec![],
        vec![fixed_rule(1, "REJECT"), fixed_rule(2, "ACCEPT")],
    ))
    .unwrap();
    assert_eq!(m.eval(&mut dataset(30, 900)), Ok(EvalResult::Accept));
}

#[test]
fn strategies_count_rejects() {
    let results = vec![EvalResult::Reject, EvalResult::Accept, EvalResult::Reject];
    assert!(FailAtMostXModuleStrategy::new(1).reject(&results));
    assert!(!FailAtMostXModuleStrategy::new(2).reject(&results));
    assert!(PassAllModuleStrategy {}.reject(&results));
    assert!(!PassAllModuleStrategy {}.reject(&vec![EvalResult::Accept]));
    assert!(ModuleStrategy::FailAtMostX(FailAtMostXModuleStrategy::new(-1)).reject(&vec![]));
}

fn variable_at_least(name: &str, bound: i32) -> EvalNode {
    EvalNode::BinOp(Box::new(BinOpNode {
        lvalue: EvalNode::Variable(InputNode { variable: name.to_string() }),
        rvalue: EvalNode::Constant(ConstantRootNode { value: NodeResult::Numeric(bound) }),
        operation: BinaryOperation::GreaterThanOrEquals(GreaterThanOrEqualsOperation {}),
    }))
}

#[test]
fn variables_are_published_for_children() {
    let var = obj(vec![
        ("name", s("double_age")),
        ("definition", op("+", input("application_data_v1.age"), input("application_data_v1.age"))),
    ]);
    let mut m = deserialize_module(&module("all", None, vec![var], vec![])).unwrap();
    m.children.push(ModuleChildren::Rule(Rule {
        rule_id: 1,
        rule_name: "adult".to_string(),
        conditions: vec![Condition {
            condition_id: 1,
            node: variable_at_least("double_age", 40),
            if_true: ConditionResult::Accept,
            if_false: ConditionResult::Reject,
        }],
    }));
    assert_eq!(m.eval(&mut dataset(20, 0)), Ok(EvalResult::Accept));
    assert_eq!(m.eval(&mut dataset(19, 0)), Ok(EvalResult::Reject));
}

#[test]
fn missing_variable_is_an_error_value() {
    let node = EvalNode::Variable(InputNode { variable: "nothing".to_string() });
    assert_eq!(
        node.eval(&mut DecisionDataset::get_empty()),
        NodeResult::Error("Variable `nothing` does not exist".to_string())
    );
}

#[test]
fn input_path_without_dot_is_refused() {
    assert_eq!(deserialize_node(&input("age")).err(), Some(BuildError::UnknownInput));
    assert_eq!(deserialize_input_node("").err(), Some(BuildError::UnknownInput));
    assert_eq!(deserialize_input_node("credit.score").err(), Some(BuildError::UnknownInput));
}

#[test]
fn unconfigured_record_is_an_error_value() {
    let (node, _) = deserialize_input_node("experian_v1_0.score").unwrap();
    assert_eq!(
        node.eval(&mut DecisionDataset::get_empty()),
        NodeResult::Error("`experian_v1_0` not configured".to_string())
    );
}

#[test]
fn constant_operations_are_folded() {
    let (node, constant) = deserialize_node(&op("+", konst(JsonValue::Int(2)), konst(JsonValue::Int(3)))).unwrap();
    assert!(constant);
    assert!(matches!(&node, EvalNode::Constant(c) if c.value == NodeResult::Numeric(5)));
    let (nested, nested_constant) = deserialize_node(&op(
        "pow",
        op("+", konst(JsonValue::Int(1)), konst(JsonValue::Int(1))),
        konst(JsonValue::Int(3)),
    ))
    .unwrap();
    assert!(nested_constant);
    assert!(matches!(&nested, EvalNode::Constant(c) if c.value == NodeResult::Numeric(8)));
}

#[test]
fn folded_and_live_nodes_agree() {
    let folded = deserialize_node(&op("==", konst(JsonValue::Int(20)), konst(JsonValue::Int(20)))).unwrap();
    let live = deserialize_node(&op("==", input("application_data_v1.age"), konst(JsonValue::Int(20)))).unwrap();
    assert!(folded.1);
    assert!(!live.1);
    assert!(matches!(&live.0, EvalNode::BinOp(_)));
    let mut d = dataset(20, 0);
    assert_eq!(folded.0.eval(&mut d), live.0.eval(&mut d));
}

#[test]
fn constant_arrays_are_read() {
    let (node, _) = deserialize_node(&konst(JsonValue::Array(vec![JsonValue::Int(1), s("x"), JsonValue::Bool(false)]))).unwrap();
    assert_eq!(
        node.eval(&mut DecisionDataset::get_empty()),
        NodeResult::Array(vec![NodeResult::Numeric(1), NodeResult::Text("x".to_string()), NodeResult::Boolean(false)])
    );
}

#[test]
fn build_errors_are_reported() {
    assert_eq!(deserialize_node(&op("%", konst(JsonValue::Int(1)), konst(JsonValue::Int(1)))).err(), Some(BuildError::UnknownOperation));
    assert_eq!(deserialize_node(&obj(vec![("type", s("mystery"))])).err(), Some(BuildError::UnknownNodeType));
    assert_eq!(deserialize_node(&konst(JsonValue::Null)).err(), Some(BuildError::UnsupportedConstant));
    assert_eq!(deserialize_node(&konst(JsonValue::Int(1 << 40))).err(), Some(BuildError::UnsupportedConstant));
    assert_eq!(deserialize_node(&input("experian_v1_0.debt")).err(), Some(BuildError::UnknownInput));
    assert_eq!(deserialize_node(&obj(vec![])).err(), Some(BuildError::Malformed));
    assert_eq!(
        deserialize_rule(&rule(1, vec![condition("x", konst(JsonValue::Bool(true)), ret("ACCEPT"), ret("REJECT"))])).err(),
        Some(BuildError::BadConditionId)
    );
    assert_eq!(
        deserialize_rule(&rule(1, vec![condition("1", konst(JsonValue::Bool(true)), ret("MAYBE"), ret("REJECT"))])).err(),
        Some(BuildError::UnknownDecision)
    );
    assert_eq!(
        deserialize_rule(&rule(1, vec![condition("2", konst(JsonValue::Bool(true)), ret("ACCEPT"), ret("REJECT"))])).err(),
        Some(BuildError::MissingEntryCondition)
    );
    let twice = condition("1", konst(JsonValue::Bool(true)), ret("ACCEPT"), ret("REJECT"));
    let again = condition("1", konst(JsonValue::Bool(true)), ret("ACCEPT"), ret("REJECT"));
    assert_eq!(deserialize_rule(&rule(1, vec![twice, again])).err(), Some(BuildError::DuplicateCondition));
    assert_eq!(deserialize_module(&module("some", None, vec![], vec![])).err(), Some(BuildError::UnknownModuleType));
    assert_eq!(deserialize_module(&module("pass_some", None, vec![], vec![])).err(), Some(BuildError::Malformed));
}

#[test]
fn single_rule_module_audit_tree() {
    let m = deserialize_module(&module("all", None, vec![], vec![age_score_rule()])).unwrap();
    let root = SubmoduleResult::ModuleResult(ModuleResult {
        result: EvalResult::Accept,
        module_id: "root".to_string(),
        submodule_results: Vec::new(),
    });
    let mut visitor = ResultAggregatingVisitor::new(ResultStack::new(root), dataset(20, 650));
    assert_eq!(m.accept(&mut visitor), Ok(()));
    match visitor.stack.get_result() {
        SubmoduleResult::ModuleResult(root) => {
            assert_eq!(root.submodule_results.len(), 1);
            match &root.submodule_results[0] {
                SubmoduleResult::ModuleResult(inner) => {
                    assert_eq!(inner.module_id, "m");
                    assert_eq!(inner.result, EvalResult::Reject);
                    assert_eq!(inner.submodule_results.len(), 1);
                    match &inner.submodule_results[0] {
                        SubmoduleResult::RuleResult(r) => {
                            assert_eq!(r.rule_id, 7);
                            assert_eq!(r.result, EvalResult::Reject);
                        }
                        _ => panic!("expected a rule entry"),
                    }
                }
                _ => panic!("expected a module entry"),
            }
        }
        _ => panic!("expected a module frame"),
    }
}

#[test]
fn audit_visits_past_short_circuit() {
    let m = deserialize_module(&module(
        "all",
        None,
        vec![],
        vec![fixed_rule(1, "REJECT"), fixed_rule(2, "ACCEPT")],
    ))
    .unwrap();
    let root = SubmoduleResult::ModuleResult(ModuleResult {
        result: EvalResult::Reject,
        module_id: "root".to_string(),
        submodule_results: Vec::new(),
    });
    let mut visitor = ResultAggregatingVisitor::new(ResultStack::new(root), dataset(20, 650));
    assert_eq!(m.accept(&mut visitor), Ok(()));
    match visitor.stack.get_result() {
        SubmoduleResult::ModuleResult(root) => match &root.submodule_results[0] {
            SubmoduleResult::ModuleResult(inner) => {
                assert_eq!(inner.result, EvalResult::Reject);
                assert_eq!(inner.submodule_results.len(), 2);
            }
            _ => panic!("expected a module entry"),
        },
        _ => panic!("expected a module frame"),
    }
}

#[test]
fn default_deserializer_builds_pass_all_modules() {
    let doc = obj(vec![
        ("module_type", s("all")),
        ("module_name", s("outer")),
        (
            "children",
            JsonValue::Array(vec![
                fixed_rule(1, "ACCEPT"),
                obj(vec![
                    ("type", s("module")),
                    ("module_type", s("all")),
                    ("module_name", s("inner")),
                    ("children", JsonValue::Array(vec![fixed_rule(2, "REJECT")])),
                ]),
            ]),
        ),
    ]);
    let m = DefaultDeserializer {}.deserialize_module(&doc).unwrap();
    assert_eq!(m.module_name(), "outer");
    assert_eq!(m.children.len(), 2);
    assert!(matches!(&m.children[1], ModuleChildren::PassAllModule(_)));
    assert_eq!(m.eval(&mut dataset(1, 1)), Ok(EvalResult::Reject));
}

#[test]
fn decision_strategy_builds_its_module() {
    let ds = DecisionStrategy::new(4, module("all", None, vec![], vec![fixed_rule(1, "ACCEPT")]));
    assert_eq!(ds.decision_strategy_id(), 4);
    let m: SimpleModule = ds.get_module().unwrap();
    assert_eq!(m.eval(&mut dataset(1, 1)), Ok(EvalResult::Accept));
}
