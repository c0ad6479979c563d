use decision_engine::nodes::NodeResult;
use decision_engine::operations::{
    regex_outcome, AdditionOperation, AndOperation, ArrayContainsOperation, BinaryOperation,
    EqualsOperation, GreaterThanOrEqualsOperation, LessThanOrEqualsOperation, PowerOperation,
    RegexContainsOperation,
};

fn text(s: &str) -> NodeResult {
    NodeResult::Text(s.to_string())
}

fn error_text(s: &str) -> NodeResult {
    NodeResult::Error(s.to_string())
}

#[test]
fn array_contains_finds_member() {
    let arr = NodeResult::Array(vec![
        NodeResult::Numeric(1),
        NodeResult::Numeric(2),
        NodeResult::Numeric(3),
    ]);
    let op = ArrayContainsOperation {};
    assert_eq!(op.apply(arr, NodeResult::Numeric(2)), NodeResult::Boolean(true));
}

#[test]
fn array_contains_misses_absent_value() {
    let arr = NodeResult::Array(vec![NodeResult::Numeric(1), NodeResult::Numeric(3)]);
    let op = ArrayContainsOperation {};
    assert_eq!(op.apply(arr, NodeResult::Numeric(2)), NodeResult::Boolean(false));
}

#[test]
fn array_contains_compares_structurally() {
    let inner = || NodeResult::Array(vec![text("a"), NodeResult::Boolean(true)]);
    let arr = NodeResult::Array(vec![NodeResult::Numeric(1), inner()]);
    let op = ArrayContainsOperation {};
    assert_eq!(op.apply(arr, inner()), NodeResult::Boolean(true));
}

#[test]
fn array_contains_rejects_non_array() {
    let op = ArrayContainsOperation {};
    assert_eq!(
        op.apply(NodeResult::Numeric(1), NodeResult::Numeric(1)),
        error_text("lvalue of array_contains operation is not an array.")
    );
}

#[test]
fn regex_contains_matches_pattern() {
    let op = RegexContainsOperation {};
    assert_eq!(
        op.apply(text("hello123"), text("^[a-z]+\\d+$")),
        NodeResult::Boolean(true)
    );
}

#[test]
fn regex_contains_reports_no_match() {
    let op = RegexContainsOperation {};
    assert_eq!(op.apply(text("hello"), text("^\\d+$")), NodeResult::Boolean(false));
}

#[test]
fn regex_contains_malformed_pattern_is_error_value() {
    let op = RegexContainsOperation {};
    assert_eq!(
        op.apply(text("hello"), text("(")),
        error_text("Invalid regular expression (")
    );
}

#[test]
fn regex_contains_rejects_non_text_operands() {
    let op = RegexContainsOperation {};
    assert_eq!(
        op.apply(NodeResult::Numeric(1), text("a")),
        error_text("lvalue of regex_contains operation is not a string.")
    );
    assert_eq!(
        op.apply(text("a"), NodeResult::Numeric(1)),
        error_text("rvalue of regex_contains operation is not a string.")
    );
}

#[test]
fn regex_outcome_maps_search_result() {
    let p = "a+".to_string();
    assert_eq!(regex_outcome(&p, Some(true)), NodeResult::Boolean(true));
    assert_eq!(regex_outcome(&p, Some(false)), NodeResult::Boolean(false));
    assert_eq!(regex_outcome(&p, None), error_text("Invalid regular expression a+"));
}

#[test]
fn addition_adds_and_checks_overflow() {
    let op = AdditionOperation {};
    assert_eq!(
        op.apply(NodeResult::Numeric(2), NodeResult::Numeric(40)),
        NodeResult::Numeric(42)
    );
    assert_eq!(
        op.apply(NodeResult::Numeric(i32::MAX), NodeResult::Numeric(1)),
        error_text("Integer overflow during addition operation.")
    );
    assert_eq!(
        op.apply(NodeResult::Boolean(true), NodeResult::Numeric(1)),
        error_text("Expected int operands during addition operation.")
    );
}

#[test]
fn errors_pass_through_operations() {
    let op = AdditionOperation {};
    assert_eq!(
        op.apply(error_text("left"), NodeResult::Numeric(1)),
        error_text("left")
    );
    assert_eq!(
        op.apply(NodeResult::Numeric(1), error_text("right")),
        error_text("right")
    );
    let eq = EqualsOperation {};
    assert_eq!(eq.apply(error_text("e"), NodeResult::Boolean(true)), error_text("e"));
}

#[test]
fn power_computes_and_rejects_bad_exponents() {
    let op = PowerOperation {};
    assert_eq!(
        op.apply(NodeResult::Numeric(2), NodeResult::Numeric(10)),
        NodeResult::Numeric(1024)
    );
    assert_eq!(
        op.apply(NodeResult::Numeric(-2), NodeResult::Numeric(31)),
        NodeResult::Numeric(i32::MIN)
    );
    assert_eq!(
        op.apply(NodeResult::Numeric(5), NodeResult::Numeric(0)),
        NodeResult::Numeric(1)
    );
    assert_eq!(
        op.apply(NodeResult::Numeric(2), NodeResult::Numeric(31)),
        error_text("Integer overflow during power operation.")
    );
    assert_eq!(
        op.apply(NodeResult::Numeric(2), NodeResult::Numeric(-1)),
        error_text("Negative exponent during power operation.")
    );
    assert_eq!(
        op.apply(NodeResult::Numeric(-1), NodeResult::Numeric(1_000_001)),
        NodeResult::Numeric(-1)
    );
}

#[test]
fn comparisons_give_booleans() {
    let ge = GreaterThanOrEqualsOperation {};
    let le = LessThanOrEqualsOperation {};
    assert_eq!(ge.apply(NodeResult::Numeric(3), NodeResult::Numeric(3)), NodeResult::Boolean(true));
    assert_eq!(ge.apply(NodeResult::Numeric(2), NodeResult::Numeric(3)), NodeResult::Boolean(false));
    assert_eq!(le.apply(NodeResult::Numeric(2), NodeResult::Numeric(3)), NodeResult::Boolean(true));
    assert_eq!(
        le.apply(text("2"), NodeResult::Numeric(3)),
        error_text("Expected int operands during <= operation.")
    );
    assert_eq!(
        ge.apply(NodeResult::Numeric(2), text("3")),
        error_text("Expected int operands during >= operation.")
    );
}

#[test]
fn equality_needs_matching_kinds() {
    let eq = EqualsOperation {};
    assert_eq!(eq.apply(NodeResult::Numeric(3), NodeResult::Numeric(3)), NodeResult::Boolean(true));
    assert_eq!(
        eq.apply(NodeResult::Boolean(true), NodeResult::Boolean(false)),
        NodeResult::Boolean(false)
    );
    assert_eq!(
        eq.apply(NodeResult::Numeric(1), NodeResult::Boolean(true)),
        error_text("Equality compares two ints or two booleans.")
    );
}

#[test]
fn and_combines_booleans() {
    let and = AndOperation {};
    assert_eq!(
        and.apply(NodeResult::Boolean(true), NodeResult::Boolean(true)),
        NodeResult::Boolean(true)
    );
    assert_eq!(
        and.apply(NodeResult::Boolean(false), NodeResult::Numeric(1)),
        NodeResult::Boolean(false)
    );
    assert_eq!(
        and.apply(NodeResult::Boolean(true), NodeResult::Numeric(1)),
        error_text("Expected bool operands during AND operation.")
    );
}

#[test]
fn binary_operation_dispatches() {
    let op = BinaryOperation::Addition(AdditionOperation {});
    assert_eq!(op.apply(NodeResult::Numeric(1), NodeResult::Numeric(2)), NodeResult::Numeric(3));
    let and = BinaryOperation::And(AndOperation {});
    assert!(and.skips_right(&NodeResult::Boolean(false)));
    assert!(!and.skips_right(&NodeResult::Boolean(true)));
    assert!(!op.skips_right(&NodeResult::Boolean(false)));
}
