//! The binary operations that expression nodes apply to their operands.
//!
//! Every operation reads its left operand first.  An operand that is an
//! error value is handed on unchanged; an operand of the wrong kind gives an
//! error value that names the operation.
use vstd::prelude::*;
use crate::nodes::{NodeResult, NodeValue, array_values, lemma_array_values, error_value};

verus! {

pub uninterp spec fn regex_compiles(pattern: Seq<char>) -> bool;

pub uninterp spec fn regex_finds(pattern: Seq<char>, text: Seq<char>) -> bool;

/// Relies on `regex::Regex::new`, which accepts or refuses a pattern by its
/// text alone, and on `Regex::is_match`, which tells whether the compiled
/// pattern matches somewhere in the text.
#[verifier::external_body]
fn regex_search(pattern: &str, text: &str) -> (r: Option<bool>)
    ensures
        r.is_some() == regex_compiles(pattern@),
        r.is_some() ==> r.unwrap() == regex_finds(pattern@, text@),
{
    match regex::Regex::new(pattern) {
        Ok(re) => Some(re.is_match(text)),
        Err(_) => None,
    }
}

pub open spec fn fits_i32(x: int) -> bool {
    i32::MIN <= x <= i32::MAX
}

/// `b` raised to the power `e`.
pub open spec fn power(b: int, e: nat) -> int
    decreases e,
{
    if e == 0 {
        1
    } else {
        b * power(b, (e - 1) as nat)
    }
}

pub open spec fn abs(x: int) -> int {
    if x < 0 {
        -x
    } else {
        x
    }
}

/// The error, if any, that keeps two operands from being read as integers.
pub open spec fn int_operand_error(l: NodeValue, r: NodeValue, msg: Seq<char>) -> Option<NodeValue> {
    if l is Error {
        Some(l)
    } else if !(l is Numeric) {
        Some(NodeValue::Error(msg))
    } else if r is Error {
        Some(r)
    } else if !(r is Numeric) {
        Some(NodeValue::Error(msg))
    } else {
        None
    }
}

pub open spec fn add_values(l: NodeValue, r: NodeValue) -> NodeValue {
    match int_operand_error(l, r, "Expected int operands during addition operation."@) {
        Some(e) => e,
        None => {
            let s = l->Numeric_0 as int + r->Numeric_0 as int;
            if fits_i32(s) {
                NodeValue::Numeric(s as i32)
            } else {
                NodeValue::Error("Integer overflow during addition operation."@)
            }
        },
    }
}

pub open spec fn power_values(l: NodeValue, r: NodeValue) -> NodeValue {
    match int_operand_error(l, r, "Expected int operands during power operation."@) {
        Some(e) => e,
        None => {
            let b = l->Numeric_0 as int;
            let e = r->Numeric_0 as int;
            if e < 0 {
                NodeValue::Error("Negative exponent during power operation."@)
            } else if fits_i32(power(b, e as nat)) {
                NodeValue::Numeric(power(b, e as nat) as i32)
            } else {
                NodeValue::Error("Integer overflow during power operation."@)
            }
        },
    }
}

pub open spec fn greater_or_equal_values(l: NodeValue, r: NodeValue) -> NodeValue {
    match int_operand_error(l, r, "Expected int operands during >= operation."@) {
        Some(e) => e,
        None => NodeValue::Boolean(l->Numeric_0 >= r->Numeric_0),
    }
}

pub open spec fn less_or_equal_values(l: NodeValue, r: NodeValue) -> NodeValue {
    match int_operand_error(l, r, "Expected int operands during <= operation."@) {
        Some(e) => e,
        None => NodeValue::Boolean(l->Numeric_0 <= r->Numeric_0),
    }
}

pub open spec fn equals_values(l: NodeValue, r: NodeValue) -> NodeValue {
    if l is Error {
        l
    } else if r is Error {
        r
    } else {
        match (l, r) {
            (NodeValue::Numeric(a), NodeValue::Numeric(b)) => NodeValue::Boolean(a == b),
            (NodeValue::Boolean(a), NodeValue::Boolean(b)) => NodeValue::Boolean(a == b),
            _ => NodeValue::Error("Equality compares two ints or two booleans."@),
        }
    }
}

pub open spec fn and_values(l: NodeValue, r: NodeValue) -> NodeValue {
    if l is Error {
        l
    } else if !(l is Boolean) {
        NodeValue::Error("Expected bool operands during AND operation."@)
    } else if l == NodeValue::Boolean(false) {
        l
    } else if r is Error {
        r
    } else if !(r is Boolean) {
        NodeValue::Error("Expected bool operands during AND operation."@)
    } else {
        r
    }
}

pub open spec fn array_contains_values(l: NodeValue, r: NodeValue) -> NodeValue {
    if l is Error {
        l
    } else if !(l is Array) {
        NodeValue::Error("lvalue of array_contains operation is not an array."@)
    } else if r is Error {
        r
    } else {
        NodeValue::Boolean(l->Array_0.contains(r))
    }
}

/// The value of a regular expression search, given whether the pattern
/// compiled and, if so, whether it matched.
pub open spec fn regex_outcome_value(pattern: Seq<char>, found: Option<bool>) -> NodeValue {
    match found {
        Some(b) => NodeValue::Boolean(b),
        None => NodeValue::Error("Invalid regular expression "@ + pattern),
    }
}

pub open spec fn regex_contains_values(l: NodeValue, r: NodeValue) -> NodeValue {
    if l is Error {
        l
    } else if !(l is Text) {
        NodeValue::Error("lvalue of regex_contains operation is not a string."@)
    } else if r is Error {
        r
    } else if !(r is Text) {
        NodeValue::Error("rvalue of regex_contains operation is not a string."@)
    } else {
        let p = r->Text_0;
        regex_outcome_value(
            p,
            if regex_compiles(p) {
                Some(regex_finds(p, l->Text_0))
            } else {
                None
            },
        )
    }
}

/// Reads two operands as integers, or gives the error value that stops it.
fn int_operands(l: NodeResult, r: NodeResult, msg: &str) -> (res: Result<(i32, i32), NodeResult>)
    ensures
        match res {
            Ok((a, b)) => int_operand_error(l@, r@, msg@) is None && l@ == NodeValue::Numeric(a)
                && r@ == NodeValue::Numeric(b),
            Err(e) => int_operand_error(l@, r@, msg@) == Some(e@),
        },
{
    match l {
        NodeResult::Error(_) => Err(l),
        NodeResult::Numeric(a) => match r {
            NodeResult::Error(_) => Err(r),
            NodeResult::Numeric(b) => Ok((a, b)),
            _ => Err(error_value(msg)),
        },
        _ => Err(error_value(msg)),
    }
}

#[derive(PartialEq, Eq, Structural, Clone, Copy, Debug)]
pub struct AdditionOperation {}

impl AdditionOperation {
    pub fn apply(&self, l: NodeResult, r: NodeResult) -> (res: NodeResult)
        ensures
            res@ == add_values(l@, r@),
    {
        match int_operands(l, r, "Expected int operands during addition operation.") {
            Err(e) => e,
            Ok((a, b)) => match a.checked_add(b) {
                Some(s) => NodeResult::Numeric(s),
                None => error_value("Integer overflow during addition operation."),
            },
        }
    }
}

proof fn lemma_power_abs_step(b: int, e: nat)
    ensures
        abs(power(b, e + 1)) == abs(b) * abs(power(b, e)),
{
    assert(power(b, e + 1) == b * power(b, e));
    let p = power(b, e);
    assert(abs(b * p) == abs(b) * abs(p)) by (nonlinear_arith);
}

/// With `|b| >= 1`, the magnitude of `b^e` never shrinks as `e` grows.
proof fn lemma_power_abs_grows(b: int, e1: nat, e2: nat)
    requires
        abs(b) >= 1,
        e1 <= e2,
    ensures
        abs(power(b, e1)) <= abs(power(b, e2)),
    decreases e2,
{
    if e1 < e2 {
        lemma_power_abs_grows(b, e1, (e2 - 1) as nat);
        lemma_power_abs_step(b, (e2 - 1) as nat);
        let p = abs(power(b, (e2 - 1) as nat));
        assert(abs(b) * p >= p) by (nonlinear_arith)
            requires abs(b) >= 1, p >= 0;
    }
}

/// `b` raised to the power `e`, where that fits in an `i32`.
fn checked_power(b: i32, e: i32) -> (r: Option<i32>)
    requires
        e >= 0,
    ensures
        r == (if fits_i32(power(b as int, e as nat)) {
            Some(power(b as int, e as nat) as i32)
        } else {
            None
        }),
{
    let mut acc: i64 = 1;
    let mut k: i32 = 0;
    while k < e
        invariant
            0 <= k <= e,
            acc == power(b as int, k as nat),
            fits_i32(acc as int),
            abs(b as int) <= 1 ==> abs(acc as int) <= 1,
        decreases e - k,
    {
        proof {
            let a = acc as int;
            let bb = b as int;
            assert(-0x8000_0000_0000_0000 < a * bb < 0x8000_0000_0000_0000) by (nonlinear_arith)
                requires -0x8000_0000 <= a <= 0x8000_0000, -0x8000_0000 <= bb <= 0x8000_0000;
        }
        let next = acc * (b as i64);
        proof {
            let a = acc as int;
            let bb = b as int;
            let n = next as int;
            lemma_power_abs_step(bb, k as nat);
            assert(power(bb, (k + 1) as nat) == bb * power(bb, k as nat));
            assert(n == bb * a) by (nonlinear_arith)
                requires n == a * bb;
            assert(n == power(bb, (k + 1) as nat));
            if abs(bb) <= 1 {
                assert(abs(bb) * abs(a) <= 1) by (nonlinear_arith)
                    requires 0 <= abs(bb) <= 1, 0 <= abs(a) <= 1;
            }
        }
        if next < i32::MIN as i64 || next > i32::MAX as i64 {
            proof {
                let bb = b as int;
                let n = next as int;
                assert(abs(bb) >= 2);
                if (e as int) > k + 1 {
                    lemma_power_abs_grows(bb, (k + 2) as nat, e as nat);
                    lemma_power_abs_step(bb, (k + 1) as nat);
                    assert(abs(bb) * abs(n) >= 2 * abs(n)) by (nonlinear_arith)
                        requires abs(bb) >= 2, abs(n) >= 0;
                }
            }
            return None;
        }
        acc = next;
        k = k + 1;
    }
    Some(acc as i32)
}

#[derive(PartialEq, Eq, Structural, Clone, Copy, Debug)]
pub struct PowerOperation {}

impl PowerOperation {
    pub fn apply(&self, l: NodeResult, r: NodeResult) -> (res: NodeResult)
        ensures
            res@ == power_values(l@, r@),
    {
        match int_operands(l, r, "Expected int operands during power operation.") {
            Err(e) => e,
            Ok((b, e)) => {
                if e < 0 {
                    return error_value("Negative exponent during power operation.");
                }
                match checked_power(b, e) {
                    Some(p) => NodeResult::Numeric(p),
                    None => error_value("Integer overflow during power operation."),
                }
            },
        }
    }
}

#[derive(PartialEq, Eq, Structural, Clone, Copy, Debug)]
pub struct GreaterThanOrEqualsOperation {}

impl GreaterThanOrEqualsOperation {
    pub fn apply(&self, l: NodeResult, r: NodeResult) -> (res: NodeResult)
        ensures
            res@ == greater_or_equal_values(l@, r@),
    {
        match int_operands(l, r, "Expected int operands during >= operation.") {
            Err(e) => e,
            Ok((a, b)) => NodeResult::Boolean(a >= b),
        }
    }
}

#[derive(PartialEq, Eq, Structural, Clone, Copy, Debug)]
pub struct LessThanOrEqualsOperation {}

impl LessThanOrEqualsOperation {
    pub fn apply(&self, l: NodeResult, r: NodeResult) -> (res: NodeResult)
        ensures
            res@ == less_or_equal_values(l@, r@),
    {
        match int_operands(l, r, "Expected int operands during <= operation.") {
            Err(e) => e,
            Ok((a, b)) => NodeResult::Boolean(a <= b),
        }
    }
}

#[derive(PartialEq, Eq, Structural, Clone, Copy, Debug)]
pub struct EqualsOperation {}

impl EqualsOperation {
    pub fn apply(&self, l: NodeResult, r: NodeResult) -> (res: NodeResult)
        ensures
            res@ == equals_values(l@, r@),
    {
        if let NodeResult::Error(_) = l {
            return l;
        }
        if let NodeResult::Error(_) = r {
            return r;
        }
        match (l, r) {
            (NodeResult::Numeric(a), NodeResult::Numeric(b)) => NodeResult::Boolean(a == b),
            (NodeResult::Boolean(a), NodeResult::Boolean(b)) => NodeResult::Boolean(a == b),
            _ => error_value("Equality compares two ints or two booleans."),
        }
    }
}

#[derive(PartialEq, Eq, Structural, Clone, Copy, Debug)]
pub struct AndOperation {}

impl AndOperation {
    pub fn apply(&self, l: NodeResult, r: NodeResult) -> (res: NodeResult)
        ensures
            res@ == and_values(l@, r@),
    {
        match l {
            NodeResult::Error(_) => l,
            NodeResult::Boolean(false) => l,
            NodeResult::Boolean(true) => match r {
                NodeResult::Error(_) => r,
                NodeResult::Boolean(_) => r,
                _ => error_value("Expected bool operands during AND operation."),
            },
            _ => error_value("Expected bool operands during AND operation."),
        }
    }
}

#[derive(PartialEq, Eq, Structural, Clone, Copy, Debug)]
pub struct ArrayContainsOperation {}

impl ArrayContainsOperation {
    pub fn apply(&self, l: NodeResult, r: NodeResult) -> (res: NodeResult)
        ensures
            res@ == array_contains_values(l@, r@),
    {
        match l {
            NodeResult::Error(_) => l,
            NodeResult::Array(items) => {
                assert(l@ == NodeValue::Array(array_values(&items)));
                if let NodeResult::Error(_) = r {
                    return r;
                }
                proof {
                    lemma_array_values(&items);
                }
                let mut i: usize = 0;
                while i < items.len()
                    invariant
                        l@ == NodeValue::Array(array_values(&items)),
                        !(r@ is Error),
                        i <= items.len(),
                        array_values(&items).len() == items.len(),
                        forall|j: int| 0 <= j < items.len() ==> #[trigger] array_values(&items)[j] == items[j]@,
                        forall|j: int| 0 <= j < i ==> array_values(&items)[j] != r@,
                    decreases items.len() - i,
                {
                    if items[i].same_as(&r) {
                        proof {
                            assert(array_values(&items)[i as int] == r@);
                            assert(array_values(&items).contains(r@));
                        }
                        return NodeResult::Boolean(true);
                    }
                    i = i + 1;
                }
                assert(!array_values(&items).contains(r@));
                NodeResult::Boolean(false)
            },
            _ => error_value("lvalue of array_contains operation is not an array."),
        }
    }
}

/// The value of a regular expression search, given whether `pattern`
/// compiled and, if so, whether it matched.
pub fn regex_outcome(pattern: &String, found: Option<bool>) -> (res: NodeResult)
    ensures
        res@ == regex_outcome_value(pattern@, found),
{
    match found {
        Some(b) => NodeResult::Boolean(b),
        None => {
            let mut msg = String::from_str("Invalid regular expression ");
            msg.append(pattern.as_str());
            NodeResult::Error(msg)
        },
    }
}

#[derive(PartialEq, Eq, Structural, Clone, Copy, Debug)]
pub struct RegexContainsOperation {}

impl RegexContainsOperation {
    pub fn apply(&self, l: NodeResult, r: NodeResult) -> (res: NodeResult)
        ensures
            res@ == regex_contains_values(l@, r@),
    {
        match l {
            NodeResult::Error(_) => l,
            NodeResult::Text(text) => match r {
                NodeResult::Error(_) => r,
                NodeResult::Text(pattern) => {
                    let found = regex_search(pattern.as_str(), text.as_str());
                    regex_outcome(&pattern, found)
                },
                _ => error_value("rvalue of regex_contains operation is not a string."),
            },
            _ => error_value("lvalue of regex_contains operation is not a string."),
        }
    }
}

/// The operations an expression node can apply.
#[derive(PartialEq, Eq, Structural, Clone, Copy, Debug)]
pub enum BinaryOperation {
    Addition(AdditionOperation),
    Equals(EqualsOperation),
    Power(PowerOperation),
    GreaterThanOrEquals(GreaterThanOrEqualsOperation),
    LessThanOrEquals(LessThanOrEqualsOperation),
    And(AndOperation),
    ArrayContains(ArrayContainsOperation),
    RegexContains(RegexContainsOperation),
}

/// What `op` makes of two operand values.
pub open spec fn apply_values(op: BinaryOperation, l: NodeValue, r: NodeValue) -> NodeValue {
    match op {
        BinaryOperation::Addition(_) => add_values(l, r),
        BinaryOperation::Equals(_) => equals_values(l, r),
        BinaryOperation::Power(_) => power_values(l, r),
        BinaryOperation::GreaterThanOrEquals(_) => greater_or_equal_values(l, r),
        BinaryOperation::LessThanOrEquals(_) => less_or_equal_values(l, r),
        BinaryOperation::And(_) => and_values(l, r),
        BinaryOperation::ArrayContains(_) => array_contains_values(l, r),
        BinaryOperation::RegexContains(_) => regex_contains_values(l, r),
    }
}

/// Whether `op` decides from its left operand alone, so that the right
/// operand is never read: AND with a false left operand.
pub open spec fn short_circuits(op: BinaryOperation, l: NodeValue) -> bool {
    op is And && l == NodeValue::Boolean(false)
}

impl BinaryOperation {
    pub fn apply(&self, l: NodeResult, r: NodeResult) -> (res: NodeResult)
        ensures
            res@ == apply_values(*self, l@, r@),
    {
        match self {
            BinaryOperation::Addition(op) => op.apply(l, r),
            BinaryOperation::Equals(op) => op.apply(l, r),
            BinaryOperation::Power(op) => op.apply(l, r),
            BinaryOperation::GreaterThanOrEquals(op) => op.apply(l, r),
            BinaryOperation::LessThanOrEquals(op) => op.apply(l, r),
            BinaryOperation::And(op) => op.apply(l, r),
            BinaryOperation::ArrayContains(op) => op.apply(l, r),
            BinaryOperation::RegexContains(op) => op.apply(l, r),
        }
    }

    pub fn skips_right(&self, l: &NodeResult) -> (r: bool)
        ensures
            r == short_circuits(*self, l@),
    {
        match self {
            BinaryOperation::And(_) => match l {
                NodeResult::Boolean(b) => !*b,
                _ => false,
            },
            _ => false,
        }
    }
}

} // verus!
