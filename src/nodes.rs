//! Expression nodes: the values they produce, how they are evaluated, and
//! how the builder reads them from a strategy document, folding constant
//! operations on the way.
use vstd::prelude::*;
use crate::datasource::{
    DecisionDataset, DatasetModel, DecisionDataInputNode, InputField, read_input, empty_dataset,
    deserialize_input_node, parse_input_path, reads_alike, lemma_read_input_alike,
};
use crate::json::{JsonValue, key_index, member, member_str, text_is, lemma_key_index_range};
use crate::modules::{InputNode, read_variable};
use crate::operations::{
    AdditionOperation, AndOperation, ArrayContainsOperation, BinaryOperation, EqualsOperation,
    GreaterThanOrEqualsOperation, LessThanOrEqualsOperation, PowerOperation,
    RegexContainsOperation, apply_values, fits_i32, short_circuits,
};
use crate::BuildError;

verus! {

/// The value an expression node evaluates to.  Errors travel in band, as a
/// value, until a condition needs a boolean.
#[derive(Debug)]
pub enum NodeResult {
    Numeric(i32),
    Boolean(bool),
    Text(String),
    Array(Vec<NodeResult>),
    Error(String),
}

/// The mathematical value of a `NodeResult`.
pub ghost enum NodeValue {
    Numeric(i32),
    Boolean(bool),
    Text(Seq<char>),
    Array(Seq<NodeValue>),
    Error(Seq<char>),
}

/// The values of the first `n` elements of `v`.
pub open spec fn values_upto(v: &Vec<NodeResult>, n: int) -> Seq<NodeValue>
    decreases v, n,
{
    if 0 < n <= v.len() {
        values_upto(v, n - 1).push(v[n - 1].value())
    } else {
        Seq::empty()
    }
}

impl NodeResult {
    pub open spec fn value(&self) -> NodeValue
        decreases self,
    {
        match self {
            NodeResult::Numeric(n) => NodeValue::Numeric(*n),
            NodeResult::Boolean(b) => NodeValue::Boolean(*b),
            NodeResult::Text(s) => NodeValue::Text(s@),
            NodeResult::Array(v) => NodeValue::Array(values_upto(v, v.len() as int)),
            NodeResult::Error(s) => NodeValue::Error(s@),
        }
    }
}

/// The values of the elements of an array.
pub open spec fn array_values(v: &Vec<NodeResult>) -> Seq<NodeValue> {
    values_upto(v, v.len() as int)
}

pub proof fn lemma_values_upto(v: &Vec<NodeResult>, n: int)
    requires
        0 <= n <= v.len(),
    ensures
        values_upto(v, n).len() == n,
        forall|j: int| 0 <= j < n ==> #[trigger] values_upto(v, n)[j] == v[j]@,
    decreases n,
{
    if n > 0 {
        lemma_values_upto(v, n - 1);
    }
}

pub proof fn lemma_array_values(v: &Vec<NodeResult>)
    ensures
        array_values(v).len() == v.len(),
        forall|j: int| 0 <= j < v.len() ==> #[trigger] array_values(v)[j] == v[j]@,
{
    lemma_values_upto(v, v.len() as int);
}

impl NodeResult {
    /// A copy of this value, element by element.
    pub fn duplicate(&self) -> (r: NodeResult)
        ensures
            r@ == self@,
        decreases self,
    {
        match self {
            NodeResult::Numeric(n) => NodeResult::Numeric(*n),
            NodeResult::Boolean(b) => NodeResult::Boolean(*b),
            NodeResult::Text(s) => NodeResult::Text(s.clone()),
            NodeResult::Error(s) => NodeResult::Error(s.clone()),
            NodeResult::Array(v) => {
                let mut out: Vec<NodeResult> = Vec::new();
                let mut i: usize = 0;
                while i < v.len()
                    invariant
                        *self == NodeResult::Array(*v),
                        i <= v.len(),
                        out.len() == i,
                        forall|j: int| 0 <= j < i ==> #[trigger] out[j]@ == v[j]@,
                    decreases v.len() - i,
                {
                    proof {
                        assert(decreases_to!(*self => self->Array_0));
                        assert(decreases_to!(*v => v[i as int]));
                    }
                    let x = v[i].duplicate();
                    out.push(x);
                    i = i + 1;
                }
                proof {
                    lemma_array_values(v);
                    lemma_array_values(&out);
                    assert(array_values(&out) =~= array_values(v));
                }
                NodeResult::Array(out)
            },
        }
    }

    /// Structural equality of two values.
    pub fn same_as(&self, other: &NodeResult) -> (r: bool)
        ensures
            r == (self@ == other@),
        decreases self,
    {
        match (self, other) {
            (NodeResult::Numeric(a), NodeResult::Numeric(b)) => *a == *b,
            (NodeResult::Boolean(a), NodeResult::Boolean(b)) => *a == *b,
            (NodeResult::Text(a), NodeResult::Text(b)) => *a == *b,
            (NodeResult::Error(a), NodeResult::Error(b)) => *a == *b,
            (NodeResult::Array(a), NodeResult::Array(b)) => {
                assert(self@ == NodeValue::Array(array_values(a)));
                proof {
                    lemma_array_values(a);
                    lemma_array_values(b);
                }
                if a.len() != b.len() {
                    proof {
                        assert(array_values(a).len() != array_values(b).len());
                    }
                    return false;
                }
                let mut i: usize = 0;
                while i < a.len()
                    invariant
                        *self == NodeResult::Array(*a),
                        *other == NodeResult::Array(*b),
                        i <= a.len(),
                        a.len() == b.len(),
                        array_values(a).len() == a.len(),
                        array_values(b).len() == b.len(),
                        forall|j: int| 0 <= j < a.len() ==> #[trigger] array_values(a)[j] == a[j]@,
                        forall|j: int| 0 <= j < b.len() ==> #[trigger] array_values(b)[j] == b[j]@,
                        forall|j: int| 0 <= j < i ==> #[trigger] a[j]@ == b[j]@,
                    decreases a.len() - i,
                {
                    proof {
                        assert(decreases_to!(*a => a[i as int]));
                    }
                    if !a[i].same_as(&b[i]) {
                        proof {
                            assert(array_values(a)[i as int] != array_values(b)[i as int]);
                            assert(self@ == NodeValue::Array(array_values(a)));
                            assert(other@ == NodeValue::Array(array_values(b)));
                        }
                        return false;
                    }
                    i = i + 1;
                }
                proof {
                    assert(array_values(a) =~= array_values(b));
                }
                true
            },
            _ => false,
        }
    }
}

impl PartialEq for NodeResult {
    fn eq(&self, other: &NodeResult) -> (r: bool) {
        self.same_as(other)
    }
}

impl vstd::std_specs::cmp::PartialEqSpecImpl for NodeResult {
    open spec fn obeys_eq_spec() -> bool {
        true
    }

    open spec fn eq_spec(&self, other: &NodeResult) -> bool {
        self@ == other@
    }
}

impl View for NodeResult {
    type V = NodeValue;

    open spec fn view(&self) -> NodeValue {
        self.value()
    }
}

} // verus!

verus! {

/// An error value that carries `msg`.
pub fn error_value(msg: &str) -> (r: NodeResult)
    ensures
        r@ == NodeValue::Error(msg@),
{
    NodeResult::Error(String::from_str(msg))
}

} // verus!

verus! {

/// A node that holds a value fixed when the strategy was built.
pub struct ConstantRootNode {
    pub value: NodeResult,
}

/// A node that applies an operation to the values of two sub-nodes.
pub struct BinOpNode {
    pub lvalue: EvalNode,
    pub rvalue: EvalNode,
    pub operation: BinaryOperation,
}

/// An expression node.
pub enum EvalNode {
    Constant(ConstantRootNode),
    BinOp(Box<BinOpNode>),
    Input(DecisionDataInputNode),
    Variable(InputNode),
}

/// The mathematical form of an expression node.
pub ghost enum Expr {
    Const(NodeValue),
    BinOp(BinaryOperation, Box<Expr>, Box<Expr>),
    Input(InputField),
    Variable(Seq<char>),
}

impl EvalNode {
    pub open spec fn expr(&self) -> Expr
        decreases self,
    {
        match self {
            EvalNode::Constant(c) => Expr::Const(c.value@),
            EvalNode::BinOp(b) => Expr::BinOp(
                b.operation,
                Box::new(b.lvalue.expr()),
                Box::new(b.rvalue.expr()),
            ),
            EvalNode::Input(i) => Expr::Input(i.field),
            EvalNode::Variable(v) => Expr::Variable(v.variable@),
        }
    }
}

impl View for EvalNode {
    type V = Expr;

    open spec fn view(&self) -> Expr {
        self.expr()
    }
}

/// The value of an expression on a dataset, and the dataset after it: the
/// left operand is read first, the right one after it unless the operation
/// short-circuits.
pub open spec fn eval_expr(e: Expr, d: DatasetModel) -> (NodeValue, DatasetModel)
    decreases e,
{
    match e {
        Expr::Const(v) => (v, d),
        Expr::Input(f) => read_input(f, d),
        Expr::Variable(name) => (read_variable(name, d), d),
        Expr::BinOp(op, l, r) => {
            let (lv, d1) = eval_expr(*l, d);
            if short_circuits(op, lv) {
                (lv, d1)
            } else {
                let (rv, d2) = eval_expr(*r, d1);
                (apply_values(op, lv, rv), d2)
            }
        },
    }
}

impl EvalNode {
    pub fn eval(&self, input: &mut DecisionDataset) -> (r: NodeResult)
        ensures
            (r@, final(input)@) == eval_expr(self@, old(input)@),
        decreases self,
    {
        match self {
            EvalNode::Constant(c) => c.value.duplicate(),
            EvalNode::Input(i) => i.eval(input),
            EvalNode::Variable(v) => v.eval(input),
            EvalNode::BinOp(b) => {
                let l = b.lvalue.eval(input);
                if b.operation.skips_right(&l) {
                    l
                } else {
                    let r = b.rvalue.eval(input);
                    b.operation.apply(l, r)
                }
            },
        }
    }
}

/// A binary node as the builder leaves it: a node whose operands are both
/// constant is replaced by the constant it evaluates to on an empty dataset.
pub open spec fn fold_bin(op: BinaryOperation, l: Expr, r: Expr) -> Expr {
    let e = Expr::BinOp(op, Box::new(l), Box::new(r));
    if l is Const && r is Const {
        Expr::Const(eval_expr(e, empty_dataset()).0)
    } else {
        e
    }
}

/// An expression with every constant binary node folded, innermost first.
pub open spec fn fold_expr(e: Expr) -> Expr
    decreases e,
{
    match e {
        Expr::BinOp(op, l, r) => fold_bin(op, fold_expr(*l), fold_expr(*r)),
        _ => e,
    }
}

/// The operation a name in a strategy document stands for.
pub open spec fn operation_of(name: Seq<char>) -> Option<BinaryOperation> {
    if name == "pow"@ {
        Some(BinaryOperation::Power(PowerOperation {}))
    } else if name == ">="@ {
        Some(BinaryOperation::GreaterThanOrEquals(GreaterThanOrEqualsOperation {}))
    } else if name == "<="@ {
        Some(BinaryOperation::LessThanOrEquals(LessThanOrEqualsOperation {}))
    } else if name == "&&"@ {
        Some(BinaryOperation::And(AndOperation {}))
    } else if name == "+"@ {
        Some(BinaryOperation::Addition(AdditionOperation {}))
    } else if name == "=="@ {
        Some(BinaryOperation::Equals(EqualsOperation {}))
    } else if name == "array_contains"@ {
        Some(BinaryOperation::ArrayContains(ArrayContainsOperation {}))
    } else if name == "regex_contains"@ {
        Some(BinaryOperation::RegexContains(RegexContainsOperation {}))
    } else {
        None
    }
}

/// The value of a constant in a strategy document.
pub open spec fn parse_const_value(j: JsonValue) -> Result<NodeValue, BuildError>
    decreases j,
{
    match j {
        JsonValue::Bool(b) => Ok(NodeValue::Boolean(b)),
        JsonValue::Str(s) => Ok(NodeValue::Text(s@)),
        JsonValue::Int(n) => if fits_i32(n as int) {
            Ok(NodeValue::Numeric(n as i32))
        } else {
            Err(BuildError::UnsupportedConstant)
        },
        JsonValue::Array(items) => match parse_const_values(&items, items.len() as int) {
            Ok(vs) => Ok(NodeValue::Array(vs)),
            Err(e) => Err(e),
        },
        _ => Err(BuildError::UnsupportedConstant),
    }
}

/// The values of the first `n` constants of an array; the first that fails
/// gives the error.
pub open spec fn parse_const_values(items: &Vec<JsonValue>, n: int) -> Result<Seq<NodeValue>, BuildError>
    decreases items, n,
{
    if 0 < n <= items.len() {
        match parse_const_values(items, n - 1) {
            Err(e) => Err(e),
            Ok(vs) => match parse_const_value(items[n - 1]) {
                Ok(x) => Ok(vs.push(x)),
                Err(e) => Err(e),
            },
        }
    } else {
        Ok(seq![])
    }
}

/// The expression a node of a strategy document describes, before folding.
pub open spec fn parse_expr(j: JsonValue) -> Result<Expr, BuildError>
    decreases j,
{
    match member_str(j, "type"@) {
        None => Err(BuildError::Malformed),
        Some(t) => if t == "constant"@ {
            match member(j, "value"@) {
                None => Err(BuildError::Malformed),
                Some(v) => match parse_const_value(v) {
                    Ok(x) => Ok(Expr::Const(x)),
                    Err(e) => Err(e),
                },
            }
        } else if t == "input"@ {
            match member_str(j, "value"@) {
                None => Err(BuildError::Malformed),
                Some(p) => parse_input_path(p),
            }
        } else if t == "op"@ {
            match member_str(j, "op"@) {
                None => Err(BuildError::Malformed),
                Some(o) => match operation_of(o) {
                    None => Err(BuildError::UnknownOperation),
                    Some(op) => match j {
                        JsonValue::Object(entries) => {
                            let kl = key_index(entries@, "lvalue"@);
                            let kr = key_index(entries@, "rvalue"@);
                            if !(0 <= kl < entries.len()) {
                                Err(BuildError::Malformed)
                            } else {
                                match parse_expr(entries[kl].1) {
                                    Err(e) => Err(e),
                                    Ok(l) => if !(0 <= kr < entries.len()) {
                                        Err(BuildError::Malformed)
                                    } else {
                                        match parse_expr(entries[kr].1) {
                                            Err(e) => Err(e),
                                            Ok(r) => Ok(Expr::BinOp(op, Box::new(l), Box::new(r))),
                                        }
                                    },
                                }
                            }
                        },
                        _ => Err(BuildError::Malformed),
                    },
                },
            }
        } else {
            Err(BuildError::UnknownNodeType)
        },
    }
}

/// What the builder makes of a node of a strategy document: the folded node
/// and whether it is constant.
pub open spec fn built(j: JsonValue, r: Result<(EvalNode, bool), BuildError>) -> bool {
    match parse_expr(j) {
        Ok(x) => r is Ok && r->Ok_0.0@ == fold_expr(x) && r->Ok_0.1 == (fold_expr(x) is Const),
        Err(e) => r == Err::<(EvalNode, bool), BuildError>(e),
    }
}

proof fn lemma_values_upto_push(v: &Vec<NodeResult>, w: &Vec<NodeResult>, n: int)
    requires
        0 <= n <= v.len(),
        w@ == v@.push(w@.last()),
    ensures
        values_upto(w, n) == values_upto(v, n),
    decreases n,
{
    if n > 0 {
        lemma_values_upto_push(v, w, n - 1);
        assert(w[n - 1] == v[n - 1]);
    }
}

proof fn lemma_node_types_differ()
    ensures
        "op"@ != "constant"@,
        "op"@ != "input"@,
{
    reveal_strlit("op");
    reveal_strlit("constant");
    reveal_strlit("input");
    assert("op"@.len() == 2);
}

proof fn lemma_const_values_err(items: &Vec<JsonValue>, k: int, n: int)
    requires
        0 < k <= n <= items.len(),
        parse_const_values(items, k) is Err,
    ensures
        parse_const_values(items, n) == parse_const_values(items, k),
    decreases n - k,
{
    if n > k {
        lemma_const_values_err(items, k, n - 1);
    }
}

/// The operation named in a strategy document.
pub fn operation_named(name: &String) -> (r: Option<BinaryOperation>)
    ensures
        r == operation_of(name@),
{
    if text_is(name, "pow") {
        Some(BinaryOperation::Power(PowerOperation {}))
    } else if text_is(name, ">=") {
        Some(BinaryOperation::GreaterThanOrEquals(GreaterThanOrEqualsOperation {}))
    } else if text_is(name, "<=") {
        Some(BinaryOperation::LessThanOrEquals(LessThanOrEqualsOperation {}))
    } else if text_is(name, "&&") {
        Some(BinaryOperation::And(AndOperation {}))
    } else if text_is(name, "+") {
        Some(BinaryOperation::Addition(AdditionOperation {}))
    } else if text_is(name, "==") {
        Some(BinaryOperation::Equals(EqualsOperation {}))
    } else if text_is(name, "array_contains") {
        Some(BinaryOperation::ArrayContains(ArrayContainsOperation {}))
    } else if text_is(name, "regex_contains") {
        Some(BinaryOperation::RegexContains(RegexContainsOperation {}))
    } else {
        None
    }
}

pub fn deserialize_const_node_value(v: &JsonValue) -> (r: Result<NodeResult, BuildError>)
    ensures
        match parse_const_value(*v) {
            Ok(x) => r is Ok && r->Ok_0@ == x,
            Err(e) => r == Err::<NodeResult, BuildError>(e),
        },
    decreases v,
{
    match v {
        JsonValue::Bool(b) => Ok(NodeResult::Boolean(*b)),
        JsonValue::Str(s) => Ok(NodeResult::Text(s.clone())),
        JsonValue::Int(n) => if *n >= i32::MIN as i64 && *n <= i32::MAX as i64 {
            Ok(NodeResult::Numeric(*n as i32))
        } else {
            Err(BuildError::UnsupportedConstant)
        },
        JsonValue::Array(items) => {
            let mut out: Vec<NodeResult> = Vec::new();
            let mut i: usize = 0;
            while i < items.len()
                invariant
                    *v == JsonValue::Array(*items),
                    i <= items.len(),
                    out.len() == i,
                    parse_const_values(items, i as int) == Ok::<Seq<NodeValue>, BuildError>(
                        values_upto(&out, i as int),
                    ),
                decreases items.len() - i,
            {
                proof {
                    assert(decreases_to!(*v => v->Array_0));
                    assert(decreases_to!(*items => items[i as int]));
                }
                let x = match deserialize_const_node_value(&items[i]) {
                    Ok(x) => x,
                    Err(e) => {
                        proof {
                            lemma_const_values_err(items, i as int + 1, items.len() as int);
                        }
                        return Err(e);
                    },
                };
                let ghost before = out;
                out.push(x);
                proof {
                    lemma_values_upto_push(&before, &out, i as int);
                }
                i = i + 1;
            }
            Ok(NodeResult::Array(out))
        },
        _ => Err(BuildError::UnsupportedConstant),
    }
}

fn deserialize_const_node(v: &JsonValue) -> (r: Result<(EvalNode, bool), BuildError>)
    requires
        member_str(*v, "type"@) == Some("constant"@),
    ensures
        built(*v, r),
{
    let value = match v.get("value") {
        Some(x) => x,
        None => {
            return Err(BuildError::Malformed);
        },
    };
    let c = deserialize_const_node_value(value)?;
    Ok((EvalNode::Constant(ConstantRootNode { value: c }), true))
}

fn deserialize_bin_op_node(v: &JsonValue, op: BinaryOperation) -> (r: Result<(EvalNode, bool), BuildError>)
    requires
        member_str(*v, "type"@) == Some("op"@),
        member_str(*v, "op"@) is Some,
        operation_of(member_str(*v, "op"@)->Some_0) == Some(op),
    ensures
        built(*v, r),
    decreases v, 0int,
{
    proof {
        assert(member(*v, "type"@) is Some);
        lemma_node_types_differ();
    }
    let entries = match v {
        JsonValue::Object(entries) => entries,
        _ => {
            return Err(BuildError::Malformed);
        },
    };
    proof {
        lemma_key_index_range(entries@, "lvalue"@, 0);
        lemma_key_index_range(entries@, "rvalue"@, 0);
    }
    let lj = match v.get("lvalue") {
        Some(x) => x,
        None => {
            return Err(BuildError::Malformed);
        },
    };
    let ghost kl = key_index(entries@, "lvalue"@);
    proof {
        assert(*lj == entries[kl].1);
        assert(decreases_to!(*v => v->Object_0));
        assert(decreases_to!(*entries => entries[kl]));
        assert(decreases_to!(entries[kl] => entries[kl].1));
    }
    let (lvalue, lconst) = match deserialize_node(lj) {
        Ok(x) => x,
        Err(e) => {
            return Err(e);
        },
    };
    let rj = match v.get("rvalue") {
        Some(x) => x,
        None => {
            return Err(BuildError::Malformed);
        },
    };
    let ghost kr = key_index(entries@, "rvalue"@);
    proof {
        assert(*rj == entries[kr].1);
        assert(decreases_to!(*v => v->Object_0));
        assert(decreases_to!(*entries => entries[kr]));
        assert(decreases_to!(entries[kr] => entries[kr].1));
    }
    let (rvalue, rconst) = match deserialize_node(rj) {
        Ok(x) => x,
        Err(e) => {
            return Err(e);
        },
    };
    let node = EvalNode::BinOp(Box::new(BinOpNode { lvalue, rvalue, operation: op }));
    if lconst && rconst {
        let mut empty = DecisionDataset::get_empty();
        let value = node.eval(&mut empty);
        Ok((EvalNode::Constant(ConstantRootNode { value }), true))
    } else {
        Ok((node, false))
    }
}

/// Builds a node of a strategy document, folding constant operations.  On
/// every dataset the node built evaluates as the node written does; a node
/// reported constant reads nothing and leaves every dataset as it was.
pub fn deserialize_node(v: &JsonValue) -> (r: Result<(EvalNode, bool), BuildError>)
    ensures
        built(*v, r),
        r is Ok ==> forall|d: DatasetModel|
            #[trigger] eval_expr(r->Ok_0.0@, d) == eval_expr(parse_expr(*v)->Ok_0, d),
        r is Ok && r->Ok_0.1 ==> forall|d: DatasetModel|
            #[trigger] eval_expr(r->Ok_0.0@, d) == (r->Ok_0.0@->Const_0, d),
    decreases v, 2int,
{
    let r = build_node(v);
    proof {
        if r is Ok {
            let x = parse_expr(*v)->Ok_0;
            assert forall|d: DatasetModel|
                #[trigger] eval_expr(r->Ok_0.0@, d) == eval_expr(x, d) by {
                lemma_fold_equivalence(x, d);
            }
        }
    }
    r
}

fn build_node(v: &JsonValue) -> (r: Result<(EvalNode, bool), BuildError>)
    ensures
        built(*v, r),
    decreases v, 1int,
{
    let node_type = match v.get_str("type") {
        Some(t) => t,
        None => {
            return Err(BuildError::Malformed);
        },
    };
    if text_is(node_type, "constant") {
        deserialize_const_node(v)
    } else if text_is(node_type, "input") {
        match v.get_str("value") {
            Some(path) => deserialize_input_node(path.as_str()),
            None => Err(BuildError::Malformed),
        }
    } else if text_is(node_type, "op") {
        let op = match v.get_str("op") {
            Some(name) => match operation_named(name) {
                Some(op) => op,
                None => {
                    return Err(BuildError::UnknownOperation);
                },
            },
            None => {
                return Err(BuildError::Malformed);
            },
        };
        deserialize_bin_op_node(v, op)
    } else {
        Err(BuildError::UnknownNodeType)
    }
}

/// Folding never changes what an expression evaluates to: on every dataset,
/// the folded expression gives the same value and leaves the same dataset as
/// the expression as written.  A folded constant reads nothing from the
/// dataset, so the empty dataset it was computed on stands for any other.
pub proof fn lemma_fold_equivalence(e: Expr, d: DatasetModel)
    ensures
        eval_expr(fold_expr(e), d) == eval_expr(e, d),
    decreases e,
{
    if let Expr::BinOp(op, l, r) = e {
        let fl = fold_expr(*l);
        let fr = fold_expr(*r);
        lemma_fold_equivalence(*l, d);
        let d1 = eval_expr(*l, d).1;
        lemma_fold_equivalence(*r, d1);
        if fl is Const && fr is Const {
            lemma_fold_equivalence(*l, empty_dataset());
            lemma_fold_equivalence(*r, empty_dataset());
        }
    }
}

/// An expression whose folded form is a constant reads nothing: on every
/// dataset it evaluates to that constant and leaves the dataset as it was.
pub proof fn lemma_folded_constant_reads_nothing(e: Expr, d: DatasetModel)
    requires
        fold_expr(e) is Const,
    ensures
        eval_expr(e, d) == (fold_expr(e)->Const_0, d),
{
    lemma_fold_equivalence(e, d);
}

/// An expression gives the same value on datasets that read alike, and
/// leaves a dataset that reads as the one it started from: caching a fetched
/// record changes no value.
pub proof fn lemma_eval_alike(e: Expr, d1: DatasetModel, d2: DatasetModel)
    requires
        reads_alike(d1, d2),
    ensures
        eval_expr(e, d1).0 == eval_expr(e, d2).0,
        reads_alike(eval_expr(e, d1).1, d1),
    decreases e,
{
    match e {
        Expr::Input(f) => {
            lemma_read_input_alike(f, d1, d2);
        },
        Expr::BinOp(op, l, r) => {
            lemma_eval_alike(*l, d1, d2);
            lemma_eval_alike(*l, d2, d1);
            let a1 = eval_expr(*l, d1).1;
            let a2 = eval_expr(*l, d2).1;
            lemma_eval_alike(*r, a1, a2);
            lemma_eval_alike(*r, a2, a1);
        },
        _ => {},
    }
}

} // verus!
