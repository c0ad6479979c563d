//! Detailed evaluation: a walk over the whole strategy, without stopping
//! where a module would short-circuit, that records every verdict in an audit
//! tree built on a stack of open module frames.
use vstd::prelude::*;
use crate::datasource::{DecisionDataset, DatasetModel};
use crate::modules::{
    ModuleChildren, PassAllModule, SimpleModule, eval_child, eval_simple, pass_all, publish_from,
    run_children,
};
use crate::results::{ModuleResult, ResultTree, RuleResult, SubmoduleResult};
use crate::rules::{Rule, eval_rule, lemma_eval_rule_alike};
use crate::{EvalError, EvalResult};

verus! {

/// The stack after the trees `ts` are appended to the children of its top
/// frame, when that frame is a module.
pub open spec fn with_children(s: Seq<ResultTree>, ts: Seq<ResultTree>) -> Seq<ResultTree> {
    if s.len() > 0 && s.last() is Module {
        s.update(
            s.len() - 1,
            ResultTree::Module {
                id: s.last()->Module_id,
                verdict: s.last()->Module_verdict,
                children: s.last()->Module_children + ts,
            },
        )
    } else {
        s
    }
}

/// Whether the top frame of a stack is a module that can take children.
pub open spec fn open_top(s: Seq<ResultTree>) -> bool {
    s.len() > 0 && s.last() is Module
}

/// A stack of open frames; the bottom one is the root of the audit tree.
pub struct ResultStack {
    pub frames: Vec<SubmoduleResult>,
}

impl View for ResultStack {
    type V = Seq<ResultTree>;

    open spec fn view(&self) -> Seq<ResultTree> {
        self.frames@.map_values(|f: SubmoduleResult| f@)
    }
}

impl ResultStack {
    pub fn new(init: SubmoduleResult) -> (r: Self)
        ensures
            r@ == seq![init@],
    {
        let mut frames: Vec<SubmoduleResult> = Vec::new();
        frames.push(init);
        let r = ResultStack { frames };
        assert(r@ =~= seq![init@]);
        r
    }

    /// The top frame.
    pub fn get_result(&self) -> (r: &SubmoduleResult)
        requires
            self@.len() > 0,
        ensures
            r@ == self@.last(),
    {
        &self.frames[self.frames.len() - 1]
    }

    /// Adds `t` to the children of the top frame, when that is a module.
    pub fn add_to_top(&mut self, t: SubmoduleResult)
        ensures
            final(self)@ == with_children(old(self)@, seq![t@]),
    {
        let ghost old_view = self@;
        match self.frames.pop() {
            None => {
                assert(self@ =~= old_view);
            },
            Some(SubmoduleResult::ModuleResult(mut m)) => {
                let ghost m0 = m;
                assert(old_view.last() == SubmoduleResult::ModuleResult(m0)@);
                m.add_submodule_result(t);
                let ghost kids = crate::results::trees_of(&m0.submodule_results);
                assert(kids + seq![t@] =~= kids.push(t@));
                assert(SubmoduleResult::ModuleResult(m)@ == ResultTree::Module {
                    id: m0.module_id@,
                    verdict: m0.result,
                    children: kids.push(t@),
                });
                self.frames.push(SubmoduleResult::ModuleResult(m));
                assert(self@ =~= with_children(old_view, seq![t@]));
            },
            Some(top) => {
                self.frames.push(top);
                assert(self@ =~= old_view);
            },
        }
    }

    /// Opens a frame for a module.
    pub fn new_module(&mut self, module_id: String, result: EvalResult)
        ensures
            final(self)@ == old(self)@.push(
                ResultTree::Module { id: module_id@, verdict: result, children: seq![] },
            ),
    {
        let ghost old_view = self@;
        let frame = ModuleResult { module_id, result, submodule_results: Vec::new() };
        self.frames.push(SubmoduleResult::ModuleResult(frame));
        assert(self@ =~= old_view.push(
            ResultTree::Module { id: module_id@, verdict: result, children: seq![] },
        ));
    }

    /// Closes the top frame and adds it to the children of the one below.
    pub fn end_module(&mut self)
        requires
            old(self)@.len() >= 2,
        ensures
            final(self)@ == with_children(old(self)@.drop_last(), seq![old(self)@.last()]),
    {
        let ghost old_view = self@;
        let top = self.frames.pop().unwrap();
        assert(self@ =~= old_view.drop_last());
        self.add_to_top(top);
    }
}

/// The audit tree of a child and the dataset after it.
pub open spec fn audit_child(c: ModuleChildren, d: DatasetModel) -> (Result<ResultTree, EvalError>, DatasetModel)
    decreases c,
{
    match c {
        ModuleChildren::Rule(r) => {
            let (v, d1) = eval_rule(r, d);
            match v {
                Ok(x) => (Ok(ResultTree::Rule { id: r.rule_id, verdict: x }), d1),
                Err(e) => (Err(e), d1),
            }
        },
        ModuleChildren::SimpleModule(m) => audit_simple(m, d),
        ModuleChildren::PassAllModule(m) => audit_pass_all(m, d),
    }
}

/// The audit tree of a module: its own verdict, from a full evaluation, then
/// the trees of all its children, each evaluated again on the dataset that
/// evaluation left.
pub open spec fn audit_simple(m: SimpleModule, d: DatasetModel) -> (Result<ResultTree, EvalError>, DatasetModel)
    decreases m,
{
    let (v, d1) = eval_simple(m, d);
    match v {
        Err(e) => (Err(e), d1),
        Ok(x) => {
            let (ts, d2) = audit_children(m.children, 0, seq![], d1);
            match ts {
                Ok(s) => (Ok(ResultTree::Module { id: m.module_name@, verdict: x, children: s }), d2),
                Err(e) => (Err(e), d2),
            }
        },
    }
}

/// The audit tree of a module without variables that rejects at its first
/// rejecting child.
pub open spec fn audit_pass_all(m: PassAllModule, d: DatasetModel) -> (Result<ResultTree, EvalError>, DatasetModel)
    decreases m,
{
    let (v, d1) = run_children(m.children, pass_all(), 0, seq![], d);
    match v {
        Err(e) => (Err(e), d1),
        Ok(x) => {
            let (ts, d2) = audit_children(m.children, 0, seq![], d1);
            match ts {
                Ok(s) => (Ok(ResultTree::Module { id: m.module_name@, verdict: x, children: s }), d2),
                Err(e) => (Err(e), d2),
            }
        },
    }
}

/// The trees of the children from index `i` on, after the trees `acc` of
/// those before it.
pub open spec fn audit_children(
    children: Vec<ModuleChildren>,
    i: int,
    acc: Seq<ResultTree>,
    d: DatasetModel,
) -> (Result<Seq<ResultTree>, EvalError>, DatasetModel)
    decreases children, children.len() - i,
{
    if i < 0 || i >= children.len() {
        (Ok(acc), d)
    } else {
        let (t, d1) = audit_child(children[i], d);
        match t {
            Ok(x) => audit_children(children, i + 1, acc.push(x), d1),
            Err(e) => (Err(e), d1),
        }
    }
}

/// A visitor that evaluates every module and rule it meets and records each
/// verdict in its stack.
pub struct ResultAggregatingVisitor {
    pub stack: ResultStack,
    pub input: DecisionDataset,
}

/// What a visit that produced `t` (or failed) leaves in a visitor that held
/// `stack`.
pub open spec fn visit_outcome(
    r: Result<(), EvalError>,
    stack_before: Seq<ResultTree>,
    stack_after: Seq<ResultTree>,
    t: Result<ResultTree, EvalError>,
) -> bool {
    match t {
        Ok(tree) => r is Ok && stack_after == with_children(stack_before, seq![tree]),
        Err(e) => r == Err::<(), EvalError>(e),
    }
}

impl ResultAggregatingVisitor {
    pub fn new(stack: ResultStack, input: DecisionDataset) -> (r: Self)
        ensures
            r.stack@ == stack@,
            r.input@ == input@,
    {
        ResultAggregatingVisitor { stack, input }
    }

    /// Evaluates a module and opens its frame.
    pub fn visit_module(&mut self, module: &SimpleModule) -> (r: Result<(), EvalError>)
        ensures
            final(self).input@ == eval_simple(*module, old(self).input@).1,
            match eval_simple(*module, old(self).input@).0 {
                Ok(v) => r is Ok && final(self).stack@ == old(self).stack@.push(
                    ResultTree::Module { id: module.module_name@, verdict: v, children: seq![] },
                ),
                Err(e) => r == Err::<(), EvalError>(e),
            },
    {
        let v = module.eval(&mut self.input)?;
        self.stack.new_module(module.module_name.clone(), v);
        Ok(())
    }

    /// Evaluates a module without variables and opens its frame.
    pub fn visit_pass_all_module(&mut self, module: &PassAllModule) -> (r: Result<(), EvalError>)
        ensures
            final(self).input@ == run_children(module.children, pass_all(), 0, seq![], old(self).input@).1,
            match run_children(module.children, pass_all(), 0, seq![], old(self).input@).0 {
                Ok(v) => r is Ok && final(self).stack@ == old(self).stack@.push(
                    ResultTree::Module { id: module.module_name@, verdict: v, children: seq![] },
                ),
                Err(e) => r == Err::<(), EvalError>(e),
            },
    {
        let v = module.eval(&mut self.input)?;
        self.stack.new_module(module.module_name.clone(), v);
        Ok(())
    }

    /// Closes the frame of the module being left.
    pub fn leave_module(&mut self)
        requires
            old(self).stack@.len() >= 2,
        ensures
            final(self).input == old(self).input,
            final(self).stack@ == with_children(
                old(self).stack@.drop_last(),
                seq![old(self).stack@.last()],
            ),
    {
        self.stack.end_module();
    }

    /// Evaluates a rule and records its verdict in the open frame.
    pub fn visit_rule(&mut self, rule: &Rule) -> (r: Result<(), EvalError>)
        ensures
            final(self).input@ == eval_rule(*rule, old(self).input@).1,
            match eval_rule(*rule, old(self).input@).0 {
                Ok(v) => r is Ok && final(self).stack@ == with_children(
                    old(self).stack@,
                    seq![ResultTree::Rule { id: rule.rule_id, verdict: v }],
                ),
                Err(e) => r == Err::<(), EvalError>(e),
            },
    {
        let v = rule.eval(&mut self.input)?;
        let entry = SubmoduleResult::RuleResult(RuleResult { rule_id: rule.rule_id, result: v });
        self.stack.add_to_top(entry);
        Ok(())
    }
}

proof fn lemma_with_children_push(s: Seq<ResultTree>, ts: Seq<ResultTree>, t: ResultTree)
    requires
        open_top(s),
    ensures
        open_top(with_children(s, ts)),
        with_children(with_children(s, ts), seq![t]) == with_children(s, ts.push(t)),
{
    assert(ts + seq![t] =~= ts.push(t));
    assert(s.last()->Module_children + ts + seq![t] =~= s.last()->Module_children + ts.push(t));
    assert(with_children(with_children(s, ts), seq![t]) =~= with_children(s, ts.push(t)));
}

/// Visits the children in order.
fn accept_children(children: &Vec<ModuleChildren>, visitor: &mut ResultAggregatingVisitor) -> (r: Result<(), EvalError>)
    requires
        open_top(old(visitor).stack@),
    ensures
        final(visitor).input@ == audit_children(*children, 0, seq![], old(visitor).input@).1,
        match audit_children(*children, 0, seq![], old(visitor).input@).0 {
            Ok(ts) => r is Ok && final(visitor).stack@ == with_children(old(visitor).stack@, ts),
            Err(e) => r == Err::<(), EvalError>(e),
        },
    decreases children,
{
    let ghost s0 = visitor.stack@;
    let ghost acc: Seq<ResultTree> = seq![];
    assert(with_children(s0, acc) =~= s0);
    let mut i: usize = 0;
    while i < children.len()
        invariant
            i <= children.len(),
            open_top(s0),
            visitor.stack@ == with_children(s0, acc),
            audit_children(*children, i as int, acc, visitor.input@) == audit_children(
                *children,
                0,
                seq![],
                old(visitor).input@,
            ),
        decreases children.len() - i,
    {
        proof {
            assert(decreases_to!(*children => children[i as int]));
            lemma_with_children_push(s0, acc, ResultTree::Rule { id: 0, verdict: EvalResult::Accept });
        }
        let ghost before = visitor.stack@;
        let ghost t = audit_child(children[i as int], visitor.input@).0;
        match children[i].accept(visitor) {
            Err(e) => {
                return Err(e);
            },
            Ok(()) => {},
        }
        proof {
            lemma_with_children_push(s0, acc, t->Ok_0);
            acc = acc.push(t->Ok_0);
        }
        i = i + 1;
    }
    Ok(())
}

impl ModuleChildren {
    pub fn accept(&self, visitor: &mut ResultAggregatingVisitor) -> (r: Result<(), EvalError>)
        requires
            open_top(old(visitor).stack@),
        ensures
            final(visitor).input@ == audit_child(*self, old(visitor).input@).1,
            visit_outcome(r, old(visitor).stack@, final(visitor).stack@, audit_child(*self, old(visitor).input@).0),
        decreases self,
    {
        match self {
            ModuleChildren::PassAllModule(m) => m.accept(visitor),
            ModuleChildren::SimpleModule(m) => m.accept(visitor),
            ModuleChildren::Rule(r) => r.accept(visitor),
        }
    }
}

impl Rule {
    pub fn accept(&self, visitor: &mut ResultAggregatingVisitor) -> (r: Result<(), EvalError>)
        requires
            open_top(old(visitor).stack@),
        ensures
            final(visitor).input@ == audit_child(ModuleChildren::Rule(*self), old(visitor).input@).1,
            visit_outcome(
                r,
                old(visitor).stack@,
                final(visitor).stack@,
                audit_child(ModuleChildren::Rule(*self), old(visitor).input@).0,
            ),
    {
        visitor.visit_rule(self)
    }
}

impl SimpleModule {
    pub fn accept(&self, visitor: &mut ResultAggregatingVisitor) -> (r: Result<(), EvalError>)
        requires
            open_top(old(visitor).stack@),
        ensures
            final(visitor).input@ == audit_simple(*self, old(visitor).input@).1,
            visit_outcome(r, old(visitor).stack@, final(visitor).stack@, audit_simple(*self, old(visitor).input@).0),
        decreases self,
    {
        let ghost s0 = visitor.stack@;
        visitor.visit_module(self)?;
        let ghost s1 = visitor.stack@;
        let ghost v = eval_simple(*self, old(visitor).input@).0->Ok_0;
        accept_children(&self.children, visitor)?;
        proof {
            let ts = audit_children(self.children, 0, seq![], eval_simple(*self, old(visitor).input@).1).0->Ok_0;
            assert(seq![] + ts =~= ts);
            assert(visitor.stack@ =~= s0.push(
                ResultTree::Module { id: self.module_name@, verdict: v, children: ts },
            ));
            assert(visitor.stack@.drop_last() =~= s0);
        }
        visitor.leave_module();
        Ok(())
    }
}

impl PassAllModule {
    pub fn accept(&self, visitor: &mut ResultAggregatingVisitor) -> (r: Result<(), EvalError>)
        requires
            open_top(old(visitor).stack@),
        ensures
            final(visitor).input@ == audit_pass_all(*self, old(visitor).input@).1,
            visit_outcome(r, old(visitor).stack@, final(visitor).stack@, audit_pass_all(*self, old(visitor).input@).0),
        decreases self,
    {
        let ghost s0 = visitor.stack@;
        visitor.visit_pass_all_module(self)?;
        let ghost v = run_children(self.children, pass_all(), 0, seq![], old(visitor).input@).0->Ok_0;
        accept_children(&self.children, visitor)?;
        proof {
            let ts = audit_children(
                self.children,
                0,
                seq![],
                run_children(self.children, pass_all(), 0, seq![], old(visitor).input@).1,
            ).0->Ok_0;
            assert(seq![] + ts =~= ts);
            assert(visitor.stack@ =~= s0.push(
                ResultTree::Module { id: self.module_name@, verdict: v, children: ts },
            ));
            assert(visitor.stack@.drop_last() =~= s0);
        }
        visitor.leave_module();
        Ok(())
    }
}

/// A module with exactly one child, a rule, yields a module entry with its
/// own name and verdict and exactly one rule entry: the rule's id, with the
/// verdict the rule gave when the module was evaluated (its variables
/// published); for a module without variables, the rule's verdict on the
/// visitor's own dataset.
pub proof fn lemma_single_rule_audit(m: SimpleModule, d: DatasetModel)
    requires
        m.children.len() == 1,
        m.children[0] is Rule,
        audit_simple(m, d).0 is Ok,
    ensures
        ({
            let t = audit_simple(m, d).0->Ok_0;
            let rule = m.children[0]->Rule_0;
            let published = publish_from(m.variables@, 0, d);
            &&& t is Module
            &&& t->Module_id == m.module_name@
            &&& t->Module_verdict == eval_simple(m, d).0->Ok_0
            &&& t->Module_children.len() == 1
            &&& eval_rule(rule, published).0 is Ok
            &&& t->Module_children[0] == ResultTree::Rule {
                id: rule.rule_id,
                verdict: eval_rule(rule, published).0->Ok_0,
            }
            &&& m.variables.len() == 0 ==> t->Module_children[0] == ResultTree::Rule {
                id: rule.rule_id,
                verdict: eval_rule(rule, d).0->Ok_0,
            }
        }),
{
    let rule = m.children[0]->Rule_0;
    let dp = publish_from(m.variables@, 0, d);
    let e1 = eval_rule(rule, dp).1;
    assert(eval_child(m.children[0], dp) == eval_rule(rule, dp));
    assert(eval_simple(m, d).1 == e1);
    lemma_eval_rule_alike(rule, dp, dp);
    lemma_eval_rule_alike(rule, e1, dp);
    let d1 = eval_simple(m, d).1;
    assert(audit_children(m.children, 1, seq![audit_child(m.children[0], d1).0->Ok_0], audit_child(m.children[0], d1).1).0
        == Ok::<Seq<ResultTree>, EvalError>(seq![audit_child(m.children[0], d1).0->Ok_0]));
}

} // verus!
