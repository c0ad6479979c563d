//! The audit tree of a detailed evaluation: the verdict of every module and
//! rule of a strategy.
use vstd::prelude::*;
use crate::EvalResult;

verus! {

/// The verdict of one rule.
#[derive(PartialEq, Eq, Structural, Clone, Copy, Debug)]
pub struct RuleResult {
    pub result: EvalResult,
    pub rule_id: i32,
}

/// The verdict of one module, with those of its children in order.
#[derive(Debug)]
pub struct ModuleResult {
    pub result: EvalResult,
    pub module_id: String,
    pub submodule_results: Vec<SubmoduleResult>,
}

/// An entry of the audit tree.
#[derive(Debug)]
pub enum SubmoduleResult {
    ModuleResult(ModuleResult),
    RuleResult(RuleResult),
}

/// The outcome of a whole decision request.
#[derive(Debug)]
pub struct DecisionResult {
    pub application_id: u64,
    pub result: EvalResult,
    pub module_results: Vec<ModuleResult>,
}

/// The mathematical form of an audit tree.
#[allow(inconsistent_fields)]
pub ghost enum ResultTree {
    Module { id: Seq<char>, verdict: EvalResult, children: Seq<ResultTree> },
    Rule { id: i32, verdict: EvalResult },
}

/// The trees of the first `n` entries of `v`.
pub open spec fn trees_upto(v: &Vec<SubmoduleResult>, n: int) -> Seq<ResultTree>
    decreases v, n,
{
    if 0 < n <= v.len() {
        trees_upto(v, n - 1).push(v[n - 1].tree())
    } else {
        Seq::empty()
    }
}

impl SubmoduleResult {
    pub open spec fn tree(&self) -> ResultTree
        decreases self,
    {
        match self {
            SubmoduleResult::ModuleResult(m) => ResultTree::Module {
                id: m.module_id@,
                verdict: m.result,
                children: trees_upto(&m.submodule_results, m.submodule_results.len() as int),
            },
            SubmoduleResult::RuleResult(r) => ResultTree::Rule { id: r.rule_id, verdict: r.result },
        }
    }
}

impl View for SubmoduleResult {
    type V = ResultTree;

    open spec fn view(&self) -> ResultTree {
        self.tree()
    }
}

/// The trees of all entries of `v`.
pub open spec fn trees_of(v: &Vec<SubmoduleResult>) -> Seq<ResultTree> {
    trees_upto(v, v.len() as int)
}

proof fn lemma_trees_upto_push(v: &Vec<SubmoduleResult>, w: &Vec<SubmoduleResult>, n: int)
    requires
        0 <= n <= v.len(),
        w@ == v@.push(w@.last()),
    ensures
        trees_upto(w, n) == trees_upto(v, n),
    decreases n,
{
    if n > 0 {
        lemma_trees_upto_push(v, w, n - 1);
        assert(w[n - 1] == v[n - 1]);
    }
}

impl ModuleResult {
    pub open spec fn tree(&self) -> ResultTree {
        ResultTree::Module {
            id: self.module_id@,
            verdict: self.result,
            children: trees_of(&self.submodule_results),
        }
    }

    pub fn add_submodule_result(&mut self, result: SubmoduleResult)
        ensures
            final(self).result == old(self).result,
            final(self).module_id == old(self).module_id,
            trees_of(&final(self).submodule_results) == trees_of(&old(self).submodule_results).push(result@),
    {
        let ghost before = self.submodule_results;
        self.submodule_results.push(result);
        proof {
            lemma_trees_upto_push(&before, &self.submodule_results, before.len() as int);
        }
    }
}

} // verus!
