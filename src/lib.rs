//! An engine that evaluates decision strategies: trees of modules and rules
//! over typed expression nodes, read against an applicant's data.
pub mod nodes;
pub mod operations;
pub mod records;
pub mod results;
pub mod datasource;
pub mod deserializers;
pub mod json;
pub mod modules;
pub mod rules;
pub mod visitor;

use vstd::prelude::*;
use crate::json::JsonValue;
use crate::modules::{SimpleModule, parse_module, deserialize_module};

verus! {

/// The verdict of a rule, a module or a whole decision strategy.
#[derive(PartialEq, Eq, Structural, Clone, Copy, Debug)]
pub enum EvalResult {
    Accept,
    Reject,
}

/// A failure that stops an evaluation: the strategy is malformed for the data
/// it met.
#[derive(PartialEq, Eq, Structural, Clone, Copy, Debug)]
pub enum EvalError {
    /// A rule has no condition with this id (the entry point or a goto target).
    MissingCondition(i32),
    /// The node of this condition did not give a boolean.
    NotBoolean(i32),
    /// A rule took more steps than it has conditions, so its gotos loop;
    /// the id is the condition it was about to visit again.
    GotoCycle(i32),
}

/// A strategy document that cannot be built.
#[derive(PartialEq, Eq, Structural, Clone, Copy, Debug)]
pub enum BuildError {
    /// A member is missing or holds the wrong kind of JSON value.
    Malformed,
    UnknownNodeType,
    UnknownOperation,
    /// A constant that is not a boolean, a string, an `i32` or an array of them.
    UnsupportedConstant,
    /// An input path that names no known record field and no variable.
    UnknownInput,
    UnknownModuleType,
    UnknownDecision,
    /// A condition id that is not the decimal text of an `i32`.
    BadConditionId,
    /// A rule without the entry condition, id 1.
    MissingEntryCondition,
    /// A rule with two conditions of one id.
    DuplicateCondition,
}

/// A stored decision strategy: its id and its document.
pub struct DecisionStrategy {
    pub decision_strategy_id: i32,
    pub decision_strategy_json: JsonValue,
}

impl DecisionStrategy {
    pub fn new(decision_strategy_id: i32, decision_strategy_json: JsonValue) -> (r: Self)
        ensures
            r.decision_strategy_id == decision_strategy_id,
            r.decision_strategy_json == decision_strategy_json,
    {
        DecisionStrategy { decision_strategy_id, decision_strategy_json }
    }

    pub fn decision_strategy_id(&self) -> (r: i32)
        ensures
            r == self.decision_strategy_id,
    {
        self.decision_strategy_id
    }

    /// The module the strategy document describes.
    pub fn get_module(&self) -> (r: Result<SimpleModule, BuildError>)
        ensures
            match parse_module(self.decision_strategy_json) {
                Ok(m) => r is Ok && r->Ok_0.model() == m,
                Err(e) => r is Err && r->Err_0 == e,
            },
    {
        deserialize_module(&self.decision_strategy_json)
    }
}

} // verus!
