//! The records a decision reads: the applicant's own data, which seeds every
//! dataset, and the credit bureau records that fetchers bring on demand.
use vstd::prelude::*;
use crate::datasource::{DecisionDataInputNode, DecisionDataRequestHandler, InputField};
use crate::json::text_is;

verus! {

/// The data an applicant supplies with a decision request.
pub struct ApplicationDataV1 {
    pub first_name: String,
    pub last_name: String,
    pub age: i32,
}

impl ApplicationDataV1 {
    pub fn new(first_name: String, last_name: String, age: i32) -> (r: ApplicationDataV1)
        ensures
            r.first_name@ == first_name@,
            r.last_name@ == last_name@,
            r.age == age,
    {
        ApplicationDataV1 { first_name, last_name, age }
    }

    pub fn decision_data_type() -> (r: &'static str)
        ensures
            r@ == "ApplicationData"@,
    {
        "ApplicationData"
    }

    pub fn first_name(&self) -> (r: String)
        ensures
            r@ == self.first_name@,
    {
        self.first_name.clone()
    }

    pub fn last_name(&self) -> (r: String)
        ensures
            r@ == self.last_name@,
    {
        self.last_name.clone()
    }

    pub fn age(&self) -> (r: i32)
        ensures
            r == self.age,
    {
        self.age
    }
}

/// A credit bureau record, version 1.0.
#[derive(PartialEq, Eq, Structural, Clone, Copy, Debug)]
pub struct ExperianV1_0 {
    pub score: i32,
}

impl ExperianV1_0 {
    pub fn score(&self) -> (r: i32)
        ensures
            r == self.score,
    {
        self.score
    }
}

/// A credit bureau record, version 1.1.
#[derive(PartialEq, Eq, Structural, Clone, Copy, Debug)]
pub struct ExperianV1_1 {
    pub score: i32,
    pub debt: i32,
}

impl ExperianV1_1 {
    pub fn decision_data_type() -> (r: &'static str)
        ensures
            r@ == "Experian V1.1"@,
    {
        "Experian V1.1"
    }

    pub fn score(&self) -> (r: i32)
        ensures
            r == self.score,
    {
        self.score
    }

    pub fn debt(&self) -> (r: i32)
        ensures
            r == self.debt,
    {
        self.debt
    }
}

/// The number of calls a fetcher has answered after one more, stopping at
/// the largest `u64`.
pub open spec fn one_more_call(calls: u64) -> u64 {
    if calls < u64::MAX {
        (calls + 1) as u64
    } else {
        calls
    }
}

/// A fetcher of version 1.0 records that hands out a fixed record and
/// counts the calls it answered.
#[derive(Clone, Copy, Debug)]
pub struct MockedExperianV1_0Fetcher {
    pub data: ExperianV1_0,
    pub calls: u64,
}

impl MockedExperianV1_0Fetcher {
    pub fn new(data: ExperianV1_0) -> (r: Self)
        ensures
            r.data == data,
            r.calls == 0,
    {
        Self { data, calls: 0 }
    }

    /// The fetcher that a dataset built from applicant data starts with.
    pub fn test() -> (r: Self)
        ensures
            r.data == (ExperianV1_0 { score: 1000 }),
            r.calls == 0,
    {
        Self { data: ExperianV1_0 { score: 1000 }, calls: 0 }
    }

    /// The number of calls answered so far.
    pub fn calls(&self) -> (r: u64)
        ensures
            r == self.calls,
    {
        self.calls
    }

    /// Brings the record for an applicant.
    pub fn fetch(&mut self, _application: &Option<ApplicationDataV1>) -> (r: ExperianV1_0)
        ensures
            r == old(self).data,
            final(self).data == old(self).data,
            final(self).calls == one_more_call(old(self).calls),
    {
        if self.calls < u64::MAX {
            self.calls = self.calls + 1;
        }
        self.data
    }
}

/// A fetcher of version 1.1 records that hands out a fixed record and
/// counts the calls it answered.
#[derive(Clone, Copy, Debug)]
pub struct MockedExperianV1_1Fetcher {
    pub data: ExperianV1_1,
    pub calls: u64,
}

impl MockedExperianV1_1Fetcher {
    pub fn new(data: ExperianV1_1) -> (r: Self)
        ensures
            r.data == data,
            r.calls == 0,
    {
        Self { data, calls: 0 }
    }

    /// The fetcher that a dataset built from applicant data starts with.
    pub fn test() -> (r: Self)
        ensures
            r.data == (ExperianV1_1 { score: 1000, debt: 0 }),
            r.calls == 0,
    {
        Self { data: ExperianV1_1 { score: 1000, debt: 0 }, calls: 0 }
    }

    /// The number of calls answered so far.
    pub fn calls(&self) -> (r: u64)
        ensures
            r == self.calls,
    {
        self.calls
    }

    /// Brings the record for an applicant.
    pub fn fetch(&mut self, _application: &Option<ApplicationDataV1>) -> (r: ExperianV1_1)
        ensures
            r == old(self).data,
            final(self).data == old(self).data,
            final(self).calls == one_more_call(old(self).calls),
    {
        if self.calls < u64::MAX {
            self.calls = self.calls + 1;
        }
        self.data
    }
}

impl DecisionDataRequestHandler for ApplicationDataV1 {
    open spec fn field_named(name: Seq<char>) -> Option<InputField> {
        if name == "first_name"@ {
            Some(InputField::FirstName)
        } else if name == "last_name"@ {
            Some(InputField::LastName)
        } else if name == "age"@ {
            Some(InputField::Age)
        } else {
            None
        }
    }

    fn parse_node(name: &String) -> (r: Option<DecisionDataInputNode>) {
        let field = if text_is(name, "first_name") {
            InputField::FirstName
        } else if text_is(name, "last_name") {
            InputField::LastName
        } else if text_is(name, "age") {
            InputField::Age
        } else {
            return None;
        };
        Some(DecisionDataInputNode { field })
    }
}

impl DecisionDataRequestHandler for ExperianV1_0 {
    open spec fn field_named(name: Seq<char>) -> Option<InputField> {
        if name == "score"@ {
            Some(InputField::Experian10Score)
        } else {
            None
        }
    }

    fn parse_node(name: &String) -> (r: Option<DecisionDataInputNode>) {
        if text_is(name, "score") {
            Some(DecisionDataInputNode { field: InputField::Experian10Score })
        } else {
            None
        }
    }
}

impl DecisionDataRequestHandler for ExperianV1_1 {
    open spec fn field_named(name: Seq<char>) -> Option<InputField> {
        if name == "score"@ {
            Some(InputField::Experian11Score)
        } else if name == "debt"@ {
            Some(InputField::Experian11Debt)
        } else {
            None
        }
    }

    fn parse_node(name: &String) -> (r: Option<DecisionDataInputNode>) {
        if text_is(name, "score") {
            Some(DecisionDataInputNode { field: InputField::Experian11Score })
        } else if text_is(name, "debt") {
            Some(DecisionDataInputNode { field: InputField::Experian11Debt })
        } else {
            None
        }
    }
}

} // verus!
