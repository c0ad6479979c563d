//! A builder for strategies made only of pass-all modules and rules.
use vstd::prelude::*;
use crate::json::{JsonValue, key_index, member_str, text_is, lemma_key_index_range};
use crate::modules::{ModuleChildren, ModuleModel, PassAllModule, child_models_upto, lemma_child_models_push};
use crate::rules::{Rule, parse_rule, deserialize_rule};
use crate::BuildError;

verus! {

impl PassAllModule {
    pub open spec fn model(&self) -> ModuleModel {
        ModuleModel::PassAll {
            name: self.module_name@,
            children: child_models_upto(&self.children, self.children.len() as int),
        }
    }
}

/// A pass-all module of a strategy document: its children first, then its
/// type, which must be "all", then its name.
pub open spec fn parse_pass_all_module(j: JsonValue) -> Result<ModuleModel, BuildError>
    decreases j, 0int,
{
    match j {
        JsonValue::Object(entries) => {
            let k = key_index(entries@, "children"@);
            if 0 <= k < entries.len() {
                match entries[k].1 {
                    JsonValue::Array(items) => match parse_pass_all_children(&items, items.len() as int) {
                        Err(e) => Err(e),
                        Ok(cs) => pass_all_with_children(j, cs),
                    },
                    _ => Err(BuildError::Malformed),
                }
            } else {
                Err(BuildError::Malformed)
            }
        },
        _ => Err(BuildError::Malformed),
    }
}

pub open spec fn pass_all_with_children(j: JsonValue, children: Seq<ModuleModel>) -> Result<ModuleModel, BuildError> {
    match member_str(j, "module_type"@) {
        None => Err(BuildError::Malformed),
        Some(t) => if t == "all"@ {
            match member_str(j, "module_name"@) {
                None => Err(BuildError::Malformed),
                Some(name) => Ok(ModuleModel::PassAll { name, children }),
            }
        } else {
            Err(BuildError::UnknownModuleType)
        },
    }
}

/// A child of a pass-all module: a rule or another pass-all module.
pub open spec fn parse_pass_all_child(j: JsonValue) -> Result<ModuleModel, BuildError>
    decreases j, 1int,
{
    match member_str(j, "type"@) {
        None => Err(BuildError::Malformed),
        Some(t) => if t == "rule"@ {
            match parse_rule(j) {
                Ok(r) => Ok(ModuleModel::Rule(r)),
                Err(e) => Err(e),
            }
        } else if t == "module"@ {
            parse_pass_all_module(j)
        } else {
            Err(BuildError::UnknownModuleType)
        },
    }
}

pub open spec fn parse_pass_all_children(items: &Vec<JsonValue>, n: int) -> Result<Seq<ModuleModel>, BuildError>
    decreases items, n,
{
    if 0 < n <= items.len() {
        match parse_pass_all_children(items, n - 1) {
            Err(e) => Err(e),
            Ok(cs) => match parse_pass_all_child(items[n - 1]) {
                Ok(c) => Ok(cs.push(c)),
                Err(e) => Err(e),
            },
        }
    } else {
        Ok(seq![])
    }
}

proof fn lemma_pass_all_children_err(items: &Vec<JsonValue>, k: int, n: int)
    requires
        0 < k <= n <= items.len(),
        parse_pass_all_children(items, k) is Err,
    ensures
        parse_pass_all_children(items, n) == parse_pass_all_children(items, k),
    decreases n - k,
{
    if n > k {
        lemma_pass_all_children_err(items, k, n - 1);
    }
}

/// Builds strategies whose modules all reject at their first rejecting child.
pub struct DefaultDeserializer {}

impl DefaultDeserializer {
    pub fn deserialize_rule(&self, value: &JsonValue) -> (r: Result<Rule, BuildError>)
        ensures
            r is Ok ==> r->Ok_0.wf(),
            match parse_rule(*value) {
                Ok(m) => r is Ok && r->Ok_0.model() == m,
                Err(e) => r is Err && r->Err_0 == e,
            },
    {
        deserialize_rule(value)
    }

    fn deserialize_child(&self, value: &JsonValue) -> (r: Result<ModuleChildren, BuildError>)
        ensures
            match parse_pass_all_child(*value) {
                Ok(m) => r is Ok && r->Ok_0.model() == m,
                Err(e) => r is Err && r->Err_0 == e,
            },
        decreases value, 1int,
    {
        let child_type = match value.get_str("type") {
            Some(t) => t,
            None => {
                return Err(BuildError::Malformed);
            },
        };
        if text_is(child_type, "rule") {
            match self.deserialize_rule(value) {
                Ok(r) => Ok(ModuleChildren::Rule(r)),
                Err(e) => Err(e),
            }
        } else if text_is(child_type, "module") {
            match self.deserialize_module(value) {
                Ok(m) => Ok(ModuleChildren::PassAllModule(m)),
                Err(e) => Err(e),
            }
        } else {
            Err(BuildError::UnknownModuleType)
        }
    }

    pub fn deserialize_module(&self, value: &JsonValue) -> (r: Result<PassAllModule, BuildError>)
        ensures
            match parse_pass_all_module(*value) {
                Ok(m) => r is Ok && r->Ok_0.model() == m,
                Err(e) => r is Err && r->Err_0 == e,
            },
        decreases value, 0int,
    {
        let entries = match value {
            JsonValue::Object(entries) => entries,
            _ => {
                return Err(BuildError::Malformed);
            },
        };
        proof {
            lemma_key_index_range(entries@, "children"@, 0);
        }
        let items = match value.get("children") {
            Some(JsonValue::Array(items)) => items,
            _ => {
                return Err(BuildError::Malformed);
            },
        };
        let ghost k = key_index(entries@, "children"@);
        let mut children: Vec<ModuleChildren> = Vec::new();
        let mut i: usize = 0;
        while i < items.len()
            invariant
                *value == JsonValue::Object(*entries),
                k == key_index(entries@, "children"@),
                0 <= k < entries.len(),
                entries[k].1 == JsonValue::Array(*items),
                i <= items.len(),
                children.len() == i,
                parse_pass_all_children(items, i as int) == Ok::<Seq<ModuleModel>, BuildError>(
                    child_models_upto(&children, i as int),
                ),
            decreases items.len() - i,
        {
            proof {
                assert(decreases_to!(*value => value->Object_0));
                assert(decreases_to!(*entries => entries[k]));
                assert(decreases_to!(entries[k] => entries[k].1));
                assert(decreases_to!(entries[k].1 => entries[k].1->Array_0));
                assert(decreases_to!(*items => items[i as int]));
            }
            let c = match self.deserialize_child(&items[i]) {
                Ok(c) => c,
                Err(e) => {
                    proof {
                        lemma_pass_all_children_err(items, i as int + 1, items.len() as int);
                    }
                    return Err(e);
                },
            };
            let ghost before = children;
            children.push(c);
            proof {
                lemma_child_models_push(&before, &children, i as int);
            }
            i = i + 1;
        }
        let module_type = match value.get_str("module_type") {
            Some(t) => t,
            None => {
                return Err(BuildError::Malformed);
            },
        };
        if !text_is(module_type, "all") {
            return Err(BuildError::UnknownModuleType);
        }
        let module_name = match value.get_str("module_name") {
            Some(name) => name.clone(),
            None => {
                return Err(BuildError::Malformed);
            },
        };
        Ok(PassAllModule::new(module_name, children))
    }
}

} // verus!
