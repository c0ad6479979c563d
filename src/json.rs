//! A JSON document as the strategy builder reads it.
use vstd::prelude::*;

verus! {

/// A JSON value.  Numbers that are not integers in the `i64` range are kept
/// only as `OtherNumber`: no part of a strategy can use them.
#[derive(Debug)]
pub enum JsonValue {
    Null,
    Bool(bool),
    Int(i64),
    OtherNumber,
    Str(String),
    Array(Vec<JsonValue>),
    Object(Vec<(String, JsonValue)>),
}

/// The first index at or after `i` of an entry with key `key`, or -1.
pub open spec fn key_index_from(entries: Seq<(String, JsonValue)>, key: Seq<char>, i: int) -> int
    decreases entries.len() - i,
{
    if i < 0 || i >= entries.len() {
        -1
    } else if entries[i].0@ == key {
        i
    } else {
        key_index_from(entries, key, i + 1)
    }
}

/// The index of the first entry with key `key`, or -1.
pub open spec fn key_index(entries: Seq<(String, JsonValue)>, key: Seq<char>) -> int {
    key_index_from(entries, key, 0)
}

pub proof fn lemma_key_index_range(entries: Seq<(String, JsonValue)>, key: Seq<char>, i: int)
    ensures
        -1 <= key_index_from(entries, key, i) < entries.len(),
        key_index_from(entries, key, i) >= 0 ==> entries[key_index_from(entries, key, i)].0@ == key,
    decreases entries.len() - i,
{
    if 0 <= i < entries.len() && entries[i].0@ != key {
        lemma_key_index_range(entries, key, i + 1);
    }
}

/// The member `key` of an object, if the value is an object that has one.
pub open spec fn member(j: JsonValue, key: Seq<char>) -> Option<JsonValue> {
    match j {
        JsonValue::Object(entries) => {
            let k = key_index(entries@, key);
            if 0 <= k < entries.len() {
                Some(entries[k].1)
            } else {
                None
            }
        },
        _ => None,
    }
}

/// The text of a member that is a string.
pub open spec fn member_str(j: JsonValue, key: Seq<char>) -> Option<Seq<char>> {
    match member(j, key) {
        Some(JsonValue::Str(s)) => Some(s@),
        _ => None,
    }
}

/// Whether `s` holds the same text as the literal `lit`.
pub fn text_is(s: &String, lit: &str) -> (r: bool)
    ensures
        r == (s@ == lit@),
{
    *s == String::from_str(lit)
}

impl JsonValue {
    /// The member `key` of an object.
    pub fn get(&self, key: &str) -> (r: Option<&JsonValue>)
        ensures
            match r {
                Some(x) => member(*self, key@) == Some(*x),
                None => member(*self, key@) is None,
            },
    {
        match self {
            JsonValue::Object(entries) => {
                let k = String::from_str(key);
                let mut i: usize = 0;
                while i < entries.len()
                    invariant
                        *self == JsonValue::Object(*entries),
                        i <= entries.len(),
                        k@ == key@,
                        key_index_from(entries@, key@, i as int) == key_index(entries@, key@),
                    decreases entries.len() - i,
                {
                    if entries[i].0 == k {
                        return Some(&entries[i].1);
                    }
                    i = i + 1;
                }
                None
            },
            _ => None,
        }
    }

    /// The text of the member `key`, if it is a string.
    pub fn get_str(&self, key: &str) -> (r: Option<&String>)
        ensures
            match r {
                Some(s) => member_str(*self, key@) == Some(s@),
                None => member_str(*self, key@) is None,
            },
    {
        match self.get(key) {
            Some(JsonValue::Str(s)) => Some(s),
            _ => None,
        }
    }
}

} // verus!
