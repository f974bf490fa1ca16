//! The JSON values that the GraphQL backend answers with, as plain data.

use vstd::prelude::*;

verus! {

/// A JSON value. Numbers keep what the logic reads of them: an `Int` is a
/// number that has an `i64` value; every other number is `OtherNumber`, which
/// keeps the number as written.
/// An object keeps its members in the order they are given; looking up a
/// key finds the first member with that key.
pub enum JsonValue {
    Null,
    Bool(bool),
    Int(i64),
    OtherNumber(String),
    Str(String),
    Array(Vec<JsonValue>),
    Object(Vec<(String, JsonValue)>),
}

/// The value under `key` among `entries`: that of the first member with that key.
pub open spec fn entry_lookup(entries: Seq<(String, JsonValue)>, key: Seq<char>) -> Option<
    JsonValue,
>
    decreases entries.len(),
{
    if entries.len() == 0 {
        None
    } else if entries[0].0@ == key {
        Some(entries[0].1)
    } else {
        entry_lookup(entries.drop_first(), key)
    }
}

/// The value that a looked-up reference points to.
pub open spec fn deref_value(r: Option<&JsonValue>) -> Option<JsonValue> {
    match r {
        Some(v) => Some(*v),
        None => None,
    }
}

/// The `i64` of a value that may be absent.
pub open spec fn opt_as_i64(v: Option<JsonValue>) -> Option<i64> {
    match v {
        Some(value) => value.spec_as_i64(),
        None => None,
    }
}

/// The member `key` of a value that may be absent.
pub open spec fn opt_get(v: Option<JsonValue>, key: Seq<char>) -> Option<JsonValue> {
    match v {
        Some(value) => value.spec_get(key),
        None => None,
    }
}

/// The elements of a value that may be absent, when it is an array.
pub open spec fn opt_as_array(v: Option<JsonValue>) -> Option<Seq<JsonValue>> {
    match v {
        Some(value) => value.spec_as_array(),
        None => None,
    }
}

/// Looking up a key among an object's members finds the value of the first
/// member with that key, and nothing when no member has it.
pub proof fn law_lookup_first_member(entries: Seq<(String, JsonValue)>, key: Seq<char>, i: int)
    ensures
        (0 <= i < entries.len() && entries[i].0@ == key && forall|j: int|
            0 <= j < i ==> #[trigger] entries[j].0@ != key) ==> entry_lookup(entries, key) == Some(entries[i].1),
        (forall|j: int| 0 <= j < entries.len() ==> #[trigger] entries[j].0@ != key) ==> entry_lookup(
            entries,
            key,
        ) is None,
    decreases entries.len(),
{
    if entries.len() > 0 {
        let rest = entries.drop_first();
        law_lookup_first_member(rest, key, i - 1);
        if 0 <= i < entries.len() && entries[i].0@ == key && forall|j: int|
            0 <= j < i ==> #[trigger] entries[j].0@ != key {
            if i > 0 {
                assert(entries[0].0@ != key);
                assert(rest[i - 1] == entries[i]);
                assert forall|j: int| 0 <= j < i - 1 implies #[trigger] rest[j].0@ != key by {
                    assert(rest[j] == entries[j + 1]);
                }
            }
        }
        if forall|j: int| 0 <= j < entries.len() ==> #[trigger] entries[j].0@ != key {
            assert(entries[0].0@ != key);
            assert forall|j: int| 0 <= j < rest.len() implies #[trigger] rest[j].0@ != key by {
                assert(rest[j] == entries[j + 1]);
            }
        }
    }
}

impl JsonValue {
    /// The member `key` of an object; nothing for any other value.
    pub open spec fn spec_get(self, key: Seq<char>) -> Option<JsonValue> {
        match self {
            JsonValue::Object(entries) => entry_lookup(entries@, key),
            _ => None,
        }
    }

    /// The number of an `Int`; nothing for any other value.
    pub open spec fn spec_as_i64(self) -> Option<i64> {
        match self {
            JsonValue::Int(i) => Some(i),
            _ => None,
        }
    }

    /// The elements of an array; nothing for any other value.
    pub open spec fn spec_as_array(self) -> Option<Seq<JsonValue>> {
        match self {
            JsonValue::Array(items) => Some(items@),
            _ => None,
        }
    }

    /// Looks up the member `key` of an object, as `serde_json::Value::get` does.
    pub fn get(&self, key: &str) -> (r: Option<&JsonValue>)
        ensures
            deref_value(r) == self.spec_get(key@),
    {
        match self {
            JsonValue::Object(entries) => {
                let wanted = String::from_str(key);
                let mut i: usize = 0;
                assert(entries@.skip(0) =~= entries@);
                while i < entries.len()
                    invariant
                        i <= entries.len(),
                        wanted@ == key@,
                        self.spec_get(key@) == entry_lookup(entries@, key@),
                        entry_lookup(entries@, key@) == entry_lookup(entries@.skip(i as int), key@),
                    decreases entries.len() - i,
                {
                    assert(entries@.skip(i as int).drop_first() =~= entries@.skip(i + 1));
                    assert(entries@.skip(i as int)[0] == entries@[i as int]);
                    if entries[i].0 == wanted {
                        return Some(&entries[i].1);
                    }
                    i = i + 1;
                }
                assert(entries@.skip(i as int).len() == 0);
                None
            },
            _ => None,
        }
    }

    /// The number of an `Int`, as `serde_json::Value::as_i64` gives it.
    pub fn as_i64(&self) -> (r: Option<i64>)
        ensures
            r == self.spec_as_i64(),
    {
        match self {
            JsonValue::Int(i) => Some(*i),
            _ => None,
        }
    }

    /// The elements of an array, as `serde_json::Value::as_array` gives them.
    pub fn as_array(&self) -> (r: Option<&Vec<JsonValue>>)
        ensures
            r matches Some(items) ==> self.spec_as_array() == Some(items@),
            r is None ==> self.spec_as_array() is None,
    {
        match self {
            JsonValue::Array(items) => Some(items),
            _ => None,
        }
    }
}

} // verus!
