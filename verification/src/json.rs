//! What a lookup service answered, and the way to the timezone in it.
//!
//! A service answers with a JSON document. [`Json`] holds such a document
//! once it is parsed; the timezone stands in it as a string, under the chain
//! of object keys that the service is known to use.

use vstd::prelude::*;
use vstd::string::*;

verus! {

/// A JSON document.
#[derive(Debug, PartialEq, Eq)]
pub enum Json {
    Null,
    Bool(bool),
    /// A number, as its decimal text.
    Number(String),
    /// A string.
    Text(String),
    Array(Vec<Json>),
    /// An object: its members, each a key and a value. A parsed document
    /// holds each key once; where one stands twice, the first is the one that
    /// is found.
    Object(Vec<(String, Json)>),
}

/// The keys in `keys`, as the contracts see them.
pub open spec fn keys_of(keys: Seq<&str>) -> Seq<Seq<char>> {
    Seq::new(keys.len(), |i: int| keys[i]@)
}

/// The value of the first of `members` whose key is `key`.
pub open spec fn member(members: Seq<(String, Json)>, key: Seq<char>) -> Option<Json>
    decreases members.len(),
{
    if members.len() == 0 {
        None
    } else if members[0].0@ == key {
        Some(members[0].1)
    } else {
        member(members.drop_first(), key)
    }
}

/// A key that no member has gives nothing; else the first member with the
/// key gives its value.
pub proof fn law_member_is_first(members: Seq<(String, Json)>, key: Seq<char>)
    ensures
        member(members, key) is None <==> forall|i: int|
            0 <= i < members.len() ==> (#[trigger] members[i]).0@ != key,
        member(members, key) matches Some(value) ==> exists|i: int|
            {
                &&& 0 <= i < members.len()
                &&& (#[trigger] members[i]).0@ == key
                &&& members[i].1 == value
                &&& forall|j: int| 0 <= j < i ==> (#[trigger] members[j]).0@ != key
            },
    decreases members.len(),
{
    if members.len() > 0 {
        let rest = members.drop_first();
        assert(forall|i: int| 0 <= i < rest.len() ==> rest[i] == members[i + 1]);
        if members[0].0@ == key {
            assert(forall|j: int| 0 <= j < 0 ==> (#[trigger] members[j]).0@ != key);
        } else {
            law_member_is_first(rest, key);
            if member(rest, key) is None {
                assert forall|i: int| 0 <= i < members.len() implies (#[trigger] members[i]).0@
                    != key by {
                    if i > 0 {
                        assert(rest[i - 1].0@ != key);
                    }
                }
            } else {
                let at = choose|i: int|
                    {
                        &&& 0 <= i < rest.len()
                        &&& (#[trigger] rest[i]).0@ == key
                        &&& rest[i].1 == member(rest, key)->Some_0
                        &&& forall|j: int| 0 <= j < i ==> (#[trigger] rest[j]).0@ != key
                    };
                assert(members[at + 1].0@ == key);
                assert forall|j: int| 0 <= j < at + 1 implies (#[trigger] members[j]).0@
                    != key by {
                    if j > 0 {
                        assert(rest[j - 1].0@ != key);
                    }
                }
                assert(rest[at].0@ == key);
            }
        }
    }
}

/// The value under `key` in `data`, where `data` is an object that has one.
pub open spec fn child(data: Json, key: Seq<char>) -> Option<Json> {
    match data {
        Json::Object(members) => member(members@, key),
        _ => None,
    }
}

/// The value reached from `data` by descending through `keys` in turn: with
/// `["a", "b"]`, the value of `data["a"]["b"]`. There is none where a step
/// meets a value that is no object, or an object without the key.
pub open spec fn nested(data: Json, keys: Seq<Seq<char>>) -> Option<Json>
    decreases keys.len(),
{
    if keys.len() == 0 {
        Some(data)
    } else {
        match child(data, keys[0]) {
            Some(inner) => nested(inner, keys.drop_first()),
            None => None,
        }
    }
}

/// Why an answer gave no timezone.
#[derive(Clone, Copy, Debug, PartialEq, Eq, Structural)]
pub enum LookupError {
    /// The keys lead to no value.
    MissingField,
    /// The value under the keys is no string.
    NotAString,
}

/// The timezone that `data` holds under `keys`: the value there, where there
/// is one and it is a string.
pub open spec fn timezone_at(data: Json, keys: Seq<Seq<char>>) -> Result<String, LookupError> {
    match nested(data, keys) {
        Some(Json::Text(zone)) => Ok(zone),
        Some(_) => Err(LookupError::NotAString),
        None => Err(LookupError::MissingField),
    }
}

/// Takes the value under `key` out of `data`.
fn take_child(data: Json, key: &str) -> (value: Option<Json>)
    ensures
        value == child(data, key@),
{
    match data {
        Json::Object(mut members) => {
            let wanted = key.to_owned();
            let ghost all = members@;
            let mut at: usize = 0;
            assert(all.skip(0) =~= all);
            while at < members.len() && members[at].0 != wanted
                invariant
                    at <= members.len(),
                    members@ == all,
                    wanted@ == key@,
                    member(all, key@) == member(all.skip(at as int), key@),
                decreases members.len() - at,
            {
                assert(all.skip(at as int).drop_first() =~= all.skip(at + 1));
                at += 1;
            }
            if at < members.len() {
                let (_, value) = members.remove(at);
                Some(value)
            } else {
                None
            }
        },
        _ => None,
    }
}

/// Given the keys `["foo", "bar", "baz"]`, retrieves the value at
/// `data["foo"]["bar"]["baz"]`.
pub fn get_nested_value(data: Json, keys: &[&str]) -> (value: Option<Json>)
    ensures
        value == nested(data, keys_of(keys@)),
{
    let ghost all = keys_of(keys@);
    let mut reached = data;
    let mut at: usize = 0;
    assert(all.skip(0) =~= all);
    while at < keys.len()
        invariant
            at <= keys.len(),
            all == keys_of(keys@),
            nested(data, all) == nested(reached, all.skip(at as int)),
        decreases keys.len() - at,
    {
        let ghost rest = all.skip(at as int);
        assert(rest.drop_first() =~= all.skip(at + 1));
        assert(rest[0] == keys[at as int]@);
        match take_child(reached, keys[at]) {
            Some(inner) => {
                reached = inner;
            },
            None => {
                return None;
            },
        }
        at += 1;
    }
    Some(reached)
}

/// Reads the timezone out of a service's answer: the string that stands in
/// `data` under `keys`. It is an error for the keys to lead nowhere, and
/// another for them to lead to a value that is no string.
pub fn timezone_in(data: Json, keys: &[&str]) -> (zone: Result<String, LookupError>)
    ensures
        zone == timezone_at(data, keys_of(keys@)),
{
    match get_nested_value(data, keys) {
        Some(Json::Text(zone)) => Ok(zone),
        Some(_) => Err(LookupError::NotAString),
        None => Err(LookupError::MissingField),
    }
}

} // verus!
