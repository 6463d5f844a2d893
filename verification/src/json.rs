//! The library's own model of a JSON document, holding as plain values what
//! the reminder logic reads and writes.

use vstd::prelude::*;
use crate::text::same_text;
use crate::text::string_of;

verus! {

/// A JSON value.
///
/// Numbers are kept as the kinds that the database distinguishes: integers
/// that fit in an `i64`, larger non-negative integers, and other numbers,
/// which are carried as their decimal text and never read.
/// An object keeps its members in order, each key at most once.
#[derive(Debug, PartialEq)]
pub enum Json {
    Null,
    Bool(bool),
    Int(i64),
    BigUInt(u64),
    Float(String),
    Str(String),
    Array(Vec<Json>),
    Object(Vec<(String, Json)>),
}

/// `i` is the first position of `key` among the members.
pub open spec fn is_first_key(members: Seq<(String, Json)>, key: Seq<char>, i: int) -> bool {
    &&& 0 <= i < members.len()
    &&& members[i].0@ == key
    &&& forall|j: int| 0 <= j < i ==> (#[trigger] members[j]).0@ != key
}

/// The position of `key` among the members, if it is there.
pub open spec fn key_position(members: Seq<(String, Json)>, key: Seq<char>) -> Option<int> {
    if exists|i: int| is_first_key(members, key, i) {
        Some(choose|i: int| is_first_key(members, key, i))
    } else {
        None
    }
}

/// The value under `key` in a member list.
pub open spec fn member(members: Seq<(String, Json)>, key: Seq<char>) -> Option<Json> {
    match key_position(members, key) {
        Some(i) => Some(members[i].1),
        None => None,
    }
}

/// There is at most one first position of a key.
pub proof fn lemma_first_key_unique(members: Seq<(String, Json)>, key: Seq<char>, i: int, j: int)
    requires
        is_first_key(members, key, i),
        is_first_key(members, key, j),
    ensures
        i == j,
{
    if i < j {
        assert(members[i].0@ != key);
    } else if j < i {
        assert(members[j].0@ != key);
    }
}

/// Replacing the value at a position keeps every key where it was.
pub proof fn lemma_replace_value(members: Seq<(String, Json)>, p: int, v: Json)
    requires
        0 <= p < members.len(),
    ensures
        forall|k: Seq<char>| #[trigger] key_position(members.update(p, (members[p].0, v)), k) == key_position(members, k),
        forall|k: Seq<char>| #[trigger] member(members.update(p, (members[p].0, v)), k) == if key_position(members, k) == Some(p) {
            Some(v)
        } else {
            member(members, k)
        },
{
    let new = members.update(p, (members[p].0, v));
    assert forall|j: int| 0 <= j < members.len() implies (#[trigger] new[j]).0 == members[j].0 by {}
    assert forall|k: Seq<char>, i: int| is_first_key(new, k, i) <==> is_first_key(members, k, i) by {
        if is_first_key(new, k, i) {
            assert forall|j: int| 0 <= j < i implies (#[trigger] members[j]).0@ != k by {
                assert(new[j].0 == members[j].0);
            }
        }
        if is_first_key(members, k, i) {
            assert forall|j: int| 0 <= j < i implies (#[trigger] new[j]).0@ != k by {
                assert(new[j].0 == members[j].0);
            }
        }
    }
    assert forall|k: Seq<char>| #[trigger] key_position(new, k) == key_position(members, k) by {
        if exists|i: int| is_first_key(members, k, i) {
            let a = choose|i: int| is_first_key(members, k, i);
            assert(is_first_key(new, k, a));
        }
    }
}

/// Appending a member under a new key adds that key and keeps the others.
pub proof fn lemma_append_member(members: Seq<(String, Json)>, key: String, v: Json)
    requires
        key_position(members, key@) is None,
    ensures
        member(members.push((key, v)), key@) == Some(v),
        forall|k: Seq<char>| k != key@ ==> #[trigger] member(members.push((key, v)), k) == member(members, k),
{
    let new = members.push((key, v));
    let n = members.len() as int;
    assert forall|j: int| 0 <= j < n implies (#[trigger] members[j]).0@ != key@ by {
        if members[j].0@ == key@ {
            let f = first_key_at_or_before(members, key@, j);
            assert(is_first_key(members, key@, f));
        }
    }
    assert(is_first_key(new, key@, n));
    assert(key_position(new, key@) is Some);
    let c = choose|i: int| is_first_key(new, key@, i);
    lemma_first_key_unique(new, key@, c, n);
    assert forall|k: Seq<char>| k != key@ implies #[trigger] member(new, k) == member(members, k) by {
        assert forall|j: int| 0 <= j < n implies (#[trigger] new[j]) == members[j] by {}
        assert forall|i: int| is_first_key(new, k, i) <==> is_first_key(members, k, i) by {
            if is_first_key(new, k, i) {
                assert(i != n);
                assert forall|j: int| 0 <= j < i implies (#[trigger] members[j]).0@ != k by {
                    assert(new[j] == members[j]);
                }
            }
            if is_first_key(members, k, i) {
                assert forall|j: int| 0 <= j < i implies (#[trigger] new[j]).0@ != k by {
                    assert(new[j] == members[j]);
                }
            }
        }
        if exists|i: int| is_first_key(members, k, i) {
            let a = choose|i: int| is_first_key(members, k, i);
            assert(is_first_key(new, k, a));
            let b = choose|i: int| is_first_key(new, k, i);
            lemma_first_key_unique(new, k, a, b);
        } else {
            assert(!exists|i: int| is_first_key(new, k, i));
        }
    }
}

/// A key present at `j` has a first position at or before `j`.
proof fn first_key_at_or_before(members: Seq<(String, Json)>, key: Seq<char>, j: int) -> (f: int)
    requires
        0 <= j < members.len(),
        members[j].0@ == key,
    ensures
        is_first_key(members, key, f),
        f <= j,
    decreases j,
{
    if exists|i: int| 0 <= i < j && members[i].0@ == key {
        let i = choose|i: int| 0 <= i < j && members[i].0@ == key;
        first_key_at_or_before(members, key, i)
    } else {
        j
    }
}

impl Json {
    /// The value under `key`, when this is an object that has it.
    pub open spec fn field(self, key: Seq<char>) -> Option<Json> {
        match self {
            Json::Object(members) => member(members@, key),
            _ => None,
        }
    }

    /// The integer this value holds, as `serde_json::Value::as_i64` reads it.
    pub open spec fn int_value(self) -> Option<i64> {
        match self {
            Json::Int(n) => Some(n),
            _ => None,
        }
    }

    /// The text this value holds, when it is a string.
    pub open spec fn text_value(self) -> Option<Seq<char>> {
        match self {
            Json::Str(s) => Some(s@),
            _ => None,
        }
    }

    /// The elements, when this is an array.
    pub open spec fn elements(self) -> Option<Seq<Json>> {
        match self {
            Json::Array(v) => Some(v@),
            _ => None,
        }
    }

    /// The members, when this is an object.
    pub open spec fn members(self) -> Option<Seq<(String, Json)>> {
        match self {
            Json::Object(m) => Some(m@),
            _ => None,
        }
    }

    /// The value under `key`, when this is an object that has it.
    pub fn get(&self, key: &str) -> (r: Option<&Json>)
        ensures
            r matches Some(v) ==> self.field(key@) == Some(*v),
            r is None ==> self.field(key@) is None,
    {
        match self {
            Json::Object(members) => match find_key(members, key) {
                Some(i) => Some(&members[i].1),
                None => None,
            },
            _ => None,
        }
    }

    /// The integer this value holds.
    pub fn as_i64(&self) -> (r: Option<i64>)
        ensures
            r == self.int_value(),
    {
        match self {
            Json::Int(n) => Some(*n),
            _ => None,
        }
    }

    /// The text this value holds.
    pub fn as_str(&self) -> (r: Option<&str>)
        ensures
            r matches Some(s) ==> self.text_value() == Some(s@),
            r is None ==> self.text_value() is None,
    {
        match self {
            Json::Str(s) => Some(s.as_str()),
            _ => None,
        }
    }

    /// The elements, when this is an array.
    pub fn as_array(&self) -> (r: Option<&Vec<Json>>)
        ensures
            r matches Some(v) ==> self.elements() == Some(v@),
            r is None ==> self.elements() is None,
    {
        match self {
            Json::Array(v) => Some(v),
            _ => None,
        }
    }

    /// Whether this value is an object.
    pub fn is_object(&self) -> (r: bool)
        ensures
            r == (self is Object),
    {
        match self {
            Json::Object(_) => true,
            _ => false,
        }
    }
}

/// The position of `key` among the members.
pub fn find_key(members: &Vec<(String, Json)>, key: &str) -> (r: Option<usize>)
    ensures
        r matches Some(i) ==> is_first_key(members@, key@, i as int) && key_position(members@, key@) == Some(i as int),
        r is None ==> key_position(members@, key@) is None,
{
    let mut i: usize = 0;
    while i < members.len()
        invariant
            i <= members@.len(),
            forall|j: int| 0 <= j < i ==> (#[trigger] members@[j]).0@ != key@,
        decreases members@.len() - i,
    {
        if same_text(members[i].0.as_str(), key) {
            proof {
                assert(is_first_key(members@, key@, i as int));
                let c = choose|k: int| is_first_key(members@, key@, k);
                lemma_first_key_unique(members@, key@, i as int, c);
            }
            return Some(i);
        }
        i = i + 1;
    }
    proof {
        if exists|k: int| is_first_key(members@, key@, k) {
            let c = choose|k: int| is_first_key(members@, key@, k);
            assert(members@[c].0@ == key@);
        }
    }
    None
}

/// Sets `key` to `value` in a member list: the member in place when the
/// key is there, a new last member otherwise.
pub fn set_member(members: &mut Vec<(String, Json)>, key: &str, value: Json)
    ensures
        forall|k: Seq<char>| #[trigger] member(final(members)@, k) == if k == key@ {
            Some(value)
        } else {
            member(old(members)@, k)
        },
        match key_position(old(members)@, key@) {
            Some(i) => final(members)@ == old(members)@.update(i, (old(members)@[i].0, value)),
            None => final(members)@.len() == old(members)@.len() + 1
                && final(members)@.drop_last() == old(members)@
                && final(members)@.last().0@ == key@
                && final(members)@.last().1 == value,
        },
{
    match find_key(members, key) {
        Some(i) => {
            let k = members[i].0.clone();
            members.set(i, (k, value));
            proof {
                lemma_replace_value(old(members)@, i as int, value);
                assert(members@ == old(members)@.update(i as int, (old(members)@[i as int].0, value)));
                assert forall|k: Seq<char>| k != key@ implies key_position(old(members)@, k) != Some(i as int) by {}
            }
        },
        None => {
            let name = string_of(key);
            proof {
                lemma_append_member(old(members)@, name, value);
            }
            members.push((name, value));
            assert(members@.drop_last() =~= old(members)@);
        },
    }
}

} // verus!
