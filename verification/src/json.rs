//! JSON values as the library holds them, and their mathematical model.
//!
//! A value is a tree of the library's own. Only its numbers are
//! `serde_json`'s, carried through as they were read.

use crate::text::text_eq;
use vstd::prelude::*;

verus! {

/// A JSON value.
///
/// An object is a list of members; where a key occurs more than once the
/// last occurrence is the one that counts.
#[derive(Debug, PartialEq, Eq)]
pub enum Json {
    Null,
    Bool(bool),
    Number(serde_json::Number),
    String(String),
    Array(Vec<Json>),
    Object(Vec<(String, Json)>),
}

/// The mathematical model of a JSON value: objects are finite maps.
pub enum JsonModel {
    Null,
    Bool(bool),
    Number(serde_json::Number),
    String(Seq<char>),
    Array(Seq<JsonModel>),
    Object(Map<Seq<char>, JsonModel>),
}

/// The map that the first `n` members of an object stand for.
pub open spec fn members_model(members: Seq<(String, Json)>, n: nat) -> Map<Seq<char>, JsonModel>
    decreases members, n,
{
    if n == 0 || n > members.len() {
        Map::empty()
    } else {
        members_model(members, (n - 1) as nat).insert(
            members[n - 1].0@,
            members[n - 1].1.view(),
        )
    }
}

/// The models of the first `n` items of an array.
pub open spec fn items_model(items: Seq<Json>, n: nat) -> Seq<JsonModel>
    decreases items, n,
{
    if n == 0 || n > items.len() {
        Seq::empty()
    } else {
        items_model(items, (n - 1) as nat).push(items[n - 1].view())
    }
}

impl View for Json {
    type V = JsonModel;

    open spec fn view(&self) -> JsonModel
        decreases self,
    {
        match self {
            Json::Null => JsonModel::Null,
            Json::Bool(b) => JsonModel::Bool(*b),
            Json::Number(n) => JsonModel::Number(*n),
            Json::String(s) => JsonModel::String(s@),
            Json::Array(items) => JsonModel::Array(items_model(items@, items@.len())),
            Json::Object(members) => JsonModel::Object(members_model(members@, members@.len())),
        }
    }
}

/// The map that an object's members stand for: later members win.
pub open spec fn members_map(members: Seq<(String, Json)>) -> Map<Seq<char>, JsonModel> {
    members_model(members, members.len())
}

/// Whether the member at `at` is the last one of `members` with the key
/// `key`.
pub open spec fn is_last_with_key(members: Seq<(String, Json)>, key: Seq<char>, at: int) -> bool {
    &&& 0 <= at < members.len()
    &&& members[at].0@ == key
    &&& forall|j: int| at < j < members.len() ==> (#[trigger] members[j]).0@ != key
}

/// Whether no member of `members` has the key `key`.
pub open spec fn has_no_key(members: Seq<(String, Json)>, key: Seq<char>) -> bool {
    forall|j: int| 0 <= j < members.len() ==> (#[trigger] members[j]).0@ != key
}

/// Whether no key occurs twice in `members`.
pub open spec fn distinct_keys(members: Seq<(String, Json)>) -> bool {
    forall|i: int, j: int|
        0 <= i < j < members.len() ==> (#[trigger] members[i]).0@ != (#[trigger] members[j]).0@
}

/// The model of a prefix depends on that prefix alone.
pub proof fn lemma_items_model_prefix(a: Seq<Json>, b: Seq<Json>, n: nat)
    requires
        n <= a.len(),
        n <= b.len(),
        forall|k: int| 0 <= k < n ==> a[k] == b[k],
    ensures
        items_model(a, n) == items_model(b, n),
    decreases n,
{
    if n > 0 {
        lemma_items_model_prefix(a, b, (n - 1) as nat);
    }
}

/// The model of a prefix depends on that prefix alone.
pub proof fn lemma_members_model_prefix(a: Seq<(String, Json)>, b: Seq<(String, Json)>, n: nat)
    requires
        n <= a.len(),
        n <= b.len(),
        forall|k: int| 0 <= k < n ==> a[k] == b[k],
    ensures
        members_model(a, n) == members_model(b, n),
    decreases n,
{
    if n > 0 {
        lemma_members_model_prefix(a, b, (n - 1) as nat);
    }
}

/// How the map of the first `n` members comes from that of the first `n - 1`.
pub proof fn lemma_members_model_step(members: Seq<(String, Json)>, n: nat)
    ensures
        n == 0 || n > members.len() ==> members_model(members, n) == Map::<
            Seq<char>,
            JsonModel,
        >::empty(),
        0 < n <= members.len() ==> members_model(members, n) == members_model(
            members,
            (n - 1) as nat,
        ).insert(members[n - 1].0@, members[n - 1].1@),
{
}

/// Members without the key `key` say nothing of it.
pub proof fn lemma_members_without_key(members: Seq<(String, Json)>, key: Seq<char>, n: nat)
    requires
        n <= members.len(),
        forall|j: int| 0 <= j < n ==> (#[trigger] members[j]).0@ != key,
    ensures
        !members_model(members, n).contains_key(key),
    decreases n,
{
    lemma_members_model_step(members, n);
    if n > 0 {
        lemma_members_without_key(members, key, (n - 1) as nat);
    }
}

/// The last member with a key is the one that the map holds for it.
pub proof fn lemma_members_last_wins(members: Seq<(String, Json)>, key: Seq<char>, at: int, n: nat)
    requires
        is_last_with_key(members, key, at),
        at < n <= members.len(),
    ensures
        members_model(members, n).contains_key(key),
        members_model(members, n)[key] == members[at].1@,
    decreases n,
{
    lemma_members_model_step(members, n);
    if n > at + 1 {
        lemma_members_last_wins(members, key, at, (n - 1) as nat);
    }
}

/// Putting a value in the place of the last member with a key is an insert
/// into the map.
pub proof fn lemma_members_replace(
    members: Seq<(String, Json)>,
    at: int,
    member: (String, Json),
    n: nat,
)
    requires
        is_last_with_key(members, member.0@, at),
        at < n <= members.len(),
    ensures
        members_model(members.update(at, member), n) == members_model(members, n).insert(
            member.0@,
            member.1@,
        ),
    decreases n,
{
    let changed = members.update(at, member);
    lemma_members_model_step(members, n);
    lemma_members_model_step(changed, n);
    if n > at + 1 {
        lemma_members_replace(members, at, member, (n - 1) as nat);
    } else {
        lemma_members_model_prefix(members, changed, at as nat);
    }
}

/// Each value of the map of some members is the value of one of them.
pub proof fn lemma_members_values(members: Seq<(String, Json)>, key: Seq<char>, n: nat)
    requires
        n <= members.len(),
        members_model(members, n).contains_key(key),
    ensures
        exists|i: int| 0 <= i < n && (#[trigger] members[i]).1@ == members_model(members, n)[key],
    decreases n,
{
    lemma_members_model_step(members, n);
    if n > 0 && members[n - 1].0@ != key {
        lemma_members_values(members, key, (n - 1) as nat);
    }
}

/// A member put in the place of one with the same key brings no key a
/// second time.
pub proof fn lemma_distinct_keys_update(
    members: Seq<(String, Json)>,
    at: int,
    member: (String, Json),
)
    requires
        distinct_keys(members),
        0 <= at < members.len(),
        members[at].0@ == member.0@,
    ensures
        distinct_keys(members.update(at, member)),
{
    let changed = members.update(at, member);
    assert forall|i: int, j: int| 0 <= i < j < changed.len() implies (#[trigger] changed[i]).0@ != (
    #[trigger] changed[j]).0@ by {
        assert(members[i].0@ != members[j].0@);
    }
}

/// A member with a new key, put at the end, brings no key a second time.
pub proof fn lemma_distinct_keys_push(members: Seq<(String, Json)>, member: (String, Json))
    requires
        distinct_keys(members),
        has_no_key(members, member.0@),
    ensures
        distinct_keys(members.push(member)),
{
    let longer = members.push(member);
    assert forall|i: int, j: int| 0 <= i < j < longer.len() implies (#[trigger] longer[i]).0@ != (
    #[trigger] longer[j]).0@ by {
        if j < members.len() {
            assert(members[i].0@ != members[j].0@);
        } else {
            assert(members[i].0@ != member.0@);
        }
    }
}

/// The place of the last member with the key `key`, if there is one.
pub fn find_member(members: &Vec<(String, Json)>, key: &str) -> (at: Option<usize>)
    ensures
        match at {
            Some(i) => is_last_with_key(members@, key@, i as int),
            None => has_no_key(members@, key@),
        },
{
    let mut i: usize = members.len();
    while i > 0
        invariant
            i <= members.len(),
            forall|j: int| i <= j < members.len() ==> (#[trigger] members[j]).0@ != key@,
        decreases i,
    {
        i = i - 1;
        if text_eq(members[i].0.as_str(), key) {
            return Some(i);
        }
    }
    None
}

/// Sets the member `key` of an object to `value`: in the place of the member
/// that counts for that key, or at the end where there is none.
pub fn upsert_member(members: &mut Vec<(String, Json)>, key: String, value: Json)
    ensures
        members_map(final(members)@) == members_map(old(members)@).insert(key@, value@),
        distinct_keys(old(members)@) ==> distinct_keys(final(members)@),
        has_no_key(old(members)@, key@) ==> final(members)@ == old(members)@.push((key, value)),
        forall|at: int|
            is_last_with_key(old(members)@, key@, at) ==> final(members)@ == old(members)@.update(
                at,
                (key, value),
            ),
{
    let ghost before = members@;
    match find_member(members, key.as_str()) {
        Some(at) => {
            proof {
                lemma_members_replace(before, at as int, (key, value), before.len());
                if distinct_keys(before) {
                    lemma_distinct_keys_update(before, at as int, (key, value));
                }
            }
            members.set(at, (key, value));
        },
        None => {
            proof {
                lemma_members_model_prefix(before, before.push((key, value)), before.len());
                lemma_members_model_step(before.push((key, value)), before.len() + 1);
                if distinct_keys(before) {
                    lemma_distinct_keys_push(before, (key, value));
                }
            }
            members.push((key, value));
        },
    }
}

impl Json {
    /// The member `key` of an object; nothing for a value that is no object
    /// or has no such member.
    pub fn get(&self, key: &str) -> (member: Option<&Json>)
        ensures
            match member {
                Some(value) => self@ matches JsonModel::Object(map) && map.contains_key(key@)
                    && value@ == map[key@],
                None => !(self@ matches JsonModel::Object(map) && map.contains_key(key@)),
            },
    {
        match self {
            Json::Object(members) => {
                match find_member(members, key) {
                    Some(at) => {
                        proof {
                            lemma_members_last_wins(members@, key@, at as int, members@.len());
                        }
                        Some(&members[at].1)
                    },
                    None => {
                        proof {
                            lemma_members_without_key(members@, key@, members@.len());
                        }
                        None
                    },
                }
            },
            _ => None,
        }
    }

    /// The text of a string; nothing for any other value.
    pub fn as_str(&self) -> (text: Option<&str>)
        ensures
            match text {
                Some(text) => self@ == JsonModel::String(text@),
                None => !(self@ is String),
            },
    {
        match self {
            Json::String(text) => Some(text.as_str()),
            _ => None,
        }
    }
}

impl Clone for Json {
    /// A copy that holds the same value.
    fn clone(&self) -> (r: Json)
        ensures
            r@ == self@,
        decreases self,
    {
        match self {
            Json::Null => Json::Null,
            Json::Bool(b) => Json::Bool(*b),
            Json::Number(n) => Json::Number(n.clone()),
            Json::String(s) => Json::String(s.clone()),
            Json::Array(items) => {
                let mut copy: Vec<Json> = Vec::new();
                let mut i: usize = 0;
                while i < items.len()
                    invariant
                        i <= items.len(),
                        copy.len() == i,
                        items_model(copy@, i as nat) == items_model(items@, i as nat),
                        forall|k: int|
                            0 <= k < items.len() ==> decreases_to!(self => #[trigger] items[k]),
                    decreases items.len() - i,
                {
                    let item = items[i].clone();
                    proof {
                        lemma_items_model_prefix(copy@, copy@.push(item), i as nat);
                    }
                    copy.push(item);
                    i = i + 1;
                }
                Json::Array(copy)
            },
            Json::Object(members) => {
                let mut copy: Vec<(String, Json)> = Vec::new();
                let mut i: usize = 0;
                while i < members.len()
                    invariant
                        i <= members.len(),
                        copy.len() == i,
                        members_model(copy@, i as nat) == members_model(members@, i as nat),
                        forall|k: int|
                            0 <= k < members.len() ==> decreases_to!(
                                self => #[trigger] members[k]
                            ),
                    decreases members.len() - i,
                {
                    let key = members[i].0.clone();
                    let value = members[i].1.clone();
                    proof {
                        lemma_members_model_prefix(copy@, copy@.push((key, value)), i as nat);
                    }
                    copy.push((key, value));
                    i = i + 1;
                }
                Json::Object(copy)
            },
        }
    }
}

} // verus!
