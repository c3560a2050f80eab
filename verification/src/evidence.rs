//! Evidence as a JSON tree, and the part of it that stays the same from
//! run to run: every measured `duration_ms` is left out.
use vstd::prelude::*;

verus! {

/// `serde_json::Number`, carried through a JSON tree as it was read.
#[verifier::external_type_specification]
#[verifier::external_body]
pub struct ExJsonNumber(serde_json::Number);

/// `<serde_json::Number as Clone>::clone` (derived): the copy equals the
/// original.
#[verifier::external_body]
fn clone_number(n: &serde_json::Number) -> (r: serde_json::Number)
    ensures
        r == *n,
{
    n.clone()
}

/// A JSON value: objects keep their members in order.
#[derive(Debug)]
pub enum JsonTree {
    Null,
    Bool(bool),
    Number(serde_json::Number),
    Text(String),
    Array(Vec<JsonTree>),
    Object(Vec<(String, JsonTree)>),
}

/// The key of the measurement that changes from run to run.
pub const UNSTABLE_KEY: &'static str = "duration_ms";

/// `r` is `v` with every object member named `key` left out, at any depth.
pub open spec fn without_key(v: JsonTree, r: JsonTree, key: Seq<char>) -> bool
    decreases v, 0nat,
{
    match v {
        JsonTree::Array(items) => match r {
            JsonTree::Array(out) => out@.len() == items@.len() && forall|i: int|
                0 <= i < items@.len() ==> without_key(#[trigger] items@[i], out@[i], key),
            _ => false,
        },
        JsonTree::Object(members) => match r {
            JsonTree::Object(out) => members_without_key(members@, out@, key),
            _ => false,
        },
        JsonTree::Null => r is Null,
        JsonTree::Bool(b) => r == JsonTree::Bool(b),
        JsonTree::Number(n) => r == JsonTree::Number(n),
        JsonTree::Text(s) => r matches JsonTree::Text(t) && t@ == s@,
    }
}

/// `out` holds the members of `members` that are not named `key`, in
/// order, each value with `key` left out in turn.
pub open spec fn members_without_key(
    members: Seq<(String, JsonTree)>,
    out: Seq<(String, JsonTree)>,
    key: Seq<char>,
) -> bool
    decreases members, members.len(),
{
    if members.len() == 0 {
        out.len() == 0
    } else if members.last().0@ == key {
        members_without_key(members.drop_last(), out, key)
    } else {
        &&& out.len() > 0
        &&& out.last().0@ == members.last().0@
        &&& without_key(members.last().1, out.last().1, key)
        &&& members_without_key(members.drop_last(), out.drop_last(), key)
    }
}

/// A copy of `v` with every object member named `key` left out, at any
/// depth.
pub fn remove_key(v: &JsonTree, key: &str) -> (r: JsonTree)
    ensures
        without_key(*v, r, key@),
    decreases v,
{
    match v {
        JsonTree::Null => JsonTree::Null,
        JsonTree::Bool(b) => JsonTree::Bool(*b),
        JsonTree::Number(n) => JsonTree::Number(clone_number(n)),
        JsonTree::Text(s) => JsonTree::Text(s.clone()),
        JsonTree::Array(items) => {
            let mut out: Vec<JsonTree> = Vec::new();
            for i in 0..items.len()
                invariant
                    *v == JsonTree::Array(*items),
                    out@.len() == i,
                    forall|j: int| 0 <= j < i ==> without_key(#[trigger] items@[j], out@[j], key@),
            {
                proof {
                    assert(decreases_to!(*v => (*v)->Array_0));
                    assert(decreases_to!(*items => items@));
                    assert(decreases_to!(items@ => items@[i as int]));
                    assert(decreases_to!(*v => items@[i as int]));
                }
                let item = remove_key(&items[i], key);
                out.push(item);
            }
            JsonTree::Array(out)
        },
        JsonTree::Object(members) => {
            let mut out: Vec<(String, JsonTree)> = Vec::new();
            for i in 0..members.len()
                invariant
                    *v == JsonTree::Object(*members),
                    members_without_key(members@.take(i as int), out@, key@),
            {
                let ghost before = out@;
                assert(members@.take(i + 1).drop_last() =~= members@.take(i as int));
                assert(members@.take(i + 1).last() == members@[i as int]);
                let name = &members[i].0;
                if !crate::text::str_eq(name.as_str(), key) {
                    proof {
                        assert(decreases_to!(*v => (*v)->Object_0));
                        assert(decreases_to!(*members => members@));
                        assert(decreases_to!(members@ => members@[i as int]));
                        assert(decreases_to!(members@[i as int] => members@[i as int].1));
                        assert(decreases_to!(*v => members@[i as int].1));
                    }
                    let value = remove_key(&members[i].1, key);
                    out.push((name.clone(), value));
                    assert(out@.drop_last() =~= before);
                }
            }
            assert(members@.take(members@.len() as int) =~= members@);
            JsonTree::Object(out)
        },
    }
}

/// The evidence that stays the same from run to run: every `duration_ms`
/// member left out.
pub fn stable_evidence(evidence: &JsonTree) -> (r: JsonTree)
    ensures
        without_key(*evidence, r, UNSTABLE_KEY@),
{
    remove_key(evidence, UNSTABLE_KEY)
}

} // verus!
