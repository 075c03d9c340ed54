//! The JSON value model and the meaning of dotted-path resolution.

use vstd::prelude::*;

verus! {

/// A JSON value: the five standard kinds, with numbers carried as their
/// decimal text so that the model stays free of floating point.
#[derive(Debug, PartialEq)]
pub enum Value {
    Null,
    Boolean(bool),
    Number(String),
    Text(String),
    List(Vec<Value>),
    Object(Vec<(String, Value)>),
}

/// The value bound to key `k` in the field list `fs`; the first binding
/// wins, and an absent key yields `Null`.
pub open spec fn lookup_fields(fs: Seq<(String, Value)>, k: Seq<char>) -> Value
    decreases fs.len(),
{
    if fs.len() == 0 {
        Value::Null
    } else if fs[0].0@ == k {
        fs[0].1
    } else {
        lookup_fields(fs.drop_first(), k)
    }
}

/// One resolution step: key `k` selects a field of an object; every other
/// kind of value misses, and a miss yields `Null`.
pub open spec fn field_of(v: Value, k: Seq<char>) -> Value {
    match v {
        Value::Object(fs) => lookup_fields(fs@, k),
        _ => Value::Null,
    }
}

/// The length of the first `.`-separated segment of a path: the index of
/// the first dot, or the path's length when it has none.
pub open spec fn seg_end(p: Seq<char>) -> int
    decreases p.len(),
{
    if p.len() == 0 {
        0
    } else if p[0] == '.' {
        0
    } else {
        1 + seg_end(p.drop_first())
    }
}

/// `seg_end` is the position of the first dot: if no dot stands before
/// position `k`, and `k` is a dot or the end, then `seg_end` is `k`.
pub proof fn lemma_seg_end_at(p: Seq<char>, k: int)
    requires
        0 <= k <= p.len(),
        forall|j: int| 0 <= j < k ==> p[j] != '.',
        k == p.len() || p[k] == '.',
    ensures
        seg_end(p) == k,
    decreases p.len(),
{
    if p.len() == 0 {
    } else if p[0] == '.' {
        assert(k == 0);
    } else {
        assert(k >= 1);
        lemma_seg_end_at(p.drop_first(), k - 1);
    }
}

/// Resolution of a dotted path against a value: the path is cut at its
/// first dot, the head segment selects a field, and the rest of the path
/// is resolved against that field's value.  A path without a dot is a
/// single key.  A miss at any step yields `Null`.
pub open spec fn resolve_path(v: Value, p: Seq<char>) -> Value
    decreases p.len(),
{
    let e = seg_end(p);
    if !(0 <= e < p.len()) {
        field_of(v, p)
    } else {
        resolve_path(field_of(v, p.subrange(0, e)), p.subrange(e + 1, p.len() as int))
    }
}

/// Resolving any path against `Null` stays `Null`.
pub proof fn lemma_resolve_null(p: Seq<char>)
    ensures
        resolve_path(Value::Null, p) == Value::Null,
    decreases p.len(),
{
    let e = seg_end(p);
    if 0 <= e < p.len() {
        lemma_resolve_null(p.subrange(e + 1, p.len() as int));
    }
}

} // verus!
