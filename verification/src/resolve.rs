//! Executable resolution of dotted paths against a value.

use vstd::prelude::*;

use crate::value::{
    field_of, lemma_resolve_null, lemma_seg_end_at, lookup_fields, resolve_path, seg_end, Value,
};

verus! {

/// The end of the path segment that starts at `from`: the index of the
/// next dot, or `n` when none follows.
fn find_seg_end(path: &str, from: usize, n: usize) -> (e: usize)
    requires
        n == path@.len(),
        from <= n,
    ensures
        from <= e <= n,
        seg_end(path@.subrange(from as int, n as int)) == e - from,
{
    let mut i: usize = from;
    let mut hit = false;
    loop
        invariant
            from <= i <= n,
            n == path@.len(),
            forall|j: int| from <= j < i ==> path@[j] != '.',
            hit ==> i < n && path@[i as int] == '.',
        decreases n - i + (if hit { 0int } else { 1int }),
    {
        if hit || i >= n {
            proof {
                lemma_seg_end_at(path@.subrange(from as int, n as int), i - from);
            }
            return i;
        }
        let c = path.get_char(i);
        if c == '.' {
            hit = true;
        } else {
            i = i + 1;
        }
    }
}

/// The value of the first field named `key`, or `None` when the list has
/// no such field.
fn find_field<'a>(fs: &'a Vec<(String, Value)>, key: &String) -> (r: Option<&'a Value>)
    ensures
        r matches Some(x) ==> *x == lookup_fields(fs@, key@),
        r is None ==> lookup_fields(fs@, key@) == Value::Null,
{
    proof {
        assert(fs@.subrange(0, fs@.len() as int) =~= fs@);
    }
    let mut j: usize = 0;
    while j < fs.len()
        invariant
            j <= fs.len(),
            lookup_fields(fs@, key@) == lookup_fields(
                fs@.subrange(j as int, fs@.len() as int),
                key@,
            ),
        decreases fs.len() - j,
    {
        let ghost pre = fs@.subrange(j as int, fs@.len() as int);
        if fs[j].0 == *key {
            return Some(&fs[j].1);
        }
        j = j + 1;
        proof {
            assert(pre.drop_first() =~= fs@.subrange(j as int, fs@.len() as int));
        }
    }
    None
}

/// Resolves `path` against `v` by reference: `Some` holds the reached
/// sub-value, `None` says that some step missed, which resolution treats
/// as `Null`.
pub fn resolve<'a>(v: &'a Value, path: &str) -> (r: Option<&'a Value>)
    ensures
        r matches Some(x) ==> *x == resolve_path(*v, path@),
        r is None ==> resolve_path(*v, path@) == Value::Null,
{
    let n = path.unicode_len();
    proof {
        assert(path@.subrange(0, n as int) =~= path@);
    }
    let mut cur: &Value = v;
    let mut pos: usize = 0;
    loop
        invariant
            pos <= n,
            n == path@.len(),
            resolve_path(*v, path@) == resolve_path(
                *cur,
                path@.subrange(pos as int, n as int),
            ),
        decreases n - pos,
    {
        let ghost sp = path@.subrange(pos as int, n as int);
        let e = find_seg_end(path, pos, n);
        let seg = path.substring_char(pos, e);
        let key = String::from_str(seg);
        proof {
            assert(sp.subrange(0, e - pos) =~= path@.subrange(pos as int, e as int));
            if e < n {
                assert(sp.subrange(e - pos + 1, sp.len() as int) =~= path@.subrange(
                    e + 1,
                    n as int,
                ));
            }
        }
        let stepped: Option<&Value> = match cur {
            Value::Object(fs) => find_field(fs, &key),
            _ => None,
        };
        match stepped {
            None => {
                proof {
                    assert(field_of(*cur, key@) == Value::Null);
                    if e < n {
                        lemma_resolve_null(path@.subrange(e + 1, n as int));
                    }
                }
                return None;
            },
            Some(x) => {
                if e == n {
                    return Some(x);
                }
                cur = x;
                pos = e + 1;
            },
        }
    }
}

/// The value of the first field named `key`, taken out of the object; any
/// other kind of value, or an absent key, yields `Null`.
fn take_field(v: Value, key: &String) -> (r: Value)
    ensures
        r == field_of(v, key@),
{
    match v {
        Value::Object(mut fs) => {
            proof {
                assert(fs@.subrange(0, fs@.len() as int) =~= fs@);
            }
            let mut j: usize = 0;
            while j < fs.len()
                invariant
                    v == Value::Object(fs),
                    j <= fs.len(),
                    lookup_fields(fs@, key@) == lookup_fields(
                        fs@.subrange(j as int, fs@.len() as int),
                        key@,
                    ),
                decreases fs.len() - j,
            {
                let ghost pre = fs@.subrange(j as int, fs@.len() as int);
                if fs[j].0 == *key {
                    proof {
                        assert(pre[0] == fs@[j as int]);
                        assert(lookup_fields(fs@, key@) == fs@[j as int].1);
                    }
                    let pair = fs.remove(j);
                    return pair.1;
                }
                j = j + 1;
                proof {
                    assert(pre.drop_first() =~= fs@.subrange(j as int, fs@.len() as int));
                }
            }
            proof {
                assert(fs@.subrange(j as int, fs@.len() as int).len() == 0);
            }
            Value::Null
        },
        _ => Value::Null,
    }
}

/// Resolves `path` against `v`, consuming `v` and handing the reached
/// sub-value out by value; a miss yields `Null`.
pub fn resolve_take(v: Value, path: &str) -> (r: Value)
    ensures
        r == resolve_path(v, path@),
{
    let n = path.unicode_len();
    proof {
        assert(path@.subrange(0, n as int) =~= path@);
    }
    let mut cur = v;
    let mut pos: usize = 0;
    loop
        invariant
            pos <= n,
            n == path@.len(),
            resolve_path(v, path@) == resolve_path(
                cur,
                path@.subrange(pos as int, n as int),
            ),
        decreases n - pos,
    {
        let ghost sp = path@.subrange(pos as int, n as int);
        let e = find_seg_end(path, pos, n);
        let seg = path.substring_char(pos, e);
        let key = String::from_str(seg);
        proof {
            assert(sp.subrange(0, e - pos) =~= path@.subrange(pos as int, e as int));
            if e < n {
                assert(sp.subrange(e - pos + 1, sp.len() as int) =~= path@.subrange(
                    e + 1,
                    n as int,
                ));
            }
        }
        let ghost prev = cur;
        cur = take_field(cur, &key);
        if e == n {
            proof {
                assert(sp =~= key@);
                assert(resolve_path(prev, sp) == field_of(prev, key@));
            }
            return cur;
        }
        pos = e + 1;
    }
}

} // verus!
