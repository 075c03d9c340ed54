//! Expansion of one record into many along list-valued flatten paths.

use vstd::prelude::*;

use crate::resolve::resolve_take;
use crate::value::{resolve_path, Value};

verus! {

/// The records that one flatten stage derives from one record: the
/// elements of the list that `p` resolves to, or nothing when `p`
/// resolves to any other kind of value.
pub open spec fn expand_one(v: Value, p: Seq<char>) -> Seq<Value> {
    match resolve_path(v, p) {
        Value::List(es) => es@,
        _ => Seq::empty(),
    }
}

/// One flatten stage applied to a whole working sequence: each record's
/// contribution, concatenated in record order.
pub open spec fn expand_seq(vs: Seq<Value>, p: Seq<char>) -> Seq<Value>
    decreases vs.len(),
{
    if vs.len() == 0 {
        Seq::empty()
    } else {
        expand_one(vs[0], p) + expand_seq(vs.drop_first(), p)
    }
}

/// The whole pipeline: the stages applied to the working sequence in
/// declared order, first stage first.
pub open spec fn expand_all(vs: Seq<Value>, ps: Seq<Seq<char>>) -> Seq<Value>
    decreases ps.len(),
{
    if ps.len() == 0 {
        vs
    } else {
        expand_all(expand_seq(vs, ps[0]), ps.drop_first())
    }
}

/// An empty flatten specification is the identity: every record of the
/// input comes out unchanged, and one input record yields exactly itself.
pub proof fn lemma_flatten_identity(vs: Seq<Value>)
    ensures
        expand_all(vs, Seq::empty()) == vs,
{
}

/// A single flatten stage on a single record yields exactly the elements
/// of the list that the path resolves to, in list order, and nothing at
/// all when the path resolves to a non-list.
pub proof fn lemma_flatten_single(r: Value, p: Seq<char>)
    ensures
        expand_all(seq![r], seq![p]) == expand_one(r, p),
        resolve_path(r, p) matches Value::List(es) ==> expand_all(seq![r], seq![p]) == es@,
        !(resolve_path(r, p) is List) ==> expand_all(seq![r], seq![p]) == Seq::<Value>::empty(),
{
    let rs = seq![r];
    let ps = seq![p];
    assert(rs[0] == r);
    assert(ps[0] == p);
    assert(rs.drop_first().len() == 0);
    assert(expand_seq(rs.drop_first(), p) =~= Seq::<Value>::empty());
    assert(expand_seq(rs, p) =~= expand_one(r, p));
    assert(expand_all(rs, ps) == expand_all(expand_seq(rs, p), ps.drop_first()));
    assert(ps.drop_first().len() == 0);
    assert(expand_all(expand_seq(rs, p), ps.drop_first()) == expand_seq(rs, p));
}

/// One stage distributes over concatenation of working sequences.
pub proof fn lemma_expand_seq_concat(a: Seq<Value>, b: Seq<Value>, p: Seq<char>)
    ensures
        expand_seq(a + b, p) == expand_seq(a, p) + expand_seq(b, p),
    decreases a.len(),
{
    if a.len() == 0 {
        assert(a + b =~= b);
        assert(expand_seq(a, p) + expand_seq(b, p) =~= expand_seq(b, p));
    } else {
        lemma_expand_seq_concat(a.drop_first(), b, p);
        assert((a + b).drop_first() =~= a.drop_first() + b);
        assert(expand_one((a + b)[0], p) + (expand_seq(a.drop_first(), p) + expand_seq(
            b, p)) =~= (expand_one(a[0], p) + expand_seq(a.drop_first(), p)) + expand_seq(b, p));
    }
}

/// Stages compose: running the pipeline on `ps + qs` equals running it on
/// `ps` and then on `qs`.
pub proof fn lemma_flatten_compose(vs: Seq<Value>, ps: Seq<Seq<char>>, qs: Seq<Seq<char>>)
    ensures
        expand_all(vs, ps + qs) == expand_all(expand_all(vs, ps), qs),
    decreases ps.len(),
{
    if ps.len() == 0 {
        assert(ps + qs =~= qs);
    } else {
        lemma_flatten_compose(expand_seq(vs, ps[0]), ps.drop_first(), qs);
        assert((ps + qs).drop_first() =~= ps.drop_first() + qs);
    }
}

/// The two-stage pipeline `[p, q]` equals flattening by `p` first and
/// then applying `q` to each resulting record, concatenating in order.
pub proof fn lemma_flatten_two_stages(vs: Seq<Value>, p: Seq<char>, q: Seq<char>)
    ensures
        expand_all(vs, seq![p, q]) == expand_seq(expand_seq(vs, p), q),
{
    let pq = seq![p, q];
    assert(pq[0] == p);
    assert(pq.drop_first() =~= seq![q]);
    assert(expand_all(vs, pq) == expand_all(expand_seq(vs, p), seq![q]));
    assert(seq![q][0] == q);
    assert(seq![q].drop_first().len() == 0);
    assert(expand_all(expand_seq(vs, p), seq![q]) == expand_all(
        expand_seq(expand_seq(vs, p), q),
        seq![q].drop_first(),
    ));
}

/// Runs the flatten pipeline on one record: `flats` in declared order,
/// each stage replacing every working record by the elements of the list
/// its path resolves to, and dropping records whose path resolves to a
/// non-list.
pub fn flatten_record(record: Value, flats: &Vec<String>) -> (out: Vec<Value>)
    ensures
        out@ == expand_all(seq![record], flats@.map_values(|s: String| s@)),
{
    let ghost all_ps = flats@.map_values(|s: String| s@);
    let mut work: Vec<Value> = Vec::new();
    work.push(record);
    proof {
        assert(work@ =~= seq![record]);
        assert(all_ps.subrange(0, all_ps.len() as int) =~= all_ps);
    }
    let mut pi: usize = 0;
    while pi < flats.len()
        invariant
            pi <= flats.len(),
            all_ps == flats@.map_values(|s: String| s@),
            expand_all(work@, all_ps.subrange(pi as int, all_ps.len() as int)) == expand_all(
                seq![record],
                all_ps,
            ),
        decreases flats.len() - pi,
    {
        let ghost p = all_ps[pi as int];
        let ghost w0 = work@;
        let mut next: Vec<Value> = Vec::new();
        proof {
            assert(next@ + expand_seq(work@, p) =~= expand_seq(w0, p));
        }
        while work.len() > 0
            invariant
                pi < flats.len(),
                all_ps == flats@.map_values(|s: String| s@),
                p == all_ps[pi as int],
                next@ + expand_seq(work@, p) == expand_seq(w0, p),
            decreases work.len(),
        {
            let ghost wpre = work@;
            let ghost npre = next@;
            let v = work.remove(0);
            let rv = resolve_take(v, flats[pi].as_str());
            match rv {
                Value::List(mut es) => {
                    let ghost esv = es@;
                    next.append(&mut es);
                    proof {
                        assert(expand_one(v, p) == esv);
                        assert(work@ =~= wpre.drop_first());
                        assert((npre + esv) + expand_seq(wpre.drop_first(), p) =~= npre + (
                        esv + expand_seq(wpre.drop_first(), p)));
                    }
                },
                _ => {
                    proof {
                        assert(expand_one(v, p) =~= Seq::<Value>::empty());
                        assert(work@ =~= wpre.drop_first());
                        assert(npre + expand_seq(wpre.drop_first(), p) =~= npre + (
                        expand_one(v, p) + expand_seq(wpre.drop_first(), p)));
                    }
                },
            }
        }
        proof {
            assert(work@.len() == 0);
            assert(next@ + expand_seq(work@, p) =~= next@);
            assert(all_ps.subrange(pi as int, all_ps.len() as int).drop_first()
                =~= all_ps.subrange(pi + 1, all_ps.len() as int));
        }
        work = next;
        pi = pi + 1;
    }
    proof {
        assert(all_ps.subrange(pi as int, all_ps.len() as int) =~= Seq::<Seq<char>>::empty());
    }
    work
}

} // verus!
