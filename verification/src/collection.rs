//! Collection building: the parsed articles of a batch of per-file
//! outcomes, failures skipped, ordered descending by creation date.
use crate::article::{Article, ParseError};
use crate::dates::{lemma_opt_date_lt_trans, opt_date_ge, opt_date_lt, opt_date_lt_exec};
use vstd::prelude::*;

verus! {

/// Descending by `created`: every earlier entry sorts at or after every
/// later one; an absent date sorts last.
pub open spec fn sorted_desc(s: Seq<Article>) -> bool {
    forall|i: int, j: int| 0 <= i < j < s.len() ==> opt_date_ge(s[i].created, s[j].created)
}

/// The successfully parsed articles of a batch of outcomes, in input order.
pub open spec fn oks(rs: Seq<Result<Article, ParseError>>) -> Seq<Article> {
    rs.filter(|x: Result<Article, ParseError>| x is Ok).map_values(
        |x: Result<Article, ParseError>| x->Ok_0,
    )
}

/// The entries whose creation date is `dd`, in order: the sort is stable,
/// so these subsequences are carried over unchanged.
pub open spec fn with_created(s: Seq<Article>, dd: Option<crate::dates::Date>) -> Seq<Article> {
    s.filter(|ar: Article| ar.created == dd)
}

fn insert_sorted(out: &mut Vec<Article>, a: Article)
    requires
        sorted_desc(old(out)@),
    ensures
        sorted_desc(final(out)@),
        final(out)@.to_multiset() == old(out)@.to_multiset().insert(a),
        forall|dd: Option<crate::dates::Date>|
            #[trigger] with_created(final(out)@, dd) == (if dd == a.created {
                with_created(old(out)@, dd).push(a)
            } else {
                with_created(old(out)@, dd)
            }),
{
    let n: usize = out.len();
    let mut p: usize = 0;
    while p < n && !opt_date_lt_exec(&out[p].created, &a.created)
        invariant
            p <= n,
            n == out@.len(),
            out@ == old(out)@,
            sorted_desc(out@),
            forall|k: int| 0 <= k < p ==> !opt_date_lt(out@[k].created, a.created),
        decreases n - p,
    {
        p = p + 1;
    }
    let ghost ov = out@;
    out.insert(p, a);
    proof {
        vstd::seq_lib::to_multiset_insert(ov, p as int, a);
        let nv = out@;
        assert forall|x: int, y: int|
            0 <= x < y < nv.len() implies opt_date_ge(nv[x].created, nv[y].created) by {
            if y < p {
                assert(nv[x] == ov[x] && nv[y] == ov[y]);
            } else if x < p && y == p {
                assert(nv[x] == ov[x] && nv[y] == a);
            } else if x < p && y > p {
                assert(nv[x] == ov[x] && nv[y] == ov[y - 1]);
            } else if x == p {
                assert(nv[x] == a && nv[y] == ov[y - 1]);
                assert(opt_date_lt(ov[p as int].created, a.created));
                if opt_date_lt(a.created, ov[y - 1].created) {
                    if y - 1 == p {
                        lemma_opt_date_lt_trans(
                            ov[p as int].created,
                            a.created,
                            ov[p as int].created,
                        );
                    } else {
                        lemma_opt_date_lt_trans(
                            ov[p as int].created,
                            a.created,
                            ov[y - 1].created,
                        );
                        assert(opt_date_ge(ov[p as int].created, ov[y - 1].created));
                    }
                    assert(false);
                }
            } else {
                assert(nv[x] == ov[x - 1] && nv[y] == ov[y - 1]);
            }
        }
        assert forall|dd: Option<crate::dates::Date>|
            #[trigger] with_created(nv, dd) == (if dd == a.created {
                with_created(ov, dd).push(a)
            } else {
                with_created(ov, dd)
            }) by {
            let pred = |ar: Article| ar.created == dd;
            let front = ov.take(p as int);
            let back = ov.skip(p as int);
            assert(nv =~= front + (seq![a] + back));
            assert(ov =~= front + back);
            Seq::filter_distributes_over_add(front, seq![a] + back, pred);
            Seq::filter_distributes_over_add(seq![a], back, pred);
            Seq::filter_distributes_over_add(front, back, pred);
            assert(seq![a] =~= Seq::<Article>::empty().push(a));
            Seq::<Article>::empty().lemma_filter_push(a, pred);
            assert(Seq::<Article>::empty().all(|x: Article| !pred(x)));
            Seq::<Article>::empty().lemma_all_neg_filter_empty(pred);
            assert(Seq::<Article>::empty().filter(pred) =~= Seq::<Article>::empty());
            if dd == a.created {
                assert forall|k: int| 0 <= k < back.len() implies !pred(back[k]) by {
                    assert(back[k] == ov[p + k]);
                    assert(opt_date_lt(ov[p as int].created, a.created));
                    if back[k].created == a.created {
                        if k > 0 {
                            assert(opt_date_ge(ov[p as int].created, ov[p + k].created));
                        }
                        assert(false);
                    }
                }
                assert(back.all(|x: Article| !pred(x)));
                back.lemma_all_neg_filter_empty(pred);
                assert(back.filter(pred) =~= Seq::<Article>::empty());
                assert(with_created(nv, dd) =~= with_created(ov, dd).push(a));
            } else {
                assert(!pred(a));
                assert(seq![a].filter(pred) =~= Seq::<Article>::empty());
                assert(with_created(nv, dd) =~= with_created(ov, dd));
            }
        }
    }
}

/// Builds the final collection out of per-file outcomes: failed files are
/// skipped and do not affect the rest; the parsed articles are ordered
/// descending by creation date. An empty collection is not an error.
pub fn build_collection(results: Vec<Result<Article, ParseError>>) -> (r: Vec<Article>)
    ensures
        sorted_desc(r@),
        r@.to_multiset() == oks(results@).to_multiset(),
        forall|dd: Option<crate::dates::Date>|
            #[trigger] with_created(r@, dd) == with_created(oks(results@), dd),
{
    let ghost orig = results@;
    let mut rest = results;
    let mut out: Vec<Article> = Vec::new();
    let ghost mut done: Seq<Result<Article, ParseError>> = Seq::empty();
    proof {
        assert(done + rest@ =~= orig);
        assert(oks(done) =~= Seq::<Article>::empty());
        assert(out@.to_multiset() =~= oks(done).to_multiset());
    }
    while rest.len() > 0
        invariant
            orig == done + rest@,
            sorted_desc(out@),
            out@.to_multiset() == oks(done).to_multiset(),
            forall|dd: Option<crate::dates::Date>|
                #[trigger] with_created(out@, dd) == with_created(oks(done), dd),
        decreases rest@.len(),
    {
        let ghost done_prev = done;
        let ghost rest_prev = rest@;
        let x = rest.remove(0);
        proof {
            done = done.push(x);
            assert(done + rest@ =~= done_prev + rest_prev);
            let pred = |e: Result<Article, ParseError>| e is Ok;
            let f = |e: Result<Article, ParseError>| e->Ok_0;
            done_prev.lemma_filter_push(x, pred);
            if pred(x) {
                done_prev.filter(pred).lemma_push_map_commute(f, x);
                vstd::seq_lib::to_multiset_build(oks(done_prev), f(x));
                assert(oks(done) =~= oks(done_prev).push(f(x)));
            } else {
                assert(oks(done) =~= oks(done_prev));
            }
        }
        match x {
            Ok(a) => insert_sorted(&mut out, a),
            Err(_) => {},
        }
        proof {
            if x is Ok {
                let a = x->Ok_0;
                assert forall|dd: Option<crate::dates::Date>|
                    #[trigger] with_created(out@, dd) == with_created(oks(done), dd) by {
                    let pa = |ar: Article| ar.created == dd;
                    oks(done_prev).lemma_filter_push(a, pa);
                    assert(with_created(oks(done), dd) == with_created(
                        oks(done_prev).push(a),
                        dd,
                    ));
                }
            }
        }
    }
    proof {
        assert(rest@ =~= Seq::<Result<Article, ParseError>>::empty());
        assert(done =~= orig);
    }
    out
}

} // verus!
