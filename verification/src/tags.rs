//! Tag normalization: the union of explicit and body-extracted tags is
//! deduplicated and sorted lexicographically; empty tags are dropped.
use crate::text::{
    chars_lt, lemma_lex_lt_connex, lemma_lex_lt_irrefl, lemma_lex_lt_trans, lex_lt, to_chars,
};
use vstd::prelude::*;

verus! {

/// The character sequences of a list of strings.
pub open spec fn views_of(ts: Seq<String>) -> Seq<Seq<char>> {
    ts.map_values(|t: String| t@)
}

/// Strictly ascending in `lex_lt`; such a list holds no duplicates.
pub open spec fn strictly_sorted(ts: Seq<Seq<char>>) -> bool {
    forall|i: int, j: int| 0 <= i < j < ts.len() ==> lex_lt(ts[i], ts[j])
}

/// The set of non-empty tags of a list.
pub open spec fn tag_set(ts: Seq<Seq<char>>) -> Set<Seq<char>> {
    ts.to_set().filter(|t: Seq<char>| t.len() > 0)
}

proof fn lemma_to_set_push(s: Seq<Seq<char>>, a: Seq<char>)
    ensures
        s.push(a).to_set() == s.to_set().insert(a),
{
    let p = s.push(a);
    assert forall|x: Seq<char>| p.to_set().contains(x) implies s.to_set().insert(a).contains(
        x,
    ) by {
        let k = choose|k: int| 0 <= k < p.len() && p[k] == x;
        if k < s.len() {
            assert(s[k] == x);
        }
    }
    assert forall|x: Seq<char>| s.to_set().insert(a).contains(x) implies p.to_set().contains(
        x,
    ) by {
        if x == a {
            assert(p[s.len() as int] == a);
        } else {
            let k = choose|k: int| 0 <= k < s.len() && s[k] == x;
            assert(p[k] == x);
        }
    }
    assert(p.to_set() =~= s.to_set().insert(a));
}

proof fn lemma_to_set_insert(s: Seq<Seq<char>>, i: int, a: Seq<char>)
    requires
        0 <= i <= s.len(),
    ensures
        s.insert(i, a).to_set() == s.to_set().insert(a),
{
    let p = s.insert(i, a);
    assert forall|x: Seq<char>| p.to_set().contains(x) implies s.to_set().insert(a).contains(
        x,
    ) by {
        let k = choose|k: int| 0 <= k < p.len() && p[k] == x;
        if k < i {
            assert(s[k] == x);
        } else if k > i {
            assert(s[k - 1] == x);
        }
    }
    assert forall|x: Seq<char>| s.to_set().insert(a).contains(x) implies p.to_set().contains(
        x,
    ) by {
        if x == a {
            assert(p[i] == a);
        } else {
            let k = choose|k: int| 0 <= k < s.len() && s[k] == x;
            if k < i {
                assert(p[k] == x);
            } else {
                assert(p[k + 1] == x);
            }
        }
    }
    assert(p.to_set() =~= s.to_set().insert(a));
}

proof fn lemma_tag_set_push(ts: Seq<Seq<char>>, a: Seq<char>)
    ensures
        tag_set(ts.push(a)) == if a.len() > 0 {
            tag_set(ts).insert(a)
        } else {
            tag_set(ts)
        },
{
    lemma_to_set_push(ts, a);
    if a.len() > 0 {
        assert(tag_set(ts.push(a)) =~= tag_set(ts).insert(a));
    } else {
        assert(tag_set(ts.push(a)) =~= tag_set(ts));
    }
}

/// Normalizes a tag list: drops empty tags, removes duplicates, and sorts
/// the rest in strictly ascending lexicographic order.
pub fn normalize_tags(tags: Vec<String>) -> (r: Vec<String>)
    ensures
        strictly_sorted(views_of(r@)),
        views_of(r@).to_set() == tag_set(views_of(tags@)),
{
    let mut out: Vec<String> = Vec::new();
    let mut i: usize = 0;
    proof {
        assert(views_of(tags@.take(0)) =~= Seq::<Seq<char>>::empty());
        assert(views_of(out@) =~= Seq::<Seq<char>>::empty());
        assert(views_of(out@).to_set() =~= tag_set(views_of(tags@.take(0))));
    }
    while i < tags.len()
        invariant
            i <= tags@.len(),
            strictly_sorted(views_of(out@)),
            views_of(out@).to_set() == tag_set(views_of(tags@.take(i as int))),
        decreases tags@.len() - i,
    {
        let ghost old_out = out@;
        let tv = to_chars(tags[i].as_str());
        proof {
            assert(views_of(tags@.take(i + 1)) =~= views_of(tags@.take(i as int)).push(
                tags@[i as int]@,
            ));
            lemma_tag_set_push(views_of(tags@.take(i as int)), tags@[i as int]@);
        }
        if tv.len() > 0 {
            let mut p: usize = 0;
            while p < out.len() && chars_lt(&to_chars(out[p].as_str()), &tv)
                invariant
                    p <= out@.len(),
                    out@ == old_out,
                    tv@ == tags@[i as int]@,
                    forall|k: int| 0 <= k < p ==> lex_lt(out@[k]@, tv@),
                decreases out@.len() - p,
            {
                p = p + 1;
            }
            let mut dup = false;
            if p < out.len() {
                let pv = to_chars(out[p].as_str());
                dup = !chars_lt(&tv, &pv);
            }
            if dup {
                proof {
                    let pv = out@[p as int]@;
                    lemma_lex_lt_connex(tv@, pv);
                    assert(views_of(out@).to_set().contains(tv@)) by {
                        assert(views_of(out@)[p as int] == tv@);
                    }
                    assert(views_of(out@).to_set() =~= old_out.map_values(
                        |t: String| t@,
                    ).to_set().insert(tv@));
                }
            } else {
                let t = tags[i].clone();
                out.insert(p, t);
                proof {
                    let nv = views_of(out@);
                    assert(nv =~= views_of(old_out).insert(p as int, tv@));
                    lemma_to_set_insert(views_of(old_out), p as int, tv@);
                    assert(strictly_sorted(nv)) by {
                        assert forall|x: int, y: int| 0 <= x < y < nv.len() implies lex_lt(
                            nv[x],
                            nv[y],
                        ) by {
                            let ov = views_of(old_out);
                            if y < p {
                                assert(nv[x] == ov[x] && nv[y] == ov[y]);
                            } else if x < p && y == p {
                                assert(nv[x] == ov[x] && nv[y] == tv@);
                            } else if x < p && y > p {
                                assert(nv[x] == ov[x] && nv[y] == ov[y - 1]);
                                if y - 1 == p {
                                } else {
                                    assert(lex_lt(ov[x], ov[y - 1]));
                                }
                            } else if x == p {
                                assert(nv[x] == tv@ && nv[y] == ov[y - 1]);
                                if !lex_lt(tv@, ov[p as int]) {
                                    assert(false);
                                }
                                if y - 1 > p {
                                    lemma_lex_lt_trans(tv@, ov[p as int], ov[y - 1]);
                                }
                            } else {
                                assert(nv[x] == ov[x - 1] && nv[y] == ov[y - 1]);
                            }
                        }
                    }
                }
            }
        } else {
            proof {
                assert(tags@[i as int]@.len() == 0);
            }
        }
        i = i + 1;
    }
    proof {
        assert(tags@.take(tags@.len() as int) =~= tags@);
    }
    out
}

/// Law: a strictly sorted tag list is determined by its set of elements, so
/// normalization is canonical: two normalized lists with the same tags are
/// identical.
pub proof fn lemma_sorted_tags_canonical(a: Seq<Seq<char>>, b: Seq<Seq<char>>)
    requires
        strictly_sorted(a),
        strictly_sorted(b),
        a.to_set() == b.to_set(),
    ensures
        a == b,
    decreases a.len(),
{
    if a.len() == 0 {
        if b.len() > 0 {
            assert(b.to_set().contains(b[0]));
            assert(a.to_set().contains(b[0]));
            let k = choose|k: int| 0 <= k < a.len() && a[k] == b[0];
            assert(false);
        }
        assert(a =~= b);
    } else if b.len() == 0 {
        assert(a.to_set().contains(a[0]));
        assert(b.to_set().contains(a[0]));
        let k = choose|k: int| 0 <= k < b.len() && b[k] == a[0];
        assert(false);
    } else {
        assert(a.to_set().contains(a[0]));
        assert(b.to_set().contains(b[0]));
        assert(a.to_set().contains(b[0]));
        assert(b.to_set().contains(a[0]));
        let ka = choose|k: int| 0 <= k < a.len() && a[k] == b[0];
        let kb = choose|k: int| 0 <= k < b.len() && b[k] == a[0];
        if a[0] != b[0] {
            assert(ka > 0);
            assert(kb > 0);
            assert(lex_lt(a[0], a[ka]));
            assert(lex_lt(b[0], b[kb]));
            lemma_lex_lt_trans(a[0], b[0], a[0]);
            lemma_lex_lt_irrefl(a[0]);
            assert(false);
        }
        let at = a.drop_first();
        let bt = b.drop_first();
        assert(at.to_set() =~= bt.to_set()) by {
            assert forall|x: Seq<char>| at.to_set().contains(x) implies bt.to_set().contains(
                x,
            ) by {
                let k = choose|k: int| 0 <= k < at.len() && at[k] == x;
                assert(a[k + 1] == x);
                assert(a.to_set().contains(x));
                assert(b.to_set().contains(x));
                let m = choose|m: int| 0 <= m < b.len() && b[m] == x;
                if m == 0 {
                    assert(lex_lt(a[0], a[k + 1]));
                    lemma_lex_lt_irrefl(a[0]);
                    assert(false);
                }
                assert(bt[m - 1] == x);
            }
            assert forall|x: Seq<char>| bt.to_set().contains(x) implies at.to_set().contains(
                x,
            ) by {
                let k = choose|k: int| 0 <= k < bt.len() && bt[k] == x;
                assert(b[k + 1] == x);
                assert(b.to_set().contains(x));
                assert(a.to_set().contains(x));
                let m = choose|m: int| 0 <= m < a.len() && a[m] == x;
                if m == 0 {
                    assert(lex_lt(b[0], b[k + 1]));
                    lemma_lex_lt_irrefl(b[0]);
                    assert(false);
                }
                assert(at[m - 1] == x);
            }
        }
        lemma_sorted_tags_canonical(at, bt);
        assert(a.len() == b.len());
        assert forall|i: int| 0 <= i < a.len() implies a[i] == b[i] by {
            if i > 0 {
                assert(a[i] == at[i - 1]);
                assert(b[i] == bt[i - 1]);
            }
        }
        assert(a =~= b);
    }
}

/// Law: normalization is idempotent: a list that already is the
/// normalization of something is its own normalization.
pub proof fn lemma_normalize_idempotent(r1: Seq<Seq<char>>, r2: Seq<Seq<char>>, xs: Seq<Seq<char>>)
    requires
        strictly_sorted(r1),
        r1.to_set() == tag_set(xs),
        strictly_sorted(r2),
        r2.to_set() == tag_set(r1),
    ensures
        r2 == r1,
{
    assert(tag_set(r1) =~= r1.to_set()) by {
        assert forall|x: Seq<char>| r1.to_set().contains(x) implies tag_set(r1).contains(x) by {
            assert(tag_set(xs).contains(x));
            assert(x.len() > 0);
        }
    }
    lemma_sorted_tags_canonical(r2, r1);
}

} // verus!
