//! The order of strings (that of Rust's `str`: character by character, by
//! code point) and sorting a list of strings with duplicates removed.
use vstd::prelude::*;
use crate::text::chars_of;

verus! {

/// `a` comes strictly before `b`: at the first position where they differ
/// `a` has the smaller character, or `a` is a proper prefix of `b`.
pub open spec fn str_less(a: Seq<char>, b: Seq<char>) -> bool
    decreases a.len(),
{
    if a.len() == 0 {
        b.len() > 0
    } else if b.len() == 0 {
        false
    } else if a[0] != b[0] {
        (a[0] as int) < (b[0] as int)
    } else {
        str_less(a.drop_first(), b.drop_first())
    }
}

/// Nothing comes before itself.
pub proof fn lemma_less_irreflexive(a: Seq<char>)
    ensures
        !str_less(a, a),
    decreases a.len(),
{
    if a.len() > 0 {
        lemma_less_irreflexive(a.drop_first());
    }
}

/// Of two different strings, one comes before the other.
pub proof fn lemma_less_total(a: Seq<char>, b: Seq<char>)
    ensures
        a == b || str_less(a, b) || str_less(b, a),
    decreases a.len(),
{
    if a.len() > 0 && b.len() > 0 && a[0] == b[0] {
        lemma_less_total(a.drop_first(), b.drop_first());
        if a.drop_first() == b.drop_first() {
            assert(a =~= seq![a[0]] + a.drop_first());
            assert(b =~= seq![b[0]] + b.drop_first());
        }
    } else if a.len() == 0 && b.len() == 0 {
        assert(a =~= b);
    } else if a.len() > 0 && b.len() > 0 {
        assert(a[0] != b[0]);
        assert((a[0] as int) != (b[0] as int));
    }
}

/// No string comes both before and after another.
pub proof fn lemma_less_asymmetric(a: Seq<char>, b: Seq<char>)
    ensures
        !(str_less(a, b) && str_less(b, a)),
    decreases a.len(),
{
    if a.len() > 0 && b.len() > 0 && a[0] == b[0] {
        lemma_less_asymmetric(a.drop_first(), b.drop_first());
    }
}

/// The order is transitive.
pub proof fn lemma_less_transitive(a: Seq<char>, b: Seq<char>, c: Seq<char>)
    requires
        str_less(a, b),
        str_less(b, c),
    ensures
        str_less(a, c),
    decreases a.len(),
{
    if a.len() > 0 && b.len() > 0 && c.len() > 0 && a[0] == b[0] && b[0] == c[0] {
        lemma_less_transitive(a.drop_first(), b.drop_first(), c.drop_first());
    }
}

/// Equal leading parts decide nothing: the order of two strings is that of
/// what follows the first `k` characters where those agree.
proof fn lemma_less_skip(a: Seq<char>, b: Seq<char>, k: int)
    requires
        0 <= k <= a.len(),
        k <= b.len(),
        a.subrange(0, k) == b.subrange(0, k),
    ensures
        str_less(a, b) == str_less(a.skip(k), b.skip(k)),
    decreases k,
{
    if k > 0 {
        assert(a[0] == a.subrange(0, k)[0]);
        assert(b[0] == b.subrange(0, k)[0]);
        assert(a.drop_first().subrange(0, k - 1) =~= a.subrange(0, k).drop_first());
        assert(b.drop_first().subrange(0, k - 1) =~= b.subrange(0, k).drop_first());
        lemma_less_skip(a.drop_first(), b.drop_first(), k - 1);
        assert(a.drop_first().skip(k - 1) =~= a.skip(k));
        assert(b.drop_first().skip(k - 1) =~= b.skip(k));
    } else {
        assert(a.skip(0) =~= a);
        assert(b.skip(0) =~= b);
    }
}

/// Whether `a` comes strictly before `b`.
pub fn str_lt(a: &str, b: &str) -> (r: bool)
    ensures
        r == str_less(a@, b@),
{
    let x = chars_of(a);
    let y = chars_of(b);
    let mut k: usize = 0;
    while k < x.len() && k < y.len() && x[k] == y[k]
        invariant
            x@ == a@,
            y@ == b@,
            k <= x@.len(),
            k <= y@.len(),
            a@.subrange(0, k as int) == b@.subrange(0, k as int),
        decreases x@.len() - k,
    {
        k = k + 1;
        assert(a@.subrange(0, k as int) =~= a@.subrange(0, k - 1).push(a@[k - 1]));
        assert(b@.subrange(0, k as int) =~= b@.subrange(0, k - 1).push(b@[k - 1]));
    }
    proof {
        lemma_less_skip(a@, b@, k as int);
    }
    if k == x.len() {
        k < y.len()
    } else if k == y.len() {
        false
    } else {
        proof {
            assert(a@.skip(k as int)[0] == x@[k as int]);
            assert(b@.skip(k as int)[0] == y@[k as int]);
        }
        x[k] < y[k]
    }
}

/// Each string comes strictly before the next.
pub open spec fn strictly_sorted(s: Seq<Seq<char>>) -> bool {
    forall|i: int, j: int| 0 <= i < j < s.len() ==> str_less(#[trigger] s[i], #[trigger] s[j])
}

/// The characters of each string of a sequence.
pub open spec fn texts(v: Seq<String>) -> Seq<Seq<char>> {
    v.map_values(|s: String| s@)
}

/// Sorts strings in the order of `str` and drops repeats: the result holds
/// each string of `v` once, in increasing order, and nothing else.
pub fn sort_dedup(v: Vec<String>) -> (r: Vec<String>)
    ensures
        strictly_sorted(texts(r@)),
        forall|s: Seq<char>| texts(r@).contains(s) <==> texts(v@).contains(s),
{
    let ghost vv = texts(v@);
    let mut out: Vec<String> = Vec::new();
    let mut i: usize = 0;
    while i < v.len()
        invariant
            vv == texts(v@),
            i <= v@.len(),
            strictly_sorted(texts(out@)),
            forall|s: Seq<char>| texts(out@).contains(s) <==> vv.take(i as int).contains(s),
        decreases v@.len() - i,
    {
        let x = &v[i];
        let mut pos: usize = 0;
        while pos < out.len() && str_lt(out[pos].as_str(), x.as_str())
            invariant
                pos <= out@.len(),
                forall|k: int| 0 <= k < pos ==> str_less(#[trigger] texts(out@)[k], x@),
            decreases out@.len() - pos,
        {
            pos = pos + 1;
        }
        let ghost before = texts(out@);
        let present = pos < out.len() && out[pos] == *x;
        if !present {
            proof {
                assert forall|k: int| pos <= k < before.len() implies str_less(x@, #[trigger] before[k]) by {
                    lemma_less_total(x@, before[pos as int]);
                    if k > pos {
                        lemma_less_transitive(x@, before[pos as int], before[k]);
                    }
                }
            }
            out.insert(pos, x.clone());
            proof {
                let after = texts(out@);
                assert(after =~= before.insert(pos as int, x@));
                assert forall|a: int, b: int| 0 <= a < b < after.len() implies str_less(
                    #[trigger] after[a],
                    #[trigger] after[b],
                ) by {
                    if a < pos && b > pos {
                        lemma_less_transitive(after[a], x@, after[b]);
                    }
                    if a < pos && b < pos {
                        assert(after[a] == before[a] && after[b] == before[b]);
                    }
                    if a > pos && b > pos {
                        assert(after[a] == before[a - 1] && after[b] == before[b - 1]);
                    }
                    if a < pos && b == pos {
                        assert(after[a] == before[a]);
                    }
                    if a == pos && b > pos {
                        assert(after[b] == before[b - 1]);
                    }
                }
            }
        }
        proof {
            let after = texts(out@);
            let t1 = vv.take(i + 1);
            let t0 = vv.take(i as int);
            assert(t1 =~= t0.push(x@));
            assert(t1[i as int] == x@);
            assert forall|s: Seq<char>| after.contains(s) <==> t1.contains(s) by {
                if present {
                    assert(after == before);
                    if s == x@ {
                        assert(before[pos as int] == x@);
                    }
                    if t1.contains(s) && s != x@ {
                        let k = choose|k: int| 0 <= k < t1.len() && t1[k] == s;
                        assert(t0[k] == s);
                    }
                } else {
                    if after.contains(s) {
                        let k = choose|k: int| 0 <= k < after.len() && after[k] == s;
                        if k < pos {
                            assert(before[k] == s);
                        } else if k > pos {
                            assert(before[k - 1] == s);
                        }
                    }
                    if before.contains(s) {
                        let k = choose|k: int| 0 <= k < before.len() && before[k] == s;
                        if k < pos {
                            assert(after[k] == s);
                        } else {
                            assert(after[k + 1] == s);
                        }
                    }
                    if s == x@ {
                        assert(after[pos as int] == s);
                    }
                    if t1.contains(s) && s != x@ {
                        let k = choose|k: int| 0 <= k < t1.len() && t1[k] == s;
                        assert(t0[k] == s);
                    }
                    if t0.contains(s) {
                        let k = choose|k: int| 0 <= k < t0.len() && t0[k] == s;
                        assert(t1[k] == s);
                    }
                }
            }
        }
        i = i + 1;
    }
    assert(vv.take(v@.len() as int) =~= vv);
    out
}


/// A strictly increasing list of strings is fixed by the strings it holds:
/// two such lists with the same strings are the same list, so sorting an
/// already sorted listing again changes nothing.
pub proof fn law_sorted_listing_unique(a: Seq<Seq<char>>, b: Seq<Seq<char>>)
    requires
        strictly_sorted(a),
        strictly_sorted(b),
        forall|s: Seq<char>| a.contains(s) <==> b.contains(s),
    ensures
        a == b,
    decreases a.len(),
{
    if a.len() == 0 {
        if b.len() > 0 {
            assert(b.contains(b[0]));
        }
        assert(a =~= b);
    } else {
        assert(a.contains(a[0]));
        let j = choose|j: int| 0 <= j < b.len() && b[j] == a[0];
        assert(b.contains(b[0]));
        let i = choose|i: int| 0 <= i < a.len() && a[i] == b[0];
        if j > 0 {
            assert(str_less(b[0], b[j]));
            if i > 0 {
                assert(str_less(a[0], a[i]));
                lemma_less_asymmetric(a[0], b[0]);
            } else {
                lemma_less_irreflexive(b[0]);
            }
        }
        assert(a[0] == b[0]);
        let ra = a.drop_first();
        let rb = b.drop_first();
        assert forall|s: Seq<char>| ra.contains(s) <==> rb.contains(s) by {
            if ra.contains(s) {
                let k = choose|k: int| 0 <= k < ra.len() && ra[k] == s;
                assert(a[k + 1] == s);
                assert(str_less(a[0], a[k + 1]));
                assert(b.contains(s));
                let m = choose|m: int| 0 <= m < b.len() && b[m] == s;
                if m == 0 {
                    lemma_less_irreflexive(s);
                }
                assert(rb[m - 1] == s);
            }
            if rb.contains(s) {
                let k = choose|k: int| 0 <= k < rb.len() && rb[k] == s;
                assert(b[k + 1] == s);
                assert(str_less(b[0], b[k + 1]));
                assert(a.contains(s));
                let m = choose|m: int| 0 <= m < a.len() && a[m] == s;
                if m == 0 {
                    lemma_less_irreflexive(s);
                }
                assert(ra[m - 1] == s);
            }
        }
        assert forall|x: int, y: int| 0 <= x < y < ra.len() implies str_less(#[trigger] ra[x], #[trigger] ra[y]) by {
            assert(ra[x] == a[x + 1] && ra[y] == a[y + 1]);
        }
        assert forall|x: int, y: int| 0 <= x < y < rb.len() implies str_less(#[trigger] rb[x], #[trigger] rb[y]) by {
            assert(rb[x] == b[x + 1] && rb[y] == b[y + 1]);
        }
        law_sorted_listing_unique(ra, rb);
        assert(a =~= seq![a[0]] + ra);
        assert(b =~= seq![b[0]] + rb);
    }
}

} // verus!
