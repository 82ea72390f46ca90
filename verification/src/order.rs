//! Lexicographic order and sorted, deduplicated reporting lists.
//!
//! The discovery collections are handed off for reporting sorted and
//! deduplicated.  Strings are ordered by code point, the order `Ord` on
//! `str` induces, stated here as a spec function with its laws, and the
//! output list is built by sorted insertion.
use vstd::prelude::*;

use crate::text::str_eq;

verus! {

/// `a` does not come after `b` in code-point lexicographic order.
pub open spec fn lex_le(a: Seq<char>, b: Seq<char>) -> bool
    decreases a.len(),
{
    if a.len() == 0 {
        true
    } else if b.len() == 0 {
        false
    } else if (a[0] as u32) < (b[0] as u32) {
        true
    } else if (a[0] as u32) > (b[0] as u32) {
        false
    } else {
        lex_le(a.drop_first(), b.drop_first())
    }
}

/// `a` comes strictly before `b`.
pub open spec fn lex_lt(a: Seq<char>, b: Seq<char>) -> bool {
    lex_le(a, b) && a != b
}

/// The order is reflexive.
pub proof fn lemma_lex_refl(a: Seq<char>)
    ensures
        lex_le(a, a),
    decreases a.len(),
{
    if a.len() > 0 {
        lemma_lex_refl(a.drop_first());
    }
}

/// The order is total: two strings always compare one way or the other.
pub proof fn lemma_lex_total(a: Seq<char>, b: Seq<char>)
    ensures
        lex_le(a, b) || lex_le(b, a),
    decreases a.len(),
{
    if a.len() > 0 && b.len() > 0 && (a[0] as u32) == (b[0] as u32) {
        lemma_lex_total(a.drop_first(), b.drop_first());
    }
}

/// The order is antisymmetric: mutual order means equality.
pub proof fn lemma_lex_antisym(a: Seq<char>, b: Seq<char>)
    requires
        lex_le(a, b),
        lex_le(b, a),
    ensures
        a == b,
    decreases a.len(),
{
    if a.len() == 0 {
        assert(b.len() == 0);
        assert(a =~= b);
    } else {
        assert(b.len() > 0);
        assert((a[0] as u32) == (b[0] as u32));
        lemma_lex_antisym(a.drop_first(), b.drop_first());
        vstd::utf8::char_u32_cast(a[0], (a[0] as u32));
        vstd::utf8::char_u32_cast(b[0], (b[0] as u32));
        assert(a[0] == b[0]);
        assert forall|i: int| 0 <= i < a.len() implies a[i] == b[i] by {
            if i > 0 {
                assert(a.drop_first()[i - 1] == b.drop_first()[i - 1]);
            }
        }
        assert(a =~= b);
    }
}

/// The order is transitive.
pub proof fn lemma_lex_trans(a: Seq<char>, b: Seq<char>, c: Seq<char>)
    requires
        lex_le(a, b),
        lex_le(b, c),
    ensures
        lex_le(a, c),
    decreases a.len(),
{
    if a.len() == 0 {
    } else {
        assert(b.len() > 0);
        assert(c.len() > 0);
        if (a[0] as u32) == (c[0] as u32) {
            if (a[0] as u32) == (b[0] as u32) {
                lemma_lex_trans(a.drop_first(), b.drop_first(), c.drop_first());
            }
        }
    }
}

/// Dropping an equal prefix does not change how two strings compare.
proof fn lemma_lex_skip(a: Seq<char>, b: Seq<char>, i: int)
    requires
        0 <= i <= a.len(),
        i <= b.len(),
        forall|j: int| 0 <= j < i ==> (a[j] as u32) == (#[trigger] b[j] as u32),
    ensures
        lex_le(a, b) == lex_le(a.skip(i), b.skip(i)),
    decreases i,
{
    if i == 0 {
        assert(a.skip(0) =~= a);
        assert(b.skip(0) =~= b);
    } else {
        lemma_lex_skip(a.drop_first(), b.drop_first(), i - 1);
        assert(a.drop_first().skip(i - 1) =~= a.skip(i));
        assert(b.drop_first().skip(i - 1) =~= b.skip(i));
    }
}

/// Compare two strings in code-point lexicographic order.
pub fn str_le(a: &str, b: &str) -> (r: bool)
    ensures
        r == lex_le(a@, b@),
{
    let an = a.unicode_len();
    let bn = b.unicode_len();
    let n = if an < bn {
        an
    } else {
        bn
    };
    let mut i: usize = 0;
    while i < n
        invariant
            an == a@.len(),
            bn == b@.len(),
            n == if an < bn {
                an
            } else {
                bn
            },
            0 <= i <= n,
            forall|j: int| 0 <= j < i ==> (a@[j] as u32) == (#[trigger] b@[j] as u32),
        decreases n - i,
    {
        let ca = a.get_char(i) as u32;
        let cb = b.get_char(i) as u32;
        if ca < cb {
            proof {
                lemma_lex_skip(a@, b@, i as int);
            }
            return true;
        }
        if ca > cb {
            proof {
                lemma_lex_skip(a@, b@, i as int);
            }
            return false;
        }
        i += 1;
    }
    proof {
        lemma_lex_skip(a@, b@, n as int);
    }
    an <= bn
}

/// Every element comes strictly before every later one: sorted, with
/// no duplicates.
pub open spec fn strictly_sorted(s: Seq<Seq<char>>) -> bool {
    forall|i: int, j: int| 0 <= i < j < s.len() ==> lex_lt(#[trigger] s[i], #[trigger] s[j])
}

/// Insert `s` into the strictly sorted `out`, keeping it strictly
/// sorted; an `s` already present is dropped.
fn insert_sorted(out: &mut Vec<String>, s: &String)
    requires
        strictly_sorted(old(out).deep_view()),
    ensures
        strictly_sorted(final(out).deep_view()),
        forall|x: Seq<char>|
            #[trigger] final(out).deep_view().contains(x) <==> (old(out).deep_view().contains(x)
                || x == s@),
{
    let n = out.len();
    let mut j: usize = 0;
    while j < n && !str_le(s.as_str(), out[j].as_str())
        invariant
            n == out.len(),
            strictly_sorted(out.deep_view()),
            0 <= j <= n,
            forall|k: int| 0 <= k < j ==> !lex_le(s@, #[trigger] out.deep_view()[k]),
        decreases n - j,
    {
        proof {
            assert(out.deep_view()[j as int] == out@[j as int]@);
        }
        j += 1;
    }
    let ghost dv = out.deep_view();
    proof {
        assert(j < n ==> out.deep_view()[j as int] == out@[j as int]@);
    }
    if j < n && str_eq(s.as_str(), out[j].as_str()) {
        proof {
            assert(dv[j as int] == s@);
            assert(dv.contains(s@));
        }
        return ;
    }
    proof {
        assert(forall|k: int| 0 <= k < j ==> lex_lt(#[trigger] dv[k], s@)) by {
            assert forall|k: int| 0 <= k < j implies lex_lt(#[trigger] dv[k], s@) by {
                lemma_lex_total(s@, dv[k]);
                if dv[k] == s@ {
                    lemma_lex_refl(s@);
                }
            }
        }
        assert(forall|k: int| j <= k < n ==> lex_lt(s@, #[trigger] dv[k])) by {
            assert forall|k: int| j <= k < n implies lex_lt(s@, #[trigger] dv[k]) by {
                if k == j {
                    assert(lex_le(s@, dv[j as int]));
                    assert(dv[j as int] != s@);
                } else {
                    assert(lex_lt(dv[j as int], dv[k]));
                    lemma_lex_trans(s@, dv[j as int], dv[k]);
                    if dv[k] == s@ {
                        lemma_lex_antisym(s@, dv[j as int]);
                    }
                }
            }
        }
    }
    let cloned = s.clone();
    let ghost ev = cloned;
    let ghost ov = out@;
    out.insert(j, cloned);
    proof {
        let new = out.deep_view();
        dv.insert_ensures(j as int, s@);
        ov.insert_ensures(j as int, ev);
        assert(new =~= dv.insert(j as int, s@));
        assert forall|p: int, q: int| 0 <= p < q < new.len() implies lex_lt(
            #[trigger] new[p],
            #[trigger] new[q],
        ) by {
            if q < j {
            } else if p < j && q == j {
                assert(new[p] == dv[p] && new[q] == s@);
            } else if p < j && q > j {
                assert(new[p] == dv[p] && new[q] == dv[q - 1]);
                if p == q - 1 {
                } else {
                    assert(lex_lt(dv[p], dv[q - 1]));
                }
                if j <= q - 1 {
                    assert(lex_lt(s@, dv[q - 1]));
                    if p < j {
                        assert(lex_lt(dv[p], s@));
                        lemma_lex_trans(dv[p], s@, dv[q - 1]);
                        if dv[p] == dv[q - 1] {
                            lemma_lex_antisym(dv[p], s@);
                        }
                    }
                }
            } else if p == j {
                assert(new[p] == s@ && new[q] == dv[q - 1]);
                assert(lex_lt(s@, dv[q - 1]));
            } else {
                assert(new[p] == dv[p - 1] && new[q] == dv[q - 1]);
                assert(lex_lt(dv[p - 1], dv[q - 1]));
            }
        }
        assert forall|x: Seq<char>| #[trigger] new.contains(x) implies (dv.contains(x) || x == s@)
            by {
            let idx = choose|idx: int| 0 <= idx < new.len() && new[idx] == x;
            if idx < j {
                assert(dv[idx] == x);
            } else if idx == j {
            } else {
                assert(dv[idx - 1] == x);
            }
        }
        assert forall|x: Seq<char>| (dv.contains(x) || x == s@) implies #[trigger] new.contains(x)
            by {
            if x == s@ {
                assert(new[j as int] == x);
            } else {
                let idx = choose|idx: int| 0 <= idx < dv.len() && dv[idx] == x;
                if idx < j {
                    assert(new[idx] == x);
                } else {
                    assert(new[idx + 1] == x);
                }
            }
        }
    }
}

/// The input's elements, each exactly once, in code-point order: the
/// form in which the discovery collections are reported.
pub fn sorted_dedup(v: &Vec<String>) -> (r: Vec<String>)
    ensures
        strictly_sorted(r.deep_view()),
        forall|x: Seq<char>|
            #[trigger] r.deep_view().contains(x) <==> v.deep_view().contains(x),
{
    let mut out: Vec<String> = Vec::new();
    let n = v.len();
    let mut i: usize = 0;
    while i < n
        invariant
            n == v.len(),
            strictly_sorted(out.deep_view()),
            0 <= i <= n,
            forall|x: Seq<char>|
                #[trigger] out.deep_view().contains(x) <==> v.deep_view().take(i as int).contains(
                    x,
                ),
        decreases n - i,
    {
        let ghost pre = out.deep_view();
        insert_sorted(&mut out, &v[i]);
        proof {
            let taken = v.deep_view().take(i + 1);
            assert(taken.drop_last() =~= v.deep_view().take(i as int));
            assert(taken.last() == v.deep_view()[i as int]);
            assert(v.deep_view()[i as int] == v@[i as int]@);
            assert forall|x: Seq<char>| #[trigger] out.deep_view().contains(x) implies
                taken.contains(x) by {
                if pre.contains(x) {
                    let idx = choose|idx: int|
                        0 <= idx < taken.drop_last().len() && taken.drop_last()[idx] == x;
                    assert(taken[idx] == x);
                } else {
                    assert(taken[taken.len() - 1] == x);
                }
            }
            assert forall|x: Seq<char>| #[trigger] taken.contains(x) implies
                out.deep_view().contains(x) by {
                let idx = choose|idx: int| 0 <= idx < taken.len() && taken[idx] == x;
                if idx < taken.len() - 1 {
                    assert(taken.drop_last()[idx] == x);
                }
            }
        }
        i += 1;
    }
    proof {
        assert(v.deep_view().take(n as int) =~= v.deep_view());
    }
    out
}

} // verus!
