//! Verified character-level string utilities.
//!
//! Every URL and text fragment in this crate is modelled as a `Seq<char>`;
//! the helpers here give executable equality, prefix/suffix/substring
//! tests, searching, trimming and counting with exact contracts over that
//! model.
use vstd::prelude::*;

verus! {

/// Names the result of `char::is_whitespace`: the Unicode white-space
/// property of a single character.
pub uninterp spec fn is_space_char(c: char) -> bool;

/// Relies on `char::is_whitespace`: true exactly for Unicode white-space
/// characters, which include the four ASCII ones named below.
pub assume_specification[ char::is_whitespace ](c: char) -> (r: bool)
    ensures
        r == is_space_char(c),
        (c == ' ' || c == '\t' || c == '\n' || c == '\r') ==> r,
        ('!' <= c && c <= '~') ==> !r,
;

/// Names the result of `char::is_alphanumeric`: the Unicode
/// letter-or-number property of a single character.
pub uninterp spec fn is_alnum_char(c: char) -> bool;

/// Relies on `char::is_alphanumeric`: true exactly for Unicode letters
/// and numbers; on the ASCII range that is exactly the ASCII letters
/// and digits.
pub assume_specification[ char::is_alphanumeric ](c: char) -> (r: bool)
    ensures
        r == is_alnum_char(c),
        (c as u32) < 128 ==> (r <==> (48 <= (c as u32) <= 57 || 65 <= (c as u32) <= 90 || 97 <= (
        c as u32) <= 122)),
;

/// `sub` occurs somewhere inside `s`.
pub open spec fn spec_contains(s: Seq<char>, sub: Seq<char>) -> bool {
    exists|i: int| 0 <= i && i + sub.len() <= s.len() && #[trigger] s.subrange(i, i + sub.len())
        == sub
}

/// Character-for-character equality of two string slices.
pub fn str_eq(a: &str, b: &str) -> (r: bool)
    ensures
        r == (a@ == b@),
{
    let n = a.unicode_len();
    if n != b.unicode_len() {
        return false;
    }
    let mut i: usize = 0;
    while i < n
        invariant
            n == a@.len(),
            n == b@.len(),
            0 <= i <= n,
            forall|j: int| 0 <= j < i ==> a@[j] == b@[j],
        decreases n - i,
    {
        if a.get_char(i) != b.get_char(i) {
            return false;
        }
        i += 1;
    }
    proof {
        assert(a@ =~= b@);
    }
    true
}

/// `p` is a prefix of `s`.
pub fn starts_with_str(s: &str, p: &str) -> (r: bool)
    ensures
        r == p@.is_prefix_of(s@),
{
    let n = s.unicode_len();
    let m = p.unicode_len();
    if m > n {
        return false;
    }
    let mut i: usize = 0;
    while i < m
        invariant
            n == s@.len(),
            m == p@.len(),
            m <= n,
            0 <= i <= m,
            forall|j: int| 0 <= j < i ==> s@[j] == p@[j],
        decreases m - i,
    {
        if s.get_char(i) != p.get_char(i) {
            proof {
                assert(!p@.is_prefix_of(s@)) by {
                    assert(s@.subrange(0, m as int)[i as int] == s@[i as int]);
                }
            }
            return false;
        }
        i += 1;
    }
    proof {
        assert(p@ =~= s@.subrange(0, m as int));
    }
    true
}

/// `p` is a suffix of `s`.
pub fn ends_with_str(s: &str, p: &str) -> (r: bool)
    ensures
        r == p@.is_suffix_of(s@),
{
    let n = s.unicode_len();
    let m = p.unicode_len();
    if m > n {
        return false;
    }
    let off = n - m;
    let mut i: usize = 0;
    while i < m
        invariant
            n == s@.len(),
            m == p@.len(),
            off == n - m,
            0 <= i <= m,
            forall|j: int| 0 <= j < i ==> s@[off + j] == p@[j],
        decreases m - i,
    {
        if s.get_char(off + i) != p.get_char(i) {
            proof {
                assert(!p@.is_suffix_of(s@)) by {
                    assert(s@.subrange(off as int, n as int)[i as int] == s@[off + i]);
                }
            }
            return false;
        }
        i += 1;
    }
    proof {
        assert(p@ =~= s@.subrange(off as int, n as int));
    }
    true
}

/// `sub` matches `s` exactly at offset `at`.
fn matches_at(s: &str, sub: &str, at: usize) -> (r: bool)
    requires
        at + sub@.len() <= s@.len(),
    ensures
        r == (s@.subrange(at as int, at + sub@.len()) == sub@),
{
    let n = s.unicode_len();
    let m = sub.unicode_len();
    let mut j: usize = 0;
    while j < m
        invariant
            n == s@.len(),
            m == sub@.len(),
            at + m <= s@.len(),
            0 <= j <= m,
            forall|k: int| 0 <= k < j ==> s@[at + k] == sub@[k],
        decreases m - j,
    {
        if s.get_char(at + j) != sub.get_char(j) {
            proof {
                assert(s@.subrange(at as int, at + m) != sub@) by {
                    assert(s@.subrange(at as int, at + m)[j as int] == s@[at + j]);
                }
            }
            return false;
        }
        j += 1;
    }
    proof {
        assert(s@.subrange(at as int, at + m) =~= sub@);
    }
    true
}

/// `sub` occurs somewhere inside `s`.
pub fn contains_str(s: &str, sub: &str) -> (r: bool)
    ensures
        r == spec_contains(s@, sub@),
{
    let n = s.unicode_len();
    let m = sub.unicode_len();
    if m > n {
        proof {
            assert(!spec_contains(s@, sub@));
        }
        return false;
    }
    if m == 0 {
        proof {
            assert(s@.subrange(0, 0) =~= sub@);
            assert(spec_contains(s@, sub@)) by {
                assert(s@.subrange(0, 0 + sub@.len() as int) == sub@);
            }
        }
        return true;
    }
    let mut i: usize = 0;
    while i <= n - m
        invariant
            n == s@.len(),
            m == sub@.len(),
            0 < m <= n,
            0 <= i <= n - m + 1,
            forall|k: int| 0 <= k < i ==> #[trigger] s@.subrange(k, k + m) != sub@,
        decreases n - i,
    {
        if matches_at(s, sub, i) {
            proof {
                assert(spec_contains(s@, sub@)) by {
                    assert(s@.subrange(i as int, i + m) == sub@);
                }
            }
            return true;
        }
        i += 1;
    }
    false
}

/// Index of the first occurrence of `c` in `s`, or -1.
pub open spec fn spec_find(s: Seq<char>, c: char) -> int
    decreases s.len(),
{
    if s.len() == 0 {
        -1
    } else if s[0] == c {
        0
    } else {
        let r = spec_find(s.drop_first(), c);
        if r == -1 {
            -1
        } else {
            1 + r
        }
    }
}

/// `spec_find` is the first index holding `c`, and -1 means `c` is absent.
proof fn lemma_spec_find_at(s: Seq<char>, c: char, i: int)
    requires
        0 <= i <= s.len(),
        forall|j: int| 0 <= j < i ==> s[j] != c,
        i == s.len() || s[i] == c,
    ensures
        spec_find(s, c) == if i == s.len() {
            -1
        } else {
            i
        },
    decreases s.len(),
{
    if s.len() == 0 {
    } else if s[0] == c {
    } else {
        lemma_spec_find_at(s.drop_first(), c, i - 1);
    }
}

/// `spec_find` is -1 or a valid index.
pub proof fn lemma_spec_find_range(s: Seq<char>, c: char)
    ensures
        -1 <= spec_find(s, c) < s.len(),
    decreases s.len(),
{
    if s.len() == 0 {
    } else if s[0] == c {
    } else {
        lemma_spec_find_range(s.drop_first(), c);
    }
}

/// Index of the last occurrence of `c` in `s`, or -1.
pub open spec fn spec_rfind(s: Seq<char>, c: char) -> int
    decreases s.len(),
{
    if s.len() == 0 {
        -1
    } else if s.last() == c {
        s.len() - 1
    } else {
        spec_rfind(s.drop_last(), c)
    }
}

/// `spec_rfind` is the last index holding `c`, and -1 means `c` is absent.
proof fn lemma_spec_rfind_at(s: Seq<char>, c: char, i: int)
    requires
        -1 <= i < s.len(),
        forall|j: int| i < j < s.len() ==> s[j] != c,
        i == -1 || s[i] == c,
    ensures
        spec_rfind(s, c) == i,
    decreases s.len(),
{
    if s.len() == 0 {
    } else if s.last() == c {
    } else {
        lemma_spec_rfind_at(s.drop_last(), c, i);
    }
}

/// First index of `c` in `s`, if any.
pub fn find_char(s: &str, c: char) -> (r: Option<usize>)
    ensures
        match r {
            Some(i) => i == spec_find(s@, c) && i < s@.len() && s@[i as int] == c,
            None => spec_find(s@, c) == -1,
        },
{
    let n = s.unicode_len();
    let mut i: usize = 0;
    while i < n
        invariant
            n == s@.len(),
            0 <= i <= n,
            forall|j: int| 0 <= j < i ==> s@[j] != c,
        decreases n - i,
    {
        if s.get_char(i) == c {
            proof {
                lemma_spec_find_at(s@, c, i as int);
            }
            return Some(i);
        }
        i += 1;
    }
    proof {
        lemma_spec_find_at(s@, c, n as int);
    }
    None
}

/// Last index of `c` in `s`, if any.
pub fn rfind_char(s: &str, c: char) -> (r: Option<usize>)
    ensures
        match r {
            Some(i) => i == spec_rfind(s@, c) && i < s@.len() && s@[i as int] == c,
            None => spec_rfind(s@, c) == -1,
        },
{
    let n = s.unicode_len();
    let mut i: usize = n;
    while i > 0
        invariant
            n == s@.len(),
            0 <= i <= n,
            forall|j: int| i <= j < n ==> s@[j] != c,
        decreases i,
    {
        if s.get_char(i - 1) == c {
            proof {
                lemma_spec_rfind_at(s@, c, i - 1);
            }
            return Some(i - 1);
        }
        i -= 1;
    }
    proof {
        lemma_spec_rfind_at(s@, c, -1);
    }
    None
}

/// How many characters of `s` satisfy one of the three given characters.
pub open spec fn spec_count3(s: Seq<char>, a: char, b: char, c: char) -> nat
    decreases s.len(),
{
    if s.len() == 0 {
        0
    } else {
        spec_count3(s.drop_last(), a, b, c) + if s.last() == a || s.last() == b || s.last() == c {
            1nat
        } else {
            0nat
        }
    }
}

/// Number of occurrences of `a`, `b` or `c` in `s`.
pub fn count3(s: &str, a: char, b: char, c: char) -> (r: usize)
    ensures
        r == spec_count3(s@, a, b, c),
{
    let n = s.unicode_len();
    let mut i: usize = 0;
    let mut acc: usize = 0;
    while i < n
        invariant
            n == s@.len(),
            0 <= i <= n,
            acc == spec_count3(s@.take(i as int), a, b, c),
            acc <= i,
        decreases n - i,
    {
        let ch = s.get_char(i);
        proof {
            assert(s@.take(i + 1).drop_last() =~= s@.take(i as int));
            assert(s@.take(i + 1).last() == s@[i as int]);
        }
        if ch == a || ch == b || ch == c {
            acc += 1;
        }
        i += 1;
    }
    proof {
        assert(s@.take(n as int) =~= s@);
    }
    acc
}

/// `v` holds a string whose characters are exactly `s`.
pub fn vec_contains_str(v: &Vec<String>, s: &str) -> (r: bool)
    ensures
        r == v.deep_view().contains(s@),
{
    let n = v.len();
    let mut i: usize = 0;
    while i < n
        invariant
            n == v.len(),
            0 <= i <= n,
            forall|j: int| 0 <= j < i ==> #[trigger] v.deep_view()[j] != s@,
        decreases n - i,
    {
        if str_eq(v[i].as_str(), s) {
            proof {
                assert(v.deep_view()[i as int] == s@);
            }
            return true;
        }
        proof {
            assert(v.deep_view()[i as int] == v@[i as int]@);
        }
        i += 1;
    }
    proof {
        assert(!v.deep_view().contains(s@)) by {
            assert(forall|j: int|
                0 <= j < v.deep_view().len() ==> #[trigger] v.deep_view()[j] != s@);
        }
    }
    false
}

/// Drop the longest prefix of characters satisfying `p`.
pub open spec fn spec_drop_while(s: Seq<char>, p: spec_fn(char) -> bool) -> Seq<char>
    decreases s.len(),
{
    if s.len() == 0 {
        s
    } else if p(s[0]) {
        spec_drop_while(s.drop_first(), p)
    } else {
        s
    }
}

/// Drop the longest suffix of characters satisfying `p`.
pub open spec fn spec_drop_while_end(s: Seq<char>, p: spec_fn(char) -> bool) -> Seq<char>
    decreases s.len(),
{
    if s.len() == 0 {
        s
    } else if p(s.last()) {
        spec_drop_while_end(s.drop_last(), p)
    } else {
        s
    }
}

/// If the first `i` characters satisfy `p` and position `i` does not,
/// dropping-while is exactly skipping `i` characters.
pub proof fn lemma_drop_while_at(s: Seq<char>, p: spec_fn(char) -> bool, i: int)
    requires
        0 <= i <= s.len(),
        forall|j: int| 0 <= j < i ==> p(s[j]),
        i == s.len() || !p(s[i]),
    ensures
        spec_drop_while(s, p) == s.skip(i),
    decreases s.len(),
{
    if s.len() == 0 {
        assert(s.skip(0) =~= s);
    } else if i == 0 {
        assert(s.skip(0) =~= s);
    } else {
        lemma_drop_while_at(s.drop_first(), p, i - 1);
        assert(s.drop_first().skip(i - 1) =~= s.skip(i));
    }
}

/// If the characters from `i` on satisfy `p` and position `i - 1` does not,
/// dropping-while from the end is exactly taking `i` characters.
pub proof fn lemma_drop_while_end_at(s: Seq<char>, p: spec_fn(char) -> bool, i: int)
    requires
        0 <= i <= s.len(),
        forall|j: int| i <= j < s.len() ==> p(s[j]),
        i == 0 || !p(s[i - 1]),
    ensures
        spec_drop_while_end(s, p) == s.take(i),
    decreases s.len(),
{
    if s.len() == 0 {
        assert(s.take(0) =~= s);
    } else if i == s.len() {
        assert(s.take(i) =~= s);
    } else {
        lemma_drop_while_end_at(s.drop_last(), p, i);
        assert(s.drop_last().take(i) =~= s.take(i));
    }
}

/// White space removed from both ends, as `str::trim` does.
pub open spec fn spec_trim(s: Seq<char>) -> Seq<char> {
    spec_drop_while_end(spec_drop_while(s, |c: char| is_space_char(c)), |c: char| is_space_char(c))
}

/// `s` with leading and trailing white space removed.
pub fn trim(s: &str) -> (r: &str)
    ensures
        r@ == spec_trim(s@),
{
    let n = s.unicode_len();
    let mut start: usize = 0;
    while start < n && s.get_char(start).is_whitespace()
        invariant
            n == s@.len(),
            0 <= start <= n,
            forall|j: int| 0 <= j < start ==> is_space_char(s@[j]),
        decreases n - start,
    {
        start += 1;
    }
    let mut end: usize = n;
    while end > start && s.get_char(end - 1).is_whitespace()
        invariant
            n == s@.len(),
            start <= end <= n,
            forall|j: int| end <= j < n ==> is_space_char(s@[j]),
        decreases end,
    {
        end -= 1;
    }
    proof {
        let p = |c: char| is_space_char(c);
        lemma_drop_while_at(s@, p, start as int);
        let t = s@.skip(start as int);
        lemma_drop_while_end_at(t, p, end - start);
        assert(t.take(end - start) =~= s@.subrange(start as int, end as int));
    }
    s.substring_char(start, end)
}

/// `s` with every leading `/` removed, as `str::trim_start_matches('/')`.
pub open spec fn spec_trim_start_slashes(s: Seq<char>) -> Seq<char> {
    spec_drop_while(s, |c: char| c == '/')
}

/// `s` with every leading and trailing `/` removed, as
/// `str::trim_matches('/')`.
pub open spec fn spec_trim_slashes(s: Seq<char>) -> Seq<char> {
    spec_drop_while_end(spec_drop_while(s, |c: char| c == '/'), |c: char| c == '/')
}

/// `s` with every leading `/` removed.
pub fn trim_start_slashes(s: &str) -> (r: &str)
    ensures
        r@ == spec_trim_start_slashes(s@),
{
    let n = s.unicode_len();
    let mut start: usize = 0;
    while start < n && s.get_char(start) == '/'
        invariant
            n == s@.len(),
            0 <= start <= n,
            forall|j: int| 0 <= j < start ==> s@[j] == '/',
        decreases n - start,
    {
        start += 1;
    }
    proof {
        lemma_drop_while_at(s@, |c: char| c == '/', start as int);
        assert(s@.skip(start as int) =~= s@.subrange(start as int, n as int));
    }
    s.substring_char(start, n)
}

/// `s` with every leading and trailing `/` removed.
pub fn trim_slashes(s: &str) -> (r: &str)
    ensures
        r@ == spec_trim_slashes(s@),
{
    let n = s.unicode_len();
    let mut start: usize = 0;
    while start < n && s.get_char(start) == '/'
        invariant
            n == s@.len(),
            0 <= start <= n,
            forall|j: int| 0 <= j < start ==> s@[j] == '/',
        decreases n - start,
    {
        start += 1;
    }
    let mut end: usize = n;
    while end > start && s.get_char(end - 1) == '/'
        invariant
            n == s@.len(),
            start <= end <= n,
            forall|j: int| end <= j < n ==> s@[j] == '/',
        decreases end,
    {
        end -= 1;
    }
    proof {
        let p = |c: char| c == '/';
        lemma_drop_while_at(s@, p, start as int);
        let t = s@.skip(start as int);
        lemma_drop_while_end_at(t, p, end - start);
        assert(t.take(end - start) =~= s@.subrange(start as int, end as int));
    }
    s.substring_char(start, end)
}

} // verus!
