//! Character-level scanning over strings: substring occurrence, first
//! occurrence search, equality, and occurrence replacement.  These are the
//! primitives the line protocol's framing and keep-alive handling are built
//! on.

use vstd::prelude::*;

verus! {

/// Pattern `p` occurs in `s` starting at index `i`.
pub open spec fn matches_at(s: Seq<char>, i: int, p: Seq<char>) -> bool {
    0 <= i && i + p.len() <= s.len() && s.subrange(i, i + p.len() as int) == p
}

/// `p` occurs somewhere in `s`.
pub open spec fn contains_seq(s: Seq<char>, p: Seq<char>) -> bool {
    exists|i: int| matches_at(s, i, p)
}

/// The first index at or after `from` where `p` occurs in `s`, if any.
pub open spec fn first_match(s: Seq<char>, p: Seq<char>, from: int) -> Option<int>
    decreases s.len() + 1 - from,
{
    if from < 0 || from + p.len() > s.len() {
        None
    } else if s.subrange(from, from + p.len() as int) == p {
        Some(from)
    } else {
        first_match(s, p, from + 1)
    }
}

/// `first_match` returns the first occurrence: a hit matches and nothing
/// before it does; a miss means nothing at or after `from` matches.
pub proof fn lemma_first_match(s: Seq<char>, p: Seq<char>, from: int)
    requires
        0 <= from,
    ensures
        match first_match(s, p, from) {
            Some(i) => from <= i && matches_at(s, i, p) && (forall|j: int|
                from <= j < i ==> !matches_at(s, j, p)),
            None => forall|j: int| from <= j ==> !matches_at(s, j, p),
        },
    decreases s.len() + 1 - from,
{
    if from + p.len() > s.len() {
        assert forall|j: int| from <= j implies !matches_at(s, j, p) by {
            assert(j + p.len() >= from + p.len());
        }
    } else if s.subrange(from, from + p.len() as int) == p {
    } else {
        lemma_first_match(s, p, from + 1);
        assert(!matches_at(s, from, p));
    }
}

/// If `i` is an occurrence of `p` and nothing in `[from, i)` is one, then
/// the search from `from` finds exactly `i`.
pub proof fn lemma_first_match_is(s: Seq<char>, p: Seq<char>, from: int, i: int)
    requires
        0 <= from <= i,
        matches_at(s, i, p),
        forall|j: int| from <= j < i ==> !matches_at(s, j, p),
    ensures
        first_match(s, p, from) == Some(i),
    decreases i - from,
{
    assert(from + p.len() <= i + p.len() <= s.len());
    if from == i {
        assert(s.subrange(from, from + p.len() as int) == p);
    } else {
        assert(!matches_at(s, from, p));
        assert(s.subrange(from, from + p.len() as int) != p);
        lemma_first_match_is(s, p, from + 1, i);
    }
}

/// True iff `p` occurs in `s` at index `i`.
pub fn match_at(s: &str, i: usize, p: &str) -> (r: bool)
    ensures
        r == matches_at(s@, i as int, p@),
{
    let n = s.unicode_len();
    let m = p.unicode_len();
    if m > n || i > n - m {
        return false;
    }
    let mut j: usize = 0;
    while j < m
        invariant
            j <= m,
            m <= n,
            i <= n - m,
            n == s@.len(),
            m == p@.len(),
            forall|k: int| 0 <= k < j ==> s@[i + k] == p@[k],
        decreases m - j,
    {
        if s.get_char(i + j) != p.get_char(j) {
            assert(!matches_at(s@, i as int, p@)) by {
                if matches_at(s@, i as int, p@) {
                    assert(s@.subrange(i as int, i + m as int)[j as int] == s@[i + j]);
                }
            }
            return false;
        }
        j += 1;
    }
    assert(s@.subrange(i as int, i + m as int) =~= p@);
    true
}

/// The first index at or after `from` where `p` occurs in `s`.
pub fn find_from(s: &str, p: &str, from: usize) -> (r: Option<usize>)
    ensures
        match r {
            Some(i) => Some(i as int) == first_match(s@, p@, from as int),
            None => first_match(s@, p@, from as int) is None,
        },
{
    let n = s.unicode_len();
    let m = p.unicode_len();
    let mut i: usize = from;
    loop
        invariant
            from <= i,
            n == s@.len(),
            m == p@.len(),
            first_match(s@, p@, from as int) == first_match(s@, p@, i as int),
        decreases n + 1 - i,
    {
        if m > n || i > n - m {
            assert(first_match(s@, p@, i as int) is None);
            return None;
        }
        if match_at(s, i, p) {
            assert(first_match(s@, p@, i as int) == Some(i as int));
            return Some(i);
        }
        assert(first_match(s@, p@, i as int) == first_match(s@, p@, i + 1));
        assert(m >= 1) by {
            if m == 0 {
                assert(s@.subrange(i as int, i as int) =~= p@);
            }
        }
        i += 1;
    }
}

/// Character-for-character equality of two string slices.
pub fn str_eq(a: &str, b: &str) -> (r: bool)
    ensures
        r == (a@ == b@),
{
    let n = a.unicode_len();
    if n != b.unicode_len() {
        return false;
    }
    let r = match_at(a, 0, b);
    assert(a@.subrange(0, n as int) =~= a@);
    r
}

/// `s` with every occurrence of `pat` replaced by `rep`, scanning left to
/// right without overlap (the semantics of `str::replace`).
pub open spec fn replace_spec(s: Seq<char>, pat: Seq<char>, rep: Seq<char>) -> Seq<char>
    decreases s.len(),
{
    if pat.len() == 0 || s.len() < pat.len() {
        s
    } else if s.subrange(0, pat.len() as int) == pat {
        rep + replace_spec(s.skip(pat.len() as int), pat, rep)
    } else {
        seq![s[0]] + replace_spec(s.skip(1), pat, rep)
    }
}

/// Replaces every occurrence of `pat` in `s` by `rep`, left to right.
pub fn replace_all(s: &str, pat: &str, rep: &str) -> (r: String)
    ensures
        r@ == replace_spec(s@, pat@, rep@),
    decreases s@.len(),
{
    let n = s.unicode_len();
    let m = pat.unicode_len();
    if m == 0 || n < m {
        return String::from_str(s);
    }
    if match_at(s, 0, pat) {
        let rest = replace_all(s.substring_char(m, n), pat, rep);
        let mut out = String::from_str(rep);
        out.append(rest.as_str());
        assert(s@.skip(m as int) =~= s@.subrange(m as int, n as int));
        out
    } else {
        let head = s.substring_char(0, 1);
        let rest = replace_all(s.substring_char(1, n), pat, rep);
        let mut out = String::from_str(head);
        out.append(rest.as_str());
        assert(s@.skip(1) =~= s@.subrange(1, n as int));
        assert(seq![s@[0]] =~= s@.subrange(0, 1));
        out
    }
}

} // verus!
