//! Substring search over strings, the basis of the tolerant scan that
//! extracts metadata references from a response body.

use vstd::prelude::*;
use vstd::string::StrSliceExecFns;

verus! {

/// Relies on String::push, documented to append the given character to the
/// end of the string.
pub assume_specification[ String::push ](s: &mut String, c: char)
    ensures
        final(s)@ == old(s)@.push(c),
;

/// The pattern `pat` occurs in `s` starting at position `i`.
pub open spec fn match_at(s: Seq<char>, pat: Seq<char>, i: int) -> bool {
    &&& 0 <= i
    &&& i + pat.len() <= s.len()
    &&& forall|k: int| 0 <= k < pat.len() ==> s[i + k] == pat[k]
}

/// The position of the first occurrence of `pat` in `s` at or after
/// position `i`, if any.
pub open spec fn find_from(s: Seq<char>, pat: Seq<char>, i: int) -> Option<int>
    decreases s.len() - i,
    when 0 <= i
{
    if i + pat.len() > s.len() {
        None
    } else if match_at(s, pat, i) {
        Some(i)
    } else {
        find_from(s, pat, i + 1)
    }
}

/// What a `find_from` result means: a hit is the first occurrence at or
/// after the start position; a miss means there is none.
pub proof fn lemma_find_from(s: Seq<char>, pat: Seq<char>, i: int)
    requires
        0 <= i,
    ensures
        find_from(s, pat, i) is Some ==> {
            &&& i <= find_from(s, pat, i)->Some_0
            &&& match_at(s, pat, find_from(s, pat, i)->Some_0)
        },
        forall|k: int|
            i <= k && (find_from(s, pat, i) matches Some(j) ==> k < j) ==> !match_at(
                s,
                pat,
                k,
            ),
    decreases s.len() - i,
{
    if i + pat.len() > s.len() {
        assert(forall|k: int| k >= i ==> !match_at(s, pat, k));
    } else if match_at(s, pat, i) {
    } else {
        lemma_find_from(s, pat, i + 1);
    }
}

fn pattern_matches_at(s: &str, pat: &str, i: usize, n: usize) -> (r: bool)
    requires
        n == s@.len(),
        i + pat@.len() <= n,
    ensures
        r == match_at(s@, pat@, i as int),
{
    let m = pat.unicode_len();
    let mut k: usize = 0;
    while k < m
        invariant
            k <= m,
            m == pat@.len(),
            n == s@.len(),
            i + m <= n,
            forall|j: int| 0 <= j < k ==> s@[i + j] == pat@[j],
        decreases m - k,
    {
        if s.get_char(i + k) != pat.get_char(k) {
            assert(!match_at(s@, pat@, i as int));
            return false;
        }
        k = k + 1;
    }
    true
}

/// The first occurrence of `pat` in `s` at or after position `start`,
/// counted in characters.
pub fn find_str_from(s: &str, pat: &str, start: usize) -> (r: Option<usize>)
    ensures
        match r {
            Some(j) => find_from(s@, pat@, start as int) == Some(j as int),
            None => find_from(s@, pat@, start as int) is None,
        },
{
    let n = s.unicode_len();
    let m = pat.unicode_len();
    if m > n || start > n - m {
        assert(start + pat@.len() > s@.len());
        return None;
    }
    if m == 0 {
        assert(match_at(s@, pat@, start as int));
        return Some(start);
    }
    let mut i: usize = start;
    while i <= n - m
        invariant
            start <= i,
            1 <= m,
            m == pat@.len(),
            m <= n,
            n == s@.len(),
            i <= n - m + 1,
            find_from(s@, pat@, start as int) == find_from(s@, pat@, i as int),
        decreases n - i,
    {
        if pattern_matches_at(s, pat, i, n) {
            assert(find_from(s@, pat@, i as int) == Some(i as int));
            return Some(i);
        }
        assert(find_from(s@, pat@, i as int) == find_from(s@, pat@, i + 1));
        i = i + 1;
    }
    assert(i + pat@.len() > s@.len());
    None
}

/// Whether some element of `v` has the view `t`.
pub open spec fn contains_view(v: Seq<String>, t: Seq<char>) -> bool {
    exists|k: int| 0 <= k < v.len() && v[k]@ == t
}

/// Whether `v` holds a string equal to `s`.
pub fn contains_string(v: &Vec<String>, s: &String) -> (r: bool)
    ensures
        r == contains_view(v@, s@),
{
    let mut k: usize = 0;
    while k < v.len()
        invariant
            k <= v@.len(),
            forall|j: int| 0 <= j < k ==> v@[j]@ != s@,
        decreases v@.len() - k,
    {
        if v[k].eq(s) {
            return true;
        }
        k = k + 1;
    }
    false
}

} // verus!
