//! Searching and trimming over character sequences.
//!
//! The log grammar is defined over `Seq<char>`; the executable helpers
//! here return exactly what the spec functions describe, so the parser
//! and the formatter can be related character by character.

use vstd::prelude::*;

verus! {

/// `p` occurs in `s` starting at position `i`.
pub open spec fn match_at(s: Seq<char>, p: Seq<char>, i: int) -> bool {
    0 <= i && i + p.len() <= s.len() && s.subrange(i, i + p.len()) == p
}

/// Position of the first occurrence of `p` in `s` at or after `from`.
pub open spec fn find_from(s: Seq<char>, p: Seq<char>, from: int) -> Option<int>
    decreases s.len() - from + 1,
{
    if from < 0 || from + p.len() > s.len() {
        None
    } else if match_at(s, p, from) {
        Some(from)
    } else {
        find_from(s, p, from + 1)
    }
}

/// `p` occurs somewhere in `s`.
pub open spec fn contains_sub(s: Seq<char>, p: Seq<char>) -> bool {
    find_from(s, p, 0) is Some
}

/// Position of the last occurrence of the character `c` in `s` at or
/// before `from`.
pub open spec fn rfind_char_from(s: Seq<char>, c: char, from: int) -> Option<int>
    decreases from + 1,
{
    if from < 0 || from >= s.len() {
        None
    } else if s[from] == c {
        Some(from)
    } else {
        rfind_char_from(s, c, from - 1)
    }
}

/// Position of the last occurrence of `c` in `s`.
pub open spec fn rfind_char(s: Seq<char>, c: char) -> Option<int> {
    rfind_char_from(s, c, s.len() - 1)
}

/// `p` is a prefix of `s`.
pub open spec fn starts_with_spec(s: Seq<char>, p: Seq<char>) -> bool {
    p.len() <= s.len() && s.subrange(0, p.len() as int) == p
}

/// The characters this library strips from the ends of a field.
pub open spec fn is_space_char(c: char) -> bool {
    c == ' ' || c == '\t' || c == '\r' || c == '\n'
}

/// Number of space characters at the front of `s`.
pub open spec fn leading_spaces(s: Seq<char>) -> int
    decreases s.len(),
{
    if s.len() > 0 && is_space_char(s[0]) {
        1 + leading_spaces(s.drop_first())
    } else {
        0
    }
}

/// Number of space characters at the back of `s`.
pub open spec fn trailing_spaces(s: Seq<char>) -> int
    decreases s.len(),
{
    if s.len() > 0 && is_space_char(s.last()) {
        1 + trailing_spaces(s.drop_last())
    } else {
        0
    }
}

/// `s` without its leading and trailing space characters.
pub open spec fn trim_spec(s: Seq<char>) -> Seq<char> {
    if leading_spaces(s) == s.len() {
        Seq::empty()
    } else {
        s.subrange(leading_spaces(s), s.len() - trailing_spaces(s))
    }
}

/// A mismatched character rules a matching position out.
pub proof fn lemma_mismatch_at(s: Seq<char>, p: Seq<char>, i: int, m: int)
    requires
        0 <= i,
        i + p.len() <= s.len(),
        0 <= m < p.len(),
        s[i + m] != p[m],
    ensures
        !match_at(s, p, i),
{
    if match_at(s, p, i) {
        assert(s.subrange(i, i + p.len())[m] == s[i + m]);
    }
}

/// A match with nothing before it is the first match.
pub proof fn lemma_find_from_is_first(s: Seq<char>, p: Seq<char>, from: int, k: int)
    requires
        0 <= from <= k,
        match_at(s, p, k),
        forall|j: int| from <= j < k ==> !match_at(s, p, j),
    ensures
        find_from(s, p, from) == Some(k),
    decreases k - from,
{
    if from < k {
        lemma_find_from_is_first(s, p, from + 1, k);
    }
}

/// With no match anywhere at or after `from`, the search fails.
pub proof fn lemma_find_from_is_none(s: Seq<char>, p: Seq<char>, from: int)
    requires
        forall|j: int| from <= j ==> !match_at(s, p, j),
    ensures
        find_from(s, p, from) is None,
    decreases s.len() - from + 1,
{
    if !(from < 0 || from + p.len() > s.len()) {
        lemma_find_from_is_none(s, p, from + 1);
    }
}

/// A hit with nothing after it is the last occurrence of the character.
pub proof fn lemma_rfind_char_is_last(s: Seq<char>, c: char, from: int, k: int)
    requires
        0 <= k <= from,
        from < s.len(),
        s[k] == c,
        forall|j: int| k < j <= from ==> s[j] != c,
    ensures
        rfind_char_from(s, c, from) == Some(k),
    decreases from - k,
{
    if k < from {
        lemma_rfind_char_is_last(s, c, from - 1, k);
    }
}

/// A successful search found a real occurrence.
pub proof fn lemma_find_from_sound(s: Seq<char>, p: Seq<char>, from: int)
    ensures
        find_from(s, p, from) matches Some(k) ==> from <= k && match_at(s, p, k),
    decreases s.len() - from + 1,
{
    if !(from < 0 || from + p.len() > s.len()) && !match_at(s, p, from) {
        lemma_find_from_sound(s, p, from + 1);
    }
}

/// Any occurrence at all makes the search succeed.
pub proof fn lemma_exists_match_finds(s: Seq<char>, p: Seq<char>, from: int, j: int)
    requires
        0 <= from <= j,
        match_at(s, p, j),
    ensures
        find_from(s, p, from) is Some,
    decreases j - from,
{
    if !match_at(s, p, from) {
        lemma_exists_match_finds(s, p, from + 1, j);
    }
}

/// A successful backwards search found a real occurrence.
pub proof fn lemma_rfind_char_sound(s: Seq<char>, c: char, from: int)
    ensures
        rfind_char_from(s, c, from) matches Some(k) ==> 0 <= k <= from && k < s.len() && s[k]
            == c,
    decreases from + 1,
{
    if 0 <= from && from < s.len() && s[from] != c {
        lemma_rfind_char_sound(s, c, from - 1);
    }
}

/// With the character nowhere at or before `from`, the search fails.
pub proof fn lemma_rfind_char_is_none(s: Seq<char>, c: char, from: int)
    requires
        forall|j: int| 0 <= j <= from ==> s[j] != c,
        from < s.len(),
    ensures
        rfind_char_from(s, c, from) is None,
    decreases from + 1,
{
    if from >= 0 {
        lemma_rfind_char_is_none(s, c, from - 1);
    }
}

/// Counting leading spaces from an index that bounds them.
pub proof fn lemma_leading_spaces_at(s: Seq<char>, i: int)
    requires
        0 <= i <= s.len(),
        forall|j: int| 0 <= j < i ==> is_space_char(s[j]),
        i < s.len() ==> !is_space_char(s[i]),
    ensures
        leading_spaces(s) == i,
    decreases s.len(),
{
    if s.len() > 0 && is_space_char(s[0]) {
        assert(i > 0);
        let t = s.drop_first();
        assert(forall|j: int| 0 <= j < i - 1 ==> is_space_char(#[trigger] t[j]));
        assert(i - 1 < t.len() ==> !is_space_char(t[i - 1]));
        lemma_leading_spaces_at(t, i - 1);
    } else {
        assert(i == 0);
    }
}

/// Counting trailing spaces from an index that bounds them.
pub proof fn lemma_trailing_spaces_at(s: Seq<char>, i: int)
    requires
        0 <= i <= s.len(),
        forall|j: int| s.len() - i <= j < s.len() ==> is_space_char(s[j]),
        i < s.len() ==> !is_space_char(s[s.len() - i - 1]),
    ensures
        trailing_spaces(s) == i,
    decreases s.len(),
{
    if s.len() > 0 && is_space_char(s.last()) {
        assert(i > 0);
        let t = s.drop_last();
        assert(forall|j: int| t.len() - (i - 1) <= j < t.len() ==> is_space_char(#[trigger] t[j]));
        assert(i - 1 < t.len() ==> !is_space_char(t[t.len() - (i - 1) - 1]));
        lemma_trailing_spaces_at(t, i - 1);
    } else {
        assert(i == 0);
    }
}

/// Trimming a sequence whose ends hold no space character changes nothing.
pub proof fn lemma_trim_id(s: Seq<char>)
    requires
        s.len() > 0,
        !is_space_char(s[0]),
        !is_space_char(s[s.len() - 1]),
    ensures
        trim_spec(s) == s,
{
    lemma_leading_spaces_at(s, 0);
    lemma_trailing_spaces_at(s, 0);
    assert(s.subrange(0, s.len() as int) =~= s);
}

/// Whether `pat` occurs in `s` at character position `i`.
fn matches_at(s: &str, pat: &str, i: usize, n: usize, m: usize) -> (b: bool)
    requires
        n == s@.len(),
        m == pat@.len(),
        i + m <= n,
    ensures
        b == match_at(s@, pat@, i as int),
{
    let mut k: usize = 0;
    while k < m
        invariant
            0 <= k <= m,
            n == s@.len(),
            m == pat@.len(),
            i + m <= n,
            forall|j: int| 0 <= j < k ==> s@[i + j] == pat@[j],
        decreases m - k,
    {
        if s.get_char(i + k) != pat.get_char(k) {
            proof {
                lemma_mismatch_at(s@, pat@, i as int, k as int);
            }
            return false;
        }
        k += 1;
    }
    proof {
        assert(s@.subrange(i as int, i + m) =~= pat@);
    }
    true
}

/// First occurrence of `pat` in `s` at or after character position `from`.
pub fn find_sub_from(s: &str, pat: &str, from: usize) -> (r: Option<usize>)
    ensures
        match r {
            Some(k) => find_from(s@, pat@, from as int) == Some(k as int),
            None => find_from(s@, pat@, from as int) is None,
        },
{
    let n = s.unicode_len();
    let m = pat.unicode_len();
    if from > n || m > n - from {
        proof {
            assert(forall|j: int| from <= j ==> !match_at(s@, pat@, j));
            lemma_find_from_is_none(s@, pat@, from as int);
        }
        return None;
    }
    if m == 0 {
        proof {
            assert(s@.subrange(from as int, from as int) =~= pat@);
            lemma_find_from_is_first(s@, pat@, from as int, from as int);
        }
        return Some(from);
    }
    let mut i = from;
    while i <= n - m
        invariant
            from <= i <= n - m + 1,
            1 <= m <= n,
            n == s@.len(),
            m == pat@.len(),
            forall|j: int| from <= j < i ==> !match_at(s@, pat@, j),
        decreases n - i,
    {
        if matches_at(s, pat, i, n, m) {
            proof {
                lemma_find_from_is_first(s@, pat@, from as int, i as int);
            }
            return Some(i);
        }
        i += 1;
    }
    proof {
        assert(forall|j: int| from <= j ==> !match_at(s@, pat@, j));
        lemma_find_from_is_none(s@, pat@, from as int);
    }
    None
}

/// Last occurrence of the character `c` in `s`.
pub fn rfind_char_in(s: &str, c: char) -> (r: Option<usize>)
    ensures
        match r {
            Some(k) => rfind_char(s@, c) == Some(k as int),
            None => rfind_char(s@, c) is None,
        },
{
    let n = s.unicode_len();
    let mut i = n;
    while i > 0
        invariant
            0 <= i <= n,
            n == s@.len(),
            forall|j: int| i <= j < n ==> s@[j] != c,
        decreases i,
    {
        i -= 1;
        if s.get_char(i) == c {
            proof {
                lemma_rfind_char_is_last(s@, c, n - 1, i as int);
            }
            return Some(i);
        }
    }
    proof {
        if n > 0 {
            lemma_rfind_char_is_none(s@, c, n - 1);
        }
    }
    None
}

/// Whether `p` is a prefix of `s`.
pub fn starts_with_in(s: &str, p: &str) -> (b: bool)
    ensures
        b == starts_with_spec(s@, p@),
{
    let n = s.unicode_len();
    let m = p.unicode_len();
    if m > n {
        return false;
    }
    matches_at(s, p, 0, n, m)
}

/// Whether `p` occurs somewhere in `s`.
pub fn contains_in(s: &str, p: &str) -> (b: bool)
    ensures
        b == contains_sub(s@, p@),
{
    let r = find_sub_from(s, p, 0);
    r.is_some()
}

/// The characters this library strips from the ends of a field.
pub fn is_space(c: char) -> (b: bool)
    ensures
        b == is_space_char(c),
{
    c == ' ' || c == '\t' || c == '\r' || c == '\n'
}

/// Whether two strings hold the same characters.
pub fn str_eq(a: &str, b: &str) -> (r: bool)
    ensures
        r == (a@ == b@),
{
    let n = a.unicode_len();
    let m = b.unicode_len();
    if n != m {
        return false;
    }
    let mut i: usize = 0;
    while i < n
        invariant
            0 <= i <= n,
            n == a@.len(),
            n == b@.len(),
            forall|j: int| 0 <= j < i ==> a@[j] == b@[j],
        decreases n - i,
    {
        if a.get_char(i) != b.get_char(i) {
            return false;
        }
        i += 1;
    }
    proof {
        assert(a@ =~= b@);
    }
    true
}

/// A fresh copy of the characters of `s` between positions `a` and `b`.
pub fn substr_string(s: &str, a: usize, b: usize) -> (r: String)
    requires
        a <= b <= s@.len(),
    ensures
        r@ == s@.subrange(a as int, b as int),
{
    let part = s.substring_char(a, b);
    part.to_owned()
}

/// A fresh copy of `s` without its leading and trailing space characters.
pub fn trim_to_string(s: &str) -> (r: String)
    ensures
        r@ == trim_spec(s@),
{
    let n = s.unicode_len();
    let mut a: usize = 0;
    while a < n && is_space(s.get_char(a))
        invariant
            0 <= a <= n,
            n == s@.len(),
            forall|j: int| 0 <= j < a ==> is_space_char(s@[j]),
        decreases n - a,
    {
        a += 1;
    }
    if a == n {
        proof {
            lemma_leading_spaces_at(s@, n as int);
        }
        return String::new();
    }
    proof {
        lemma_leading_spaces_at(s@, a as int);
    }
    let mut b: usize = n;
    while b > a && is_space(s.get_char(b - 1))
        invariant
            a <= b <= n,
            n == s@.len(),
            forall|j: int| b <= j < n ==> is_space_char(s@[j]),
        decreases b,
    {
        b -= 1;
    }
    proof {
        lemma_trailing_spaces_at(s@, n - b);
    }
    substr_string(s, a, b)
}

} // verus!
