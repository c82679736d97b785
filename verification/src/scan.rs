//! Character-level scanning primitives shared by the tag matcher, the
//! attribute parser and the import stripper: substring tests, first-occurrence
//! searches and character-run ends, each as a spec function with a verified
//! executable counterpart.

use vstd::prelude::*;

verus! {

/// True when `pat` occurs in `s` starting exactly at position `i`.
pub open spec fn sub_at(s: Seq<char>, i: int, pat: Seq<char>) -> bool {
    &&& 0 <= i
    &&& i + pat.len() <= s.len()
    &&& forall|m: int| 0 <= m < pat.len() ==> s[i + m] == pat[m]
}

/// Position of the first occurrence of the character `c` in `s` at or after
/// position `from`, if any.
pub open spec fn find_ch(s: Seq<char>, from: int, c: char) -> Option<int>
    decreases s.len() - from,
{
    if from < 0 {
        find_ch(s, 0, c)
    } else if from >= s.len() {
        None
    } else if s[from] == c {
        Some(from)
    } else {
        find_ch(s, from + 1, c)
    }
}

/// Position of the first occurrence of the sequence `pat` in `s` at or after
/// position `from`, if any.
pub open spec fn find_sub(s: Seq<char>, from: int, pat: Seq<char>) -> Option<int>
    decreases s.len() - from,
{
    if from < 0 {
        find_sub(s, 0, pat)
    } else if from + pat.len() > s.len() {
        None
    } else if sub_at(s, from, pat) {
        Some(from)
    } else {
        find_sub(s, from + 1, pat)
    }
}

/// The characters an attribute name is made of: ASCII letters and underscore.
pub open spec fn is_name_char(c: char) -> bool {
    ||| 'a' as u32 <= c as u32 && c as u32 <= 'z' as u32
    ||| 'A' as u32 <= c as u32 && c as u32 <= 'Z' as u32
    ||| c == '_'
}

/// End (exclusive) of the run of attribute-name characters starting at `i`.
pub open spec fn name_run_end(s: Seq<char>, i: int) -> int
    decreases s.len() - i,
{
    if i < 0 || i >= s.len() || !is_name_char(s[i]) {
        i
    } else {
        name_run_end(s, i + 1)
    }
}

/// End (exclusive) of the run of newline characters starting at `i`.
pub open spec fn newline_run_end(s: Seq<char>, i: int) -> int
    decreases s.len() - i,
{
    if i < 0 || i >= s.len() || s[i] != '\n' {
        i
    } else {
        newline_run_end(s, i + 1)
    }
}

/// A successful character search lands in range, on the character sought.
pub proof fn lemma_find_ch_some(s: Seq<char>, from: int, c: char)
    requires
        find_ch(s, from, c) is Some,
    ensures
        from <= find_ch(s, from, c)->0 < s.len(),
        s[find_ch(s, from, c)->0] == c,
    decreases s.len() - from,
{
    if from < 0 {
        lemma_find_ch_some(s, 0, c);
    } else if from >= s.len() {
    } else if s[from] == c {
    } else {
        lemma_find_ch_some(s, from + 1, c);
    }
}

/// A successful substring search lands in range, on an occurrence of `pat`.
pub proof fn lemma_find_sub_some(s: Seq<char>, from: int, pat: Seq<char>)
    requires
        find_sub(s, from, pat) is Some,
    ensures
        from <= find_sub(s, from, pat)->0,
        sub_at(s, find_sub(s, from, pat)->0, pat),
    decreases s.len() - from,
{
    if from < 0 {
        lemma_find_sub_some(s, 0, pat);
    } else if from + pat.len() > s.len() {
    } else if sub_at(s, from, pat) {
    } else {
        lemma_find_sub_some(s, from + 1, pat);
    }
}

/// A character run ends no earlier than it starts and within the sequence.
pub proof fn lemma_name_run_end_bounds(s: Seq<char>, i: int)
    requires
        0 <= i <= s.len(),
    ensures
        i <= name_run_end(s, i) <= s.len(),
    decreases s.len() - i,
{
    if i < s.len() && is_name_char(s[i]) {
        lemma_name_run_end_bounds(s, i + 1);
    }
}

/// A newline run ends no earlier than it starts and within the sequence.
pub proof fn lemma_newline_run_end_bounds(s: Seq<char>, i: int)
    requires
        0 <= i <= s.len(),
    ensures
        i <= newline_run_end(s, i) <= s.len(),
    decreases s.len() - i,
{
    if i < s.len() && s[i] == '\n' {
        lemma_newline_run_end_bounds(s, i + 1);
    }
}

/// Decides `sub_at`: does `pat` occur in `s` exactly at position `i`?
pub(crate) fn sub_at_x(s: &str, i: usize, pat: &str) -> (r: bool)
    ensures
        r == sub_at(s@, i as int, pat@),
{
    let n = s.unicode_len();
    let m = pat.unicode_len();
    if i > n || m > n - i {
        return false;
    }
    let mut k: usize = 0;
    while k < m
        invariant
            k <= m,
            i + m <= n,
            n == s@.len(),
            m == pat@.len(),
            forall|t: int| 0 <= t < k ==> s@[i + t] == pat@[t],
        decreases m - k,
    {
        if s.get_char(i + k) != pat.get_char(k) {
            return false;
        }
        k += 1;
    }
    true
}

/// Decides string-view equality character by character.
pub(crate) fn str_eq_x(a: &str, b: &str) -> (r: bool)
    ensures
        r == (a@ == b@),
{
    let na = a.unicode_len();
    let nb = b.unicode_len();
    if na != nb {
        return false;
    }
    let r = sub_at_x(a, 0, b);
    proof {
        if r {
            assert(a@ =~= b@);
        }
    }
    r
}

/// Finds the first occurrence of the character `c` at or after `from`.
pub(crate) fn find_ch_x(s: &str, from: usize, c: char) -> (r: Option<usize>)
    ensures
        find_ch(s@, from as int, c) == (match r {
            Some(k) => Some(k as int),
            None => None::<int>,
        }),
{
    let n = s.unicode_len();
    let mut j = from;
    while j < n
        invariant
            from <= j,
            n == s@.len(),
            find_ch(s@, from as int, c) == find_ch(s@, j as int, c),
        decreases n - j,
    {
        if s.get_char(j) == c {
            return Some(j);
        }
        j += 1;
    }
    None
}

/// Finds the first occurrence of `pat` at or after `from`.
pub(crate) fn find_sub_x(s: &str, from: usize, pat: &str) -> (r: Option<usize>)
    ensures
        find_sub(s@, from as int, pat@) == (match r {
            Some(k) => Some(k as int),
            None => None::<int>,
        }),
{
    let n = s.unicode_len();
    let m = pat.unicode_len();
    if m > n {
        return None;
    }
    let mut j = from;
    while j <= n - m
        invariant
            from <= j,
            m <= n,
            n == s@.len(),
            m == pat@.len(),
            find_sub(s@, from as int, pat@) == find_sub(s@, j as int, pat@),
        decreases n - j,
    {
        if sub_at_x(s, j, pat) {
            return Some(j);
        }
        j += 1;
    }
    None
}

/// Computes `name_run_end`: the end of the attribute-name run starting at `i`.
pub(crate) fn name_run_end_x(s: &str, i: usize) -> (r: usize)
    requires
        i <= s@.len(),
    ensures
        r == name_run_end(s@, i as int),
        i <= r <= s@.len(),
{
    let n = s.unicode_len();
    let mut j = i;
    while j < n
        invariant
            i <= j <= n,
            n == s@.len(),
            name_run_end(s@, i as int) == name_run_end(s@, j as int),
        decreases n - j,
    {
        let c = s.get_char(j);
        let u = c as u32;
        let name_char = (97 <= u && u <= 122) || (65 <= u && u <= 90) || c == '_';
        proof {
            assert(name_char == is_name_char(s@[j as int]));
        }
        if !name_char {
            return j;
        }
        j += 1;
    }
    n
}

/// Computes `newline_run_end`: the end of the newline run starting at `i`.
pub(crate) fn newline_run_end_x(s: &str, i: usize) -> (r: usize)
    requires
        i <= s@.len(),
    ensures
        r == newline_run_end(s@, i as int),
        i <= r <= s@.len(),
{
    let n = s.unicode_len();
    let mut j = i;
    while j < n
        invariant
            i <= j <= n,
            n == s@.len(),
            newline_run_end(s@, i as int) == newline_run_end(s@, j as int),
        decreases n - j,
    {
        if s.get_char(j) != '\n' {
            return j;
        }
        j += 1;
    }
    n
}

} // verus!
