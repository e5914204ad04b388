//! Character classes, and scanning over the characters of a line.

use vstd::prelude::*;

verus! {

/// The classes of characters that the grammar reads runs of.
#[derive(Clone, Copy, Debug, PartialEq, Eq)]
pub enum CharClass {
    /// A space or a horizontal tab.
    Space,
    /// An ASCII letter, an ASCII digit or a hyphen.
    IdChar,
    /// Any ASCII character.
    Ascii,
}

pub open spec fn is_space(c: char) -> bool {
    c == ' ' || c == '\t'
}

pub open spec fn is_id_char(c: char) -> bool {
    ('a' <= c && c <= 'z') || ('A' <= c && c <= 'Z') || ('0' <= c && c <= '9') || c == '-'
}

pub open spec fn is_ascii_char(c: char) -> bool {
    c <= '\u{7f}'
}

pub open spec fn in_class(c: char, class: CharClass) -> bool {
    match class {
        CharClass::Space => is_space(c),
        CharClass::IdChar => is_id_char(c),
        CharClass::Ascii => is_ascii_char(c),
    }
}

/// The end of the longest run of `class` characters of `s` that starts at `i`.
pub open spec fn run_end(s: Seq<char>, i: int, class: CharClass) -> int
    decreases s.len() - i,
{
    if 0 <= i < s.len() && in_class(s[i], class) {
        run_end(s, i + 1, class)
    } else {
        i
    }
}

/// The end of `s[lo..hi]` once trailing spaces are taken off.
pub open spec fn trim_end(s: Seq<char>, lo: int, hi: int) -> int
    decreases hi - lo,
{
    if lo < hi && is_space(s[hi - 1]) {
        trim_end(s, lo, hi - 1)
    } else {
        hi
    }
}

/// `c` equals the lower-case letter or other character `l`, ignoring ASCII case.
pub open spec fn eq_caseless(c: char, l: char) -> bool {
    c == l || ('a' <= l && l <= 'z' && (c as u32) + 32 == (l as u32))
}

/// `s` starts with `lit`, ignoring ASCII case.
pub open spec fn starts_caseless(s: Seq<char>, lit: Seq<char>) -> bool {
    lit.len() <= s.len() && forall|k: int| 0 <= k < lit.len() ==> eq_caseless(#[trigger] s[k], lit[k])
}

/// Every character of `s` is of `class`.
pub open spec fn all_in(s: Seq<char>, class: CharClass) -> bool {
    forall|k: int| 0 <= k < s.len() ==> in_class(#[trigger] s[k], class)
}

/// A run that stops at `j` ends at `j`.
pub proof fn lemma_run_end_at(s: Seq<char>, i: int, j: int, class: CharClass)
    requires
        0 <= i <= j <= s.len(),
        forall|k: int| i <= k < j ==> in_class(#[trigger] s[k], class),
        j < s.len() ==> !in_class(s[j], class),
    ensures
        run_end(s, i, class) == j,
    decreases j - i,
{
    if i < j {
        lemma_run_end_at(s, i + 1, j, class);
    }
}

/// Trailing spaces that follow a non-space are trimmed back to it.
pub proof fn lemma_trim_end_at(s: Seq<char>, lo: int, j: int, hi: int)
    requires
        0 <= lo < j <= hi <= s.len(),
        !is_space(s[j - 1]),
        forall|k: int| j <= k < hi ==> is_space(#[trigger] s[k]),
    ensures
        trim_end(s, lo, hi) == j,
    decreases hi - j,
{
    if j < hi {
        lemma_trim_end_at(s, lo, j, hi - 1);
    }
}

/// Trimming stops at a non-space at the start.
pub proof fn lemma_trim_end_keeps_first(s: Seq<char>, lo: int, hi: int)
    requires
        0 <= lo < hi <= s.len(),
        !is_space(s[lo]),
    ensures
        lo < trim_end(s, lo, hi),
    decreases hi - lo,
{
    if hi - 1 > lo && is_space(s[hi - 1]) {
        lemma_trim_end_keeps_first(s, lo, hi - 1);
    }
}

/// A run that stops inside `s`, or at its end where `g` goes on with a
/// character of another class, ends at the same place in `s + g`.
pub proof fn lemma_run_end_extend(s: Seq<char>, g: Seq<char>, i: int, class: CharClass)
    requires
        0 <= i <= s.len(),
        run_end(s, i, class) < s.len() || g.len() == 0 || !in_class(g[0], class),
    ensures
        run_end(s + g, i, class) == run_end(s, i, class),
{
    lemma_run_end_bounds(s, i, class);
    let j = run_end(s, i, class);
    let t = s + g;
    assert forall|k: int| i <= k < j implies in_class(#[trigger] t[k], class) by {
        assert(t[k] == s[k]);
        assert(in_class(s[k], class));
    }
    if j < s.len() {
        assert(t[j] == s[j]);
    } else if g.len() > 0 {
        assert(t[j] == g[0]);
    }
    lemma_run_end_at(t, i, j, class);
}

/// Trimming reads only the characters it trims over.
pub proof fn lemma_trim_end_extend(s: Seq<char>, g: Seq<char>, lo: int, hi: int)
    requires
        0 <= lo <= hi <= s.len(),
    ensures
        trim_end(s + g, lo, hi) == trim_end(s, lo, hi),
    decreases hi - lo,
{
    if lo < hi {
        assert((s + g)[hi - 1] == s[hi - 1]);
        lemma_trim_end_extend(s, g, lo, hi - 1);
    }
}

pub proof fn lemma_run_end_bounds(s: Seq<char>, i: int, class: CharClass)
    requires
        0 <= i <= s.len(),
    ensures
        i <= run_end(s, i, class) <= s.len(),
        forall|k: int| i <= k < run_end(s, i, class) ==> in_class(#[trigger] s[k], class),
        run_end(s, i, class) < s.len() ==> !in_class(s[run_end(s, i, class)], class),
    decreases s.len() - i,
{
    if i < s.len() && in_class(s[i], class) {
        lemma_run_end_bounds(s, i + 1, class);
    }
}

pub proof fn lemma_trim_end_bounds(s: Seq<char>, lo: int, hi: int)
    requires
        0 <= lo <= hi <= s.len(),
    ensures
        lo <= trim_end(s, lo, hi) <= hi,
        forall|k: int| trim_end(s, lo, hi) <= k < hi ==> is_space(#[trigger] s[k]),
        lo < trim_end(s, lo, hi) ==> !is_space(s[trim_end(s, lo, hi) - 1]),
    decreases hi - lo,
{
    if lo < hi && is_space(s[hi - 1]) {
        lemma_trim_end_bounds(s, lo, hi - 1);
    }
}

/// The characters of `s`, in order.
pub fn chars_of(s: &str) -> (r: Vec<char>)
    ensures
        r@ == s@,
{
    let mut r: Vec<char> = Vec::new();
    for c in it: s.chars()
        invariant
            r@ == it.seq().subrange(0, it.index() as int),
    {
        r.push(c);
    }
    r
}

pub fn char_in_class(c: char, class: CharClass) -> (r: bool)
    ensures
        r == in_class(c, class),
{
    match class {
        CharClass::Space => c == ' ' || c == '\t',
        CharClass::IdChar => ('a' <= c && c <= 'z') || ('A' <= c && c <= 'Z') || ('0' <= c
            && c <= '9') || c == '-',
        CharClass::Ascii => c <= '\u{7f}',
    }
}

/// The end of the run of `class` characters of `s` that starts at `i`.
pub fn scan_run(s: &Vec<char>, i: usize, class: CharClass) -> (r: usize)
    requires
        i <= s@.len(),
    ensures
        r == run_end(s@, i as int, class),
{
    let mut j: usize = i;
    while j < s.len() && char_in_class(s[j], class)
        invariant
            i <= j <= s@.len(),
            run_end(s@, i as int, class) == run_end(s@, j as int, class),
        decreases s@.len() - j,
    {
        j = j + 1;
    }
    j
}

/// The end of `s[lo..hi]` once trailing spaces are taken off.
pub fn scan_trim_end(s: &Vec<char>, lo: usize, hi: usize) -> (r: usize)
    requires
        lo <= hi <= s@.len(),
    ensures
        r == trim_end(s@, lo as int, hi as int),
{
    let mut j: usize = hi;
    while lo < j && (s[j - 1] == ' ' || s[j - 1] == '\t')
        invariant
            lo <= j <= hi,
            hi <= s@.len(),
            trim_end(s@, lo as int, hi as int) == trim_end(s@, lo as int, j as int),
        decreases j - lo,
    {
        j = j - 1;
    }
    j
}

pub fn char_eq_caseless(c: char, l: char) -> (r: bool)
    ensures
        r == eq_caseless(c, l),
{
    c == l || ('a' <= l && l <= 'z' && (c as u32) + 32 == (l as u32))
}

/// Whether `s`, from `i` on, starts with `lit`, ignoring ASCII case.
pub fn at_caseless(s: &Vec<char>, i: usize, lit: &[char]) -> (r: bool)
    requires
        i <= s@.len(),
    ensures
        r == starts_caseless(s@.skip(i as int), lit@),
{
    let n: usize = s.len();
    if lit.len() > n - i {
        return false;
    }
    let mut k: usize = 0;
    while k < lit.len()
        invariant
            n == s@.len(),
            i <= s@.len(),
            k <= lit@.len(),
            i + lit@.len() <= s@.len(),
            forall|m: int| 0 <= m < k ==> eq_caseless(#[trigger] s@.skip(i as int)[m], lit@[m]),
        decreases lit@.len() - k,
    {
        if !char_eq_caseless(s[i + k], lit[k]) {
            assert(!eq_caseless(s@.skip(i as int)[k as int], lit@[k as int]));
            return false;
        }
        k = k + 1;
    }
    true
}

} // verus!
