//! The title grammar as spec functions over the characters of the input:
//! what each rule matches, and what the whole line decomposes into.

use vstd::prelude::*;
use crate::text::{CharClass, run_end, starts_caseless, trim_end};

verus! {

/// The kind of change that a title announces.
#[derive(Clone, Copy, Debug, PartialEq, Eq, Structural)]
pub enum Kind {
    Feature,
    Fix,
}

/// The rule of the grammar that rejected an input.
#[derive(Clone, Copy, Debug, PartialEq, Eq, Structural)]
pub enum ErrorKind {
    /// The line does not start with `fix`, `feat` or `feature`.
    UnrecognizedKind,
    /// The parenthesised issue identifier is absent, empty or unterminated.
    MissingIdentifier,
    /// The `:` is absent, or no title follows it.
    MissingTitle,
    /// Text other than spaces remains after the title.
    TrailingInput,
}

pub open spec fn lit_fix() -> Seq<char> {
    seq!['f', 'i', 'x']
}

pub open spec fn lit_feat() -> Seq<char> {
    seq!['f', 'e', 'a', 't']
}

pub open spec fn lit_feature() -> Seq<char> {
    seq!['f', 'e', 'a', 't', 'u', 'r', 'e']
}

/// The kind that `s` starts with, and how many characters spell it.
/// Of `feat` and `feature`, the longer word is taken when both fit.
pub open spec fn kind_match(s: Seq<char>) -> Option<(Kind, int)> {
    if starts_caseless(s, lit_fix()) {
        Some((Kind::Fix, 3))
    } else if starts_caseless(s, lit_feature()) {
        Some((Kind::Feature, 7))
    } else if starts_caseless(s, lit_feat()) {
        Some((Kind::Feature, 4))
    } else {
        None
    }
}

/// Spaces, `(`, spaces, a non-empty run of identifier characters, spaces, `)`.
/// Gives the bounds of the identifier in `s` and the number of characters taken.
pub open spec fn jira_id_match(s: Seq<char>) -> Option<(int, int, int)> {
    let open = run_end(s, 0, CharClass::Space);
    if open < s.len() && s[open] == '(' {
        let lo = run_end(s, open + 1, CharClass::Space);
        let hi = run_end(s, lo, CharClass::IdChar);
        let close = run_end(s, hi, CharClass::Space);
        if lo < hi && close < s.len() && s[close] == ')' {
            Some((lo, hi, close + 1))
        } else {
            None
        }
    } else {
        None
    }
}

/// Spaces, `:`, spaces, a non-empty run of ASCII characters, spaces.
/// Gives the bounds of the title, trailing spaces left out, and the number
/// of characters taken.
pub open spec fn title_match(s: Seq<char>) -> Option<(int, int, int)> {
    let colon = run_end(s, 0, CharClass::Space);
    if colon < s.len() && s[colon] == ':' {
        let lo = run_end(s, colon + 1, CharClass::Space);
        let hi = run_end(s, lo, CharClass::Ascii);
        if lo < hi {
            Some((lo, trim_end(s, lo, hi), run_end(s, hi, CharClass::Space)))
        } else {
            None
        }
    } else {
        None
    }
}

/// What a whole line decomposes into: its kind, its issue identifier and its
/// title; or the rule that rejected it, with the offset at which that rule
/// started (for trailing input, the offset of the text left over).
pub open spec fn parse_line(s: Seq<char>) -> Result<(Kind, Seq<char>, Seq<char>), (ErrorKind, int)> {
    match kind_match(s) {
        None => Err((ErrorKind::UnrecognizedKind, 0)),
        Some((kind, n1)) => {
            let s1 = s.skip(n1);
            match jira_id_match(s1) {
                None => Err((ErrorKind::MissingIdentifier, n1)),
                Some((a, b, n2)) => {
                    let s2 = s1.skip(n2);
                    match title_match(s2) {
                        None => Err((ErrorKind::MissingTitle, n1 + n2)),
                        Some((c, d, n3)) => {
                            if n1 + n2 + n3 == s.len() {
                                Ok((kind, s1.subrange(a, b), s2.subrange(c, d)))
                            } else {
                                Err((ErrorKind::TrailingInput, n1 + n2 + n3))
                            }
                        },
                    }
                },
            }
        },
    }
}

} // verus!
