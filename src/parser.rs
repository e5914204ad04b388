//! The matchers of the title grammar, and the parser of a whole line.

use vstd::prelude::*;
use vstd::string::StrSliceExecFns;
use crate::grammar::{
    ErrorKind, Kind, jira_id_match, kind_match, lit_feat, lit_feature, lit_fix, parse_line, title_match,
};
use crate::text::{CharClass, at_caseless, chars_of, lemma_run_end_bounds, lemma_trim_end_bounds, scan_run, scan_trim_end};

verus! {

/// A title taken apart: the kind of change, the issue identifier and the
/// free text.
#[derive(Debug, PartialEq, Eq)]
pub struct MergeRequest {
    pub kind: Kind,
    pub jira_id: String,
    pub title: String,
}

impl View for MergeRequest {
    type V = (Kind, Seq<char>, Seq<char>);

    open spec fn view(&self) -> (Kind, Seq<char>, Seq<char>) {
        (self.kind, self.jira_id@, self.title@)
    }
}

/// Why a line is not a valid title: the rule that rejected it, the offset in
/// characters at which that rule started (for trailing input, where the text
/// left over starts), and the input from that offset on.
#[derive(Debug, PartialEq, Eq)]
pub struct ParseError {
    pub kind: ErrorKind,
    pub offset: usize,
    pub rest: String,
}

fn error_at(kind: ErrorKind, total: usize, rest: &str) -> (r: ParseError)
    requires
        rest@.len() <= total,
    ensures
        r.kind == kind,
        r.offset == total - rest@.len(),
        r.rest@ == rest@,
{
    ParseError { kind, offset: total - rest.unicode_len(), rest: rest.to_owned() }
}

/// Reads the kind of change at the start of `input`, ignoring ASCII case, and
/// advances `input` past it. On failure `input` is left as it was.
pub fn parse_kind(input: &mut &str) -> (r: Result<Kind, ErrorKind>)
    ensures
        match kind_match(old(input)@) {
            Some((kind, n)) => r == Ok::<Kind, ErrorKind>(kind) && n <= old(input)@.len()
                && final(input)@ == old(input)@.skip(n),
            None => r == Err::<Kind, ErrorKind>(ErrorKind::UnrecognizedKind) && final(input)@ == old(input)@,
        },
{
    let cs = chars_of(*input);
    let fix: [char; 3] = ['f', 'i', 'x'];
    let feat: [char; 4] = ['f', 'e', 'a', 't'];
    let feature: [char; 7] = ['f', 'e', 'a', 't', 'u', 'r', 'e'];
    assert(fix@ =~= lit_fix());
    assert(feat@ =~= lit_feat());
    assert(feature@ =~= lit_feature());
    assert(cs@.skip(0) =~= cs@);
    let (kind, n): (Kind, usize) = if at_caseless(&cs, 0, &fix) {
        (Kind::Fix, 3)
    } else if at_caseless(&cs, 0, &feature) {
        (Kind::Feature, 7)
    } else if at_caseless(&cs, 0, &feat) {
        (Kind::Feature, 4)
    } else {
        return Err(ErrorKind::UnrecognizedKind);
    };
    *input = input.substring_char(n, cs.len());
    Ok(kind)
}

/// Reads a parenthesised issue identifier, with spaces allowed before the
/// parenthesis and inside it around the identifier, and advances `input` past
/// the closing parenthesis. On failure `input` is left as it was.
pub fn parse_jira_id<'a>(input: &mut &'a str) -> (r: Result<&'a str, ErrorKind>)
    ensures
        match jira_id_match(old(input)@) {
            Some((lo, hi, n)) => r is Ok && r->Ok_0@ == old(input)@.subrange(lo, hi)
                && 0 <= lo <= hi <= n <= old(input)@.len() && final(input)@ == old(input)@.skip(n),
            None => r == Err::<&str, ErrorKind>(ErrorKind::MissingIdentifier) && final(input)@ == old(input)@,
        },
{
    let cs = chars_of(*input);
    let ghost s = cs@;
    let open = scan_run(&cs, 0, CharClass::Space);
    proof { lemma_run_end_bounds(s, 0, CharClass::Space); }
    if open >= cs.len() || cs[open] != '(' {
        return Err(ErrorKind::MissingIdentifier);
    }
    let lo = scan_run(&cs, open + 1, CharClass::Space);
    proof { lemma_run_end_bounds(s, open + 1, CharClass::Space); }
    let hi = scan_run(&cs, lo, CharClass::IdChar);
    proof { lemma_run_end_bounds(s, lo as int, CharClass::IdChar); }
    let close = scan_run(&cs, hi, CharClass::Space);
    proof { lemma_run_end_bounds(s, hi as int, CharClass::Space); }
    if lo >= hi || close >= cs.len() || cs[close] != ')' {
        return Err(ErrorKind::MissingIdentifier);
    }
    let id = input.substring_char(lo, hi);
    *input = input.substring_char(close + 1, cs.len());
    Ok(id)
}

/// Reads a `:` and the title after it, with spaces allowed before and after
/// the `:`. The title is the longest run of ASCII characters there, with its
/// trailing spaces left out; `input` is advanced past it and the spaces that
/// follow. On failure `input` is left as it was.
pub fn parse_title<'a>(input: &mut &'a str) -> (r: Result<&'a str, ErrorKind>)
    ensures
        match title_match(old(input)@) {
            Some((lo, hi, n)) => r is Ok && r->Ok_0@ == old(input)@.subrange(lo, hi)
                && 0 <= lo <= hi <= n <= old(input)@.len() && final(input)@ == old(input)@.skip(n),
            None => r == Err::<&str, ErrorKind>(ErrorKind::MissingTitle) && final(input)@ == old(input)@,
        },
{
    let cs = chars_of(*input);
    let ghost s = cs@;
    let colon = scan_run(&cs, 0, CharClass::Space);
    proof { lemma_run_end_bounds(s, 0, CharClass::Space); }
    if colon >= cs.len() || cs[colon] != ':' {
        return Err(ErrorKind::MissingTitle);
    }
    let lo = scan_run(&cs, colon + 1, CharClass::Space);
    proof { lemma_run_end_bounds(s, colon + 1, CharClass::Space); }
    let hi = scan_run(&cs, lo, CharClass::Ascii);
    proof { lemma_run_end_bounds(s, lo as int, CharClass::Ascii); }
    if lo >= hi {
        return Err(ErrorKind::MissingTitle);
    }
    let end = scan_trim_end(&cs, lo, hi);
    proof { lemma_trim_end_bounds(s, lo as int, hi as int); }
    let rest = scan_run(&cs, hi, CharClass::Space);
    proof { lemma_run_end_bounds(s, hi as int, CharClass::Space); }
    let title = input.substring_char(lo, end);
    *input = input.substring_char(rest, cs.len());
    Ok(title)
}

/// Parses a whole line as `<kind> (<issue id>): <title>`: the kind, then the
/// identifier, then the title, each rule starting where the one before it
/// stopped, and nothing but spaces after the title.
pub fn parse_merge_request(input: &str) -> (r: Result<MergeRequest, ParseError>)
    ensures
        match parse_line(input@) {
            Ok(v) => r is Ok && r->Ok_0@ == v,
            Err((kind, offset)) => r is Err && r->Err_0.kind == kind && r->Err_0.offset == offset
                && r->Err_0.rest@ == input@.skip(offset),
        },
{
    let ghost s = input@;
    let total = input.unicode_len();
    let mut rest: &str = input;
    assert(s.skip(0) =~= s);
    let kind = match parse_kind(&mut rest) {
        Ok(kind) => kind,
        Err(e) => return Err(error_at(e, total, rest)),
    };
    let ghost s1 = rest@;
    let jira_id = match parse_jira_id(&mut rest) {
        Ok(id) => id,
        Err(e) => return Err(error_at(e, total, rest)),
    };
    let ghost s2 = rest@;
    proof {
        let (_, n1) = kind_match(s).unwrap();
        let (_, _, n2) = jira_id_match(s1).unwrap();
        assert(s2 =~= s.skip(n1 + n2));
    }
    let title = match parse_title(&mut rest) {
        Ok(t) => t,
        Err(e) => return Err(error_at(e, total, rest)),
    };
    proof {
        let (_, n1) = kind_match(s).unwrap();
        let (_, _, n2) = jira_id_match(s1).unwrap();
        let (_, _, n3) = title_match(s2).unwrap();
        assert(rest@ =~= s.skip(n1 + n2 + n3));
    }
    if rest.unicode_len() != 0 {
        return Err(error_at(ErrorKind::TrailingInput, total, rest));
    }
    Ok(MergeRequest { kind, jira_id: jira_id.to_owned(), title: title.to_owned() })
}

} // verus!
