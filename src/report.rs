//! Labels and one-line diagnostics for rejected titles, and the canonical
//! spelling of an accepted one.

use vstd::prelude::*;
use vstd::string::StringExecFns;
use crate::grammar::{ErrorKind, Kind};
use crate::laws::canonical;
use crate::parser::{MergeRequest, ParseError};

verus! {

/// The name of the rule that rejected the input, if a rule did.
pub open spec fn label_text(kind: ErrorKind) -> Option<Seq<char>> {
    match kind {
        ErrorKind::UnrecognizedKind => Some("kind"@),
        ErrorKind::MissingIdentifier => Some("jira id"@),
        ErrorKind::MissingTitle => Some("title"@),
        ErrorKind::TrailingInput => None,
    }
}

/// What the rule that rejected the input expected to find.
pub open spec fn expected_text(kind: ErrorKind) -> Seq<char> {
    match kind {
        ErrorKind::UnrecognizedKind => "fix or feat"@,
        ErrorKind::MissingIdentifier => "a valid jira id"@,
        ErrorKind::MissingTitle => "any valid title"@,
        ErrorKind::TrailingInput => "end of input"@,
    }
}

pub open spec fn digit_char(d: nat) -> char {
    if d == 0 { '0' } else if d == 1 { '1' } else if d == 2 { '2' } else if d == 3 { '3' }
    else if d == 4 { '4' } else if d == 5 { '5' } else if d == 6 { '6' } else if d == 7 { '7' }
    else if d == 8 { '8' } else { '9' }
}

/// The decimal digits of `n`, without leading zeros.
pub open spec fn decimal(n: nat) -> Seq<char>
    decreases n,
{
    if n < 10 {
        seq![digit_char(n)]
    } else {
        decimal(n / 10) + seq![digit_char(n % 10)]
    }
}

/// `<offset>: invalid <label>, expected <expectation>`, or, where no rule
/// applies, `<offset>: expected <expectation>`.
pub open spec fn message_text(kind: ErrorKind, offset: nat) -> Seq<char> {
    match label_text(kind) {
        Some(label) => decimal(offset) + ": invalid "@ + label + ", expected "@ + expected_text(kind),
        None => decimal(offset) + ": expected "@ + expected_text(kind),
    }
}

impl ErrorKind {
    /// The name of the rule that rejected the input; none for trailing input.
    pub fn label(&self) -> (r: Option<&'static str>)
        ensures
            r is Some == (label_text(*self) is Some),
            r is Some ==> r->Some_0@ == label_text(*self)->Some_0,
    {
        match self {
            ErrorKind::UnrecognizedKind => Some("kind"),
            ErrorKind::MissingIdentifier => Some("jira id"),
            ErrorKind::MissingTitle => Some("title"),
            ErrorKind::TrailingInput => None,
        }
    }

    /// What the rule that rejected the input expected to find.
    pub fn expected(&self) -> (r: &'static str)
        ensures
            r@ == expected_text(*self),
    {
        match self {
            ErrorKind::UnrecognizedKind => "fix or feat",
            ErrorKind::MissingIdentifier => "a valid jira id",
            ErrorKind::MissingTitle => "any valid title",
            ErrorKind::TrailingInput => "end of input",
        }
    }
}

fn digit_str(d: u64) -> (r: &'static str)
    requires
        d < 10,
    ensures
        r@ == seq![digit_char(d as nat)],
{
    proof {
        reveal_strlit("0");
        reveal_strlit("1");
        reveal_strlit("2");
        reveal_strlit("3");
        reveal_strlit("4");
        reveal_strlit("5");
        reveal_strlit("6");
        reveal_strlit("7");
        reveal_strlit("8");
        reveal_strlit("9");
    }
    let r = if d == 0 { "0" } else if d == 1 { "1" } else if d == 2 { "2" } else if d == 3 { "3" }
    else if d == 4 { "4" } else if d == 5 { "5" } else if d == 6 { "6" } else if d == 7 { "7" }
    else if d == 8 { "8" } else { "9" };
    assert(r@ =~= seq![digit_char(d as nat)]);
    r
}

/// The decimal digits of `n`.
pub fn to_decimal(n: u64) -> (r: String)
    ensures
        r@ == decimal(n as nat),
    decreases n,
{
    if n < 10 {
        digit_str(n).to_owned()
    } else {
        let mut r = to_decimal(n / 10);
        r.append(digit_str(n % 10));
        r
    }
}

impl ParseError {
    /// A one-line diagnostic: the offset, the rule and what it expected.
    pub fn message(&self) -> (r: String)
        ensures
            r@ == message_text(self.kind, self.offset as nat),
    {
        let mut r = to_decimal(self.offset as u64);
        match self.kind.label() {
            Some(label) => {
                r.append(": invalid ");
                r.append(label);
                r.append(", expected ");
            },
            None => {
                r.append(": expected ");
            },
        }
        r.append(self.kind.expected());
        r
    }
}

impl MergeRequest {
    /// The title in canonical form: `<kind> (<id>): <title>`, with the kind
    /// spelled `fix` or `feat`.
    pub fn canonical_title(&self) -> (r: String)
        ensures
            r@ == canonical(self.kind, self.jira_id@, self.title@),
    {
        proof {
            reveal_strlit("fix");
            reveal_strlit("feat");
            reveal_strlit(" (");
            reveal_strlit("): ");
        }
        let mut r = match self.kind {
            Kind::Fix => "fix".to_owned(),
            Kind::Feature => "feat".to_owned(),
        };
        r.append(" (");
        r.append(self.jira_id.as_str());
        r.append("): ");
        r.append(self.title.as_str());
        assert(r@ =~= canonical(self.kind, self.jira_id@, self.title@));
        r
    }
}

} // verus!
