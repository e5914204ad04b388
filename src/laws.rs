//! Properties of the title grammar as a whole, proved over its spec.

use vstd::prelude::*;
use crate::grammar::{Kind, ErrorKind, jira_id_match, kind_match, lit_feat, lit_feature, lit_fix, parse_line, title_match};
use crate::text::{
    CharClass, all_in, eq_caseless, in_class, is_ascii_char, is_id_char, is_space, lemma_run_end_at,
    lemma_run_end_bounds, lemma_run_end_extend, lemma_trim_end_extend, lemma_trim_end_at, lemma_trim_end_bounds, lemma_trim_end_keeps_first,
    starts_caseless,
};

verus! {

/// `word` is `fix`, `feat` or `feature`, in any mix of ASCII case, and names `kind`.
pub open spec fn spells_kind(word: Seq<char>, kind: Kind) -> bool {
    ||| word.len() == 3 && starts_caseless(word, lit_fix()) && kind == Kind::Fix
    ||| word.len() == 4 && starts_caseless(word, lit_feat()) && kind == Kind::Feature
    ||| word.len() == 7 && starts_caseless(word, lit_feature()) && kind == Kind::Feature
}

/// A title as the grammar gives it back: non-empty ASCII, with neither a
/// leading nor a trailing space.
pub open spec fn is_bare_title(title: Seq<char>) -> bool {
    &&& title.len() > 0
    &&& all_in(title, CharClass::Ascii)
    &&& !is_space(title[0])
    &&& !is_space(title.last())
}

/// An issue identifier as the grammar gives it back.
pub open spec fn is_jira_id(id: Seq<char>) -> bool {
    id.len() > 0 && all_in(id, CharClass::IdChar)
}

/// The line `<word><ws0>(<ws1><id><ws2>)<ws3>:<ws4><title><ws5>`.
pub open spec fn line_of(
    word: Seq<char>,
    ws0: Seq<char>,
    ws1: Seq<char>,
    id: Seq<char>,
    ws2: Seq<char>,
    ws3: Seq<char>,
    ws4: Seq<char>,
    title: Seq<char>,
    ws5: Seq<char>,
) -> Seq<char> {
    word + (id_part(ws0, ws1, id, ws2) + title_part(ws3, ws4, title, ws5))
}

pub open spec fn id_part(ws0: Seq<char>, ws1: Seq<char>, id: Seq<char>, ws2: Seq<char>) -> Seq<char> {
    ws0 + seq!['('] + ws1 + id + ws2 + seq![')']
}

pub open spec fn title_part(ws3: Seq<char>, ws4: Seq<char>, title: Seq<char>, ws5: Seq<char>) -> Seq<char> {
    ws3 + seq![':'] + ws4 + title + ws5
}

proof fn lemma_kind_word(word: Seq<char>, kind: Kind, tail: Seq<char>)
    requires
        spells_kind(word, kind),
        tail.len() > 0,
        is_space(tail[0]) || tail[0] == '(',
    ensures
        kind_match(word + tail) == Some((kind, word.len() as int)),
{
    let s = word + tail;
    assert(forall|k: int| 0 <= k < word.len() ==> s[k] == word[k]);
    assert(s[word.len() as int] == tail[0]);
    if word.len() == 3 {
        assert(starts_caseless(s, lit_fix()));
    } else {
        assert(eq_caseless(word[1], 'e'));
        assert(!eq_caseless(s[1], 'i'));
        assert(!starts_caseless(s, lit_fix()));
        if word.len() == 4 {
            assert(!eq_caseless(s[4], 'u'));
            assert(!starts_caseless(s, lit_feature()));
            assert(starts_caseless(s, lit_feat()));
        } else {
            assert(starts_caseless(s, lit_feature()));
        }
    }
}

proof fn lemma_id_part(ws0: Seq<char>, ws1: Seq<char>, id: Seq<char>, ws2: Seq<char>, tail: Seq<char>)
    requires
        all_in(ws0, CharClass::Space),
        all_in(ws1, CharClass::Space),
        all_in(ws2, CharClass::Space),
        is_jira_id(id),
    ensures
        jira_id_match(id_part(ws0, ws1, id, ws2) + tail) == Some(
            (
                (ws0.len() + 1 + ws1.len()) as int,
                (ws0.len() + 1 + ws1.len() + id.len()) as int,
                id_part(ws0, ws1, id, ws2).len() as int,
            ),
        ),
        (id_part(ws0, ws1, id, ws2) + tail).subrange(
            (ws0.len() + 1 + ws1.len()) as int,
            (ws0.len() + 1 + ws1.len() + id.len()) as int,
        ) == id,
{
    let s = id_part(ws0, ws1, id, ws2) + tail;
    let open = ws0.len() as int;
    let lo = open + 1 + ws1.len();
    let hi = lo + id.len();
    let close = hi + ws2.len();
    assert forall|k: int| 0 <= k < open implies in_class(#[trigger] s[k], CharClass::Space) by {
        assert(s[k] == ws0[k]);
    }
    assert(s[open] == '(');
    lemma_run_end_at(s, 0, open, CharClass::Space);
    assert forall|k: int| open + 1 <= k < lo implies in_class(#[trigger] s[k], CharClass::Space) by {
        assert(s[k] == ws1[k - open - 1]);
    }
    assert(s[lo] == id[0]);
    assert(is_id_char(id[0]));
    lemma_run_end_at(s, open + 1, lo, CharClass::Space);
    assert forall|k: int| lo <= k < hi implies in_class(#[trigger] s[k], CharClass::IdChar) by {
        assert(s[k] == id[k - lo]);
    }
    if ws2.len() > 0 {
        assert(s[hi] == ws2[0]);
    } else {
        assert(s[hi] == ')');
    }
    lemma_run_end_at(s, lo, hi, CharClass::IdChar);
    assert forall|k: int| hi <= k < close implies in_class(#[trigger] s[k], CharClass::Space) by {
        assert(s[k] == ws2[k - hi]);
    }
    assert(s[close] == ')');
    lemma_run_end_at(s, hi, close, CharClass::Space);
    assert(s.subrange(lo, hi) =~= id);
}

proof fn lemma_title_part(ws3: Seq<char>, ws4: Seq<char>, title: Seq<char>, ws5: Seq<char>)
    requires
        all_in(ws3, CharClass::Space),
        all_in(ws4, CharClass::Space),
        all_in(ws5, CharClass::Space),
        is_bare_title(title),
    ensures
        title_match(title_part(ws3, ws4, title, ws5)) == Some(
            (
                (ws3.len() + 1 + ws4.len()) as int,
                (ws3.len() + 1 + ws4.len() + title.len()) as int,
                title_part(ws3, ws4, title, ws5).len() as int,
            ),
        ),
        title_part(ws3, ws4, title, ws5).subrange(
            (ws3.len() + 1 + ws4.len()) as int,
            (ws3.len() + 1 + ws4.len() + title.len()) as int,
        ) == title,
{
    let s = title_part(ws3, ws4, title, ws5);
    let colon = ws3.len() as int;
    let lo = colon + 1 + ws4.len();
    let hi = lo + title.len();
    let end = s.len() as int;
    assert forall|k: int| 0 <= k < colon implies in_class(#[trigger] s[k], CharClass::Space) by {
        assert(s[k] == ws3[k]);
    }
    assert(s[colon] == ':');
    lemma_run_end_at(s, 0, colon, CharClass::Space);
    assert forall|k: int| colon + 1 <= k < lo implies in_class(#[trigger] s[k], CharClass::Space) by {
        assert(s[k] == ws4[k - colon - 1]);
    }
    assert(s[lo] == title[0]);
    lemma_run_end_at(s, colon + 1, lo, CharClass::Space);
    assert forall|k: int| lo <= k < end implies in_class(#[trigger] s[k], CharClass::Ascii) by {
        if k < hi {
            assert(s[k] == title[k - lo]);
            assert(in_class(title[k - lo], CharClass::Ascii));
        } else {
            assert(s[k] == ws5[k - hi]);
            assert(in_class(ws5[k - hi], CharClass::Space));
        }
    }
    lemma_run_end_at(s, lo, end, CharClass::Ascii);
    lemma_run_end_at(s, end, end, CharClass::Space);
    assert(s[hi - 1] == title[title.len() - 1]);
    assert forall|k: int| hi <= k < end implies is_space(#[trigger] s[k]) by {
        assert(s[k] == ws5[k - hi]);
        assert(in_class(ws5[k - hi], CharClass::Space));
    }
    lemma_trim_end_at(s, lo, hi, end);
    assert(s.subrange(lo, hi) =~= title);
}

/// A line made of a kind word in any case, a parenthesised identifier and a
/// title after a colon, with any spaces between the parts and at the end,
/// parses to exactly that kind, identifier and title.
#[verifier::spinoff_prover]
#[verifier::rlimit(30)]
pub proof fn lemma_well_formed_line_parses(
    word: Seq<char>,
    kind: Kind,
    ws0: Seq<char>,
    ws1: Seq<char>,
    id: Seq<char>,
    ws2: Seq<char>,
    ws3: Seq<char>,
    ws4: Seq<char>,
    title: Seq<char>,
    ws5: Seq<char>,
)
    requires
        spells_kind(word, kind),
        all_in(ws0, CharClass::Space),
        all_in(ws1, CharClass::Space),
        all_in(ws2, CharClass::Space),
        all_in(ws3, CharClass::Space),
        all_in(ws4, CharClass::Space),
        all_in(ws5, CharClass::Space),
        is_jira_id(id),
        is_bare_title(title),
    ensures
        parse_line(line_of(word, ws0, ws1, id, ws2, ws3, ws4, title, ws5)) == Ok::<_, (ErrorKind, int)>((kind, id, title)),
{
    let ip = id_part(ws0, ws1, id, ws2);
    let tp = title_part(ws3, ws4, title, ws5);
    let s = line_of(word, ws0, ws1, id, ws2, ws3, ws4, title, ws5);
    let tail = ip + tp;
    if ws0.len() > 0 {
        assert(tail[0] == ws0[0]);
        assert(in_class(ws0[0], CharClass::Space));
    } else {
        assert(tail[0] == '(');
    }
    lemma_kind_word(word, kind, tail);
    let n1 = word.len() as int;
    assert(s.skip(n1) =~= tail);
    lemma_id_part(ws0, ws1, id, ws2, tp);
    let n2 = ip.len() as int;
    assert(tail.skip(n2) =~= tp);
    lemma_title_part(ws3, ws4, title, ws5);
    let n3 = tp.len() as int;
    assert(n1 + n2 + n3 == s.len());
    let (a, b, _) = jira_id_match(tail).unwrap();
    let (c, d, _) = title_match(tp).unwrap();
    assert(tail.subrange(a, b) == id);
    assert(tp.subrange(c, d) == title);
}

/// The spelling of a kind in the canonical form of a title.
pub open spec fn kind_word(kind: Kind) -> Seq<char> {
    match kind {
        Kind::Fix => lit_fix(),
        Kind::Feature => lit_feat(),
    }
}

/// The canonical form of a title: `<kind> (<id>): <title>`.
pub open spec fn canonical(kind: Kind, id: Seq<char>, title: Seq<char>) -> Seq<char> {
    kind_word(kind) + seq![' ', '('] + id + seq![')', ':', ' '] + title
}

/// What a line parses to has a non-empty identifier made of ASCII letters,
/// digits and hyphens, and a non-empty ASCII title that neither starts nor
/// ends with a space.
pub proof fn lemma_parsed_fields(s: Seq<char>)
    requires
        parse_line(s) is Ok,
    ensures
        is_jira_id(parse_line(s)->Ok_0.1),
        is_bare_title(parse_line(s)->Ok_0.2),
{
    let (_, n1) = kind_match(s).unwrap();
    let s1 = s.skip(n1);
    let (a, b, n2) = jira_id_match(s1).unwrap();
    let s2 = s1.skip(n2);
    let (c, d, _) = title_match(s2).unwrap();
    let open = crate::text::run_end(s1, 0, CharClass::Space);
    lemma_run_end_bounds(s1, 0, CharClass::Space);
    lemma_run_end_bounds(s1, open + 1, CharClass::Space);
    lemma_run_end_bounds(s1, a, CharClass::IdChar);
    let id = s1.subrange(a, b);
    assert forall|k: int| 0 <= k < id.len() implies in_class(#[trigger] id[k], CharClass::IdChar) by {
        assert(id[k] == s1[a + k]);
    }
    let colon = crate::text::run_end(s2, 0, CharClass::Space);
    lemma_run_end_bounds(s2, 0, CharClass::Space);
    lemma_run_end_bounds(s2, colon + 1, CharClass::Space);
    let hi = crate::text::run_end(s2, c, CharClass::Ascii);
    lemma_run_end_bounds(s2, c, CharClass::Ascii);
    lemma_trim_end_bounds(s2, c, hi);
    lemma_trim_end_keeps_first(s2, c, hi);
    let title = s2.subrange(c, d);
    assert forall|k: int| 0 <= k < title.len() implies in_class(#[trigger] title[k], CharClass::Ascii) by {
        assert(title[k] == s2[c + k]);
    }
    assert(title[0] == s2[c]);
    assert(title.last() == s2[d - 1]);
}

/// Parsing the canonical form of what a line parses to gives the same result.
pub proof fn lemma_canonical_reparses(s: Seq<char>)
    requires
        parse_line(s) is Ok,
    ensures
        parse_line(canonical(parse_line(s)->Ok_0.0, parse_line(s)->Ok_0.1, parse_line(s)->Ok_0.2))
            == parse_line(s),
{
    let (kind, id, title) = parse_line(s)->Ok_0;
    lemma_parsed_fields(s);
    let word = kind_word(kind);
    let e = Seq::<char>::empty();
    let sp = seq![' '];
    assert(all_in(e, CharClass::Space));
    assert(all_in(sp, CharClass::Space)) by {
        assert(in_class(sp[0], CharClass::Space));
    }
    assert(spells_kind(word, kind));
    lemma_well_formed_line_parses(word, kind, sp, e, id, e, e, sp, title, e);
    assert(line_of(word, sp, e, id, e, e, sp, title, e) =~= canonical(kind, id, title));
}

/// `lit` is one of the three words that spell a kind, in lower case.
pub open spec fn is_kind_literal(lit: Seq<char>) -> bool {
    lit == lit_fix() || lit == lit_feat() || lit == lit_feature()
}

proof fn lemma_caseless_letters(c: char, l1: char, l2: char)
    requires
        'a' <= l1 <= 'z',
        'a' <= l2 <= 'z',
        eq_caseless(c, l1),
    ensures
        eq_caseless(c, l2) == (l1 == l2),
        eq_caseless(l1, l2) == (l1 == l2),
{
}

proof fn lemma_same_prefix_test(word: Seq<char>, lit: Seq<char>, rest: Seq<char>, x: Seq<char>)
    requires
        is_kind_literal(lit),
        is_kind_literal(x),
        word.len() == lit.len(),
        starts_caseless(word, lit),
    ensures
        starts_caseless(word + rest, x) == starts_caseless(lit + rest, x),
{
    let a = word + rest;
    let b = lit + rest;
    assert forall|k: int| 0 <= k < x.len() && k < a.len() implies eq_caseless(#[trigger] a[k], x[k])
        == eq_caseless(b[k], x[k]) by {
        if k < lit.len() {
            assert(eq_caseless(word[k], lit[k]));
            lemma_caseless_letters(word[k], lit[k], x[k]);
        } else {
            assert(a[k] == b[k]);
        }
    }
    if starts_caseless(a, x) {
        assert forall|k: int| 0 <= k < x.len() implies eq_caseless(#[trigger] b[k], x[k]) by {
            assert(eq_caseless(a[k], x[k]));
        }
    }
    if starts_caseless(b, x) {
        assert forall|k: int| 0 <= k < x.len() implies eq_caseless(#[trigger] a[k], x[k]) by {
            assert(eq_caseless(b[k], x[k]));
        }
    }
}

/// The case of the kind word does not matter: a line that starts with `fix`,
/// `feat` or `feature` in any mix of ASCII case parses as the line that starts
/// with the lower-case word does.
pub proof fn lemma_kind_case_ignored(word: Seq<char>, lit: Seq<char>, rest: Seq<char>)
    requires
        is_kind_literal(lit),
        word.len() == lit.len(),
        starts_caseless(word, lit),
    ensures
        parse_line(word + rest) == parse_line(lit + rest),
{
    lemma_same_prefix_test(word, lit, rest, lit_fix());
    lemma_same_prefix_test(word, lit, rest, lit_feat());
    lemma_same_prefix_test(word, lit, rest, lit_feature());
    let a = word + rest;
    let b = lit + rest;
    if kind_match(b) is Some {
        let n = kind_match(b)->Some_0.1;
        assert(starts_caseless(lit, lit));
        if lit == lit_feat() {
            assert(starts_caseless(b, lit_feat()));
            assert(!starts_caseless(b, lit_fix())) by {
                assert(!eq_caseless(b[1], 'i'));
            }
        } else if lit == lit_feature() {
            assert(!starts_caseless(b, lit_fix())) by {
                assert(!eq_caseless(b[1], 'i'));
            }
            assert(starts_caseless(b, lit_feature()));
        }
        assert(lit.len() <= n);
        assert(a.skip(n) =~= b.skip(n));
    }
}

/// A line that does not start with `fix`, `feat` or `feature`, in any case, is
/// rejected as having no recognised kind, at its start.
pub proof fn lemma_unrecognized_kind(s: Seq<char>)
    requires
        !starts_caseless(s, lit_fix()),
        !starts_caseless(s, lit_feat()),
        !starts_caseless(s, lit_feature()),
    ensures
        parse_line(s) == Err::<(Kind, Seq<char>, Seq<char>), _>((ErrorKind::UnrecognizedKind, 0int)),
{
}

/// After a recognised kind, text with no opening parenthesis, or with no
/// closing one, is rejected as a missing identifier where the kind ends.
pub proof fn lemma_unopened_or_unclosed_identifier(s: Seq<char>)
    requires
        kind_match(s) is Some,
        !s.skip(kind_match(s)->Some_0.1).contains('(') || !s.skip(kind_match(s)->Some_0.1).contains(')'),
    ensures
        parse_line(s) == Err::<(Kind, Seq<char>, Seq<char>), _>(
            (ErrorKind::MissingIdentifier, kind_match(s)->Some_0.1),
        ),
{
    let n1 = kind_match(s)->Some_0.1;
    let s1 = s.skip(n1);
    if jira_id_match(s1) is Some {
        let open = crate::text::run_end(s1, 0, CharClass::Space);
        lemma_run_end_bounds(s1, 0, CharClass::Space);
        let lo = crate::text::run_end(s1, open + 1, CharClass::Space);
        lemma_run_end_bounds(s1, open + 1, CharClass::Space);
        let hi = crate::text::run_end(s1, lo, CharClass::IdChar);
        lemma_run_end_bounds(s1, lo, CharClass::IdChar);
        let close = crate::text::run_end(s1, hi, CharClass::Space);
        lemma_run_end_bounds(s1, hi, CharClass::Space);
        assert(s1[open] == '(');
        assert(s1[close] == ')');
        assert(s1.contains('('));
        assert(s1.contains(')'));
    }
}

/// After a recognised kind, empty parentheses (spaces allowed around and
/// inside them) are rejected as a missing identifier where the kind ends.
pub proof fn lemma_empty_identifier(s: Seq<char>, ws0: Seq<char>, ws1: Seq<char>, tail: Seq<char>)
    requires
        kind_match(s) is Some,
        s.skip(kind_match(s)->Some_0.1) == ws0 + seq!['('] + ws1 + seq![')'] + tail,
        all_in(ws0, CharClass::Space),
        all_in(ws1, CharClass::Space),
    ensures
        parse_line(s) == Err::<(Kind, Seq<char>, Seq<char>), _>(
            (ErrorKind::MissingIdentifier, kind_match(s)->Some_0.1),
        ),
{
    let s1 = s.skip(kind_match(s)->Some_0.1);
    let open = ws0.len() as int;
    let lo = open + 1 + ws1.len();
    assert forall|k: int| 0 <= k < open implies in_class(#[trigger] s1[k], CharClass::Space) by {
        assert(s1[k] == ws0[k]);
    }
    assert(s1[open] == '(');
    lemma_run_end_at(s1, 0, open, CharClass::Space);
    assert forall|k: int| open + 1 <= k < lo implies in_class(#[trigger] s1[k], CharClass::Space) by {
        assert(s1[k] == ws1[k - open - 1]);
    }
    assert(s1[lo] == ')');
    lemma_run_end_at(s1, open + 1, lo, CharClass::Space);
    lemma_run_end_at(s1, lo, lo, CharClass::IdChar);
}

/// After a recognised kind and identifier, text with no colon, or a colon
/// followed by spaces and then the end of the line or a non-ASCII character,
/// is rejected as a missing title where the identifier ends.
pub proof fn lemma_missing_title(s: Seq<char>, ws3: Seq<char>, ws4: Seq<char>, tail: Seq<char>)
    requires
        kind_match(s) is Some,
        jira_id_match(s.skip(kind_match(s)->Some_0.1)) is Some,
        ({
            let s2 = s.skip(kind_match(s)->Some_0.1).skip(jira_id_match(s.skip(kind_match(s)->Some_0.1))->Some_0.2);
            ||| !s2.contains(':')
            ||| s2 == ws3 + seq![':'] + ws4 + tail && all_in(ws3, CharClass::Space) && all_in(ws4, CharClass::Space)
                && (tail.len() == 0 || !is_ascii_char(tail[0]))
        }),
    ensures
        parse_line(s) == Err::<(Kind, Seq<char>, Seq<char>), _>(
            (
                ErrorKind::MissingTitle,
                kind_match(s)->Some_0.1 + jira_id_match(s.skip(kind_match(s)->Some_0.1))->Some_0.2,
            ),
        ),
{
    let s2 = s.skip(kind_match(s)->Some_0.1).skip(jira_id_match(s.skip(kind_match(s)->Some_0.1))->Some_0.2);
    if !s2.contains(':') {
        let colon = crate::text::run_end(s2, 0, CharClass::Space);
        lemma_run_end_bounds(s2, 0, CharClass::Space);
        if colon < s2.len() && s2[colon] == ':' {
            assert(s2.contains(':'));
        }
    } else {
        let colon = ws3.len() as int;
        let lo = colon + 1 + ws4.len();
        assert forall|k: int| 0 <= k < colon implies in_class(#[trigger] s2[k], CharClass::Space) by {
            assert(s2[k] == ws3[k]);
        }
        assert(s2[colon] == ':');
        lemma_run_end_at(s2, 0, colon, CharClass::Space);
        assert forall|k: int| colon + 1 <= k < lo implies in_class(#[trigger] s2[k], CharClass::Space) by {
            assert(s2[k] == ws4[k - colon - 1]);
        }
        if tail.len() > 0 {
            assert(s2[lo] == tail[0]);
        }
        lemma_run_end_at(s2, colon + 1, lo, CharClass::Space);
        lemma_run_end_at(s2, lo, lo, CharClass::Ascii);
    }
}

/// Text after a well-formed line that starts with a non-ASCII character
/// cannot be taken into the title, and is rejected as trailing input where
/// the well-formed line ends. (Trailing ASCII text becomes part of the title.)
pub proof fn lemma_trailing_input(p: Seq<char>, g: Seq<char>)
    requires
        parse_line(p) is Ok,
        g.len() > 0,
        !is_ascii_char(g[0]),
    ensures
        parse_line(p + g) == Err::<(Kind, Seq<char>, Seq<char>), _>((ErrorKind::TrailingInput, p.len() as int)),
{
    let s = p + g;
    let (kind, n1) = kind_match(p).unwrap();
    let p1 = p.skip(n1);
    let (a, b, n2) = jira_id_match(p1).unwrap();
    let p2 = p1.skip(n2);
    let (c, d, n3) = title_match(p2).unwrap();
    lemma_parsed_fields(p);
    assert(p.len() > 7) by {
        let open = crate::text::run_end(p1, 0, CharClass::Space);
        lemma_run_end_bounds(p1, 0, CharClass::Space);
        lemma_run_end_bounds(p1, open + 1, CharClass::Space);
        lemma_run_end_bounds(p1, a, CharClass::IdChar);
        lemma_run_end_bounds(p1, b, CharClass::Space);
        lemma_run_end_bounds(p2, 0, CharClass::Space);
    }
    assert forall|x: Seq<char>| #[trigger] is_kind_literal(x) implies starts_caseless(s, x) == starts_caseless(p, x) by {
        if starts_caseless(p, x) {
            assert forall|k: int| 0 <= k < x.len() implies eq_caseless(#[trigger] s[k], x[k]) by {
                assert(s[k] == p[k]);
                assert(eq_caseless(p[k], x[k]));
            }
        }
        if starts_caseless(s, x) {
            assert forall|k: int| 0 <= k < x.len() implies eq_caseless(#[trigger] p[k], x[k]) by {
                assert(s[k] == p[k]);
                assert(eq_caseless(s[k], x[k]));
            }
        }
    }
    // the three rules read the same characters in `p + g` as in `p`
    assert(is_kind_literal(lit_fix()));
    assert(is_kind_literal(lit_feat()));
    assert(is_kind_literal(lit_feature()));
    assert(kind_match(s) == kind_match(p));
    let s1 = s.skip(n1);
    assert(s1 =~= p1 + g);
    let open = crate::text::run_end(p1, 0, CharClass::Space);
    lemma_run_end_bounds(p1, 0, CharClass::Space);
    lemma_run_end_extend(p1, g, 0, CharClass::Space);
    lemma_run_end_bounds(p1, open + 1, CharClass::Space);
    lemma_run_end_extend(p1, g, open + 1, CharClass::Space);
    lemma_run_end_bounds(p1, a, CharClass::IdChar);
    lemma_run_end_extend(p1, g, a, CharClass::IdChar);
    lemma_run_end_bounds(p1, b, CharClass::Space);
    lemma_run_end_extend(p1, g, b, CharClass::Space);
    let close = crate::text::run_end(p1, b, CharClass::Space);
    assert(s1[open] == p1[open]);
    assert(s1[close] == p1[close]);
    assert(jira_id_match(s1) == jira_id_match(p1));
    let s2 = s1.skip(n2);
    assert(s2 =~= p2 + g);
    let colon = crate::text::run_end(p2, 0, CharClass::Space);
    lemma_run_end_bounds(p2, 0, CharClass::Space);
    lemma_run_end_extend(p2, g, 0, CharClass::Space);
    lemma_run_end_bounds(p2, colon + 1, CharClass::Space);
    lemma_run_end_extend(p2, g, colon + 1, CharClass::Space);
    let hi = crate::text::run_end(p2, c, CharClass::Ascii);
    lemma_run_end_bounds(p2, c, CharClass::Ascii);
    lemma_run_end_extend(p2, g, c, CharClass::Ascii);
    lemma_run_end_bounds(p2, hi, CharClass::Space);
    lemma_run_end_extend(p2, g, hi, CharClass::Space);
    lemma_trim_end_extend(p2, g, c, hi);
    assert(s2[colon] == p2[colon]);
    assert(title_match(s2) == title_match(p2));
}

} // verus!
