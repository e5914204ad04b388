use mr_title::{parse_jira_id, parse_kind, parse_merge_request, parse_title};
use mr_title::{ErrorKind, Kind, MergeRequest};

fn ok(kind: Kind, jira_id: &str, title: &str) -> MergeRequest {
    MergeRequest { kind, jira_id: jira_id.to_string(), title: title.to_string() }
}

fn err_of(input: &str) -> (ErrorKind, usize, String) {
    let e = parse_merge_request(input).unwrap_err();
    (e.kind, e.offset, e.rest)
}

#[test]
fn spaces_around_identifier_and_after_colon() {
    assert_eq!(
        parse_merge_request("feat  (   ABC-123   ) :   Fix a bug"),
        Ok(ok(Kind::Feature, "ABC-123", "Fix a bug"))
    );
}

#[test]
fn no_spaces_at_all() {
    assert_eq!(parse_merge_request("fix(XY-1):no spaces"), Ok(ok(Kind::Fix, "XY-1", "no spaces")));
}

#[test]
fn underscore_in_identifier_is_missing_identifier() {
    assert_eq!(err_of("feature (AB_1): oops"), (ErrorKind::MissingIdentifier, 7, " (AB_1): oops".to_string()));
}

#[test]
fn chore_is_unrecognized_kind() {
    assert_eq!(err_of("chore(ABC-1): test"), (ErrorKind::UnrecognizedKind, 0, "chore(ABC-1): test".to_string()));
}

#[test]
fn empty_title_after_colon() {
    assert_eq!(err_of("fix (ABC-1):"), (ErrorKind::MissingTitle, 11, ":".to_string()));
    assert_eq!(err_of("fix (ABC-1):   "), (ErrorKind::MissingTitle, 11, ":   ".to_string()));
}

#[test]
fn stray_parenthesis_is_part_of_title() {
    assert_eq!(
        parse_merge_request("fix (ABC-1): title extra)"),
        Ok(ok(Kind::Fix, "ABC-1", "title extra)"))
    );
}

#[test]
fn kind_ignores_case() {
    for word in ["FIX", "Fix", "fix", "fIx"] {
        let line = format!("{word} (A-1): t");
        assert_eq!(parse_merge_request(&line).unwrap().kind, Kind::Fix);
    }
    for word in ["FEAT", "Feature", "feAt", "feat", "FEATURE", "feature"] {
        let line = format!("{word} (A-1): t");
        assert_eq!(parse_merge_request(&line).unwrap().kind, Kind::Feature);
    }
}

#[test]
fn feature_word_is_taken_whole() {
    assert_eq!(parse_merge_request("feature(ABC-9): x"), Ok(ok(Kind::Feature, "ABC-9", "x")));
}

#[test]
fn trailing_spaces_are_trimmed_from_title() {
    assert_eq!(
        parse_merge_request("fix (ABC-1):  some title \t  "),
        Ok(ok(Kind::Fix, "ABC-1", "some title"))
    );
}

#[test]
fn tabs_count_as_spaces() {
    assert_eq!(parse_merge_request("fix\t(\tA-1\t)\t:\tt"), Ok(ok(Kind::Fix, "A-1", "t")));
}

#[test]
fn canonical_form_parses_to_the_same() {
    for line in ["feat  (   ABC-123   ) :   Fix a bug", "FIX(XY-1):no spaces  ", "Feature (Q-2): a: b (c)"] {
        let first = parse_merge_request(line).unwrap();
        let again = parse_merge_request(&first.canonical_title()).unwrap();
        assert_eq!(first, again);
    }
    let mr = parse_merge_request("FEATURE  (  AB-1 ):  Add it  ").unwrap();
    assert_eq!(mr.canonical_title(), "feat (AB-1): Add it");
}

#[test]
fn missing_parentheses() {
    assert_eq!(err_of("fix ABC-1: t"), (ErrorKind::MissingIdentifier, 3, " ABC-1: t".to_string()));
    assert_eq!(err_of("fix"), (ErrorKind::MissingIdentifier, 3, "".to_string()));
}

#[test]
fn empty_parentheses() {
    assert_eq!(err_of("fix (): t"), (ErrorKind::MissingIdentifier, 3, " (): t".to_string()));
    assert_eq!(err_of("fix (  ): t").0, ErrorKind::MissingIdentifier);
}

#[test]
fn unterminated_parentheses() {
    assert_eq!(err_of("fix (ABC-123"), (ErrorKind::MissingIdentifier, 3, " (ABC-123".to_string()));
    assert_eq!(err_of("fix (ABC-123 : t").0, ErrorKind::MissingIdentifier);
}

#[test]
fn missing_colon() {
    assert_eq!(err_of("fix (ABC-1) title"), (ErrorKind::MissingTitle, 11, " title".to_string()));
    assert_eq!(err_of("fix (ABC-1)"), (ErrorKind::MissingTitle, 11, "".to_string()));
}

#[test]
fn non_ascii_right_after_colon_is_missing_title() {
    assert_eq!(err_of("fix (ABC-1): é").0, ErrorKind::MissingTitle);
}

#[test]
fn unrecognized_kinds() {
    assert_eq!(err_of("").0, ErrorKind::UnrecognizedKind);
    assert_eq!(err_of("fe (A-1): t").0, ErrorKind::UnrecognizedKind);
    assert_eq!(err_of(" fix (A-1): t").0, ErrorKind::UnrecognizedKind);
}

#[test]
fn trailing_non_ascii_is_trailing_input() {
    assert_eq!(
        err_of("fix (ABC-1): title  é more"),
        (ErrorKind::TrailingInput, 20, "é more".to_string())
    );
}

#[test]
fn offsets_count_characters() {
    assert_eq!(err_of("fix (ABC-1): añ").1, 14);
}

#[test]
fn matchers_advance_the_input() {
    let mut input: &str = "Feat  ( X-1 ) : hello  ";
    assert_eq!(parse_kind(&mut input), Ok(Kind::Feature));
    assert_eq!(input, "  ( X-1 ) : hello  ");
    assert_eq!(parse_jira_id(&mut input), Ok("X-1"));
    assert_eq!(input, " : hello  ");
    assert_eq!(parse_title(&mut input), Ok("hello"));
    assert_eq!(input, "");
}

#[test]
fn matchers_leave_input_on_failure() {
    let mut input: &str = "chore";
    assert_eq!(parse_kind(&mut input), Err(ErrorKind::UnrecognizedKind));
    assert_eq!(input, "chore");
    let mut input: &str = " (  ) : x";
    assert_eq!(parse_jira_id(&mut input), Err(ErrorKind::MissingIdentifier));
    assert_eq!(input, " (  ) : x");
    let mut input: &str = "  :   ";
    assert_eq!(parse_title(&mut input), Err(ErrorKind::MissingTitle));
    assert_eq!(input, "  :   ");
}
