use mr_title::parse_merge_request;
use mr_title::report::to_decimal;
use mr_title::ErrorKind;

#[test]
fn labels_and_expectations() {
    assert_eq!(ErrorKind::UnrecognizedKind.label(), Some("kind"));
    assert_eq!(ErrorKind::MissingIdentifier.label(), Some("jira id"));
    assert_eq!(ErrorKind::MissingTitle.label(), Some("title"));
    assert_eq!(ErrorKind::TrailingInput.label(), None);
    assert_eq!(ErrorKind::UnrecognizedKind.expected(), "fix or feat");
    assert_eq!(ErrorKind::MissingIdentifier.expected(), "a valid jira id");
    assert_eq!(ErrorKind::MissingTitle.expected(), "any valid title");
    assert_eq!(ErrorKind::TrailingInput.expected(), "end of input");
}

#[test]
fn messages() {
    let e = parse_merge_request("fix (ABC-1):").unwrap_err();
    assert_eq!(e.message(), "11: invalid title, expected any valid title");
    let e = parse_merge_request("chore(ABC-1): test").unwrap_err();
    assert_eq!(e.message(), "0: invalid kind, expected fix or feat");
    let e = parse_merge_request("fix (ABC-1): title  é").unwrap_err();
    assert_eq!(e.message(), "20: expected end of input");
}

#[test]
fn decimals() {
    assert_eq!(to_decimal(0), "0");
    assert_eq!(to_decimal(7), "7");
    assert_eq!(to_decimal(10), "10");
    assert_eq!(to_decimal(1234567890), "1234567890");
    assert_eq!(to_decimal(u64::MAX), u64::MAX.to_string());
}
