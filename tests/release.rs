use mr_title::release::{
    emergency_patch, newest, next_patch, parse_branch_version, release_branch, ReleaseError, ReleaseVersion,
};

fn v(major: u64, minor: u64, patch: u64) -> ReleaseVersion {
    ReleaseVersion { major, minor, patch }
}

fn names(list: &[&str]) -> Vec<String> {
    list.iter().map(|s| s.to_string()).collect()
}

#[test]
fn branch_versions_are_read_after_the_last_slash() {
    assert_eq!(parse_branch_version("release/1.2.3"), Some(v(1, 2, 3)));
    assert_eq!(parse_branch_version("1.20.300"), Some(v(1, 20, 300)));
    assert_eq!(parse_branch_version("a/b/release/0.0.7"), Some(v(0, 0, 7)));
    assert_eq!(parse_branch_version("release/1.2"), None);
    assert_eq!(parse_branch_version("release/01.2.3"), None);
    assert_eq!(parse_branch_version("release/"), None);
}

#[test]
fn newest_compares_major_then_minor_then_patch() {
    assert_eq!(newest(&vec![]), None);
    assert_eq!(newest(&vec![v(1, 2, 3)]), Some(0));
    assert_eq!(newest(&vec![v(1, 9, 9), v(2, 0, 0), v(1, 10, 0)]), Some(1));
    assert_eq!(newest(&vec![v(1, 2, 3), v(1, 2, 10), v(1, 2, 9)]), Some(1));
    assert_eq!(newest(&vec![v(3, 1, 0), v(3, 1, 0)]), Some(0));
}

#[test]
fn next_patch_raises_only_the_patch() {
    assert_eq!(next_patch(v(1, 2, 3)), Some(v(1, 2, 4)));
    assert_eq!(next_patch(v(1, 2, u64::MAX)), None);
}

#[test]
fn release_branch_names() {
    assert_eq!(release_branch(v(1, 2, 3)), "release/1.2.3");
    assert_eq!(release_branch(v(10, 0, 42)), "release/10.0.42");
}

#[test]
fn emergency_patch_from_branch_names() {
    assert_eq!(
        emergency_patch(&names(&["release/1.2.3", "release/1.10.0", "release/1.9.7"])),
        Ok(("release/1.10.0".to_string(), "release/1.10.1".to_string()))
    );
    assert_eq!(emergency_patch(&names(&[])), Err(ReleaseError::NoReleases));
    assert_eq!(
        emergency_patch(&names(&["release/1.2.3", "release/x.y.z"])),
        Err(ReleaseError::NotAVersion(1))
    );
    let top = format!("release/1.0.{}", u64::MAX);
    assert_eq!(emergency_patch(&vec![top, "release/0.9.9".to_string()]), Err(ReleaseError::PatchOverflow));
}
