//! Choosing the release branch that an emergency patch starts from, and
//! naming the branch of the patch.

use vstd::prelude::*;
use vstd::string::{StrSliceExecFns, StringExecFns};
use crate::report::{decimal, to_decimal};

verus! {

/// A release number `major.minor.patch`.
#[derive(Clone, Copy, Debug, PartialEq, Eq, Structural)]
pub struct ReleaseVersion {
    pub major: u64,
    pub minor: u64,
    pub patch: u64,
}

/// `a` comes no later than `b`: the numbers compared major first, then
/// minor, then patch.
pub open spec fn version_le(a: ReleaseVersion, b: ReleaseVersion) -> bool {
    a.major < b.major || (a.major == b.major && (a.minor < b.minor || (a.minor == b.minor && a.patch
        <= b.patch)))
}

/// The numbers of the version that `text` spells, as semver reads it; none
/// where semver rejects `text`.
pub uninterp spec fn semver_numbers(text: Seq<char>) -> Option<(u64, u64, u64)>;

/// Relies on semver::Version::parse for what a version string means; keeps
/// its major, minor and patch numbers.
#[verifier::external_body]
fn parse_semver(text: &str) -> (r: Option<(u64, u64, u64)>)
    ensures
        r == semver_numbers(text@),
{
    semver::Version::parse(text).ok().map(|v| (v.major, v.minor, v.patch))
}

/// Where the last `/`-separated part of `s[..i]` starts.
pub open spec fn last_part_start(s: Seq<char>, i: int) -> int
    decreases i,
{
    if i <= 0 {
        0
    } else if s[i - 1] == '/' {
        i
    } else {
        last_part_start(s, i - 1)
    }
}

/// The part of a branch name after its last `/` (all of it if it has none).
pub open spec fn last_part(s: Seq<char>) -> Seq<char> {
    s.skip(last_part_start(s, s.len() as int))
}

/// The version that a release branch name ends in.
pub open spec fn branch_version(name: Seq<char>) -> Option<ReleaseVersion> {
    match semver_numbers(last_part(name)) {
        Some((major, minor, patch)) => Some(ReleaseVersion { major, minor, patch }),
        None => None,
    }
}

proof fn lemma_last_part_start_bounds(s: Seq<char>, i: int)
    requires
        0 <= i <= s.len(),
    ensures
        0 <= last_part_start(s, i) <= i,
    decreases i,
{
    if i > 0 && s[i - 1] != '/' {
        lemma_last_part_start_bounds(s, i - 1);
    }
}

/// The part of `name` after its last `/`.
pub fn name_last_part(name: &str) -> (r: &str)
    ensures
        r@ == last_part(name@),
{
    let n = name.unicode_len();
    let chars = crate::text::chars_of(name);
    let mut i: usize = n;
    while i > 0 && chars[i - 1] != '/'
        invariant
            i <= n,
            n == name@.len(),
            chars@ == name@,
            last_part_start(name@, i as int) == last_part_start(name@, n as int),
        decreases i,
    {
        i = i - 1;
    }
    name.substring_char(i, n)
}

/// The version that a release branch name ends in, as semver reads it.
pub fn parse_branch_version(name: &str) -> (r: Option<ReleaseVersion>)
    ensures
        r == branch_version(name@),
{
    match parse_semver(name_last_part(name)) {
        Some((major, minor, patch)) => Some(ReleaseVersion { major, minor, patch }),
        None => None,
    }
}

/// The position of the newest of `versions`; none if there are none. Of equal
/// versions the first is taken.
pub fn newest(versions: &Vec<ReleaseVersion>) -> (r: Option<usize>)
    ensures
        r is None <==> versions@.len() == 0,
        r is Some ==> r->Some_0 < versions@.len(),
        r is Some ==> forall|k: int| 0 <= k < versions@.len() ==> version_le(#[trigger] versions@[k], versions@[r->Some_0 as int]),
        r is Some ==> forall|k: int| 0 <= k < r->Some_0 ==> !version_le(versions@[r->Some_0 as int], #[trigger] versions@[k]),
{
    if versions.len() == 0 {
        return None;
    }
    let mut best: usize = 0;
    let mut i: usize = 1;
    while i < versions.len()
        invariant
            1 <= i <= versions@.len(),
            best < i,
            forall|k: int| 0 <= k < i ==> version_le(#[trigger] versions@[k], versions@[best as int]),
            forall|k: int| 0 <= k < best ==> !version_le(versions@[best as int], #[trigger] versions@[k]),
        decreases versions@.len() - i,
    {
        let v = versions[i];
        let b = versions[best];
        if v.major > b.major || (v.major == b.major && (v.minor > b.minor || (v.minor == b.minor
            && v.patch > b.patch))) {
            best = i;
        }
        i = i + 1;
    }
    Some(best)
}

/// Reads the version of each release branch name. Fails with the position of
/// the first name that does not end in a version.
pub fn branch_versions(names: &Vec<String>) -> (r: Result<Vec<ReleaseVersion>, usize>)
    ensures
        match r {
            Ok(vs) => vs@.len() == names@.len() && forall|k: int| 0 <= k < names@.len() ==> branch_version(#[trigger] names@[k]@) == Some(vs@[k]),
            Err(i) => i < names@.len() && branch_version(names@[i as int]@) is None
                && forall|k: int| 0 <= k < i ==> branch_version(#[trigger] names@[k]@) is Some,
        },
{
    let mut vs: Vec<ReleaseVersion> = Vec::new();
    let mut i: usize = 0;
    while i < names.len()
        invariant
            i <= names@.len(),
            vs@.len() == i,
            forall|k: int| 0 <= k < i ==> branch_version(#[trigger] names@[k]@) == Some(vs@[k]),
        decreases names@.len() - i,
    {
        match parse_branch_version(names[i].as_str()) {
            Some(v) => vs.push(v),
            None => return Err(i),
        }
        i = i + 1;
    }
    Ok(vs)
}

/// The release after `v` that only raises the patch number; none where the
/// patch number cannot grow.
pub fn next_patch(v: ReleaseVersion) -> (r: Option<ReleaseVersion>)
    ensures
        r is None <==> v.patch == u64::MAX,
        r is Some ==> r->Some_0 == (ReleaseVersion { major: v.major, minor: v.minor, patch: (v.patch + 1) as u64 }),
{
    if v.patch == u64::MAX {
        None
    } else {
        Some(ReleaseVersion { major: v.major, minor: v.minor, patch: v.patch + 1 })
    }
}

/// `release/<major>.<minor>.<patch>`.
pub open spec fn branch_name(v: ReleaseVersion) -> Seq<char> {
    "release/"@ + decimal(v.major as nat) + seq!['.'] + decimal(v.minor as nat) + seq!['.'] + decimal(
        v.patch as nat,
    )
}

/// The name of the release branch of `v`.
pub fn release_branch(v: ReleaseVersion) -> (r: String)
    ensures
        r@ == branch_name(v),
{
    proof {
        reveal_strlit(".");
    }
    let mut r = "release/".to_owned();
    r.append(to_decimal(v.major).as_str());
    r.append(".");
    r.append(to_decimal(v.minor).as_str());
    r.append(".");
    r.append(to_decimal(v.patch).as_str());
    assert(r@ =~= branch_name(v));
    r
}

/// Why no emergency patch branch can be named.
#[derive(Clone, Copy, Debug, PartialEq, Eq, Structural)]
pub enum ReleaseError {
    /// The branch name at this position does not end in a version.
    NotAVersion(usize),
    /// There is no release branch.
    NoReleases,
    /// The patch number of the newest release cannot grow.
    PatchOverflow,
}

/// `v` is the version of one of `names`, and no version among them is newer.
pub open spec fn is_newest(names: Seq<String>, v: ReleaseVersion) -> bool {
    &&& exists|k: int| 0 <= k < names.len() && branch_version(#[trigger] names[k]@) == Some(v)
    &&& forall|k: int| 0 <= k < names.len() ==> version_le((#[trigger] branch_version(names[k]@))->Some_0, v)
}

/// From the names of the release branches, the name of the newest release
/// and the name of the release one patch after it.
pub fn emergency_patch(names: &Vec<String>) -> (r: Result<(String, String), ReleaseError>)
    ensures
        match r {
            Ok((latest, patch)) => exists|v: ReleaseVersion| #[trigger] is_newest(names@, v)
                && v.patch < u64::MAX && latest@ == branch_name(v)
                && patch@ == branch_name(ReleaseVersion { major: v.major, minor: v.minor, patch: (v.patch + 1) as u64 }),
            Err(ReleaseError::NotAVersion(i)) => i < names@.len() && branch_version(names@[i as int]@) is None
                && forall|k: int| 0 <= k < i ==> branch_version(#[trigger] names@[k]@) is Some,
            Err(ReleaseError::NoReleases) => names@.len() == 0,
            Err(ReleaseError::PatchOverflow) => exists|v: ReleaseVersion| #[trigger] is_newest(names@, v)
                && v.patch == u64::MAX,
        },
        (forall|k: int| 0 <= k < names@.len() ==> (#[trigger] branch_version(names@[k]@)) is Some)
            ==> !(r matches Err(ReleaseError::NotAVersion(_))),
{
    let versions = match branch_versions(names) {
        Ok(vs) => vs,
        Err(i) => return Err(ReleaseError::NotAVersion(i)),
    };
    let best = match newest(&versions) {
        Some(b) => b,
        None => return Err(ReleaseError::NoReleases),
    };
    let latest = versions[best];
    proof {
        assert(branch_version(names@[best as int]@) == Some(latest));
        assert(is_newest(names@, latest));
    }
    match next_patch(latest) {
        Some(next) => Ok((release_branch(latest), release_branch(next))),
        None => Err(ReleaseError::PatchOverflow),
    }
}

} // verus!
