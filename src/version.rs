use vstd::prelude::*;
use std::cmp::Ordering;

verus! {

/// A release version as the version check reads it: three numbers and a pre-release
/// tag (empty for a release).
pub struct Version {
    pub major: u64,
    pub minor: u64,
    pub patch: u64,
    pub pre: String,
}

/// The mathematical view of a version.
pub struct VersionView {
    pub major: u64,
    pub minor: u64,
    pub patch: u64,
    pub pre: Seq<char>,
}

impl View for Version {
    type V = VersionView;

    open spec fn view(&self) -> VersionView {
        VersionView { major: self.major, minor: self.minor, patch: self.patch, pre: self.pre@ }
    }
}

/// Why no minimum version could be derived from a published one.
#[derive(Debug, PartialEq, Eq, Structural)]
pub enum VersionError {
    /// The text is not a semantic version.
    Invalid,
    /// The minor number is already 0, so there is no earlier minor release.
    NoEarlierMinor,
}

/// What `semver::Version::parse` makes of a text: its major, minor and patch
/// numbers and its pre-release tag, or nothing where the text is no version.
pub uninterp spec fn semver_parse(text: Seq<char>) -> Option<VersionView>;

/// How `semver` orders two pre-release tags, or nothing where either is no
/// valid tag.
pub uninterp spec fn prerelease_order(a: Seq<char>, b: Seq<char>) -> Option<Ordering>;

/// Relies on `semver::Version::parse`: keeps the numbers and the pre-release
/// tag of the parsed version; build metadata plays no part in precedence.
#[verifier::external_body]
fn parse_semver(text: &str) -> (r: Option<Version>)
    ensures
        match r {
            Some(v) => semver_parse(text@) == Some(v@),
            None => semver_parse(text@) is None,
        },
{
    semver::Version::parse(text).ok().map(
        |v| Version { major: v.major, minor: v.minor, patch: v.patch, pre: v.pre.as_str().to_string() },
    )
}

/// Relies on `semver::Prerelease::new` and the `Ord` of `semver::Prerelease`:
/// an empty tag (a release) ranks above any pre-release, and a tag ranks
/// equal to itself.
#[verifier::external_body]
fn compare_prerelease(a: &str, b: &str) -> (r: Option<Ordering>)
    ensures
        r == prerelease_order(a@, b@),
        a@.len() == 0 && b@.len() == 0 ==> r == Some(Ordering::Equal),
        a@.len() == 0 && b@.len() > 0 ==> r is None || r == Some(Ordering::Greater),
        a@.len() > 0 && b@.len() == 0 ==> r is None || r == Some(Ordering::Less),
        a@ == b@ ==> r is None || r == Some(Ordering::Equal),
{
    match (semver::Prerelease::new(a), semver::Prerelease::new(b)) {
        (Ok(x), Ok(y)) => Some(x.cmp(&y)),
        _ => None,
    }
}

pub open spec fn order_of(a: u64, b: u64) -> Ordering {
    if a < b {
        Ordering::Less
    } else if a == b {
        Ordering::Equal
    } else {
        Ordering::Greater
    }
}

/// How the numbers alone order two versions: major, then minor, then patch.
pub open spec fn numeric_order(a: VersionView, b: VersionView) -> Ordering {
    if a.major != b.major {
        order_of(a.major, b.major)
    } else if a.minor != b.minor {
        order_of(a.minor, b.minor)
    } else {
        order_of(a.patch, b.patch)
    }
}

/// Semantic-version precedence: the numbers decide where they differ, the
/// pre-release tags otherwise.
pub open spec fn precedence(a: VersionView, b: VersionView) -> Option<Ordering> {
    if numeric_order(a, b) != Ordering::Equal {
        Some(numeric_order(a, b))
    } else {
        prerelease_order(a.pre, b.pre)
    }
}

/// A server version is accepted when it ranks at least as high as the
/// minimum; a comparison that cannot be made rejects.
pub open spec fn version_accepted(v: VersionView, min: VersionView) -> bool {
    match precedence(v, min) {
        Some(Ordering::Less) => false,
        Some(_) => true,
        None => false,
    }
}

/// The minimum accepted version for a published one: one minor release
/// earlier, with the same major, patch and tag.
pub open spec fn minimum_of(published: VersionView) -> Option<VersionView> {
    if published.minor == 0 {
        None
    } else {
        Some(VersionView { minor: (published.minor - 1) as u64, ..published })
    }
}

/// What `min_lemmy_version` derives from the published version text.
pub open spec fn min_version_from_text(text: Seq<char>) -> Result<VersionView, VersionError> {
    match semver_parse(text) {
        None => Err(VersionError::Invalid),
        Some(v) => match minimum_of(v) {
            None => Err(VersionError::NoEarlierMinor),
            Some(m) => Ok(m),
        },
    }
}

fn compare_numbers(a: u64, b: u64) -> (r: Ordering)
    ensures
        r == order_of(a, b),
{
    if a < b {
        Ordering::Less
    } else if a == b {
        Ordering::Equal
    } else {
        Ordering::Greater
    }
}

impl Version {
    /// Parses a version text such as `0.19.3` or `0.19.4-beta.1`.
    pub fn parse(text: &str) -> (r: Option<Version>)
        ensures
            match r {
                Some(v) => semver_parse(text@) == Some(v@),
                None => semver_parse(text@) is None,
            },
    {
        parse_semver(text)
    }

    /// Precedence of `self` against `other`.
    pub fn compare(&self, other: &Version) -> (r: Option<Ordering>)
        ensures
            r == precedence(self@, other@),
            self.pre@.len() == 0 && other.pre@.len() == 0 ==> r == Some(
                numeric_order(self@, other@),
            ),
    {
        let o = if self.major != other.major {
            compare_numbers(self.major, other.major)
        } else if self.minor != other.minor {
            compare_numbers(self.minor, other.minor)
        } else {
            compare_numbers(self.patch, other.patch)
        };
        match o {
            Ordering::Equal => compare_prerelease(self.pre.as_str(), other.pre.as_str()),
            _ => Some(o),
        }
    }
}

/// Whether a server reporting `version` is accepted against the minimum `min`.
pub fn accepts(version: &Version, min: &Version) -> (r: bool)
    ensures
        r == version_accepted(version@, min@),
        version.pre@.len() == 0 && min.pre@.len() == 0 ==> (r <==> numeric_order(version@, min@)
            != Ordering::Less),
{
    match version.compare(min) {
        Some(Ordering::Less) => false,
        Some(_) => true,
        None => false,
    }
}

/// The minimum accepted version for a published one: one minor release
/// earlier, so that servers still on the previous release line pass.
pub fn minimum_version(published: Version) -> (r: Option<Version>)
    ensures
        match r {
            Some(m) => minimum_of(published@) == Some(m@),
            None => minimum_of(published@) is None,
        },
{
    if published.minor == 0 {
        None
    } else {
        Some(Version { minor: published.minor - 1, ..published })
    }
}

/// Derives the minimum accepted version from the published version text:
/// `0.16.3` gives `0.15.3`.
pub fn min_lemmy_version(published: &str) -> (r: Result<Version, VersionError>)
    ensures
        match r {
            Ok(v) => min_version_from_text(published@) == Ok::<_, VersionError>(v@),
            Err(e) => min_version_from_text(published@) == Err::<VersionView, _>(e),
        },
{
    match Version::parse(published) {
        None => Err(VersionError::Invalid),
        Some(v) => match minimum_version(v) {
            None => Err(VersionError::NoEarlierMinor),
            Some(m) => Ok(m),
        },
    }
}

} // verus!
