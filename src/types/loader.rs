//! The mod loader that a pack runs on, with its version.

use semver::Version;
use vstd::prelude::*;
use vstd::string::StringExecFns;

verus! {

#[verifier::external_type_specification]
#[verifier::external_body]
pub struct ExVersion(Version);

#[verifier::external_type_specification]
#[verifier::external_body]
pub struct ExSemverError(semver::Error);

/// Relies on the `Clone` impl of `semver::Version`; nothing is assumed of the
/// copy.
pub assume_specification[ <Version as Clone>::clone ](v: &Version) -> Version;

/// Relies on `semver::Version::parse`, which reads `major.minor.patch` with
/// optional pre-release and build metadata. Nothing is assumed of its result.
#[verifier::external_body]
fn parse_semver(text: &str) -> (r: Result<Version, semver::Error>) {
    Version::parse(text)
}

/// Relies on `Display for semver::Version`, which renders the version as
/// text. Nothing is assumed of that text.
#[verifier::external_body]
fn semver_text(v: &Version) -> (r: String) {
    v.to_string()
}

/// Relies on `semver::Version::new`, which builds a version with no
/// pre-release and no build metadata.
#[verifier::external_body]
pub(crate) fn semver_new(major: u64, minor: u64, patch: u64) -> (r: Version) {
    Version::new(major, minor, patch)
}

/// A loader together with its version.
///
/// Loaders order by kind first (Quilt, then Fabric, then Forge), then by
/// version.
#[derive(PartialEq, Eq, PartialOrd, Ord, Debug, Clone, Hash)]
pub enum Loader {
    /// A version of the Quilt loader
    Quilt(Version),
    /// A version of the Fabric loader
    Fabric(Version),
    /// A version of the Forge loader
    Forge(Version),
}

/// The display name of each kind of loader.
pub open spec fn loader_name(l: Loader) -> Seq<char> {
    match l {
        Loader::Quilt(_) => seq!['Q', 'u', 'i', 'l', 't'],
        Loader::Fabric(_) => seq!['F', 'a', 'b', 'r', 'i', 'c'],
        Loader::Forge(_) => seq!['F', 'o', 'r', 'g', 'e'],
    }
}

/// The version that a loader carries.
pub open spec fn loader_version(l: Loader) -> Version {
    match l {
        Loader::Quilt(v) => v,
        Loader::Fabric(v) => v,
        Loader::Forge(v) => v,
    }
}

impl Loader {
    /// A Quilt loader of the given version.
    pub fn new_quilt(version: Version) -> (r: Loader)
        ensures
            r == Loader::Quilt(version),
    {
        Loader::Quilt(version)
    }

    /// A Fabric loader of the given version.
    pub fn new_fabric(version: Version) -> (r: Loader)
        ensures
            r == Loader::Fabric(version),
    {
        Loader::Fabric(version)
    }

    /// A Forge loader of the given version.
    pub fn new_forge(version: Version) -> (r: Loader)
        ensures
            r == Loader::Forge(version),
    {
        Loader::Forge(version)
    }

    /// The name of this loader: `Quilt`, `Fabric` or `Forge`.
    pub fn name(&self) -> (r: &'static str)
        ensures
            r@ == loader_name(*self),
    {
        proof {
            reveal_strlit("Quilt");
            reveal_strlit("Fabric");
            reveal_strlit("Forge");
        }
        match self {
            Loader::Quilt(_) => "Quilt",
            Loader::Fabric(_) => "Fabric",
            Loader::Forge(_) => "Forge",
        }
    }

    /// The version of this loader.
    pub fn version(&self) -> (r: &Version)
        ensures
            *r == loader_version(*self),
    {
        match self {
            Loader::Quilt(version) => version,
            Loader::Fabric(version) => version,
            Loader::Forge(version) => version,
        }
    }
}

impl Loader {
    /// `<name>: <version>`, the version as semver renders it.
    pub fn to_string(&self) -> (r: String)
        ensures
            exists|t: Seq<char>| r@ == loader_name(*self) + seq![':', ' '] + t,
    {
        proof {
            reveal_strlit(": ");
        }
        let mut out = String::from_str(self.name());
        out.append(": ");
        let text = semver_text(self.version());
        out.append(text.as_str());
        assert(out@ == loader_name(*self) + seq![':', ' '] + text@);
        out
    }
}

impl Default for Loader {
    /// Quilt `0.17.1-beta.3`. Should the version parser refuse that text, the
    /// release `0.17.1` stands in for it.
    fn default() -> (r: Loader)
        ensures
            r is Quilt,
    {
        match parse_semver("0.17.1-beta.3") {
            Ok(v) => Loader::Quilt(v),
            Err(_) => Loader::Quilt(semver_new(0, 17, 1)),
        }
    }
}

} // verus!
