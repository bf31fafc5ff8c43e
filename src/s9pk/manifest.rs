//! The package manifest, as far as installation reads it.

use vstd::prelude::*;
use vstd::string::StringExecFns;

pub use super::id::PackageId;
use crate::error::Error;
use crate::text::{decimal, push_decimal};

verus! {

/// What the version parser of `emver` gives for a text: major, minor, patch
/// and revision, or nothing where the text is no version.
pub uninterp spec fn emver_parse(s: Seq<char>) -> Option<(usize, usize, usize, usize)>;

/// Relies on `emver::Version`'s `FromStr` and its four accessors: the parsed
/// version's numbers, or `None` where `from_str` fails.
#[verifier::external_body]
fn parse_emver(s: &str) -> (r: Option<(usize, usize, usize, usize)>)
    ensures
        r == emver_parse(s@),
{
    s.parse::<emver::Version>().ok().map(|v| (v.major(), v.minor(), v.patch(), v.revision()))
}

/// A version: major, minor, patch and a revision that distributors raise.
#[derive(Clone, Copy, Debug, PartialEq, Eq, Structural)]
pub struct Version {
    pub major: usize,
    pub minor: usize,
    pub patch: usize,
    pub revision: usize,
}

/// The text of a version: three numbers, and the revision only where it is
/// not zero.
pub open spec fn version_text(v: Version) -> Seq<char> {
    let base = decimal(v.major as nat) + seq!['.'] + decimal(v.minor as nat) + seq!['.'] + decimal(
        v.patch as nat,
    );
    if v.revision == 0 {
        base
    } else {
        base + seq!['.'] + decimal(v.revision as nat)
    }
}

impl Version {
    pub fn new(major: usize, minor: usize, patch: usize, revision: usize) -> (r: Version)
        ensures
            r == (Version { major, minor, patch, revision }),
    {
        Version { major, minor, patch, revision }
    }

    /// Parses a version text.
    pub fn parse(s: &str) -> (r: Result<Version, Error>)
        ensures
            r is Ok <==> emver_parse(s@) is Some,
            r matches Ok(v) ==> emver_parse(s@) == Some((v.major, v.minor, v.patch, v.revision)),
            r matches Err(e) ==> e == Error::InvalidVersion,
    {
        match parse_emver(s) {
            Some((major, minor, patch, revision)) => Ok(Version { major, minor, patch, revision }),
            None => Err(Error::InvalidVersion),
        }
    }

    /// The text of the version.
    pub fn as_string(&self) -> (r: String)
        ensures
            r@ == version_text(*self),
    {
        proof {
            reveal_strlit(".");
        }
        let mut s = String::new();
        push_decimal(&mut s, self.major as u64);
        s.append(".");
        push_decimal(&mut s, self.minor as u64);
        s.append(".");
        push_decimal(&mut s, self.patch as u64);
        if self.revision != 0 {
            s.append(".");
            push_decimal(&mut s, self.revision as u64);
        }
        assert(s@ =~= version_text(*self));
        s
    }
}

/// A copy of an optional string.
pub fn clone_opt(s: &Option<String>) -> (r: Option<String>)
    ensures
        r == *s,
{
    match s {
        Some(t) => Some(t.clone()),
        None => None,
    }
}

/// A dependency as the manifest declares it.
#[derive(Debug)]
pub struct DepInfo {
    /// The version range that the dependency must satisfy, as text.
    pub version: String,
    /// Why the dependency is optional; `None` where it is required.
    pub optional: Option<String>,
}

impl Clone for DepInfo {
    fn clone(&self) -> (r: Self)
        ensures
            r == *self,
    {
        DepInfo { version: self.version.clone(), optional: clone_opt(&self.optional) }
    }
}

/// The dependencies of a package, one entry per package identifier.
#[derive(Debug)]
pub struct Dependencies(pub Vec<(PackageId, DepInfo)>);

impl Clone for Dependencies {
    fn clone(&self) -> (r: Self)
        ensures
            r.0@ == self.0@,
    {
        let mut out: Vec<(PackageId, DepInfo)> = Vec::new();
        let mut i: usize = 0;
        while i < self.0.len()
            invariant
                i <= self.0@.len(),
                out@ == self.0@.subrange(0, i as int),
            decreases self.0@.len() - i,
        {
            let (id, info) = &self.0[i];
            out.push((id.clone(), info.clone()));
            i = i + 1;
            assert(out@ =~= self.0@.subrange(0, i as int));
        }
        assert(out@ =~= self.0@);
        Dependencies(out)
    }
}

/// Messages shown to the user around lifecycle events.
#[derive(Debug, Default)]
pub struct Alerts {
    pub install: Option<String>,
    pub uninstall: Option<String>,
    pub restore: Option<String>,
    pub start: Option<String>,
}

impl Clone for Alerts {
    fn clone(&self) -> (r: Self)
        ensures
            r == *self,
    {
        Alerts {
            install: clone_opt(&self.install),
            uninstall: clone_opt(&self.uninstall),
            restore: clone_opt(&self.restore),
            start: clone_opt(&self.start),
        }
    }
}

/// Network interfaces that a package declares; no kind is defined yet.
#[derive(Clone, Copy, Debug, PartialEq, Eq, Structural)]
pub enum Interfaces {
    Unspecified,
}

/// How a package is backed up; no strategy is defined yet.
#[derive(Clone, Copy, Debug, PartialEq, Eq, Structural)]
pub enum BackupStrategy {
    Unspecified,
}

/// How a volume is configured; no configuration is defined yet.
#[derive(Clone, Copy, Debug, PartialEq, Eq, Structural)]
pub enum VolumeConfig {
    Unspecified,
}

/// Actions that a package offers; no kind is defined yet.
#[derive(Clone, Copy, Debug, PartialEq, Eq, Structural)]
pub enum Actions {
    Unspecified,
}

/// Permissions that a package asks for; no kind is defined yet.
#[derive(Clone, Copy, Debug, PartialEq, Eq, Structural)]
pub enum Permissions {
    Unspecified,
}

/// One package's description.
#[derive(Debug)]
pub struct Manifest {
    pub id: PackageId,
    pub title: String,
    pub version: Version,
    pub release_notes: String,
    /// The kind of license.
    pub license: String,
    pub wrapper_repo: String,
    pub upstream_repo: String,
    pub support_page: Option<String>,
    pub marketing_page: Option<String>,
    pub alerts: Alerts,
    pub min_os_version: Version,
    pub dependencies: Dependencies,
    /// The package declares a configuration schema.
    pub has_config: bool,
    /// The archive carries an instructions section.
    pub has_instructions: bool,
    /// The file extension of the icon, such as `png`.
    pub icon_type: String,
}

/// The two manifests hold the same values.
pub open spec fn same_manifest(a: Manifest, b: Manifest) -> bool {
    &&& a.id == b.id
    &&& a.title == b.title
    &&& a.version == b.version
    &&& a.release_notes == b.release_notes
    &&& a.license == b.license
    &&& a.wrapper_repo == b.wrapper_repo
    &&& a.upstream_repo == b.upstream_repo
    &&& a.support_page == b.support_page
    &&& a.marketing_page == b.marketing_page
    &&& a.alerts == b.alerts
    &&& a.min_os_version == b.min_os_version
    &&& a.dependencies.0@ == b.dependencies.0@
    &&& a.has_config == b.has_config
    &&& a.has_instructions == b.has_instructions
    &&& a.icon_type == b.icon_type
}

impl Clone for Manifest {
    fn clone(&self) -> (r: Self)
        ensures
            same_manifest(r, *self),
    {
        Manifest {
            id: self.id.clone(),
            title: self.title.clone(),
            version: self.version,
            release_notes: self.release_notes.clone(),
            license: self.license.clone(),
            wrapper_repo: self.wrapper_repo.clone(),
            upstream_repo: self.upstream_repo.clone(),
            support_page: clone_opt(&self.support_page),
            marketing_page: clone_opt(&self.marketing_page),
            alerts: self.alerts.clone(),
            min_os_version: self.min_os_version,
            dependencies: self.dependencies.clone(),
            has_config: self.has_config,
            has_instructions: self.has_instructions,
            icon_type: self.icon_type.clone(),
        }
    }
}

} // verus!
