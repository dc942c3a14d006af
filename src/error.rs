use vstd::prelude::*;

verus! {

/// Every way in which resolving configuration, planning a release or
/// applying replacements can fail.
#[derive(Debug, Clone)]
pub enum FatalError {
    /// A file named by a replacement rule does not exist.
    FileNotFound(String),
    /// The same layer sets both a flag and its negative spelling.
    ConflictingFlags(String),
    /// A version is not valid semantic-versioning text.
    InvalidVersion(String),
    /// A version number would overflow while bumping.
    VersionOverflow(String),
    /// A version requirement cannot be parsed.
    InvalidVersionReq(String),
    /// A version requirement uses an operator that cannot be rewritten.
    UnsupportedVersionReq(String),
    /// A replacement search pattern does not compile.
    InvalidPattern(String),
    /// A rule matched fewer times than its lower bound.
    ReplacerMinError { pattern: String, req: usize, actual: usize },
    /// A rule matched more times than its upper bound.
    ReplacerMaxError { pattern: String, req: usize, actual: usize },
    /// A dependent's requirement no longer matches and its policy is `Error`.
    DependencyVersionConflict { dependent: String, dependency: String },
    /// A manifest is not valid TOML or has no `[package]` table.
    InvalidManifest(String),
    /// A registry answer could not be used for a crate.
    Registry(String),
}

} // verus!
