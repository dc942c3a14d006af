use vstd::prelude::*;

use crate::error::FatalError;
use crate::text::{append_decimal, decimal};

verus! {

#[verifier::external_type_specification]
#[verifier::external_body]
pub struct ExSemverError(semver::Error);

/// The numbers, pre-release and build text that semantic-versioning
/// parsing finds in `text`, or `None` where `text` is not a version.
pub uninterp spec fn semver_parts(text: Seq<char>) -> Option<(u64, u64, u64, Seq<char>, Seq<char>)>;

/// A package version: three numbers, a pre-release text (empty for a
/// release) and a build-metadata text (usually empty).
#[derive(Debug, Clone)]
pub struct Version {
    pub major: u64,
    pub minor: u64,
    pub patch: u64,
    pub pre: String,
    pub build: String,
}

pub ghost struct VersionView {
    pub major: u64,
    pub minor: u64,
    pub patch: u64,
    pub pre: Seq<char>,
    pub build: Seq<char>,
}

impl View for Version {
    type V = VersionView;

    open spec fn view(&self) -> VersionView {
        VersionView {
            major: self.major,
            minor: self.minor,
            patch: self.patch,
            pre: self.pre@,
            build: self.build@,
        }
    }
}

/// How far to move a version.
#[derive(Debug, Clone, Copy, PartialEq, Eq, Structural)]
pub enum BumpLevel {
    Major,
    Minor,
    Patch,
    /// Drops the pre-release text and nothing else.
    Release,
}

pub open spec fn opt_version(o: Option<Version>) -> Option<VersionView> {
    match o {
        Some(v) => Some(v@),
        None => None,
    }
}

impl VersionView {
    pub open spec fn is_prerelease(self) -> bool {
        self.pre.len() > 0
    }

    /// `major.minor.patch`, then `-pre` for a pre-release.
    pub open spec fn bare_text(self) -> Seq<char> {
        decimal(self.major as nat) + seq!['.'] + decimal(self.minor as nat) + seq!['.'] + decimal(
            self.patch as nat,
        ) + if self.pre.len() > 0 {
            seq!['-'] + self.pre
        } else {
            Seq::empty()
        }
    }

    /// The bare text, then `+build` when there is build metadata.
    pub open spec fn full_text(self) -> Seq<char> {
        self.bare_text() + if self.build.len() > 0 {
            seq!['+'] + self.build
        } else {
            Seq::empty()
        }
    }

    /// Whether moving by `level` would take a number past its largest value.
    pub open spec fn bump_overflows(self, level: BumpLevel) -> bool {
        match level {
            BumpLevel::Major => self.major == u64::MAX,
            BumpLevel::Minor => self.minor == u64::MAX,
            BumpLevel::Patch => !self.is_prerelease() && self.patch == u64::MAX,
            BumpLevel::Release => false,
        }
    }

    /// The version after moving by `level`, or `None` when it stays the
    /// same. Moving the major or minor number resets the lower numbers; a
    /// patch move of a pre-release only drops its pre-release text.
    pub open spec fn bumped(self, level: BumpLevel) -> Option<VersionView> {
        match level {
            BumpLevel::Major => Some(
                VersionView {
                    major: (self.major + 1) as u64,
                    minor: 0,
                    patch: 0,
                    pre: Seq::empty(),
                    build: Seq::empty(),
                },
            ),
            BumpLevel::Minor => Some(
                VersionView {
                    major: self.major,
                    minor: (self.minor + 1) as u64,
                    patch: 0,
                    pre: Seq::empty(),
                    build: Seq::empty(),
                },
            ),
            BumpLevel::Patch => if self.is_prerelease() {
                Some(VersionView { pre: Seq::empty(), ..self })
            } else {
                Some(
                    VersionView {
                        patch: (self.patch + 1) as u64,
                        pre: Seq::empty(),
                        build: Seq::empty(),
                        ..self
                    },
                )
            },
            BumpLevel::Release => if self.is_prerelease() {
                Some(VersionView { pre: Seq::empty(), ..self })
            } else {
                None
            },
        }
    }
}

/// Relies on `semver::Version::parse`: the parts it finds in `text` depend
/// on `text` alone.
#[verifier::external_body]
fn parse_semver(text: &str) -> (r: Result<Version, semver::Error>)
    ensures
        match r {
            Ok(v) => semver_parts(text@) == Some((v.major, v.minor, v.patch, v.pre@, v.build@)),
            Err(_) => semver_parts(text@) is None,
        },
{
    let v = semver::Version::parse(text)?;
    Ok(
        Version {
            major: v.major,
            minor: v.minor,
            patch: v.patch,
            pre: v.pre.as_str().to_owned(),
            build: v.build.as_str().to_owned(),
        },
    )
}

impl Version {
    /// Reads a version from its semantic-versioning text.
    pub fn parse(text: &str) -> (r: Result<Version, FatalError>)
        ensures
            match semver_parts(text@) {
                Some((major, minor, patch, pre, build)) => r matches Ok(v) && v@ == (VersionView {
                    major,
                    minor,
                    patch,
                    pre,
                    build,
                }),
                None => r matches Err(FatalError::InvalidVersion(t)) && t@ == text@,
            },
    {
        match parse_semver(text) {
            Ok(v) => Ok(v),
            Err(_) => Err(FatalError::InvalidVersion(text.to_owned())),
        }
    }

    pub fn is_prerelease(&self) -> (r: bool)
        ensures
            r == self@.is_prerelease(),
    {
        self.pre.unicode_len() > 0
    }

    /// The version without its build metadata, as text.
    pub fn bare_version_string(&self) -> (r: String)
        ensures
            r@ == self@.bare_text(),
    {
        proof {
            reveal_strlit(".");
            reveal_strlit("-");
        }
        let mut out = String::new();
        append_decimal(&mut out, self.major);
        out.append(".");
        append_decimal(&mut out, self.minor);
        out.append(".");
        append_decimal(&mut out, self.patch);
        if self.pre.unicode_len() > 0 {
            out.append("-");
            out.append(self.pre.as_str());
        }
        assert(out@ =~= self@.bare_text());
        out
    }

    /// The whole version, build metadata included, as text.
    pub fn full_version_string(&self) -> (r: String)
        ensures
            r@ == self@.full_text(),
    {
        proof {
            reveal_strlit("+");
        }
        let mut out = self.bare_version_string();
        if self.build.unicode_len() > 0 {
            out.append("+");
            out.append(self.build.as_str());
        }
        assert(out@ =~= self@.full_text());
        out
    }

    /// The version moved by `level`; `None` when that leaves it unchanged.
    pub fn bump(&self, level: BumpLevel) -> (r: Result<Option<Version>, FatalError>)
        ensures
            r is Err <==> self@.bump_overflows(level),
            r matches Err(e) ==> e is VersionOverflow,
            r matches Ok(o) ==> opt_version(o) == self@.bumped(level),
    {
        let empty = String::new();
        match level {
            BumpLevel::Major => {
                if self.major == u64::MAX {
                    return Err(FatalError::VersionOverflow(self.full_version_string()));
                }
                let v = Version {
                    major: self.major + 1,
                    minor: 0,
                    patch: 0,
                    pre: String::new(),
                    build: String::new(),
                };
                assert(v@ =~= self@.bumped(level)->0);
                Ok(Some(v))
            },
            BumpLevel::Minor => {
                if self.minor == u64::MAX {
                    return Err(FatalError::VersionOverflow(self.full_version_string()));
                }
                let v = Version {
                    major: self.major,
                    minor: self.minor + 1,
                    patch: 0,
                    pre: String::new(),
                    build: String::new(),
                };
                assert(v@ =~= self@.bumped(level)->0);
                Ok(Some(v))
            },
            BumpLevel::Patch => {
                if self.is_prerelease() {
                    let v = Version {
                        major: self.major,
                        minor: self.minor,
                        patch: self.patch,
                        pre: empty,
                        build: self.build.clone(),
                    };
                    assert(v@ =~= self@.bumped(level)->0);
                    Ok(Some(v))
                } else {
                    if self.patch == u64::MAX {
                        return Err(FatalError::VersionOverflow(self.full_version_string()));
                    }
                    let v = Version {
                        major: self.major,
                        minor: self.minor,
                        patch: self.patch + 1,
                        pre: empty,
                        build: String::new(),
                    };
                    assert(v@ =~= self@.bumped(level)->0);
                    Ok(Some(v))
                }
            },
            BumpLevel::Release => {
                if self.is_prerelease() {
                    let v = Version {
                        major: self.major,
                        minor: self.minor,
                        patch: self.patch,
                        pre: empty,
                        build: self.build.clone(),
                    };
                    assert(v@ =~= self@.bumped(level)->0);
                    Ok(Some(v))
                } else {
                    Ok(None)
                }
            },
        }
    }
}

} // verus!
