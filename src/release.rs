use vstd::prelude::*;

use crate::config::{flag_value, flags_conflict, str_opt, Config};
use crate::error::FatalError;
use crate::plan::{Dependency, PackageRelease};
use crate::tag::{release_version, TagAction};
use crate::text::{join_path, path_join, strings_view};
use crate::template::{render_text, Template, TemplateView};
use crate::version::{BumpLevel, Version, VersionView};

verus! {

/// The values a commit message of package `pkg` is rendered with; the next
/// development version, when there is one, fills `{{next_version}}`.
pub open spec fn commit_template(pkg: PackageRelease, next: Seq<char>) -> TemplateView {
    TemplateView {
        prev_version: pkg.initial_version@.bare_text(),
        prev_metadata: Seq::empty(),
        version: release_version(pkg)@.bare_text(),
        metadata: Seq::empty(),
        crate_name: pkg.name@,
        date: Seq::empty(),
        tag_name: Seq::empty(),
        prefix: Seq::empty(),
        next_version: next,
    }
}

fn commit_values(pkg: &PackageRelease, next: Option<String>) -> (r: Template)
    ensures
        r@ == commit_template(*pkg, str_opt(next).unwrap_or(Seq::empty())),
{
    let version = match &pkg.planned_version {
        Some(v) => v,
        None => &pkg.initial_version,
    };
    Template {
        prev_version: Some(pkg.initial_version.bare_version_string()),
        prev_metadata: None,
        version: Some(version.bare_version_string()),
        metadata: None,
        crate_name: Some(pkg.name.clone()),
        date: None,
        tag_name: None,
        prefix: None,
        next_version: next,
    }
}

/// The message of the commit that records the release version.
pub fn pre_release_commit_message(pkg: &PackageRelease) -> (r: String)
    ensures
        r@ == render_text(
            commit_template(*pkg, Seq::empty()),
            str_opt(pkg.config.pre_release_commit_message).unwrap_or(
                "(cargo-release) version {{version}}"@,
            ),
        ),
{
    let values = commit_values(pkg, None);
    values.render(pkg.config.pre_release_commit_message())
}

/// The message of the commit that starts the next development iteration
/// at `next`.
pub fn post_release_commit_message(pkg: &PackageRelease, next: &Version) -> (r: String)
    ensures
        r@ == render_text(
            commit_template(*pkg, next@.bare_text()),
            str_opt(pkg.config.post_release_commit_message).unwrap_or(
                "(cargo-release) start next development iteration {{next_version}}"@,
            ),
        ),
{
    let values = commit_values(pkg, Some(next.bare_version_string()));
    values.render(pkg.config.post_release_commit_message())
}

/// The development version after a release: the next patch number, with
/// `ext` as its pre-release text and no build metadata.
pub fn next_dev_version(v: &Version, ext: &str) -> (r: Result<Version, FatalError>)
    ensures
        r is Err <==> v@.patch == u64::MAX,
        r matches Err(e) ==> e is VersionOverflow,
        r matches Ok(n) ==> n@ == (VersionView {
            patch: (v@.patch + 1) as u64,
            pre: ext@,
            build: Seq::empty(),
            ..v@
        }),
{
    if v.patch == u64::MAX {
        return Err(FatalError::VersionOverflow(v.full_version_string()));
    }
    let n = Version {
        major: v.major,
        minor: v.minor,
        patch: v.patch + 1,
        pre: String::from_str(ext),
        build: String::new(),
    };
    assert(n@ =~= (VersionView { patch: (v@.patch + 1) as u64, pre: ext@, build: Seq::empty(), ..v@ }));
    Ok(n)
}

/// One thing for the caller to do in a release, or the end of it with an
/// exit code.
#[derive(Debug, Clone, Copy, PartialEq, Eq, Structural)]
pub enum ReleaseAction {
    /// Write the release version into the manifest.
    WriteVersion,
    /// Commit it, with the pre-release commit message.
    Commit,
    /// Publish the package.
    Publish,
    /// Create the release tag.
    Tag,
    /// Write the next development version into the manifest.
    WriteDevVersion,
    /// Commit it, with the post-release commit message.
    DevelopmentCommit,
    /// Push the commits and the tag.
    Push,
    /// Stop, with this exit code.
    Exit(i32),
}

/// How the last action went.
#[derive(Debug, Clone, Copy, PartialEq, Eq, Structural)]
pub enum StepOutcome {
    Succeeded,
    Failed,
}

/// Where a release stands: the action last asked for, and which of the
/// optional steps it takes.
#[derive(Debug, Clone, Copy, PartialEq, Eq, Structural)]
pub struct ReleaseState {
    pub last: Option<ReleaseAction>,
    pub publish: bool,
    pub tag: bool,
    pub dev_version: bool,
    pub push: bool,
}

/// The exit code when an action fails.
pub open spec fn failure_code(a: ReleaseAction) -> i32 {
    match a {
        ReleaseAction::WriteVersion => 128,
        ReleaseAction::Commit => 102,
        ReleaseAction::Publish => 103,
        ReleaseAction::Tag => 101,
        ReleaseAction::WriteDevVersion => 128,
        ReleaseAction::DevelopmentCommit => 105,
        ReleaseAction::Push => 106,
        ReleaseAction::Exit(c) => c,
    }
}

/// The position of each action in the release order.
pub open spec fn rank(a: ReleaseAction) -> int {
    match a {
        ReleaseAction::WriteVersion => 0,
        ReleaseAction::Commit => 1,
        ReleaseAction::Publish => 2,
        ReleaseAction::Tag => 3,
        ReleaseAction::WriteDevVersion => 4,
        ReleaseAction::DevelopmentCommit => 5,
        ReleaseAction::Push => 6,
        ReleaseAction::Exit(_) => 7,
    }
}

/// The action at a position of the release order.
pub open spec fn action_at(i: int) -> ReleaseAction {
    if i == 0 {
        ReleaseAction::WriteVersion
    } else if i == 1 {
        ReleaseAction::Commit
    } else if i == 2 {
        ReleaseAction::Publish
    } else if i == 3 {
        ReleaseAction::Tag
    } else if i == 4 {
        ReleaseAction::WriteDevVersion
    } else if i == 5 {
        ReleaseAction::DevelopmentCommit
    } else {
        ReleaseAction::Push
    }
}

/// Whether the release takes the action at position `i`.
pub open spec fn takes(s: ReleaseState, i: int) -> bool {
    if i == 2 {
        s.publish
    } else if i == 3 {
        s.tag
    } else if i == 4 || i == 5 {
        s.dev_version
    } else if i == 6 {
        s.push
    } else {
        true
    }
}

/// The first action taken at position `i` or later; the end, with code 0,
/// when there is none.
pub open spec fn next_from(s: ReleaseState, i: int) -> ReleaseAction
    decreases 7 - i,
{
    if i >= 7 {
        ReleaseAction::Exit(0)
    } else if takes(s, i) {
        action_at(i)
    } else {
        next_from(s, i + 1)
    }
}

/// One step of a release: write the version, commit, publish, tag, write
/// and commit the development version, push; optional steps that are off
/// are skipped. A failed action ends the release with its exit code; an
/// ended release stays ended.
pub open spec fn release_step(s: ReleaseState, last: StepOutcome) -> (ReleaseState, ReleaseAction) {
    let next = match s.last {
        None => next_from(s, 0),
        Some(ReleaseAction::Exit(c)) => ReleaseAction::Exit(c),
        Some(a) => if last == StepOutcome::Failed {
            ReleaseAction::Exit(failure_code(a))
        } else {
            next_from(s, rank(a) + 1)
        },
    };
    (ReleaseState { last: Some(next), ..s }, next)
}

impl ReleaseState {
    /// A release about to start, with the steps that the configuration
    /// turns on: the development step runs when a development version is
    /// asked for and the level is not `Release`.
    pub fn new(config: &Config, level: Option<BumpLevel>) -> (r: ReleaseState)
        requires
            !flags_conflict(config.publish, config.disable_publish),
            !flags_conflict(config.tag, config.disable_tag),
            !flags_conflict(config.push, config.disable_push),
            !flags_conflict(config.dev_version, config.no_dev_version),
        ensures
            r == (ReleaseState {
                last: None,
                publish: flag_value(config.publish, config.disable_publish).unwrap_or(true),
                tag: flag_value(config.tag, config.disable_tag).unwrap_or(true),
                dev_version: flag_value(config.dev_version, config.no_dev_version).unwrap_or(false)
                    && level != Some(BumpLevel::Release),
                push: flag_value(config.push, config.disable_push).unwrap_or(true),
            }),
    {
        let release_level = match level {
            Some(BumpLevel::Release) => true,
            _ => false,
        };
        ReleaseState {
            last: None,
            publish: config.publish(),
            tag: config.tag(),
            dev_version: config.dev_version() && !release_level,
            push: config.push(),
        }
    }
}

fn action_of(i: usize) -> (r: ReleaseAction)
    requires
        i < 7,
    ensures
        r == action_at(i as int),
{
    if i == 0 {
        ReleaseAction::WriteVersion
    } else if i == 1 {
        ReleaseAction::Commit
    } else if i == 2 {
        ReleaseAction::Publish
    } else if i == 3 {
        ReleaseAction::Tag
    } else if i == 4 {
        ReleaseAction::WriteDevVersion
    } else if i == 5 {
        ReleaseAction::DevelopmentCommit
    } else {
        ReleaseAction::Push
    }
}

fn next_from_exec(s: &ReleaseState, start: usize) -> (r: ReleaseAction)
    requires
        start <= 7,
    ensures
        r == next_from(*s, start as int),
    decreases 7 - start,
{
    if start >= 7 {
        return ReleaseAction::Exit(0);
    }
    let taken = if start == 2 {
        s.publish
    } else if start == 3 {
        s.tag
    } else if start == 4 || start == 5 {
        s.dev_version
    } else if start == 6 {
        s.push
    } else {
        true
    };
    if taken {
        action_of(start)
    } else {
        next_from_exec(s, start + 1)
    }
}

/// Decides what to do next, given how the last action went (ignored at
/// the start).
pub fn next_release_action(state: &ReleaseState, last: StepOutcome) -> (r: (ReleaseState, ReleaseAction))
    ensures
        r == release_step(*state, last),
{
    let next = match state.last {
        None => next_from_exec(state, 0),
        Some(ReleaseAction::Exit(c)) => ReleaseAction::Exit(c),
        Some(a) => if last == StepOutcome::Failed {
            ReleaseAction::Exit(
                match a {
                    ReleaseAction::WriteVersion => 128,
                    ReleaseAction::Commit => 102,
                    ReleaseAction::Publish => 103,
                    ReleaseAction::Tag => 101,
                    ReleaseAction::WriteDevVersion => 128,
                    ReleaseAction::DevelopmentCommit => 105,
                    ReleaseAction::Push => 106,
                    ReleaseAction::Exit(c) => c,
                },
            )
        } else {
            let after: usize = match a {
                ReleaseAction::WriteVersion => 1,
                ReleaseAction::Commit => 2,
                ReleaseAction::Publish => 3,
                ReleaseAction::Tag => 4,
                ReleaseAction::WriteDevVersion => 5,
                ReleaseAction::DevelopmentCommit => 6,
                ReleaseAction::Push => 7,
                ReleaseAction::Exit(_) => 7,
            };
            next_from_exec(state, after)
        },
    };
    (ReleaseState { last: Some(next), ..*state }, next)
}

/// The environment of the pre-release hook of `pkg`: its name, its
/// current and release versions, its directory and whether the run is dry.
pub fn hook_env(pkg: &PackageRelease, dry_run: bool) -> (r: Vec<(String, String)>)
    ensures
        r@.len() == 5,
        r@[0].0@ == "CRATE_NAME"@ && r@[0].1@ == pkg.name@,
        r@[1].0@ == "PREV_VERSION"@ && r@[1].1@ == pkg.initial_version@.full_text(),
        r@[2].0@ == "NEW_VERSION"@ && r@[2].1@ == release_version(*pkg)@.full_text(),
        r@[3].0@ == "CRATE_ROOT"@ && r@[3].1@ == pkg.package_root@,
        r@[4].0@ == "DRY_RUN"@ && r@[4].1@ == (if dry_run {
            "true"@
        } else {
            "false"@
        }),
{
    let version = match &pkg.planned_version {
        Some(v) => v,
        None => &pkg.initial_version,
    };
    let mut r: Vec<(String, String)> = Vec::new();
    r.push((String::from_str("CRATE_NAME"), pkg.name.clone()));
    r.push((String::from_str("PREV_VERSION"), pkg.initial_version.full_version_string()));
    r.push((String::from_str("NEW_VERSION"), version.full_version_string()));
    r.push((String::from_str("CRATE_ROOT"), pkg.package_root.clone()));
    let dry = if dry_run {
        String::from_str("true")
    } else {
        String::from_str("false")
    };
    r.push((String::from_str("DRY_RUN"), dry));
    r
}

fn words(items: &[&str]) -> (r: Vec<String>)
    ensures
        r@.len() == items@.len(),
        forall|i: int| 0 <= i < items@.len() ==> (#[trigger] r@[i])@ == items@[i]@,
{
    let mut r: Vec<String> = Vec::new();
    let mut i: usize = 0;
    while i < items.len()
        invariant
            i <= items@.len(),
            r@.len() == i,
            forall|j: int| 0 <= j < i ==> (#[trigger] r@[j])@ == items@[j]@,
        decreases items@.len() - i,
    {
        r.push(String::from_str(items[i]));
        i += 1;
    }
    r
}

/// `git commit -a -m <message>`, with `-S` when signing.
pub fn commit_command(message: &str, sign: bool) -> (r: Vec<String>)
    ensures
        strings_view(r@) == seq!["git"@, "commit"@, "-a"@, "-m"@, message@] + if sign {
            seq!["-S"@]
        } else {
            Seq::empty()
        },
{
    let mut r = words(&["git", "commit", "-a", "-m"]);
    r.push(String::from_str(message));
    if sign {
        r.push(String::from_str("-S"));
    }
    assert(strings_view(r@) =~= seq!["git"@, "commit"@, "-a"@, "-m"@, message@] + if sign {
        seq!["-S"@]
    } else {
        Seq::empty()
    });
    r
}

/// `git tag -a <name> -m <message>`, with `-s` when signing.
pub fn tag_command(action: &TagAction) -> (r: Vec<String>)
    ensures
        strings_view(r@) == seq!["git"@, "tag"@, "-a"@, action.tag_name@, "-m"@, action.message@]
            + if action.sign {
            seq!["-s"@]
        } else {
            Seq::empty()
        },
{
    let mut r = words(&["git", "tag", "-a"]);
    r.push(action.tag_name.clone());
    r.push(String::from_str("-m"));
    r.push(action.message.clone());
    if action.sign {
        r.push(String::from_str("-s"));
    }
    assert(strings_view(r@) =~= seq!["git"@, "tag"@, "-a"@, action.tag_name@, "-m"@, action.message@]
        + if action.sign {
        seq!["-s"@]
    } else {
        Seq::empty()
    });
    r
}

/// Each push option as `-o <option>`.
pub open spec fn push_option_words(options: Seq<String>) -> Seq<Seq<char>>
    decreases options.len(),
{
    if options.len() == 0 {
        Seq::empty()
    } else {
        push_option_words(options.drop_last()) + seq!["-o"@, options.last()@]
    }
}

/// `git push <remote>` with the configured push options, then the
/// current branch and, when one was created, the tag.
pub fn push_command(config: &Config, tag: Option<&str>) -> (r: Vec<String>)
    ensures
        strings_view(r@) == seq!["git"@, "push"@] + push_option_words(
            crate::config::vec_opt(config.push_options).unwrap_or(Seq::empty()),
        ) + seq![str_opt(config.push_remote).unwrap_or("origin"@), "HEAD"@] + match tag {
            Some(t) => seq![t@],
            None => Seq::empty(),
        },
{
    let mut r = words(&["git", "push"]);
    let options = config.push_options();
    let mut i: usize = 0;
    while i < options.len()
        invariant
            i <= options@.len(),
            options@ == crate::config::vec_opt(config.push_options).unwrap_or(Seq::empty()),
            strings_view(r@) == seq!["git"@, "push"@] + push_option_words(
                options@.subrange(0, i as int),
            ),
        decreases options@.len() - i,
    {
        assert(options@.subrange(0, i + 1).drop_last() =~= options@.subrange(0, i as int));
        let ghost prev = r@;
        let o = String::from_str("-o");
        let v = options[i].clone();
        r.push(o);
        r.push(v);
        assert(options@.subrange(0, i + 1).last() == options@[i as int]);
        assert(strings_view(r@) =~= strings_view(prev) + seq!["-o"@, options@[i as int]@]);
        assert(strings_view(r@) =~= seq!["git"@, "push"@] + push_option_words(
            options@.subrange(0, i + 1),
        ));
        i += 1;
    }
    assert(options@.subrange(0, i as int) =~= options@);
    let ghost before = strings_view(r@);
    r.push(String::from_str(config.push_remote()));
    r.push(String::from_str("HEAD"));
    if let Some(t) = tag {
        r.push(String::from_str(t));
    }
    assert(strings_view(r@) =~= before + seq![
        str_opt(config.push_remote).unwrap_or("origin"@),
        "HEAD"@,
    ] + match tag {
        Some(t) => seq![t@],
        None => Seq::empty(),
    });
    r
}

/// Each selected feature as `--features <feature>`.
pub open spec fn feature_words(features: Seq<String>) -> Seq<Seq<char>>
    decreases features.len(),
{
    if features.len() == 0 {
        Seq::empty()
    } else {
        feature_words(features.drop_last()) + seq!["--features"@, features.last()@]
    }
}

/// `cargo publish` for the package's manifest, with its registry, without
/// verification when that is off, and with its features.
pub fn publish_command(pkg: &PackageRelease) -> (r: Vec<String>)
    requires
        !flags_conflict(pkg.config.verify, pkg.config.disable_verify),
    ensures
        strings_view(r@) == seq!["cargo"@, "publish"@, "--manifest-path"@, path_join(
            pkg.package_root@,
            "Cargo.toml"@,
        )] + match pkg.config.registry {
            Some(reg) => seq!["--registry"@, reg@],
            None => Seq::empty(),
        } + (if flag_value(pkg.config.verify, pkg.config.disable_verify).unwrap_or(true) {
            Seq::empty()
        } else {
            seq!["--no-verify"@]
        }) + if pkg.config.enable_all_features.unwrap_or(false) {
            seq!["--all-features"@]
        } else {
            feature_words(crate::config::vec_opt(pkg.config.enable_features).unwrap_or(Seq::empty()))
        },
{
    let mut r = words(&["cargo", "publish", "--manifest-path"]);
    r.push(join_path(pkg.package_root.as_str(), "Cargo.toml"));
    if let Some(reg) = &pkg.config.registry {
        r.push(String::from_str("--registry"));
        r.push(reg.clone());
    }
    if !pkg.config.verify() {
        r.push(String::from_str("--no-verify"));
    }
    let ghost before = strings_view(r@);
    if pkg.config.enable_all_features() {
        r.push(String::from_str("--all-features"));
    } else {
        let features = pkg.config.enable_features();
        let mut i: usize = 0;
        while i < features.len()
            invariant
                i <= features@.len(),
                features@ == crate::config::vec_opt(pkg.config.enable_features).unwrap_or(
                    Seq::empty(),
                ),
                strings_view(r@) == before + feature_words(features@.subrange(0, i as int)),
            decreases features@.len() - i,
        {
            assert(features@.subrange(0, i + 1).drop_last() =~= features@.subrange(0, i as int));
            let ghost prev = r@;
            let f = String::from_str("--features");
            let v = features[i].clone();
            r.push(f);
            r.push(v);
            assert(features@.subrange(0, i + 1).last() == features@[i as int]);
            assert(strings_view(r@) =~= strings_view(prev) + seq!["--features"@, features@[i as int]@]);
            assert(strings_view(r@) =~= before + feature_words(features@.subrange(0, i + 1)));
            i += 1;
        }
        assert(features@.subrange(0, i as int) =~= features@);
    }
    assert(strings_view(r@) =~= seq!["cargo"@, "publish"@, "--manifest-path"@, path_join(
        pkg.package_root@,
        "Cargo.toml"@,
    )] + match pkg.config.registry {
        Some(reg) => seq!["--registry"@, reg@],
        None => Seq::empty(),
    } + (if flag_value(pkg.config.verify, pkg.config.disable_verify).unwrap_or(true) {
        Seq::empty()
    } else {
        seq!["--no-verify"@]
    }) + if pkg.config.enable_all_features.unwrap_or(false) {
        seq!["--all-features"@]
    } else {
        feature_words(crate::config::vec_opt(pkg.config.enable_features).unwrap_or(Seq::empty()))
    });
    r
}

/// `text` read as a TOML document with `version` set in its `[package]`
/// table, everything else kept as written; `None` where `text` is not TOML
/// or has no such table.
pub uninterp spec fn manifest_with_version(text: Seq<char>, version: Seq<char>) -> Option<Seq<char>>;

/// Relies on `toml_edit::DocumentMut`: parsing `text`, inserting
/// `version` into the `package` table and printing the document again
/// depend on the two texts alone.
#[verifier::external_body]
fn edit_manifest_version(text: &str, version: &str) -> (r: Option<String>)
    ensures
        match r {
            Some(s) => manifest_with_version(text@, version@) == Some(s@),
            None => manifest_with_version(text@, version@) is None,
        },
{
    let mut doc: toml_edit::DocumentMut = text.parse().ok()?;
    let package = doc.get_mut("package")?.as_table_like_mut()?;
    package.insert("version", toml_edit::value(version));
    Some(doc.to_string())
}

/// The manifest `text` with its package version set to `version` (build
/// metadata included); an error naming the manifest where it cannot be
/// edited.
pub fn set_manifest_version(path: &str, text: &str, version: &Version) -> (r: Result<String, FatalError>)
    ensures
        match manifest_with_version(text@, version@.full_text()) {
            Some(t) => r matches Ok(s) && s@ == t,
            None => r matches Err(FatalError::InvalidManifest(p)) && p@ == path@,
        },
{
    let full = version.full_version_string();
    match edit_manifest_version(text, full.as_str()) {
        Some(s) => Ok(s),
        None => Err(FatalError::InvalidManifest(String::from_str(path))),
    }
}

/// `text` read as a TOML document with the requirement of the dependency
/// `name` in its `table` set to `req`, everything else kept as written;
/// `None` where `text` is not TOML or that table writes no version for
/// `name`.
pub uninterp spec fn manifest_with_dependency(
    text: Seq<char>,
    table: Seq<char>,
    name: Seq<char>,
    req: Seq<char>,
) -> Option<Seq<char>>;

/// Relies on `toml_edit::DocumentMut`: parsing `text`, replacing the
/// dependency's version (a plain string, or the `version` key of its
/// table) and printing the document again depend on the texts alone.
#[verifier::external_body]
fn edit_dependency(text: &str, table: &str, name: &str, req: &str) -> (r: Option<String>)
    ensures
        match r {
            Some(s) => manifest_with_dependency(text@, table@, name@, req@) == Some(s@),
            None => manifest_with_dependency(text@, table@, name@, req@) is None,
        },
{
    let mut doc: toml_edit::DocumentMut = text.parse().ok()?;
    let item = doc.get_mut(table)?.as_table_like_mut()?.get_mut(name)?;
    if item.is_str() {
        *item = toml_edit::value(req);
    } else {
        let entry = item.as_table_like_mut()?;
        entry.get("version")?;
        entry.insert("version", toml_edit::value(req));
    }
    Some(doc.to_string())
}

/// `text` with the dependency's requirement set in `table`, or unchanged
/// where that table writes no version for it.
pub open spec fn dependency_edited(text: Seq<char>, table: Seq<char>, name: Seq<char>, req: Seq<char>) -> Seq<
    char,
> {
    match manifest_with_dependency(text, table, name, req) {
        Some(t) => t,
        None => text,
    }
}

fn edit_or_keep(text: String, table: &str, name: &str, req: &str) -> (r: String)
    ensures
        r@ == dependency_edited(text@, table@, name@, req@),
{
    match edit_dependency(text.as_str(), table, name, req) {
        Some(t) => t,
        None => text,
    }
}

/// A manifest with the requirement on `dep.name` set to `dep.req` in its
/// normal, build and development dependency tables, wherever it is
/// written there with a version.
pub fn set_dependency_requirement(text: &str, dep: &Dependency) -> (r: String)
    ensures
        r@ == dependency_edited(
            dependency_edited(
                dependency_edited(text@, "dependencies"@, dep.name@, dep.req@),
                "build-dependencies"@,
                dep.name@,
                dep.req@,
            ),
            "dev-dependencies"@,
            dep.name@,
            dep.req@,
        ),
{
    let name = dep.name.as_str();
    let req = dep.req.as_str();
    let t = edit_or_keep(String::from_str(text), "dependencies", name, req);
    let t = edit_or_keep(t, "build-dependencies", name, req);
    edit_or_keep(t, "dev-dependencies", name, req)
}

/// The requirements of `after` whose text differs from the one at the same
/// position of `before`: what planning rewrote.
pub fn changed_requirements(before: &[Dependency], after: &[Dependency]) -> (r: Vec<Dependency>)
    requires
        before@.len() == after@.len(),
    ensures
        r@.map_values(|d: Dependency| d@) == changed_upto(before@, after@, before@.len() as int),
{
    let mut r: Vec<Dependency> = Vec::new();
    let mut i: usize = 0;
    while i < after.len()
        invariant
            before@.len() == after@.len(),
            i <= after@.len(),
            r@.map_values(|d: Dependency| d@) == changed_upto(before@, after@, i as int),
        decreases after@.len() - i,
    {
        if !crate::text::texts_equal(before[i].req.as_str(), after[i].req.as_str()) {
            let ghost prev = r@;
            r.push(Dependency { name: after[i].name.clone(), req: after[i].req.clone() });
            assert(r@.map_values(|d: Dependency| d@) =~= prev.map_values(|d: Dependency| d@).push(
                after@[i as int]@,
            ));
        }
        i += 1;
    }
    r
}

/// The entries among the first `n` whose requirement text changed.
pub open spec fn changed_upto(before: Seq<Dependency>, after: Seq<Dependency>, n: int) -> Seq<
    (Seq<char>, Seq<char>),
>
    decreases n,
{
    if n <= 0 {
        Seq::empty()
    } else if before[n - 1].req@ != after[n - 1].req@ {
        changed_upto(before, after, n - 1).push(after[n - 1]@)
    } else {
        changed_upto(before, after, n - 1)
    }
}

} // verus!
