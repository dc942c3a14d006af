use vstd::prelude::*;

use crate::error::FatalError;
use crate::text::{join_path, path_join, texts_equal};

verus! {

/// One replacement rule: a regular expression searched in `file` and the
/// template that replaces each match, with optional bounds on the number of
/// matches.
#[derive(Debug, Clone)]
pub struct Replace {
    pub file: String,
    pub search: String,
    pub replace: String,
    pub min: Option<usize>,
    pub max: Option<usize>,
    pub exactly: Option<usize>,
    pub prerelease: bool,
}

/// A hook command: one shell line, or a program with its arguments.
#[derive(Debug, Clone)]
pub enum Command {
    Line(String),
    Args(Vec<String>),
}

/// What to do with a workspace dependent whose requirement on a bumped
/// package no longer matches the new version.
#[derive(Debug, Clone, Copy, PartialEq, Eq, Structural)]
pub enum DependentVersion {
    Upgrade,
    Fix,
    Error,
    Warn,
    Ignore,
}

impl Default for DependentVersion {
    fn default() -> (r: Self)
        ensures
            r == DependentVersion::Fix,
    {
        DependentVersion::Fix
    }
}

/// Which cargo features to enable while building a package.
#[derive(Debug, Clone)]
pub enum Features {
    Empty,
    All,
    Selective(Vec<String>),
}

/// The hook command as values.
pub ghost enum CommandView {
    Line(Seq<char>),
    Args(Seq<String>),
}

impl View for Command {
    type V = CommandView;

    open spec fn view(&self) -> CommandView {
        match self {
            Command::Line(s) => CommandView::Line(s@),
            Command::Args(a) => CommandView::Args(a@),
        }
    }
}

/// A partial configuration: every field is either unset (`None`) or holds
/// the value that one configuration layer gave it.
#[derive(Debug, Clone)]
pub struct Config {
    pub allow_branch: Option<Vec<String>>,
    pub sign_commit: Option<bool>,
    pub sign_tag: Option<bool>,
    pub push_remote: Option<String>,
    pub registry: Option<String>,
    pub release: Option<bool>,
    pub disable_release: Option<bool>,
    pub publish: Option<bool>,
    pub disable_publish: Option<bool>,
    pub rust_version: Option<String>,
    pub verify: Option<bool>,
    pub disable_verify: Option<bool>,
    pub push: Option<bool>,
    pub disable_push: Option<bool>,
    pub push_options: Option<Vec<String>>,
    pub dev_version_ext: Option<String>,
    pub dev_version: Option<bool>,
    pub no_dev_version: Option<bool>,
    pub shared_version: Option<bool>,
    pub consolidate_commits: Option<bool>,
    pub consolidate_pushes: Option<bool>,
    pub pre_release_commit_message: Option<String>,
    pub post_release_commit_message: Option<String>,
    pub pre_release_replacements: Option<Vec<Replace>>,
    pub post_release_replacements: Option<Vec<Replace>>,
    pub pre_release_hook: Option<Command>,
    pub tag_message: Option<String>,
    pub tag_prefix: Option<String>,
    pub tag_name: Option<String>,
    pub tag: Option<bool>,
    pub disable_tag: Option<bool>,
    pub enable_features: Option<Vec<String>>,
    pub enable_all_features: Option<bool>,
    pub dependent_version: Option<DependentVersion>,
}

/// The configuration as values: lists as sequences, text as characters.
pub ghost struct ConfigView {
    pub allow_branch: Option<Seq<String>>,
    pub sign_commit: Option<bool>,
    pub sign_tag: Option<bool>,
    pub push_remote: Option<Seq<char>>,
    pub registry: Option<Seq<char>>,
    pub release: Option<bool>,
    pub disable_release: Option<bool>,
    pub publish: Option<bool>,
    pub disable_publish: Option<bool>,
    pub rust_version: Option<Seq<char>>,
    pub verify: Option<bool>,
    pub disable_verify: Option<bool>,
    pub push: Option<bool>,
    pub disable_push: Option<bool>,
    pub push_options: Option<Seq<String>>,
    pub dev_version_ext: Option<Seq<char>>,
    pub dev_version: Option<bool>,
    pub no_dev_version: Option<bool>,
    pub shared_version: Option<bool>,
    pub consolidate_commits: Option<bool>,
    pub consolidate_pushes: Option<bool>,
    pub pre_release_commit_message: Option<Seq<char>>,
    pub post_release_commit_message: Option<Seq<char>>,
    pub pre_release_replacements: Option<Seq<Replace>>,
    pub post_release_replacements: Option<Seq<Replace>>,
    pub pre_release_hook: Option<CommandView>,
    pub tag_message: Option<Seq<char>>,
    pub tag_prefix: Option<Seq<char>>,
    pub tag_name: Option<Seq<char>>,
    pub tag: Option<bool>,
    pub disable_tag: Option<bool>,
    pub enable_features: Option<Seq<String>>,
    pub enable_all_features: Option<bool>,
    pub dependent_version: Option<DependentVersion>,
}

pub open spec fn str_opt(o: Option<String>) -> Option<Seq<char>> {
    match o {
        Some(s) => Some(s@),
        None => None,
    }
}

pub open spec fn vec_opt<T>(o: Option<Vec<T>>) -> Option<Seq<T>> {
    match o {
        Some(v) => Some(v@),
        None => None,
    }
}

pub open spec fn cmd_opt(o: Option<Command>) -> Option<CommandView> {
    match o {
        Some(c) => Some(c@),
        None => None,
    }
}

/// A value set by a more specific layer replaces the one set before it.
pub open spec fn overlay<T>(dst: Option<T>, src: Option<T>) -> Option<T> {
    if src is Some {
        src
    } else {
        dst
    }
}

/// The value of a flag given in a positive and a negative spelling, when
/// at most one of them is set.
pub open spec fn flag_value(yes: Option<bool>, no: Option<bool>) -> Option<bool> {
    match (yes, no) {
        (Some(y), _) => Some(y),
        (None, Some(n)) => Some(!n),
        (None, None) => None,
    }
}

pub open spec fn flags_conflict(yes: Option<bool>, no: Option<bool>) -> bool {
    yes is Some && no is Some
}

pub open spec fn flag_deprecated(yes: Option<bool>, no: Option<bool>) -> bool {
    yes is None && no is Some
}

impl View for Config {
    type V = ConfigView;

    open spec fn view(&self) -> ConfigView {
        ConfigView {
            allow_branch: vec_opt(self.allow_branch),
            sign_commit: self.sign_commit,
            sign_tag: self.sign_tag,
            push_remote: str_opt(self.push_remote),
            registry: str_opt(self.registry),
            release: self.release,
            disable_release: self.disable_release,
            publish: self.publish,
            disable_publish: self.disable_publish,
            rust_version: str_opt(self.rust_version),
            verify: self.verify,
            disable_verify: self.disable_verify,
            push: self.push,
            disable_push: self.disable_push,
            push_options: vec_opt(self.push_options),
            dev_version_ext: str_opt(self.dev_version_ext),
            dev_version: self.dev_version,
            no_dev_version: self.no_dev_version,
            shared_version: self.shared_version,
            consolidate_commits: self.consolidate_commits,
            consolidate_pushes: self.consolidate_pushes,
            pre_release_commit_message: str_opt(self.pre_release_commit_message),
            post_release_commit_message: str_opt(self.post_release_commit_message),
            pre_release_replacements: vec_opt(self.pre_release_replacements),
            post_release_replacements: vec_opt(self.post_release_replacements),
            pre_release_hook: cmd_opt(self.pre_release_hook),
            tag_message: str_opt(self.tag_message),
            tag_prefix: str_opt(self.tag_prefix),
            tag_name: str_opt(self.tag_name),
            tag: self.tag,
            disable_tag: self.disable_tag,
            enable_features: vec_opt(self.enable_features),
            enable_all_features: self.enable_all_features,
            dependent_version: self.dependent_version,
        }
    }
}

impl ConfigView {
    /// The configuration with no field set.
    pub open spec fn empty() -> ConfigView {
        ConfigView {
            allow_branch: None,
            sign_commit: None,
            sign_tag: None,
            push_remote: None,
            registry: None,
            release: None,
            disable_release: None,
            publish: None,
            disable_publish: None,
            rust_version: None,
            verify: None,
            disable_verify: None,
            push: None,
            disable_push: None,
            push_options: None,
            dev_version_ext: None,
            dev_version: None,
            no_dev_version: None,
            shared_version: None,
            consolidate_commits: None,
            consolidate_pushes: None,
            pre_release_commit_message: None,
            post_release_commit_message: None,
            pre_release_replacements: None,
            post_release_replacements: None,
            pre_release_hook: None,
            tag_message: None,
            tag_prefix: None,
            tag_name: None,
            tag: None,
            disable_tag: None,
            enable_features: None,
            enable_all_features: None,
            dependent_version: None,
        }
    }

    /// Some flag pair of this layer has both spellings set.
    pub open spec fn has_conflict(self) -> bool {
        ||| flags_conflict(self.release, self.disable_release)
        ||| flags_conflict(self.publish, self.disable_publish)
        ||| flags_conflict(self.verify, self.disable_verify)
        ||| flags_conflict(self.push, self.disable_push)
        ||| flags_conflict(self.dev_version, self.no_dev_version)
        ||| flags_conflict(self.tag, self.disable_tag)
    }

    /// Some flag of this layer is given only by its deprecated negative
    /// spelling.
    pub open spec fn has_deprecated(self) -> bool {
        ||| flag_deprecated(self.release, self.disable_release)
        ||| flag_deprecated(self.publish, self.disable_publish)
        ||| flag_deprecated(self.verify, self.disable_verify)
        ||| flag_deprecated(self.push, self.disable_push)
        ||| flag_deprecated(self.dev_version, self.no_dev_version)
        ||| flag_deprecated(self.tag, self.disable_tag)
    }

    /// `self` with the fields that `src` defines replaced by `src`'s values;
    /// a flag pair of `src` is folded into its positive spelling.
    pub open spec fn merged(self, src: ConfigView) -> ConfigView {
        ConfigView {
            allow_branch: overlay(self.allow_branch, src.allow_branch),
            sign_commit: overlay(self.sign_commit, src.sign_commit),
            sign_tag: overlay(self.sign_tag, src.sign_tag),
            push_remote: overlay(self.push_remote, src.push_remote),
            registry: overlay(self.registry, src.registry),
            release: overlay(self.release, flag_value(src.release, src.disable_release)),
            disable_release: if flag_value(src.release, src.disable_release) is Some {
                None
            } else {
                self.disable_release
            },
            publish: overlay(self.publish, flag_value(src.publish, src.disable_publish)),
            disable_publish: if flag_value(src.publish, src.disable_publish) is Some {
                None
            } else {
                self.disable_publish
            },
            rust_version: overlay(self.rust_version, src.rust_version),
            verify: overlay(self.verify, flag_value(src.verify, src.disable_verify)),
            disable_verify: if flag_value(src.verify, src.disable_verify) is Some {
                None
            } else {
                self.disable_verify
            },
            push: overlay(self.push, flag_value(src.push, src.disable_push)),
            disable_push: if flag_value(src.push, src.disable_push) is Some {
                None
            } else {
                self.disable_push
            },
            push_options: overlay(self.push_options, src.push_options),
            dev_version_ext: overlay(self.dev_version_ext, src.dev_version_ext),
            dev_version: overlay(self.dev_version, flag_value(src.dev_version, src.no_dev_version)),
            no_dev_version: if flag_value(src.dev_version, src.no_dev_version) is Some {
                None
            } else {
                self.no_dev_version
            },
            shared_version: overlay(self.shared_version, src.shared_version),
            consolidate_commits: overlay(self.consolidate_commits, src.consolidate_commits),
            consolidate_pushes: overlay(self.consolidate_pushes, src.consolidate_pushes),
            pre_release_commit_message: overlay(
                self.pre_release_commit_message,
                src.pre_release_commit_message,
            ),
            post_release_commit_message: overlay(
                self.post_release_commit_message,
                src.post_release_commit_message,
            ),
            pre_release_replacements: overlay(
                self.pre_release_replacements,
                src.pre_release_replacements,
            ),
            post_release_replacements: overlay(
                self.post_release_replacements,
                src.post_release_replacements,
            ),
            pre_release_hook: overlay(self.pre_release_hook, src.pre_release_hook),
            tag_message: overlay(self.tag_message, src.tag_message),
            tag_prefix: overlay(self.tag_prefix, src.tag_prefix),
            tag_name: overlay(self.tag_name, src.tag_name),
            tag: overlay(self.tag, flag_value(src.tag, src.disable_tag)),
            disable_tag: if flag_value(src.tag, src.disable_tag) is Some {
                None
            } else {
                self.disable_tag
            },
            enable_features: overlay(self.enable_features, src.enable_features),
            enable_all_features: overlay(self.enable_all_features, src.enable_all_features),
            dependent_version: overlay(self.dependent_version, src.dependent_version),
        }
    }
}

/// The effective configuration of an ordered list of layers, least specific
/// first: each layer is merged over the result of the ones before it.
pub open spec fn fold_layers(layers: Seq<ConfigView>) -> ConfigView
    decreases layers.len(),
{
    if layers.len() == 0 {
        ConfigView::empty()
    } else {
        fold_layers(layers.drop_last()).merged(layers.last())
    }
}

/// The value that the last layer defining a field gave it, if any did.
pub open spec fn last_defined<T>(values: Seq<Option<T>>) -> Option<T>
    decreases values.len(),
{
    if values.len() == 0 {
        None
    } else if values.last() is Some {
        values.last()
    } else {
        last_defined(values.drop_last())
    }
}

/// Merging a layer in which no flag is set in both spellings: a flag given
/// in its positive spelling takes that value; one given only in its
/// deprecated negative spelling takes the negation (and the layer reports
/// `has_deprecated`, for a warning); one given in neither keeps the value
/// below it. The negative spelling never survives a layer that sets the
/// flag.
pub proof fn lemma_flag_pairs_merge(dst: ConfigView, src: ConfigView)
    requires
        !src.has_conflict(),
    ensures
        src.release is Some ==> dst.merged(src).release == src.release && dst.merged(src).disable_release is None,
        src.release is None && src.disable_release is Some ==> dst.merged(src).release == Some(!src.disable_release->0)
            && dst.merged(src).disable_release is None && src.has_deprecated(),
        src.release is None && src.disable_release is None ==> dst.merged(src).release == dst.release
            && dst.merged(src).disable_release == dst.disable_release,
        src.publish is Some ==> dst.merged(src).publish == src.publish && dst.merged(src).disable_publish is None,
        src.publish is None && src.disable_publish is Some ==> dst.merged(src).publish == Some(!src.disable_publish->0)
            && dst.merged(src).disable_publish is None && src.has_deprecated(),
        src.publish is None && src.disable_publish is None ==> dst.merged(src).publish == dst.publish
            && dst.merged(src).disable_publish == dst.disable_publish,
        src.verify is Some ==> dst.merged(src).verify == src.verify && dst.merged(src).disable_verify is None,
        src.verify is None && src.disable_verify is Some ==> dst.merged(src).verify == Some(!src.disable_verify->0)
            && dst.merged(src).disable_verify is None && src.has_deprecated(),
        src.verify is None && src.disable_verify is None ==> dst.merged(src).verify == dst.verify
            && dst.merged(src).disable_verify == dst.disable_verify,
        src.push is Some ==> dst.merged(src).push == src.push && dst.merged(src).disable_push is None,
        src.push is None && src.disable_push is Some ==> dst.merged(src).push == Some(!src.disable_push->0)
            && dst.merged(src).disable_push is None && src.has_deprecated(),
        src.push is None && src.disable_push is None ==> dst.merged(src).push == dst.push
            && dst.merged(src).disable_push == dst.disable_push,
        src.dev_version is Some ==> dst.merged(src).dev_version == src.dev_version && dst.merged(src).no_dev_version is None,
        src.dev_version is None && src.no_dev_version is Some ==> dst.merged(src).dev_version == Some(!src.no_dev_version->0)
            && dst.merged(src).no_dev_version is None && src.has_deprecated(),
        src.dev_version is None && src.no_dev_version is None ==> dst.merged(src).dev_version == dst.dev_version
            && dst.merged(src).no_dev_version == dst.no_dev_version,
        src.tag is Some ==> dst.merged(src).tag == src.tag && dst.merged(src).disable_tag is None,
        src.tag is None && src.disable_tag is Some ==> dst.merged(src).tag == Some(!src.disable_tag->0)
            && dst.merged(src).disable_tag is None && src.has_deprecated(),
        src.tag is None && src.disable_tag is None ==> dst.merged(src).tag == dst.tag
            && dst.merged(src).disable_tag == dst.disable_tag,
{
}

/// Resolves a flag given in a positive and a deprecated negative spelling.
/// Setting both is an error; the negative one alone gives its negation.
pub fn resolve_bool_arg(yes: Option<bool>, no: Option<bool>) -> (r: Result<Option<bool>, FatalError>)
    ensures
        r is Err <==> flags_conflict(yes, no),
        r is Ok ==> r == Ok::<Option<bool>, FatalError>(flag_value(yes, no)),
{
    match (yes, no) {
        (Some(_), Some(_)) => Err(
            FatalError::ConflictingFlags(
                String::from_str("a flag and its negative spelling are both set"),
            ),
        ),
        (Some(y), None) => Ok(Some(y)),
        (None, Some(n)) => Ok(Some(!n)),
        (None, None) => Ok(None),
    }
}

pub(crate) fn copy_strings(v: &Vec<String>) -> (r: Vec<String>)
    ensures
        r@ == v@,
{
    let mut r: Vec<String> = Vec::new();
    let mut i: usize = 0;
    while i < v.len()
        invariant
            i <= v.len(),
            r@ == v@.subrange(0, i as int),
        decreases v.len() - i,
    {
        r.push(v[i].clone());
        i += 1;
    }
    assert(r@ =~= v@);
    r
}

fn copy_rules(v: &Vec<Replace>) -> (r: Vec<Replace>)
    ensures
        r@ == v@,
{
    let mut r: Vec<Replace> = Vec::new();
    let mut i: usize = 0;
    while i < v.len()
        invariant
            i <= v.len(),
            r@ == v@.subrange(0, i as int),
        decreases v.len() - i,
    {
        r.push(v[i].copy());
        i += 1;
    }
    assert(r@ =~= v@);
    r
}

fn copy_opt_string(o: &Option<String>) -> (r: Option<String>)
    ensures
        r == *o,
{
    match o {
        Some(s) => Some(s.clone()),
        None => None,
    }
}

fn copy_opt_strings(o: &Option<Vec<String>>) -> (r: Option<Vec<String>>)
    ensures
        vec_opt(r) == vec_opt(*o),
{
    match o {
        Some(v) => Some(copy_strings(v)),
        None => None,
    }
}

fn copy_opt_rules(o: &Option<Vec<Replace>>) -> (r: Option<Vec<Replace>>)
    ensures
        vec_opt(r) == vec_opt(*o),
{
    match o {
        Some(v) => Some(copy_rules(v)),
        None => None,
    }
}

impl Replace {
    /// A copy of this rule.
    pub fn copy(&self) -> (r: Replace)
        ensures
            r == *self,
    {
        Replace {
            file: self.file.clone(),
            search: self.search.clone(),
            replace: self.replace.clone(),
            min: self.min,
            max: self.max,
            exactly: self.exactly,
            prerelease: self.prerelease,
        }
    }
}

impl Command {
    /// A copy of this command.
    pub fn copy(&self) -> (r: Command)
        ensures
            r@ == self@,
    {
        match self {
            Command::Line(s) => Command::Line(s.clone()),
            Command::Args(a) => Command::Args(copy_strings(a)),
        }
    }

    /// The command's words: the line itself, or the program and its
    /// arguments.
    pub fn args(&self) -> (r: Vec<&str>)
        ensures
            r@.len() == (match self@ {
                CommandView::Line(_) => 1,
                CommandView::Args(a) => a.len(),
            }),
            forall|i: int|
                0 <= i < r@.len() ==> r@[i]@ == (match self@ {
                    CommandView::Line(l) => l,
                    CommandView::Args(a) => a[i]@,
                }),
    {
        match self {
            Command::Line(s) => {
                let mut r: Vec<&str> = Vec::new();
                r.push(s.as_str());
                r
            },
            Command::Args(a) => {
                let mut r: Vec<&str> = Vec::new();
                let mut i: usize = 0;
                while i < a.len()
                    invariant
                        i <= a.len(),
                        r@.len() == i,
                        forall|j: int| 0 <= j < i ==> r@[j]@ == a@[j]@,
                    decreases a.len() - i,
                {
                    r.push(a[i].as_str());
                    i += 1;
                }
                r
            },
        }
    }
}

fn copy_opt_command(o: &Option<Command>) -> (r: Option<Command>)
    ensures
        cmd_opt(r) == cmd_opt(*o),
{
    match o {
        Some(c) => Some(c.copy()),
        None => None,
    }
}

fn overlay_copy<T: Copy>(dst: Option<T>, src: Option<T>) -> (r: Option<T>)
    ensures
        r == overlay(dst, src),
{
    if src.is_some() {
        src
    } else {
        dst
    }
}

fn cleared_if_set(dst: Option<bool>, src: Option<bool>) -> (r: Option<bool>)
    ensures
        r == (if src is Some {
            None
        } else {
            dst
        }),
{
    if src.is_some() {
        None
    } else {
        dst
    }
}

fn overlay_string(dst: &Option<String>, src: &Option<String>) -> (r: Option<String>)
    ensures
        str_opt(r) == overlay(str_opt(*dst), str_opt(*src)),
{
    if src.is_some() {
        copy_opt_string(src)
    } else {
        copy_opt_string(dst)
    }
}

fn overlay_strings(dst: &Option<Vec<String>>, src: &Option<Vec<String>>) -> (r: Option<Vec<String>>)
    ensures
        vec_opt(r) == overlay(vec_opt(*dst), vec_opt(*src)),
{
    if src.is_some() {
        copy_opt_strings(src)
    } else {
        copy_opt_strings(dst)
    }
}

fn overlay_rules(dst: &Option<Vec<Replace>>, src: &Option<Vec<Replace>>) -> (r: Option<Vec<Replace>>)
    ensures
        vec_opt(r) == overlay(vec_opt(*dst), vec_opt(*src)),
{
    if src.is_some() {
        copy_opt_rules(src)
    } else {
        copy_opt_rules(dst)
    }
}

fn overlay_command(dst: &Option<Command>, src: &Option<Command>) -> (r: Option<Command>)
    ensures
        cmd_opt(r) == overlay(cmd_opt(*dst), cmd_opt(*src)),
{
    if src.is_some() {
        copy_opt_command(src)
    } else {
        copy_opt_command(dst)
    }
}

impl Default for Config {
    fn default() -> (r: Config)
        ensures
            r@ == ConfigView::empty(),
    {
        Config {
            allow_branch: None,
            sign_commit: None,
            sign_tag: None,
            push_remote: None,
            registry: None,
            release: None,
            disable_release: None,
            publish: None,
            disable_publish: None,
            rust_version: None,
            verify: None,
            disable_verify: None,
            push: None,
            disable_push: None,
            push_options: None,
            dev_version_ext: None,
            dev_version: None,
            no_dev_version: None,
            shared_version: None,
            consolidate_commits: None,
            consolidate_pushes: None,
            pre_release_commit_message: None,
            post_release_commit_message: None,
            pre_release_replacements: None,
            post_release_replacements: None,
            pre_release_hook: None,
            tag_message: None,
            tag_prefix: None,
            tag_name: None,
            tag: None,
            disable_tag: None,
            enable_features: None,
            enable_all_features: None,
            dependent_version: None,
        }
    }
}

impl Config {
    /// Merges a more specific layer over this configuration: every field
    /// that `source` defines replaces this one's value, whole. A layer that
    /// sets both spellings of a flag is refused, and nothing changes.
    pub fn update(&mut self, source: &Config) -> (r: Result<(), FatalError>)
        ensures
            r is Err <==> source@.has_conflict(),
            r is Err ==> final(self)@ == old(self)@,
            r is Ok ==> final(self)@ == old(self)@.merged(source@),
    {
        let release = match resolve_bool_arg(source.release, source.disable_release) {
            Ok(v) => v,
            Err(e) => return Err(e),
        };
        let publish = match resolve_bool_arg(source.publish, source.disable_publish) {
            Ok(v) => v,
            Err(e) => return Err(e),
        };
        let verify = match resolve_bool_arg(source.verify, source.disable_verify) {
            Ok(v) => v,
            Err(e) => return Err(e),
        };
        let push = match resolve_bool_arg(source.push, source.disable_push) {
            Ok(v) => v,
            Err(e) => return Err(e),
        };
        let dev_version = match resolve_bool_arg(source.dev_version, source.no_dev_version) {
            Ok(v) => v,
            Err(e) => return Err(e),
        };
        let tag = match resolve_bool_arg(source.tag, source.disable_tag) {
            Ok(v) => v,
            Err(e) => return Err(e),
        };
        let merged = Config {
            allow_branch: overlay_strings(&self.allow_branch, &source.allow_branch),
            sign_commit: overlay_copy(self.sign_commit, source.sign_commit),
            sign_tag: overlay_copy(self.sign_tag, source.sign_tag),
            push_remote: overlay_string(&self.push_remote, &source.push_remote),
            registry: overlay_string(&self.registry, &source.registry),
            release: overlay_copy(self.release, release),
            disable_release: cleared_if_set(self.disable_release, release),
            publish: overlay_copy(self.publish, publish),
            disable_publish: cleared_if_set(self.disable_publish, publish),
            rust_version: overlay_string(&self.rust_version, &source.rust_version),
            verify: overlay_copy(self.verify, verify),
            disable_verify: cleared_if_set(self.disable_verify, verify),
            push: overlay_copy(self.push, push),
            disable_push: cleared_if_set(self.disable_push, push),
            push_options: overlay_strings(&self.push_options, &source.push_options),
            dev_version_ext: overlay_string(&self.dev_version_ext, &source.dev_version_ext),
            dev_version: overlay_copy(self.dev_version, dev_version),
            no_dev_version: cleared_if_set(self.no_dev_version, dev_version),
            shared_version: overlay_copy(self.shared_version, source.shared_version),
            consolidate_commits: overlay_copy(self.consolidate_commits, source.consolidate_commits),
            consolidate_pushes: overlay_copy(self.consolidate_pushes, source.consolidate_pushes),
            pre_release_commit_message: overlay_string(&self.pre_release_commit_message, &source.pre_release_commit_message),
            post_release_commit_message: overlay_string(&self.post_release_commit_message, &source.post_release_commit_message),
            pre_release_replacements: overlay_rules(&self.pre_release_replacements, &source.pre_release_replacements),
            post_release_replacements: overlay_rules(&self.post_release_replacements, &source.post_release_replacements),
            pre_release_hook: overlay_command(&self.pre_release_hook, &source.pre_release_hook),
            tag_message: overlay_string(&self.tag_message, &source.tag_message),
            tag_prefix: overlay_string(&self.tag_prefix, &source.tag_prefix),
            tag_name: overlay_string(&self.tag_name, &source.tag_name),
            tag: overlay_copy(self.tag, tag),
            disable_tag: cleared_if_set(self.disable_tag, tag),
            enable_features: overlay_strings(&self.enable_features, &source.enable_features),
            enable_all_features: overlay_copy(self.enable_all_features, source.enable_all_features),
            dependent_version: overlay_copy(self.dependent_version, source.dependent_version),
        };
        *self = merged;
        assert(self@ =~~= old(self)@.merged(source@));
        Ok(())
    }

    /// Whether some flag of this layer is given only by its deprecated
    /// negative spelling, which calls for a warning.
    pub fn uses_deprecated_flags(&self) -> (r: bool)
        ensures
            r == self@.has_deprecated(),
    {
        (self.release.is_none() && self.disable_release.is_some())
            || (self.publish.is_none() && self.disable_publish.is_some())
            || (self.verify.is_none() && self.disable_verify.is_some())
            || (self.push.is_none() && self.disable_push.is_some())
            || (self.dev_version.is_none() && self.no_dev_version.is_some())
            || (self.tag.is_none() && self.disable_tag.is_some())
    }

    /// Branch globs a release may happen from; `*` and `!HEAD` by default.
    pub fn allow_branch(&self) -> (r: Vec<String>)
        ensures
            match self.allow_branch {
                Some(v) => r@ == v@,
                None => r@.len() == 2 && r@[0]@ == "*"@ && r@[1]@ == "!HEAD"@,
            },
    {
        match &self.allow_branch {
            Some(v) => copy_strings(v),
            None => {
                let mut r: Vec<String> = Vec::new();
                r.push(String::from_str("*"));
                r.push(String::from_str("!HEAD"));
                r
            },
        }
    }

    pub fn sign_commit(&self) -> (r: bool)
        ensures
            r == self.sign_commit.unwrap_or(false),
    {
        self.sign_commit.unwrap_or(false)
    }

    pub fn sign_tag(&self) -> (r: bool)
        ensures
            r == self.sign_tag.unwrap_or(false),
    {
        self.sign_tag.unwrap_or(false)
    }

    pub fn push_remote(&self) -> (r: &str)
        ensures
            r@ == str_opt(self.push_remote).unwrap_or("origin"@),
    {
        match &self.push_remote {
            Some(s) => s.as_str(),
            None => "origin",
        }
    }

    pub fn registry(&self) -> (r: Option<&str>)
        ensures
            r is Some <==> self.registry is Some,
            r matches Some(s) ==> s@ == self.registry->0@,
    {
        match &self.registry {
            Some(s) => Some(s.as_str()),
            None => None,
        }
    }

    pub fn release(&self) -> (r: bool)
        requires
            !flags_conflict(self.release, self.disable_release),
        ensures
            r == flag_value(self.release, self.disable_release).unwrap_or(true),
    {
        flag_or(self.release, self.disable_release, true)
    }

    pub fn publish(&self) -> (r: bool)
        requires
            !flags_conflict(self.publish, self.disable_publish),
        ensures
            r == flag_value(self.publish, self.disable_publish).unwrap_or(true),
    {
        flag_or(self.publish, self.disable_publish, true)
    }

    pub fn rust_version(&self) -> (r: Option<&str>)
        ensures
            r is Some <==> self.rust_version is Some,
            r matches Some(s) ==> s@ == self.rust_version->0@,
    {
        match &self.rust_version {
            Some(s) => Some(s.as_str()),
            None => None,
        }
    }

    pub fn verify(&self) -> (r: bool)
        requires
            !flags_conflict(self.verify, self.disable_verify),
        ensures
            r == flag_value(self.verify, self.disable_verify).unwrap_or(true),
    {
        flag_or(self.verify, self.disable_verify, true)
    }

    pub fn push(&self) -> (r: bool)
        requires
            !flags_conflict(self.push, self.disable_push),
        ensures
            r == flag_value(self.push, self.disable_push).unwrap_or(true),
    {
        flag_or(self.push, self.disable_push, true)
    }

    pub fn push_options(&self) -> (r: &[String])
        ensures
            r@ == vec_opt(self.push_options).unwrap_or(Seq::empty()),
    {
        match &self.push_options {
            Some(v) => v.as_slice(),
            None => &[],
        }
    }

    pub fn dev_version_ext(&self) -> (r: &str)
        ensures
            r@ == str_opt(self.dev_version_ext).unwrap_or("alpha.0"@),
    {
        match &self.dev_version_ext {
            Some(s) => s.as_str(),
            None => "alpha.0",
        }
    }

    pub fn dev_version(&self) -> (r: bool)
        requires
            !flags_conflict(self.dev_version, self.no_dev_version),
        ensures
            r == flag_value(self.dev_version, self.no_dev_version).unwrap_or(false),
    {
        flag_or(self.dev_version, self.no_dev_version, false)
    }

    pub fn shared_version(&self) -> (r: bool)
        ensures
            r == self.shared_version.unwrap_or(false),
    {
        self.shared_version.unwrap_or(false)
    }

    pub fn consolidate_commits(&self) -> (r: bool)
        ensures
            r == self.consolidate_commits.unwrap_or(false),
    {
        self.consolidate_commits.unwrap_or(false)
    }

    pub fn consolidate_pushes(&self) -> (r: bool)
        ensures
            r == self.consolidate_pushes.unwrap_or(false),
    {
        self.consolidate_pushes.unwrap_or(false)
    }

    pub fn pre_release_commit_message(&self) -> (r: &str)
        ensures
            r@ == str_opt(self.pre_release_commit_message).unwrap_or(
                "(cargo-release) version {{version}}"@,
            ),
    {
        match &self.pre_release_commit_message {
            Some(s) => s.as_str(),
            None => "(cargo-release) version {{version}}",
        }
    }

    pub fn post_release_commit_message(&self) -> (r: &str)
        ensures
            r@ == str_opt(self.post_release_commit_message).unwrap_or(
                "(cargo-release) start next development iteration {{next_version}}"@,
            ),
    {
        match &self.post_release_commit_message {
            Some(s) => s.as_str(),
            None => "(cargo-release) start next development iteration {{next_version}}",
        }
    }

    pub fn pre_release_replacements(&self) -> (r: &[Replace])
        ensures
            r@ == vec_opt(self.pre_release_replacements).unwrap_or(Seq::empty()),
    {
        match &self.pre_release_replacements {
            Some(v) => v.as_slice(),
            None => &[],
        }
    }

    pub fn post_release_replacements(&self) -> (r: &[Replace])
        ensures
            r@ == vec_opt(self.post_release_replacements).unwrap_or(Seq::empty()),
    {
        match &self.post_release_replacements {
            Some(v) => v.as_slice(),
            None => &[],
        }
    }

    pub fn pre_release_hook(&self) -> (r: Option<&Command>)
        ensures
            r is Some <==> self.pre_release_hook is Some,
            r matches Some(c) ==> *c == self.pre_release_hook->0,
    {
        match &self.pre_release_hook {
            Some(c) => Some(c),
            None => None,
        }
    }

    pub fn tag_message(&self) -> (r: &str)
        ensures
            r@ == str_opt(self.tag_message).unwrap_or(
                "(cargo-release) {{crate_name}} version {{version}}"@,
            ),
    {
        match &self.tag_message {
            Some(s) => s.as_str(),
            None => "(cargo-release) {{crate_name}} version {{version}}",
        }
    }

    /// The tag prefix; by default empty for the workspace root package and
    /// the package's name followed by `-` for any other.
    pub fn tag_prefix(&self, is_root: bool) -> (r: &str)
        ensures
            r@ == str_opt(self.tag_prefix).unwrap_or(
                if is_root {
                    ""@
                } else {
                    "{{crate_name}}-"@
                },
            ),
    {
        match &self.tag_prefix {
            Some(s) => s.as_str(),
            None => if is_root {
                ""
            } else {
                "{{crate_name}}-"
            },
        }
    }

    pub fn tag_name(&self) -> (r: &str)
        ensures
            r@ == str_opt(self.tag_name).unwrap_or("{{prefix}}v{{version}}"@),
    {
        match &self.tag_name {
            Some(s) => s.as_str(),
            None => "{{prefix}}v{{version}}",
        }
    }

    pub fn tag(&self) -> (r: bool)
        requires
            !flags_conflict(self.tag, self.disable_tag),
        ensures
            r == flag_value(self.tag, self.disable_tag).unwrap_or(true),
    {
        flag_or(self.tag, self.disable_tag, true)
    }

    pub fn enable_features(&self) -> (r: &[String])
        ensures
            r@ == vec_opt(self.enable_features).unwrap_or(Seq::empty()),
    {
        match &self.enable_features {
            Some(v) => v.as_slice(),
            None => &[],
        }
    }

    pub fn enable_all_features(&self) -> (r: bool)
        ensures
            r == self.enable_all_features.unwrap_or(false),
    {
        self.enable_all_features.unwrap_or(false)
    }

    /// All features when asked for, else the listed ones, else none.
    pub fn features(&self) -> (r: Features)
        ensures
            self.enable_all_features.unwrap_or(false) ==> r is All,
            !self.enable_all_features.unwrap_or(false) ==> match r {
                Features::All => false,
                Features::Empty => vec_opt(self.enable_features).unwrap_or(Seq::empty()).len()
                    == 0,
                Features::Selective(v) => v@.len() > 0 && v@ == vec_opt(
                    self.enable_features,
                ).unwrap_or(Seq::empty()),
            },
    {
        if self.enable_all_features() {
            Features::All
        } else {
            match &self.enable_features {
                Some(v) => if v.len() == 0 {
                    Features::Empty
                } else {
                    Features::Selective(copy_strings(v))
                },
                None => Features::Empty,
            }
        }
    }

    pub fn dependent_version(&self) -> (r: DependentVersion)
        ensures
            r == self.dependent_version.unwrap_or(DependentVersion::Fix),
    {
        match self.dependent_version {
            Some(d) => d,
            None => DependentVersion::default(),
        }
    }
}

/// The value of a flag pair with at most one spelling set, or `default`
/// when neither is.
fn flag_or(yes: Option<bool>, no: Option<bool>, default: bool) -> (r: bool)
    requires
        !flags_conflict(yes, no),
    ensures
        r == flag_value(yes, no).unwrap_or(default),
{
    match (yes, no) {
        (Some(y), _) => y,
        (None, Some(n)) => !n,
        (None, None) => default,
    }
}

impl ConfigView {
    /// No flag is held in its negative spelling.
    pub open spec fn positive_only(self) -> bool {
        &&& self.disable_release is None
        &&& self.disable_publish is None
        &&& self.disable_verify is None
        &&& self.disable_push is None
        &&& self.no_dev_version is None
        &&& self.disable_tag is None
    }
}

/// Folding layers keeps every flag in its positive spelling.
pub proof fn lemma_fold_positive_only(layers: Seq<ConfigView>)
    ensures
        fold_layers(layers).positive_only(),
    decreases layers.len(),
{
    if layers.len() > 0 {
        lemma_fold_positive_only(layers.drop_last());
    }
}

/// Folds an ordered list of layers, least specific first, into one
/// configuration. Fails, naming no layer in particular, when some layer
/// sets both spellings of a flag.
pub fn resolve_layers(layers: &Vec<Config>) -> (r: Result<Config, FatalError>)
    ensures
        r is Err <==> exists|i: int| 0 <= i < layers@.len() && (#[trigger] layers@[i])@.has_conflict(),
        r matches Ok(c) ==> c@ == fold_layers(layers@.map_values(|l: Config| l@)),
        r matches Ok(c) ==> c@.positive_only(),
{
    let mut config = Config::default();
    let mut i: usize = 0;
    while i < layers.len()
        invariant
            i <= layers.len(),
            forall|j: int| 0 <= j < i ==> !(#[trigger] layers@[j])@.has_conflict(),
            config@ == fold_layers(layers@.subrange(0, i as int).map_values(|l: Config| l@)),
        decreases layers.len() - i,
    {
        let ghost before = layers@.subrange(0, i as int).map_values(|l: Config| l@);
        match config.update(&layers[i]) {
            Ok(()) => {},
            Err(e) => return Err(e),
        }
        proof {
            let after = layers@.subrange(0, i + 1).map_values(|l: Config| l@);
            assert(after.drop_last() =~= before);
            assert(after.last() == layers@[i as int]@);
        }
        i += 1;
    }
    assert(layers@.subrange(0, layers@.len() as int) =~= layers@);
    proof {
        lemma_fold_positive_only(layers@.map_values(|l: Config| l@));
    }
    Ok(config)
}

/// A field of the folded configuration, read by `out`, is the value that the
/// last layer defining it gave, read from each layer by `inp`.
proof fn lemma_fold_field<T>(
    layers: Seq<ConfigView>,
    out: spec_fn(ConfigView) -> Option<T>,
    inp: spec_fn(ConfigView) -> Option<T>,
)
    requires
        out(ConfigView::empty()) is None,
        forall|a: ConfigView, b: ConfigView| #[trigger]
            out(a.merged(b)) == overlay(out(a), inp(b)),
    ensures
        out(fold_layers(layers)) == last_defined(layers.map_values(inp)),
    decreases layers.len(),
{
    if layers.len() > 0 {
        lemma_fold_field(layers.drop_last(), out, inp);
        assert(layers.map_values(inp).drop_last() =~= layers.drop_last().map_values(inp));
    }
}

/// For any ordered list of layers, each field of the effective
/// configuration holds the value set by the last (most specific) layer that
/// defines it, and stays unset when no layer does; a flag pair counts as
/// defined when either spelling is set.
pub proof fn lemma_last_layer_wins(layers: Seq<ConfigView>)
    ensures
        fold_layers(layers).allow_branch == last_defined(layers.map_values(|l: ConfigView| l.allow_branch)),
        fold_layers(layers).sign_commit == last_defined(layers.map_values(|l: ConfigView| l.sign_commit)),
        fold_layers(layers).sign_tag == last_defined(layers.map_values(|l: ConfigView| l.sign_tag)),
        fold_layers(layers).push_remote == last_defined(layers.map_values(|l: ConfigView| l.push_remote)),
        fold_layers(layers).registry == last_defined(layers.map_values(|l: ConfigView| l.registry)),
        fold_layers(layers).rust_version == last_defined(layers.map_values(|l: ConfigView| l.rust_version)),
        fold_layers(layers).push_options == last_defined(layers.map_values(|l: ConfigView| l.push_options)),
        fold_layers(layers).dev_version_ext == last_defined(layers.map_values(|l: ConfigView| l.dev_version_ext)),
        fold_layers(layers).shared_version == last_defined(layers.map_values(|l: ConfigView| l.shared_version)),
        fold_layers(layers).consolidate_commits == last_defined(layers.map_values(|l: ConfigView| l.consolidate_commits)),
        fold_layers(layers).consolidate_pushes == last_defined(layers.map_values(|l: ConfigView| l.consolidate_pushes)),
        fold_layers(layers).pre_release_commit_message == last_defined(layers.map_values(|l: ConfigView| l.pre_release_commit_message)),
        fold_layers(layers).post_release_commit_message == last_defined(layers.map_values(|l: ConfigView| l.post_release_commit_message)),
        fold_layers(layers).pre_release_replacements == last_defined(layers.map_values(|l: ConfigView| l.pre_release_replacements)),
        fold_layers(layers).post_release_replacements == last_defined(layers.map_values(|l: ConfigView| l.post_release_replacements)),
        fold_layers(layers).pre_release_hook == last_defined(layers.map_values(|l: ConfigView| l.pre_release_hook)),
        fold_layers(layers).tag_message == last_defined(layers.map_values(|l: ConfigView| l.tag_message)),
        fold_layers(layers).tag_prefix == last_defined(layers.map_values(|l: ConfigView| l.tag_prefix)),
        fold_layers(layers).tag_name == last_defined(layers.map_values(|l: ConfigView| l.tag_name)),
        fold_layers(layers).enable_features == last_defined(layers.map_values(|l: ConfigView| l.enable_features)),
        fold_layers(layers).enable_all_features == last_defined(layers.map_values(|l: ConfigView| l.enable_all_features)),
        fold_layers(layers).dependent_version == last_defined(layers.map_values(|l: ConfigView| l.dependent_version)),
        fold_layers(layers).release == last_defined(
            layers.map_values(|l: ConfigView| flag_value(l.release, l.disable_release)),
        ),
        fold_layers(layers).publish == last_defined(
            layers.map_values(|l: ConfigView| flag_value(l.publish, l.disable_publish)),
        ),
        fold_layers(layers).verify == last_defined(
            layers.map_values(|l: ConfigView| flag_value(l.verify, l.disable_verify)),
        ),
        fold_layers(layers).push == last_defined(
            layers.map_values(|l: ConfigView| flag_value(l.push, l.disable_push)),
        ),
        fold_layers(layers).dev_version == last_defined(
            layers.map_values(|l: ConfigView| flag_value(l.dev_version, l.no_dev_version)),
        ),
        fold_layers(layers).tag == last_defined(
            layers.map_values(|l: ConfigView| flag_value(l.tag, l.disable_tag)),
        ),
{
    lemma_fold_field(layers, |c: ConfigView| c.allow_branch, |l: ConfigView| l.allow_branch);
    lemma_fold_field(layers, |c: ConfigView| c.sign_commit, |l: ConfigView| l.sign_commit);
    lemma_fold_field(layers, |c: ConfigView| c.sign_tag, |l: ConfigView| l.sign_tag);
    lemma_fold_field(layers, |c: ConfigView| c.push_remote, |l: ConfigView| l.push_remote);
    lemma_fold_field(layers, |c: ConfigView| c.registry, |l: ConfigView| l.registry);
    lemma_fold_field(layers, |c: ConfigView| c.rust_version, |l: ConfigView| l.rust_version);
    lemma_fold_field(layers, |c: ConfigView| c.push_options, |l: ConfigView| l.push_options);
    lemma_fold_field(layers, |c: ConfigView| c.dev_version_ext, |l: ConfigView| l.dev_version_ext);
    lemma_fold_field(layers, |c: ConfigView| c.shared_version, |l: ConfigView| l.shared_version);
    lemma_fold_field(layers, |c: ConfigView| c.consolidate_commits, |l: ConfigView| l.consolidate_commits);
    lemma_fold_field(layers, |c: ConfigView| c.consolidate_pushes, |l: ConfigView| l.consolidate_pushes);
    lemma_fold_field(layers, |c: ConfigView| c.pre_release_commit_message, |l: ConfigView| l.pre_release_commit_message);
    lemma_fold_field(layers, |c: ConfigView| c.post_release_commit_message, |l: ConfigView| l.post_release_commit_message);
    lemma_fold_field(layers, |c: ConfigView| c.pre_release_replacements, |l: ConfigView| l.pre_release_replacements);
    lemma_fold_field(layers, |c: ConfigView| c.post_release_replacements, |l: ConfigView| l.post_release_replacements);
    lemma_fold_field(layers, |c: ConfigView| c.pre_release_hook, |l: ConfigView| l.pre_release_hook);
    lemma_fold_field(layers, |c: ConfigView| c.tag_message, |l: ConfigView| l.tag_message);
    lemma_fold_field(layers, |c: ConfigView| c.tag_prefix, |l: ConfigView| l.tag_prefix);
    lemma_fold_field(layers, |c: ConfigView| c.tag_name, |l: ConfigView| l.tag_name);
    lemma_fold_field(layers, |c: ConfigView| c.enable_features, |l: ConfigView| l.enable_features);
    lemma_fold_field(layers, |c: ConfigView| c.enable_all_features, |l: ConfigView| l.enable_all_features);
    lemma_fold_field(layers, |c: ConfigView| c.dependent_version, |l: ConfigView| l.dependent_version);
    lemma_fold_field(layers, |c: ConfigView| c.release, |l: ConfigView| flag_value(l.release, l.disable_release));
    lemma_fold_field(layers, |c: ConfigView| c.publish, |l: ConfigView| flag_value(l.publish, l.disable_publish));
    lemma_fold_field(layers, |c: ConfigView| c.verify, |l: ConfigView| flag_value(l.verify, l.disable_verify));
    lemma_fold_field(layers, |c: ConfigView| c.push, |l: ConfigView| flag_value(l.push, l.disable_push));
    lemma_fold_field(layers, |c: ConfigView| c.dev_version, |l: ConfigView| flag_value(l.dev_version, l.no_dev_version));
    lemma_fold_field(layers, |c: ConfigView| c.tag, |l: ConfigView| flag_value(l.tag, l.disable_tag));
}

/// The `[package]` or `[workspace]` table of a manifest, as far as its
/// release configuration goes.
#[derive(Debug, Clone)]
pub struct CargoMetadata {
    pub release: Option<Config>,
}

#[derive(Debug, Clone)]
pub struct CargoWorkspace {
    pub metadata: Option<CargoMetadata>,
}

#[derive(Debug, Clone)]
pub struct CargoPackage {
    pub metadata: Option<CargoMetadata>,
}

/// A manifest's release configuration: `workspace.metadata.release` and
/// `package.metadata.release`.
#[derive(Debug, Clone)]
pub struct CargoManifest {
    pub workspace: Option<CargoWorkspace>,
    pub package: Option<CargoPackage>,
}

impl CargoWorkspace {
    /// The `metadata.release` table, if there is one.
    pub fn into_config(self) -> (r: Option<Config>)
        ensures
            r == (match self.metadata {
                Some(m) => m.release,
                None => None,
            }),
    {
        match self.metadata {
            Some(m) => m.release,
            None => None,
        }
    }
}

impl CargoPackage {
    /// The `metadata.release` table, if there is one.
    pub fn into_config(self) -> (r: Option<Config>)
        ensures
            r == (match self.metadata {
                Some(m) => m.release,
                None => None,
            }),
    {
        match self.metadata {
            Some(m) => m.release,
            None => None,
        }
    }
}

impl CargoManifest {
    /// The workspace's release configuration in this manifest.
    pub fn workspace_config(self) -> (r: Option<Config>)
        ensures
            r == (match self.workspace {
                Some(w) => match w.metadata {
                    Some(m) => m.release,
                    None => None,
                },
                None => None,
            }),
    {
        match self.workspace {
            Some(w) => w.into_config(),
            None => None,
        }
    }

    /// The package's release configuration in this manifest.
    pub fn package_config(self) -> (r: Option<Config>)
        ensures
            r == (match self.package {
                Some(p) => match p.metadata {
                    Some(m) => m.release,
                    None => None,
                },
                None => None,
            }),
    {
        match self.package {
            Some(p) => p.into_config(),
            None => None,
        }
    }
}

/// Where one configuration layer is read from.
#[derive(Debug, Clone)]
pub enum ConfigSource {
    /// A release configuration file.
    File(String),
    /// The `workspace.metadata.release` table of a manifest.
    WorkspaceManifest(String),
    /// The `package.metadata.release` table of a manifest.
    PackageManifest(String),
}

pub ghost enum SourceView {
    File(Seq<char>),
    WorkspaceManifest(Seq<char>),
    PackageManifest(Seq<char>),
}

impl View for ConfigSource {
    type V = SourceView;

    open spec fn view(&self) -> SourceView {
        match self {
            ConfigSource::File(p) => SourceView::File(p@),
            ConfigSource::WorkspaceManifest(p) => SourceView::WorkspaceManifest(p@),
            ConfigSource::PackageManifest(p) => SourceView::PackageManifest(p@),
        }
    }
}

pub open spec fn sources_view(s: Seq<ConfigSource>) -> Seq<SourceView> {
    s.map_values(|x: ConfigSource| x@)
}

/// The user's own layers: `.release.toml` in the home directory, then
/// `cargo-release/release.toml` in the configuration directory.
pub open spec fn user_sources(home: Option<Seq<char>>, config_dir: Option<Seq<char>>) -> Seq<
    SourceView,
> {
    (match home {
        Some(h) => seq![SourceView::File(path_join(h, ".release.toml"@))],
        None => Seq::empty(),
    }) + match config_dir {
        Some(c) => seq![SourceView::File(path_join(c, "cargo-release/release.toml"@))],
        None => Seq::empty(),
    }
}

pub open spec fn opt_text(o: Option<&str>) -> Option<Seq<char>> {
    match o {
        Some(s) => Some(s@),
        None => None,
    }
}

fn user_config_sources(home: Option<&str>, config_dir: Option<&str>) -> (r: Vec<ConfigSource>)
    ensures
        sources_view(r@) == user_sources(opt_text(home), opt_text(config_dir)),
{
    let mut r: Vec<ConfigSource> = Vec::new();
    if let Some(h) = home {
        r.push(ConfigSource::File(join_path(h, ".release.toml")));
    }
    if let Some(c) = config_dir {
        r.push(ConfigSource::File(join_path(c, "cargo-release/release.toml")));
    }
    assert(sources_view(r@) =~= user_sources(opt_text(home), opt_text(config_dir)));
    r
}

/// The layers of the workspace's own configuration, least specific first:
/// the user's layers, then `release.toml` and the workspace table of
/// `Cargo.toml` at the workspace root.
pub fn workspace_config_sources(home: Option<&str>, config_dir: Option<&str>, workspace_root: &str) -> (r:
    Vec<ConfigSource>)
    ensures
        sources_view(r@) == user_sources(opt_text(home), opt_text(config_dir)) + seq![
            SourceView::File(path_join(workspace_root@, "release.toml"@)),
            SourceView::WorkspaceManifest(path_join(workspace_root@, "Cargo.toml"@)),
        ],
{
    let mut r = user_config_sources(home, config_dir);
    let ghost user = sources_view(r@);
    r.push(ConfigSource::File(join_path(workspace_root, "release.toml")));
    r.push(ConfigSource::WorkspaceManifest(join_path(workspace_root, "Cargo.toml")));
    assert(sources_view(r@) =~= user + seq![
        SourceView::File(path_join(workspace_root@, "release.toml"@)),
        SourceView::WorkspaceManifest(path_join(workspace_root@, "Cargo.toml"@)),
    ]);
    r
}

/// The layers of one package's configuration, least specific first: the
/// user's layers, the workspace's `release.toml` (unless the package sits
/// at the workspace root), the workspace table of the package's manifest,
/// the package's `release.toml`, then the package table of its manifest.
pub fn package_config_sources(
    home: Option<&str>,
    config_dir: Option<&str>,
    workspace_root: &str,
    crate_root: &str,
    manifest_path: &str,
) -> (r: Vec<ConfigSource>)
    ensures
        sources_view(r@) == user_sources(opt_text(home), opt_text(config_dir)) + (if crate_root@
            != workspace_root@ {
            seq![SourceView::File(path_join(workspace_root@, "release.toml"@))]
        } else {
            Seq::empty()
        }) + seq![
            SourceView::WorkspaceManifest(manifest_path@),
            SourceView::File(path_join(crate_root@, "release.toml"@)),
            SourceView::PackageManifest(manifest_path@),
        ],
{
    let mut r = user_config_sources(home, config_dir);
    let ghost user = sources_view(r@);
    let separate = !texts_equal(crate_root, workspace_root);
    if separate {
        r.push(ConfigSource::File(join_path(workspace_root, "release.toml")));
    }
    let ghost middle = sources_view(r@);
    r.push(ConfigSource::WorkspaceManifest(String::from_str(manifest_path)));
    r.push(ConfigSource::File(join_path(crate_root, "release.toml")));
    r.push(ConfigSource::PackageManifest(String::from_str(manifest_path)));
    assert(sources_view(r@) =~= middle + seq![
        SourceView::WorkspaceManifest(manifest_path@),
        SourceView::File(path_join(crate_root@, "release.toml"@)),
        SourceView::PackageManifest(manifest_path@),
    ]);
    assert(middle =~= user + (if crate_root@ != workspace_root@ {
        seq![SourceView::File(path_join(workspace_root@, "release.toml"@))]
    } else {
        Seq::empty()
    }));
    r
}

impl Config {
    /// Applies what a package's manifest says to its resolved
    /// configuration: `publish = false` there turns publishing off, and a
    /// `rust-version` of `manifest` takes the manifest's own value, or none.
    pub fn apply_manifest(&mut self, manifest_publish: Option<bool>, manifest_rust_version: Option<String>)
        ensures
            final(self)@ == (ConfigView {
                publish: if manifest_publish == Some(false) {
                    Some(false)
                } else {
                    old(self)@.publish
                },
                disable_publish: if manifest_publish == Some(false) {
                    None
                } else {
                    old(self)@.disable_publish
                },
                rust_version: if old(self)@.rust_version == Some("manifest"@) {
                    str_opt(manifest_rust_version)
                } else {
                    old(self)@.rust_version
                },
                ..old(self)@
            }),
    {
        if manifest_publish == Some(false) {
            self.publish = Some(false);
            self.disable_publish = None;
        }
        let from_manifest = match &self.rust_version {
            Some(v) => texts_equal(v.as_str(), "manifest"),
            None => false,
        };
        if from_manifest {
            self.rust_version = manifest_rust_version;
        }
        assert(final(self)@ =~~= (ConfigView {
            publish: if manifest_publish == Some(false) {
                Some(false)
            } else {
                old(self)@.publish
            },
            disable_publish: if manifest_publish == Some(false) {
                None
            } else {
                old(self)@.disable_publish
            },
            rust_version: if old(self)@.rust_version == Some("manifest"@) {
                str_opt(manifest_rust_version)
            } else {
                old(self)@.rust_version
            },
            ..old(self)@
        }));
    }
}

} // verus!
