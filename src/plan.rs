use vstd::prelude::*;

use crate::config::{flag_value, flags_conflict, str_opt, Config, ConfigView, DependentVersion};
use crate::error::FatalError;
use crate::req::{req_matches, rewrite_outcome, semver_req_matches, upgrade_requirement, Rewrite};
use crate::template::{render_text, Template, TemplateView};
use crate::text::{first_index, lemma_first_index_bounds, lemma_first_index_prefix, strings_view};
use crate::version::{opt_version, BumpLevel, Version, VersionView};

verus! {

/// A requirement that a package declares on another package by name.
#[derive(Debug, Clone)]
pub struct Dependency {
    pub name: String,
    pub req: String,
}

impl View for Dependency {
    type V = (Seq<char>, Seq<char>);

    open spec fn view(&self) -> (Seq<char>, Seq<char>) {
        (self.name@, self.req@)
    }
}

/// The release state of one workspace package during one run.
#[derive(Debug, Clone)]
pub struct PackageRelease {
    pub name: String,
    pub is_root: bool,
    pub package_root: String,
    pub config: Config,
    pub initial_version: Version,
    pub planned_version: Option<Version>,
    pub planned_tag: Option<String>,
    pub dependencies: Vec<Dependency>,
}

/// What planning reads and writes of a package.
pub ghost struct PackageView {
    pub name: Seq<char>,
    pub release: bool,
    pub tag_enabled: bool,
    pub policy: DependentVersion,
    pub tag_name: Seq<char>,
    pub tag_prefix: Seq<char>,
    pub initial: VersionView,
    pub planned: Option<VersionView>,
    pub tag: Option<Seq<char>>,
    pub deps: Seq<(Seq<char>, Seq<char>)>,
}

pub open spec fn deps_view(d: Seq<Dependency>) -> Seq<(Seq<char>, Seq<char>)> {
    d.map_values(|x: Dependency| x@)
}

impl View for PackageRelease {
    type V = PackageView;

    open spec fn view(&self) -> PackageView {
        PackageView {
            name: self.name@,
            release: flag_value(self.config.release, self.config.disable_release).unwrap_or(true),
            tag_enabled: flag_value(self.config.tag, self.config.disable_tag).unwrap_or(true),
            policy: self.config.dependent_version.unwrap_or(DependentVersion::Fix),
            tag_name: str_opt(self.config.tag_name).unwrap_or("{{prefix}}v{{version}}"@),
            tag_prefix: str_opt(self.config.tag_prefix).unwrap_or(
                if self.is_root {
                    ""@
                } else {
                    "{{crate_name}}-"@
                },
            ),
            initial: self.initial_version@,
            planned: opt_version(self.planned_version),
            tag: str_opt(self.planned_tag),
            deps: deps_view(self.dependencies@),
        }
    }
}

pub open spec fn packages_view(p: Seq<PackageRelease>) -> Seq<PackageView> {
    p.map_values(|x: PackageRelease| x@)
}

pub open spec fn names(p: Seq<PackageView>) -> Seq<Seq<char>> {
    p.map_values(|x: PackageView| x.name)
}

/// Why planning stops.
pub ghost enum PlanError {
    InvalidReq(Seq<char>),
    UnsupportedReq(Seq<char>),
    Conflict(Seq<char>, Seq<char>),
    Overflow,
}

/// `e` is the error that reports `pe`.
pub open spec fn reports(e: FatalError, pe: PlanError) -> bool {
    match pe {
        PlanError::InvalidReq(t) => e matches FatalError::InvalidVersionReq(s) && s@ == t,
        PlanError::UnsupportedReq(t) => e matches FatalError::UnsupportedVersionReq(s) && s@ == t,
        PlanError::Conflict(d, p) => e matches FatalError::DependencyVersionConflict {
            dependent,
            dependency,
        } && dependent@ == d && dependency@ == p,
        PlanError::Overflow => e is VersionOverflow,
    }
}

/// What becomes of one requirement of a dependent.
pub ghost enum DepOutcome {
    Keep,
    Moved(Seq<char>),
    Warn,
    Fail(PlanError),
}

/// The requirement `dep` of package `j`: when it names a package planned
/// before `j` whose new version it no longer admits, `j`'s policy decides.
pub open spec fn dep_outcome(state: Seq<PackageView>, j: int, dep: (Seq<char>, Seq<char>)) -> DepOutcome {
    let t = first_index(names(state), dep.0);
    if t < 0 || t >= j || state[t].planned is None {
        DepOutcome::Keep
    } else {
        let v = state[t].planned->0;
        match semver_req_matches(dep.1, v.full_text()) {
            None => DepOutcome::Fail(PlanError::InvalidReq(dep.1)),
            Some(true) => DepOutcome::Keep,
            Some(false) => match state[j].policy {
                DependentVersion::Upgrade | DependentVersion::Fix => match rewrite_outcome(
                    dep.1,
                    v,
                ) {
                    Rewrite::Invalid => DepOutcome::Fail(PlanError::InvalidReq(dep.1)),
                    Rewrite::Unsupported => DepOutcome::Fail(PlanError::UnsupportedReq(dep.1)),
                    Rewrite::Unchanged => DepOutcome::Moved(dep.1),
                    Rewrite::Changed(t) => DepOutcome::Moved(t),
                },
                DependentVersion::Warn => DepOutcome::Warn,
                DependentVersion::Error => DepOutcome::Fail(
                    PlanError::Conflict(state[j].name, dep.0),
                ),
                DependentVersion::Ignore => DepOutcome::Keep,
            },
        }
    }
}

/// The requirements of a package after the first `n` are handled, the
/// dependencies that were only warned about, and whether an `Upgrade`
/// rewrite asks for a release of the package itself.
pub ghost struct DepState {
    pub deps: Seq<(Seq<char>, Seq<char>)>,
    pub warned: Seq<Seq<char>>,
    pub upgraded: bool,
}

pub open spec fn deps_upto(state: Seq<PackageView>, j: int, n: int) -> Result<DepState, PlanError>
    decreases n,
{
    if n <= 0 {
        Ok(DepState { deps: Seq::empty(), warned: Seq::empty(), upgraded: false })
    } else {
        match deps_upto(state, j, n - 1) {
            Err(e) => Err(e),
            Ok(ds) => {
                let dep = state[j].deps[n - 1];
                match dep_outcome(state, j, dep) {
                    DepOutcome::Keep => Ok(DepState { deps: ds.deps.push(dep), ..ds }),
                    DepOutcome::Moved(t) => Ok(
                        DepState {
                            deps: ds.deps.push((dep.0, t)),
                            warned: ds.warned,
                            upgraded: ds.upgraded || state[j].policy == DependentVersion::Upgrade,
                        },
                    ),
                    DepOutcome::Warn => Ok(
                        DepState {
                            deps: ds.deps.push(dep),
                            warned: ds.warned.push(dep.0),
                            upgraded: ds.upgraded,
                        },
                    ),
                    DepOutcome::Fail(e) => Err(e),
                }
            },
        }
    }
}

/// The planned version of a package: its version moved by `level` when it
/// is released and a level is asked for, by a patch when an `Upgrade`
/// rewrite of one of its requirements asks for it, and none otherwise.
pub open spec fn planned_for(p: PackageView, upgraded: bool, level: Option<BumpLevel>) -> Result<
    Option<VersionView>,
    PlanError,
> {
    if p.release && level is Some {
        if p.initial.bump_overflows(level->0) {
            Err(PlanError::Overflow)
        } else {
            Ok(p.initial.bumped(level->0))
        }
    } else if upgraded {
        if p.initial.bump_overflows(BumpLevel::Patch) {
            Err(PlanError::Overflow)
        } else {
            Ok(p.initial.bumped(BumpLevel::Patch))
        }
    } else {
        Ok(None)
    }
}

/// Package `j` planned against the packages before it.
pub open spec fn package_step(state: Seq<PackageView>, j: int, level: Option<BumpLevel>) -> Result<
    (PackageView, Seq<(Seq<char>, Seq<char>)>),
    PlanError,
> {
    match deps_upto(state, j, state[j].deps.len() as int) {
        Err(e) => Err(e),
        Ok(ds) => match planned_for(state[j], ds.upgraded, level) {
            Err(e) => Err(e),
            Ok(pv) => Ok(
                (
                    PackageView { deps: ds.deps, planned: pv, ..state[j] },
                    ds.warned.map_values(|w: Seq<char>| (state[j].name, w)),
                ),
            ),
        },
    }
}

/// The first `n` packages planned in order, with the warnings so far.
pub open spec fn plan_upto(pkgs: Seq<PackageView>, level: Option<BumpLevel>, n: int) -> Result<
    (Seq<PackageView>, Seq<(Seq<char>, Seq<char>)>),
    PlanError,
>
    decreases n,
{
    if n <= 0 {
        Ok((pkgs, Seq::empty()))
    } else {
        match plan_upto(pkgs, level, n - 1) {
            Err(e) => Err(e),
            Ok((st, ws)) => match package_step(st, n - 1, level) {
                Err(e) => Err(e),
                Ok((p, w)) => Ok((st.update(n - 1, p), ws + w)),
            },
        }
    }
}

/// The tag of a package: its tag-name template rendered with the rendered
/// prefix, the package's name and its bare planned (else current) version.
pub open spec fn tag_for(p: PackageView) -> Option<Seq<char>> {
    if p.tag_enabled {
        let base = match p.planned {
            Some(v) => v,
            None => p.initial,
        };
        let tv = TemplateView {
            prev_version: Seq::empty(),
            prev_metadata: Seq::empty(),
            version: base.bare_text(),
            metadata: Seq::empty(),
            crate_name: p.name,
            date: Seq::empty(),
            tag_name: Seq::empty(),
            prefix: Seq::empty(),
            next_version: Seq::empty(),
        };
        let prefix = render_text(tv, p.tag_prefix);
        Some(render_text(TemplateView { prefix, ..tv }, p.tag_name))
    } else {
        None
    }
}

/// The whole plan: every package planned in order, then tagged.
pub open spec fn plan_outcome(pkgs: Seq<PackageView>, level: Option<BumpLevel>) -> Result<
    (Seq<PackageView>, Seq<(Seq<char>, Seq<char>)>),
    PlanError,
> {
    match plan_upto(pkgs, level, pkgs.len() as int) {
        Err(e) => Err(e),
        Ok((st, ws)) => Ok((st.map_values(|p: PackageView| PackageView { tag: tag_for(p), ..p }), ws)),
    }
}

/// A dependent whose requirement no longer admits the new version of a
/// dependency, left as it is under the `Warn` policy.
#[derive(Debug, Clone)]
pub struct DependencyWarning {
    pub dependent: String,
    pub dependency: String,
}

pub open spec fn warnings_view(w: Seq<DependencyWarning>) -> Seq<(Seq<char>, Seq<char>)> {
    w.map_values(|x: DependencyWarning| (x.dependent@, x.dependency@))
}

/// The outcome of planning: every package with its planned version, tag
/// and requirements, and the warnings issued on the way.
#[derive(Debug, Clone)]
pub struct Plan {
    pub packages: Vec<PackageRelease>,
    pub warnings: Vec<DependencyWarning>,
}

enum DepAction {
    Keep,
    Moved(String),
    Warn,
}

fn find_package(pkgs: &Vec<PackageRelease>, name: &String) -> (r: Option<usize>)
    ensures
        match r {
            Some(i) => first_index(names(packages_view(pkgs@)), name@) == i,
            None => first_index(names(packages_view(pkgs@)), name@) < 0,
        },
{
    let ghost keys = names(packages_view(pkgs@));
    let mut j: usize = 0;
    while j < pkgs.len()
        invariant
            j <= pkgs@.len(),
            keys == names(packages_view(pkgs@)),
            first_index(keys.subrange(0, j as int), name@) < 0,
        decreases pkgs@.len() - j,
    {
        assert(keys.subrange(0, j + 1).drop_last() =~= keys.subrange(0, j as int));
        assert(keys.subrange(0, j + 1).last() == pkgs@[j as int].name@);
        if pkgs[j].name == *name {
            proof {
                lemma_first_index_prefix(keys, name@, j + 1);
            }
            return Some(j);
        }
        j += 1;
    }
    assert(keys.subrange(0, j as int) =~= keys);
    None
}

fn resolve_dep(pkgs: &Vec<PackageRelease>, j: usize, dep: &Dependency) -> (r: Result<
    DepAction,
    FatalError,
>)
    requires
        j < pkgs@.len(),
    ensures
        match dep_outcome(packages_view(pkgs@), j as int, dep@) {
            DepOutcome::Keep => r matches Ok(DepAction::Keep),
            DepOutcome::Moved(t) => r matches Ok(DepAction::Moved(s)) && s@ == t,
            DepOutcome::Warn => r matches Ok(DepAction::Warn),
            DepOutcome::Fail(e) => r matches Err(x) && reports(x, e),
        },
{
    let ghost state = packages_view(pkgs@);
    proof {
        lemma_first_index_bounds(names(state), dep.name@);
    }
    let t = match find_package(pkgs, &dep.name) {
        None => return Ok(DepAction::Keep),
        Some(t) => t,
    };
    if t >= j {
        return Ok(DepAction::Keep);
    }
    let v = match &pkgs[t].planned_version {
        None => return Ok(DepAction::Keep),
        Some(v) => v,
    };
    let matched = match req_matches(dep.req.as_str(), v) {
        Err(e) => return Err(e),
        Ok(b) => b,
    };
    if matched {
        return Ok(DepAction::Keep);
    }
    match pkgs[j].config.dependent_version() {
        DependentVersion::Upgrade | DependentVersion::Fix => {
            match upgrade_requirement(dep.req.as_str(), v) {
                Err(e) => Err(e),
                Ok(None) => Ok(DepAction::Moved(dep.req.clone())),
                Ok(Some(s)) => Ok(DepAction::Moved(s)),
            }
        },
        DependentVersion::Warn => Ok(DepAction::Warn),
        DependentVersion::Error => Err(
            FatalError::DependencyVersionConflict {
                dependent: pkgs[j].name.clone(),
                dependency: dep.name.clone(),
            },
        ),
        DependentVersion::Ignore => Ok(DepAction::Keep),
    }
}

proof fn lemma_deps_failure_persists(state: Seq<PackageView>, j: int, n: int, m: int)
    requires
        0 <= n <= m,
        deps_upto(state, j, n) is Err,
    ensures
        deps_upto(state, j, m) == deps_upto(state, j, n),
    decreases m - n,
{
    if n < m {
        lemma_deps_failure_persists(state, j, n, m - 1);
    }
}

fn plan_deps(pkgs: &Vec<PackageRelease>, j: usize) -> (r: Result<
    (Vec<Dependency>, Vec<String>, bool),
    FatalError,
>)
    requires
        j < pkgs@.len(),
    ensures
        match deps_upto(
            packages_view(pkgs@),
            j as int,
            packages_view(pkgs@)[j as int].deps.len() as int,
        ) {
            Ok(ds) => r matches Ok((d, w, u)) && deps_view(d@) == ds.deps && strings_view(w@)
                == ds.warned && u == ds.upgraded,
            Err(e) => r matches Err(x) && reports(x, e),
        },
{
    let ghost state = packages_view(pkgs@);
    let deps = &pkgs[j].dependencies;
    let mut out: Vec<Dependency> = Vec::new();
    let mut warned: Vec<String> = Vec::new();
    let mut upgraded = false;
    let mut k: usize = 0;
    while k < deps.len()
        invariant
            j < pkgs@.len(),
            state == packages_view(pkgs@),
            *deps == pkgs@[j as int].dependencies,
            state[j as int].deps == deps_view(deps@),
            k <= deps@.len(),
            deps_upto(state, j as int, k as int) matches Ok(ds) && deps_view(out@) == ds.deps
                && strings_view(warned@) == ds.warned && upgraded == ds.upgraded,
        decreases deps@.len() - k,
    {
        let dep = &deps[k];
        let ghost ds = deps_upto(state, j as int, k as int)->Ok_0;
        assert(state[j as int].deps[k as int] == dep@);
        match resolve_dep(pkgs, j, dep) {
            Err(e) => {
                proof {
                    lemma_deps_failure_persists(
                        state,
                        j as int,
                        k + 1,
                        state[j as int].deps.len() as int,
                    );
                }
                return Err(e);
            },
            Ok(DepAction::Keep) => {
                out.push(Dependency { name: dep.name.clone(), req: dep.req.clone() });
            },
            Ok(DepAction::Moved(t)) => {
                out.push(Dependency { name: dep.name.clone(), req: t });
                if pkgs[j].config.dependent_version() == DependentVersion::Upgrade {
                    upgraded = true;
                }
            },
            Ok(DepAction::Warn) => {
                out.push(Dependency { name: dep.name.clone(), req: dep.req.clone() });
                warned.push(dep.name.clone());
            },
        }
        assert(deps_view(out@) =~= deps_upto(state, j as int, k + 1)->Ok_0.deps);
        assert(strings_view(warned@) =~= deps_upto(state, j as int, k + 1)->Ok_0.warned);
        k += 1;
    }
    Ok((out, warned, upgraded))
}

fn plan_version(p: &PackageRelease, upgraded: bool, level: Option<BumpLevel>) -> (r: Result<
    Option<Version>,
    FatalError,
>)
    requires
        !flags_conflict(p.config.release, p.config.disable_release),
    ensures
        match planned_for(p@, upgraded, level) {
            Ok(pv) => r matches Ok(o) && opt_version(o) == pv,
            Err(e) => r matches Err(x) && reports(x, e),
        },
{
    if p.config.release() && level.is_some() {
        p.initial_version.bump(level.unwrap())
    } else if upgraded {
        p.initial_version.bump(BumpLevel::Patch)
    } else {
        Ok(None)
    }
}

fn tag_of(p: &PackageRelease) -> (r: Option<String>)
    requires
        !flags_conflict(p.config.tag, p.config.disable_tag),
    ensures
        str_opt(r) == tag_for(p@),
{
    if !p.config.tag() {
        return None;
    }
    let bare = match &p.planned_version {
        Some(v) => v.bare_version_string(),
        None => p.initial_version.bare_version_string(),
    };
    let base = Template {
        prev_version: None,
        prev_metadata: None,
        version: Some(bare),
        metadata: None,
        crate_name: Some(p.name.clone()),
        date: None,
        tag_name: None,
        prefix: None,
        next_version: None,
    };
    let prefix = base.render(p.config.tag_prefix(p.is_root));
    let with_prefix = Template { prefix: Some(prefix), ..base };
    Some(with_prefix.render(p.config.tag_name()))
}

proof fn lemma_plan_failure_persists(pkgs: Seq<PackageView>, level: Option<BumpLevel>, n: int, m: int)
    requires
        0 <= n <= m,
        plan_upto(pkgs, level, n) is Err,
    ensures
        plan_upto(pkgs, level, m) == plan_upto(pkgs, level, n),
    decreases m - n,
{
    if n < m {
        lemma_plan_failure_persists(pkgs, level, n, m - 1);
    }
}

/// Packages planned so far keep their names, and no more packages appear.
proof fn lemma_plan_keeps_names(pkgs: Seq<PackageView>, level: Option<BumpLevel>, n: int)
    requires
        0 <= n <= pkgs.len(),
        plan_upto(pkgs, level, n) is Ok,
    ensures
        plan_upto(pkgs, level, n)->Ok_0.0.len() == pkgs.len(),
        names(plan_upto(pkgs, level, n)->Ok_0.0) == names(pkgs),
    decreases n,
{
    if n > 0 {
        lemma_plan_keeps_names(pkgs, level, n - 1);
        let st = plan_upto(pkgs, level, n - 1)->Ok_0.0;
        let p = package_step(st, n - 1, level)->Ok_0.0;
        assert(names(st.update(n - 1, p)) =~= names(st));
    }
}

/// Packages not reached yet are as given.
proof fn lemma_plan_frame_after(pkgs: Seq<PackageView>, level: Option<BumpLevel>, n: int, i: int)
    requires
        0 <= n <= i < pkgs.len(),
        plan_upto(pkgs, level, n) is Ok,
    ensures
        plan_upto(pkgs, level, n)->Ok_0.0[i] == pkgs[i],
    decreases n,
{
    if n > 0 {
        lemma_plan_frame_after(pkgs, level, n - 1, i);
        lemma_plan_keeps_names(pkgs, level, n - 1);
    }
}

/// A package keeps what its own step gave it.
proof fn lemma_plan_frame_before(pkgs: Seq<PackageView>, level: Option<BumpLevel>, n: int, t: int)
    requires
        0 <= t < n <= pkgs.len(),
        plan_upto(pkgs, level, n) is Ok,
    ensures
        plan_upto(pkgs, level, n)->Ok_0.0[t] == plan_upto(pkgs, level, t + 1)->Ok_0.0[t],
    decreases n,
{
    if n > t + 1 {
        lemma_plan_frame_before(pkgs, level, n - 1, t);
        lemma_plan_keeps_names(pkgs, level, n - 1);
    }
}

/// No requirement handled on the way to a success failed.
proof fn lemma_deps_no_failure(state: Seq<PackageView>, j: int, n: int, k: int)
    requires
        0 <= k < n,
        deps_upto(state, j, n) is Ok,
    ensures
        !(dep_outcome(state, j, state[j].deps[k]) is Fail),
    decreases n,
{
    if k < n - 1 {
        lemma_deps_no_failure(state, j, n - 1, k);
    }
}

/// What the handled requirements are after the first `n`.
proof fn lemma_deps_content(state: Seq<PackageView>, j: int, n: int, k: int)
    requires
        0 <= k < n,
        deps_upto(state, j, n) is Ok,
    ensures
        deps_upto(state, j, n)->Ok_0.deps.len() == n,
        deps_upto(state, j, n)->Ok_0.deps[k] == match dep_outcome(state, j, state[j].deps[k]) {
            DepOutcome::Moved(t) => (state[j].deps[k].0, t),
            _ => state[j].deps[k],
        },
    decreases n,
{
    assert(deps_upto(state, j, n - 1) is Ok);
    if n > 1 {
        if k < n - 1 {
            lemma_deps_content(state, j, n - 1, k);
        } else {
            lemma_deps_content(state, j, n - 1, 0);
        }
    } else {
        assert(deps_upto(state, j, 0)->Ok_0.deps.len() == 0);
    }
}

/// When planning succeeds, a dependent under the `Upgrade` or `Fix`
/// policy whose requirement rejected the new version of a package planned
/// before it carries that requirement rewritten for the new version.
pub proof fn lemma_requirement_follows_new_version(
    pkgs: Seq<PackageView>,
    level: Option<BumpLevel>,
    j: int,
    k: int,
)
    requires
        0 <= j < pkgs.len(),
        pkgs[j].policy == DependentVersion::Upgrade || pkgs[j].policy == DependentVersion::Fix,
        0 <= k < pkgs[j].deps.len(),
    ensures
        plan_outcome(pkgs, level) matches Ok((planned, _)) ==> {
            let t = first_index(names(pkgs), pkgs[j].deps[k].0);
            let req = pkgs[j].deps[k].1;
            (0 <= t < j && planned[t].planned is Some && semver_req_matches(
                req,
                planned[t].planned->0.full_text(),
            ) == Some(false)) ==> planned[j].deps[k] == (
                pkgs[j].deps[k].0,
                match rewrite_outcome(req, planned[t].planned->0) {
                    Rewrite::Changed(x) => x,
                    _ => req,
                },
            )
        },
{
    let n = pkgs.len() as int;
    if plan_upto(pkgs, level, n) is Ok {
        let fin = plan_upto(pkgs, level, n)->Ok_0.0;
        if plan_upto(pkgs, level, j) is Err {
            lemma_plan_failure_persists(pkgs, level, j, n);
        }
        if plan_upto(pkgs, level, j + 1) is Err {
            lemma_plan_failure_persists(pkgs, level, j + 1, n);
        }
        let st = plan_upto(pkgs, level, j)->Ok_0.0;
        lemma_plan_keeps_names(pkgs, level, j);
        lemma_plan_keeps_names(pkgs, level, n);
        lemma_plan_frame_after(pkgs, level, j, j);
        assert(st[j] == pkgs[j]);
        let len = st[j].deps.len() as int;
        assert(deps_upto(st, j, len) is Ok);
        lemma_deps_content(st, j, len, k);
        lemma_plan_frame_before(pkgs, level, n, j);
        assert(fin[j].deps == deps_upto(st, j, len)->Ok_0.deps);
        let t = first_index(names(pkgs), pkgs[j].deps[k].0);
        if 0 <= t < j {
            lemma_plan_frame_before(pkgs, level, j, t);
            lemma_plan_frame_before(pkgs, level, n, t);
            assert(st[t] == fin[t]);
        }
        let out = plan_outcome(pkgs, level)->Ok_0.0;
        assert(out[j].deps == fin[j].deps);
        if 0 <= t < j {
            assert(out[t].planned == fin[t].planned);
        }
    }
}

/// When planning succeeds, no dependent under the `Error` policy is left
/// with a requirement that rejects the new version of a package planned
/// before it: such a requirement would have stopped the plan.
pub proof fn lemma_error_policy_is_honoured(pkgs: Seq<PackageView>, level: Option<BumpLevel>, j: int, k: int)
    requires
        0 <= j < pkgs.len(),
        pkgs[j].policy == DependentVersion::Error,
        0 <= k < pkgs[j].deps.len(),
    ensures
        plan_outcome(pkgs, level) matches Ok((planned, _)) ==> {
            let t = first_index(names(pkgs), pkgs[j].deps[k].0);
            (0 <= t < j && planned[t].planned is Some) ==> semver_req_matches(
                pkgs[j].deps[k].1,
                planned[t].planned->0.full_text(),
            ) == Some(true)
        },
{
    let n = pkgs.len() as int;
    if plan_upto(pkgs, level, n) is Ok {
        let fin = plan_upto(pkgs, level, n)->Ok_0.0;
        if plan_upto(pkgs, level, j) is Err {
            lemma_plan_failure_persists(pkgs, level, j, n);
        }
        if plan_upto(pkgs, level, j + 1) is Err {
            lemma_plan_failure_persists(pkgs, level, j + 1, n);
        }
        let st = plan_upto(pkgs, level, j)->Ok_0.0;
        lemma_plan_keeps_names(pkgs, level, j);
        lemma_plan_keeps_names(pkgs, level, n);
        lemma_plan_frame_after(pkgs, level, j, j);
        assert(st[j] == pkgs[j]);
        assert(package_step(st, j, level) is Ok);
        assert(deps_upto(st, j, st[j].deps.len() as int) is Ok);
        lemma_deps_no_failure(st, j, st[j].deps.len() as int, k);
        let t = first_index(names(pkgs), pkgs[j].deps[k].0);
        if 0 <= t < j {
            lemma_plan_frame_before(pkgs, level, j, t);
            lemma_plan_frame_before(pkgs, level, n, t);
            assert(st[t] == fin[t]);
        }
        let out = plan_outcome(pkgs, level)->Ok_0.0;
        if 0 <= t < j {
            assert(out[t].planned == fin[t].planned);
        }
    }
}

/// Plans a release of the workspace's packages, given dependencies before
/// dependents. Each released package's version moves by `level`, when
/// one is given. A
/// dependent whose requirement no longer admits the new version of a
/// package planned before it is handled by its own policy: `Upgrade` and
/// `Fix` rewrite the requirement (`Upgrade` also releases the dependent,
/// by a patch, when nothing else does), `Warn` reports it, `Ignore` leaves
/// it, and `Error` stops the whole plan. Then each package that tags gets
/// its tag name. The packages given are consumed: no partial plan remains
/// on failure.
pub fn plan(pkgs: Vec<PackageRelease>, level: Option<BumpLevel>) -> (r: Result<Plan, FatalError>)
    requires
        forall|i: int|
            0 <= i < pkgs@.len() ==> !flags_conflict(
                (#[trigger] pkgs@[i]).config.release,
                pkgs@[i].config.disable_release,
            ) && !flags_conflict(pkgs@[i].config.tag, pkgs@[i].config.disable_tag),
    ensures
        match plan_outcome(packages_view(pkgs@), level) {
            Err(e) => r matches Err(x) && reports(x, e),
            Ok((ps, ws)) => r matches Ok(p) && packages_view(p.packages@) == ps && warnings_view(
                p.warnings@,
            ) == ws && p.packages@.len() == pkgs@.len() && forall|i: int|
                0 <= i < pkgs@.len() ==> (#[trigger] p.packages@[i]).config == pkgs@[i].config
                    && p.packages@[i].package_root == pkgs@[i].package_root
                    && p.packages@[i].is_root == pkgs@[i].is_root,
        },
{
    let mut state = pkgs;
    let ghost initial = packages_view(state@);
    let mut warnings: Vec<DependencyWarning> = Vec::new();
    let mut j: usize = 0;
    assert(warnings_view(warnings@) =~= Seq::<(Seq<char>, Seq<char>)>::empty());
    while j < state.len()
        invariant
            forall|i: int|
                0 <= i < pkgs@.len() ==> !flags_conflict(
                    (#[trigger] pkgs@[i]).config.release,
                    pkgs@[i].config.disable_release,
                ) && !flags_conflict(pkgs@[i].config.tag, pkgs@[i].config.disable_tag),
            initial == packages_view(pkgs@),
            state@.len() == pkgs@.len(),
            j <= state@.len(),
            plan_upto(initial, level, j as int) == Ok::<
                (Seq<PackageView>, Seq<(Seq<char>, Seq<char>)>),
                PlanError,
            >((packages_view(state@), warnings_view(warnings@))),
            forall|i: int|
                0 <= i < state@.len() ==> (#[trigger] state@[i]).config == pkgs@[i].config
                    && state@[i].package_root == pkgs@[i].package_root && state@[i].is_root
                    == pkgs@[i].is_root && state@[i].name == pkgs@[i].name
                    && state@[i].initial_version == pkgs@[i].initial_version,
        decreases state@.len() - j,
    {
        let ghost before = packages_view(state@);
        let ghost wbefore = warnings_view(warnings@);
        assert(plan_upto(initial, level, j + 1) == match package_step(before, j as int, level) {
            Err(e) => Err(e),
            Ok((p, w)) => Ok((before.update(j as int, p), wbefore + w)),
        });
        let (deps, warned, upgraded) = match plan_deps(&state, j) {
            Ok(x) => x,
            Err(e) => {
                proof {
                    lemma_plan_failure_persists(initial, level, j + 1, initial.len() as int);
                }
                return Err(e);
            },
        };
        assert(pkgs@[j as int].config == state@[j as int].config);
        let planned = match plan_version(&state[j], upgraded, level) {
            Ok(v) => v,
            Err(e) => {
                proof {
                    lemma_plan_failure_persists(initial, level, j + 1, initial.len() as int);
                }
                return Err(e);
            },
        };
        let mut w: usize = 0;
        while w < warned.len()
            invariant
                w <= warned@.len(),
                j < state@.len(),
                warnings_view(warnings@) == wbefore + strings_view(warned@).subrange(
                    0,
                    w as int,
                ).map_values(|d: Seq<char>| (state@[j as int].name@, d)),
            decreases warned@.len() - w,
        {
            let ghost wprev = warnings@;
            warnings.push(
                DependencyWarning {
                    dependent: state[j].name.clone(),
                    dependency: warned[w].clone(),
                },
            );
            assert(warnings@ == wprev.push(warnings@[wprev.len() as int]));
            assert(warnings_view(warnings@) =~= warnings_view(wprev).push(
                (state@[j as int].name@, warned@[w as int]@),
            ));
            assert(strings_view(warned@).subrange(0, w + 1) =~= strings_view(warned@).subrange(
                0,
                w as int,
            ).push(warned@[w as int]@));
            assert(warnings_view(warnings@) =~= wbefore + strings_view(warned@).subrange(
                0,
                w + 1,
            ).map_values(|d: Seq<char>| (state@[j as int].name@, d)));
            w += 1;
        }
        assert(strings_view(warned@).subrange(0, w as int) =~= strings_view(warned@));
        state[j].dependencies = deps;
        state[j].planned_version = planned;
        assert(packages_view(state@) =~= before.update(
            j as int,
            package_step(before, j as int, level)->Ok_0.0,
        ));
        j += 1;
    }
    let ghost planned_state = packages_view(state@);
    let mut k: usize = 0;
    while k < state.len()
        invariant
            forall|i: int|
                0 <= i < pkgs@.len() ==> !flags_conflict(
                    (#[trigger] pkgs@[i]).config.release,
                    pkgs@[i].config.disable_release,
                ) && !flags_conflict(pkgs@[i].config.tag, pkgs@[i].config.disable_tag),
            k <= state@.len(),
            state@.len() == planned_state.len(),
            state@.len() == pkgs@.len(),
            forall|i: int|
                0 <= i < state@.len() ==> (#[trigger] state@[i]).config == pkgs@[i].config
                    && state@[i].package_root == pkgs@[i].package_root && state@[i].is_root
                    == pkgs@[i].is_root,
            forall|i: int|
                0 <= i < k ==> (#[trigger] packages_view(state@)[i]) == (PackageView {
                    tag: tag_for(planned_state[i]),
                    ..planned_state[i]
                }),
            forall|i: int|
                k <= i < state@.len() ==> (#[trigger] packages_view(state@)[i])
                    == planned_state[i],
        decreases state@.len() - k,
    {
        assert(pkgs@[k as int].config == state@[k as int].config);
        let t = tag_of(&state[k]);
        let ghost prev = state@;
        state[k].planned_tag = t;
        assert forall|i: int| 0 <= i < state@.len() && i != k implies state@[i] == prev[i] by {}
        assert forall|i: int| k < i < state@.len() implies packages_view(state@)[i]
            == planned_state[i] by {
            assert(packages_view(prev)[i] == planned_state[i]);
        }
        assert forall|i: int| 0 <= i < k implies packages_view(state@)[i] == (PackageView {
            tag: tag_for(planned_state[i]),
            ..planned_state[i]
        }) by {
            assert(packages_view(prev)[i] == (PackageView {
                tag: tag_for(planned_state[i]),
                ..planned_state[i]
            }));
        }
        assert(packages_view(prev)[k as int] == planned_state[k as int]);
        k += 1;
    }
    assert(packages_view(state@) =~= planned_state.map_values(
        |p: PackageView| PackageView { tag: tag_for(p), ..p },
    ));
    Ok(Plan { packages: state, warnings })
}

/// Whether a package left out by the user's selection must first be
/// looked up in the registry: it is set to release and publish, the run
/// asks for every unpublished package, and the user did not exclude it by
/// name. Such a package stays in the run only while its current version is
/// unpublished.
pub fn needs_publish_check(pkg: &PackageRelease, unpublished: bool, explicitly_excluded: bool) -> (r:
    bool)
    requires
        !flags_conflict(pkg.config.release, pkg.config.disable_release),
        !flags_conflict(pkg.config.publish, pkg.config.disable_publish),
    ensures
        r == (flag_value(pkg.config.release, pkg.config.disable_release).unwrap_or(true)
            && flag_value(pkg.config.publish, pkg.config.disable_publish).unwrap_or(true)
            && unpublished && !explicitly_excluded),
{
    pkg.config.release() && pkg.config.publish() && unpublished && !explicitly_excluded
}

/// Leaves a package out of the run: it is not released and none of its
/// pre-release replacements apply. Nothing else changes.
pub fn exclude_from_release(pkg: &mut PackageRelease)
    ensures
        final(pkg).config@ == (ConfigView {
            pre_release_replacements: Some(Seq::empty()),
            release: Some(false),
            disable_release: None,
            ..old(pkg).config@
        }),
        final(pkg)@ == (PackageView { release: false, ..old(pkg)@ }),
        final(pkg).package_root == old(pkg).package_root,
        final(pkg).is_root == old(pkg).is_root,
{
    pkg.config.pre_release_replacements = Some(Vec::new());
    pkg.config.release = Some(false);
    pkg.config.disable_release = None;
    assert(final(pkg).config@ =~~= (ConfigView {
        pre_release_replacements: Some(Seq::empty()),
        release: Some(false),
        disable_release: None,
        ..old(pkg).config@
    }));
}

/// Settles a package that had to be looked up in the registry: one whose
/// current version is already published leaves the run, one whose version
/// is unpublished stays as it is.
pub fn apply_publish_status(pkg: &mut PackageRelease, published: bool)
    ensures
        published ==> final(pkg).config@ == (ConfigView {
            pre_release_replacements: Some(Seq::empty()),
            release: Some(false),
            disable_release: None,
            ..old(pkg).config@
        }) && final(pkg)@ == (PackageView { release: false, ..old(pkg)@ }),
        !published ==> final(pkg)@ == old(pkg)@ && final(pkg).config@ == old(pkg).config@,
        final(pkg).package_root == old(pkg).package_root,
        final(pkg).is_root == old(pkg).is_root,
{
    if published {
        exclude_from_release(pkg);
    }
}

/// Leaves a package out of tagging and of the run, as when its planned tag
/// already exists: no tag is planned and it is not released.
pub fn exclude_from_tagging(pkg: &mut PackageRelease)
    ensures
        final(pkg).config@ == (ConfigView {
            tag: Some(false),
            disable_tag: None,
            release: Some(false),
            disable_release: None,
            ..old(pkg).config@
        }),
        final(pkg)@ == (PackageView { release: false, tag_enabled: false, tag: None, ..old(pkg)@ }),
        final(pkg).package_root == old(pkg).package_root,
        final(pkg).is_root == old(pkg).is_root,
{
    pkg.planned_tag = None;
    pkg.config.tag = Some(false);
    pkg.config.disable_tag = None;
    pkg.config.release = Some(false);
    pkg.config.disable_release = None;
    assert(final(pkg).config@ =~~= (ConfigView {
        tag: Some(false),
        disable_tag: None,
        release: Some(false),
        disable_release: None,
        ..old(pkg).config@
    }));
}

/// Package `i` can come once every workspace package it depends on, other
/// than itself, is in `placed`.
pub open spec fn deps_placed(pkgs: Seq<PackageView>, i: int, placed: Seq<int>) -> bool {
    forall|k: int|
        0 <= k < pkgs[i].deps.len() ==> {
            let t = #[trigger] first_index(names(pkgs), pkgs[i].deps[k].0);
            t < 0 || t == i || placed.contains(t)
        }
}

/// `ord` lists every package once, each after the workspace packages it
/// depends on.
pub open spec fn dependency_ordered(pkgs: Seq<PackageView>, ord: Seq<int>) -> bool {
    &&& ord.len() == pkgs.len()
    &&& forall|p: int| 0 <= p < ord.len() ==> 0 <= #[trigger] ord[p] < pkgs.len()
    &&& forall|p: int, q: int| 0 <= p < q < ord.len() ==> ord[p] != ord[q]
    &&& forall|p: int| 0 <= p < ord.len() ==> deps_placed(pkgs, #[trigger] ord[p], ord.subrange(0, p))
}

/// Fewer than all packages are in `placed`, and none of the others can
/// come next: each waits on a package that is not placed either.
pub open spec fn stuck(pkgs: Seq<PackageView>, placed: Seq<int>) -> bool {
    placed.len() < pkgs.len() && forall|i: int|
        0 <= i < pkgs.len() && !placed.contains(i) ==> !#[trigger] deps_placed(pkgs, i, placed)
}

fn ready(pkgs: &[PackageRelease], i: usize, placed: &Vec<bool>, ghost_ord: Ghost<Seq<int>>) -> (r: bool)
    requires
        i < pkgs@.len(),
        placed@.len() == pkgs@.len(),
        forall|t: int| 0 <= t < placed@.len() ==> (placed@[t] <==> ghost_ord@.contains(t)),
    ensures
        r == deps_placed(packages_view(pkgs@), i as int, ghost_ord@),
{
    let ghost view = packages_view(pkgs@);
    let deps = &pkgs[i].dependencies;
    let mut k: usize = 0;
    while k < deps.len()
        invariant
            i < pkgs@.len(),
            view == packages_view(pkgs@),
            *deps == pkgs@[i as int].dependencies,
            view[i as int].deps == deps_view(deps@),
            placed@.len() == pkgs@.len(),
            forall|t: int| 0 <= t < placed@.len() ==> (placed@[t] <==> ghost_ord@.contains(t)),
            k <= deps@.len(),
            forall|m: int|
                0 <= m < k ==> {
                    let t = #[trigger] first_index(names(view), view[i as int].deps[m].0);
                    t < 0 || t == i || ghost_ord@.contains(t)
                },
        decreases deps@.len() - k,
    {
        assert(view[i as int].deps[k as int].0 == deps@[k as int].name@);
        proof {
            lemma_first_index_bounds(names(view), deps@[k as int].name@);
        }
        match find_package_in(pkgs, &deps[k].name) {
            Some(t) => {
                if t != i && !placed[t] {
                    return false;
                }
            },
            None => {},
        }
        k += 1;
    }
    true
}

fn find_package_in(pkgs: &[PackageRelease], name: &String) -> (r: Option<usize>)
    ensures
        match r {
            Some(i) => first_index(names(packages_view(pkgs@)), name@) == i,
            None => first_index(names(packages_view(pkgs@)), name@) < 0,
        },
{
    let ghost keys = names(packages_view(pkgs@));
    let mut j: usize = 0;
    while j < pkgs.len()
        invariant
            j <= pkgs@.len(),
            keys == names(packages_view(pkgs@)),
            first_index(keys.subrange(0, j as int), name@) < 0,
        decreases pkgs@.len() - j,
    {
        assert(keys.subrange(0, j + 1).drop_last() =~= keys.subrange(0, j as int));
        assert(keys.subrange(0, j + 1).last() == pkgs@[j as int].name@);
        if pkgs[j].name == *name {
            proof {
                lemma_first_index_prefix(keys, name@, j + 1);
            }
            return Some(j);
        }
        j += 1;
    }
    assert(keys.subrange(0, j as int) =~= keys);
    None
}

/// An order in which to plan the packages: each after the workspace
/// packages it depends on, earlier packages first where there is a
/// choice. `None` when some packages wait on each other: then every
/// package not yet ordered depends on another that is not.
pub fn dependency_order(pkgs: &[PackageRelease]) -> (r: Option<Vec<usize>>)
    ensures
        r matches Some(ord) ==> dependency_ordered(
            packages_view(pkgs@),
            ord@.map_values(|i: usize| i as int),
        ),
        r is None ==> exists|placed: Seq<int>| #[trigger] stuck(packages_view(pkgs@), placed),
{
    let n = pkgs.len();
    let ghost view = packages_view(pkgs@);
    let mut placed: Vec<bool> = Vec::new();
    let mut z: usize = 0;
    while z < n
        invariant
            n == pkgs@.len(),
            z <= n,
            placed@.len() == z,
            forall|t: int| 0 <= t < z ==> !placed@[t],
        decreases n - z,
    {
        placed.push(false);
        z += 1;
    }
    let mut ord: Vec<usize> = Vec::new();
    while ord.len() < n
        invariant
            n == pkgs@.len(),
            view == packages_view(pkgs@),
            placed@.len() == n,
            ord@.len() <= n,
            forall|t: int|
                0 <= t < n ==> (placed@[t] <==> ord@.map_values(|i: usize| i as int).contains(t)),
            forall|p: int| 0 <= p < ord@.len() ==> (#[trigger] ord@[p]) < n,
            forall|p: int, q: int| 0 <= p < q < ord@.len() ==> ord@[p] != ord@[q],
            forall|p: int|
                0 <= p < ord@.len() ==> deps_placed(
                    view,
                    #[trigger] ord@[p] as int,
                    ord@.map_values(|i: usize| i as int).subrange(0, p),
                ),
        decreases n - ord@.len(),
    {
        let ghost so_far = ord@.map_values(|i: usize| i as int);
        let mut i: usize = 0;
        let mut found = false;
        while i < n && !found
            invariant
                n == pkgs@.len(),
                placed@.len() == n,
                i <= n,
                forall|t: int| 0 <= t < n ==> (placed@[t] <==> so_far.contains(t)),
                found ==> i > 0 && !placed@[i - 1] && deps_placed(view, i - 1, so_far),
                !found ==> forall|m: int|
                    0 <= m < i && !so_far.contains(m) ==> !#[trigger] deps_placed(view, m, so_far),
                view == packages_view(pkgs@),
            decreases n - i,
        {
            if !placed[i] && ready(pkgs, i, &placed, Ghost(so_far)) {
                found = true;
            }
            i += 1;
        }
        if !found {
            assert(so_far.len() < n) by {
                assert(so_far.len() == ord@.len());
            }
            assert(stuck(view, so_far));
            return None;
        }
        let chosen = i - 1;
        ord.push(chosen);
        placed.set(chosen, true);
        let ghost now = ord@.map_values(|i: usize| i as int);
        assert(now =~= so_far.push(chosen as int));
        assert forall|t: int| 0 <= t < n implies (placed@[t] <==> now.contains(t)) by {
            if t == chosen {
                assert(now[now.len() - 1] == t);
            } else if now.contains(t) {
                let p = choose|p: int| 0 <= p < now.len() && now[p] == t;
                assert(so_far[p] == t);
            } else if so_far.contains(t) {
                let p = choose|p: int| 0 <= p < so_far.len() && so_far[p] == t;
                assert(now[p] == t);
            }
        }
        assert forall|p: int, q: int| 0 <= p < q < ord@.len() implies ord@[p] != ord@[q] by {
            if q == ord@.len() - 1 {
                assert(so_far[p] == ord@[p] as int);
                assert(!so_far.contains(chosen as int));
            }
        }
        assert forall|p: int| 0 <= p < ord@.len() implies deps_placed(
            view,
            #[trigger] ord@[p] as int,
            now.subrange(0, p),
        ) by {
            if p < ord@.len() - 1 {
                assert(now.subrange(0, p) =~= so_far.subrange(0, p));
            } else {
                assert(now.subrange(0, p) =~= so_far);
            }
        }
    }
    assert(ord@.map_values(|i: usize| i as int).len() == n);
    Some(ord)
}

/// The positions, in order, of the packages among the first `n` that are
/// released.
pub open spec fn released_upto(pkgs: Seq<PackageRelease>, n: int) -> Seq<usize>
    decreases n,
{
    if n <= 0 {
        Seq::empty()
    } else if pkgs[n - 1]@.release {
        released_upto(pkgs, n - 1).push((n - 1) as usize)
    } else {
        released_upto(pkgs, n - 1)
    }
}

/// How the released packages are grouped for commits or pushes: all in one
/// group when consolidating, else one group each, in order. Packages that
/// are not released belong to no group.
pub fn release_groups(pkgs: &[PackageRelease], consolidate: bool) -> (r: Vec<Vec<usize>>)
    requires
        forall|i: int|
            0 <= i < pkgs@.len() ==> !flags_conflict(
                (#[trigger] pkgs@[i]).config.release,
                pkgs@[i].config.disable_release,
            ),
    ensures
        ({
            let released = released_upto(pkgs@, pkgs@.len() as int);
            if consolidate {
                if released.len() == 0 {
                    r@.len() == 0
                } else {
                    r@.len() == 1 && r@[0]@ == released
                }
            } else {
                r@.len() == released.len() && forall|g: int|
                    0 <= g < r@.len() ==> (#[trigger] r@[g])@ == seq![released[g]]
            }
        }),
{
    let mut released: Vec<usize> = Vec::new();
    let mut i: usize = 0;
    while i < pkgs.len()
        invariant
            i <= pkgs@.len(),
            released@ == released_upto(pkgs@, i as int),
            forall|j: int|
                0 <= j < pkgs@.len() ==> !flags_conflict(
                    (#[trigger] pkgs@[j]).config.release,
                    pkgs@[j].config.disable_release,
                ),
        decreases pkgs@.len() - i,
    {
        if pkgs[i].config.release() {
            released.push(i);
        }
        i += 1;
    }
    let mut groups: Vec<Vec<usize>> = Vec::new();
    if consolidate {
        if released.len() > 0 {
            groups.push(released);
        }
        return groups;
    }
    let mut g: usize = 0;
    while g < released.len()
        invariant
            g <= released@.len(),
            groups@.len() == g,
            forall|h: int| 0 <= h < g ==> (#[trigger] groups@[h])@ == seq![released@[h]],
        decreases released@.len() - g,
    {
        let mut one: Vec<usize> = Vec::new();
        one.push(released[g]);
        assert(one@ =~= seq![released@[g as int]]);
        groups.push(one);
        g += 1;
    }
    groups
}

} // verus!
