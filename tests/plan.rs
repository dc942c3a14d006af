use cargo_release::config::{Config, DependentVersion};
use cargo_release::error::FatalError;
use cargo_release::plan::{dependency_order, plan, Dependency, PackageRelease};
use cargo_release::req::{req_matches, upgrade_requirement};
use cargo_release::tag::tag;
use cargo_release::template::Template;
use cargo_release::version::{BumpLevel, Version};

fn package(name: &str, version: &str, is_root: bool, config: Config, deps: Vec<(&str, &str)>) -> PackageRelease {
    PackageRelease {
        name: name.to_owned(),
        is_root,
        package_root: format!("/ws/{name}"),
        config,
        initial_version: Version::parse(version).unwrap(),
        planned_version: None,
        planned_tag: None,
        dependencies: deps
            .into_iter()
            .map(|(n, r)| Dependency { name: n.to_owned(), req: r.to_owned() })
            .collect(),
    }
}

fn with_policy(policy: DependentVersion, release: bool) -> Config {
    let mut c = Config::default();
    c.dependent_version = Some(policy);
    c.release = Some(release);
    c
}

#[test]
fn single_package_patch_release() {
    let p = package("demo", "1.2.2", true, Config::default(), vec![]);
    let out = plan(vec![p], Some(BumpLevel::Patch)).unwrap();
    let pkg = &out.packages[0];
    let planned = pkg.planned_version.as_ref().unwrap();
    assert_eq!(planned.bare_version_string(), "1.2.3");
    assert_eq!(pkg.planned_tag.as_deref(), Some("v1.2.3"));
    let t = Template {
        prev_version: None,
        prev_metadata: None,
        version: Some(planned.bare_version_string()),
        metadata: None,
        crate_name: Some(pkg.name.clone()),
        date: None,
        tag_name: None,
        prefix: None,
        next_version: None,
    };
    assert_eq!(t.render(pkg.config.pre_release_commit_message()), "(cargo-release) version 1.2.3");
    let actions = tag(&out.packages, "2024-01-02");
    assert_eq!(actions.len(), 1);
    assert_eq!(actions[0].tag_name, "v1.2.3");
    assert_eq!(actions[0].message, "(cargo-release) demo version 1.2.3");
    assert!(!actions[0].sign);
}

#[test]
fn member_package_tag_has_name_prefix() {
    let p = package("member", "0.3.0", false, Config::default(), vec![]);
    let out = plan(vec![p], Some(BumpLevel::Minor)).unwrap();
    assert_eq!(out.packages[0].planned_tag.as_deref(), Some("member-v0.4.0"));
}

#[test]
fn upgrade_rewrites_dependent_requirement() {
    let b = package("b", "1.0.0", false, Config::default(), vec![]);
    let a = package("a", "1.0.0", false, with_policy(DependentVersion::Upgrade, true), vec![("b", "^1.0")]);
    let out = plan(vec![b, a], Some(BumpLevel::Major)).unwrap();
    assert_eq!(out.packages[0].planned_version.as_ref().unwrap().full_version_string(), "2.0.0");
    assert_eq!(out.packages[1].dependencies[0].req, "^2.0");
    assert!(out.warnings.is_empty());
}

#[test]
fn upgrade_releases_an_otherwise_unreleased_dependent() {
    let b = package("b", "1.0.0", false, Config::default(), vec![]);
    let a = package("a", "1.4.0", false, with_policy(DependentVersion::Upgrade, false), vec![("b", "^1.0")]);
    let out = plan(vec![b, a], Some(BumpLevel::Major)).unwrap();
    assert_eq!(out.packages[1].dependencies[0].req, "^2.0");
    assert_eq!(out.packages[1].planned_version.as_ref().unwrap().full_version_string(), "1.4.1");
}

#[test]
fn fix_rewrites_without_releasing_dependent() {
    let b = package("b", "1.0.0", false, Config::default(), vec![]);
    let a = package("a", "1.4.0", false, with_policy(DependentVersion::Fix, false), vec![("b", "1.0")]);
    let out = plan(vec![b, a], Some(BumpLevel::Major)).unwrap();
    assert_eq!(out.packages[1].dependencies[0].req, "2.0");
    assert!(out.packages[1].planned_version.is_none());
}

#[test]
fn error_policy_aborts_planning() {
    let b = package("b", "1.0.0", false, Config::default(), vec![]);
    let a = package("a", "1.0.0", false, with_policy(DependentVersion::Error, true), vec![("b", "^1.0")]);
    match plan(vec![b, a], Some(BumpLevel::Major)) {
        Err(FatalError::DependencyVersionConflict { dependent, dependency }) => {
            assert_eq!(dependent, "a");
            assert_eq!(dependency, "b");
        }
        other => panic!("unexpected {:?}", other),
    }
}

#[test]
fn warn_and_ignore_leave_requirements() {
    let b = package("b", "1.0.0", false, Config::default(), vec![]);
    let a = package("a", "1.0.0", false, with_policy(DependentVersion::Warn, true), vec![("b", "^1.0")]);
    let c = package("c", "1.0.0", false, with_policy(DependentVersion::Ignore, true), vec![("b", "^1.0")]);
    let out = plan(vec![b, a, c], Some(BumpLevel::Major)).unwrap();
    assert_eq!(out.packages[1].dependencies[0].req, "^1.0");
    assert_eq!(out.packages[2].dependencies[0].req, "^1.0");
    assert_eq!(out.warnings.len(), 1);
    assert_eq!(out.warnings[0].dependent, "a");
    assert_eq!(out.warnings[0].dependency, "b");
}

#[test]
fn matching_requirement_is_left_alone() {
    let b = package("b", "1.0.0", false, Config::default(), vec![]);
    let a = package("a", "1.0.0", false, with_policy(DependentVersion::Error, true), vec![("b", "^1.0")]);
    let out = plan(vec![b, a], Some(BumpLevel::Minor)).unwrap();
    assert_eq!(out.packages[1].dependencies[0].req, "^1.0");
}

#[test]
fn planning_twice_gives_same_tags() {
    let make = || vec![
        package("x", "0.1.0", false, Config::default(), vec![]),
        package("y", "2.0.0", true, Config::default(), vec![("x", "0.1")]),
    ];
    let first = plan(make(), Some(BumpLevel::Patch)).unwrap();
    let second = plan(make(), Some(BumpLevel::Patch)).unwrap();
    for i in 0..2 {
        assert_eq!(first.packages[i].planned_tag, second.packages[i].planned_tag);
    }
    let m1 = tag(&first.packages, "2024-01-02");
    let m2 = tag(&second.packages, "2024-01-02");
    assert_eq!(m1.len(), m2.len());
    for i in 0..m1.len() {
        assert_eq!(m1[i].tag_name, m2[i].tag_name);
        assert_eq!(m1[i].message, m2[i].message);
    }
}

#[test]
fn shared_tag_is_created_once() {
    let mut c = Config::default();
    c.tag_name = Some("release-{{version}}".to_owned());
    let a = package("a", "1.0.0", false, c.clone(), vec![]);
    let b = package("b", "1.0.0", false, c, vec![]);
    let out = plan(vec![a, b], Some(BumpLevel::Minor)).unwrap();
    let actions = tag(&out.packages, "d");
    assert_eq!(actions.len(), 1);
    assert_eq!(actions[0].tag_name, "release-1.1.0");
    assert_eq!(actions[0].package_root, "/ws/a");
}

#[test]
fn disabled_tag_plans_none() {
    let mut c = Config::default();
    c.tag = Some(false);
    let out = plan(vec![package("a", "1.0.0", true, c, vec![])], Some(BumpLevel::Patch)).unwrap();
    assert!(out.packages[0].planned_tag.is_none());
    assert!(tag(&out.packages, "d").is_empty());
}

#[test]
fn version_parse_and_bump() {
    let v = Version::parse("1.2.3-alpha.1+build.5").unwrap();
    assert_eq!(v.bare_version_string(), "1.2.3-alpha.1");
    assert_eq!(v.full_version_string(), "1.2.3-alpha.1+build.5");
    assert!(v.is_prerelease());
    let patch = v.bump(BumpLevel::Patch).unwrap().unwrap();
    assert_eq!(patch.full_version_string(), "1.2.3+build.5");
    let release = v.bump(BumpLevel::Release).unwrap().unwrap();
    assert_eq!(release.bare_version_string(), "1.2.3");
    let major = v.bump(BumpLevel::Major).unwrap().unwrap();
    assert_eq!(major.full_version_string(), "2.0.0");
    let minor = Version::parse("0.9.12").unwrap().bump(BumpLevel::Minor).unwrap().unwrap();
    assert_eq!(minor.full_version_string(), "0.10.0");
    assert!(Version::parse("1.0.0").unwrap().bump(BumpLevel::Release).unwrap().is_none());
    assert!(matches!(Version::parse("one"), Err(FatalError::InvalidVersion(_))));
    let top = Version::parse("18446744073709551615.0.0").unwrap();
    assert!(matches!(top.bump(BumpLevel::Major), Err(FatalError::VersionOverflow(_))));
}

#[test]
fn requirement_rewrites() {
    let v2 = Version::parse("2.0.0").unwrap();
    assert_eq!(upgrade_requirement("^1.0", &v2).unwrap().as_deref(), Some("^2.0"));
    assert_eq!(upgrade_requirement("1.0", &v2).unwrap().as_deref(), Some("2.0"));
    assert_eq!(upgrade_requirement("=1.0.0", &v2).unwrap().as_deref(), Some("=2.0.0"));
    assert_eq!(upgrade_requirement("~1.2.3", &v2).unwrap().as_deref(), Some("~2.0.0"));
    assert_eq!(upgrade_requirement("1.*", &v2).unwrap().as_deref(), Some("2.*"));
    assert_eq!(upgrade_requirement("^2.0", &v2).unwrap(), None);
    assert_eq!(upgrade_requirement("*", &v2).unwrap(), None);
    assert!(matches!(upgrade_requirement(">=1.0", &v2), Err(FatalError::UnsupportedVersionReq(_))));
    assert!(matches!(upgrade_requirement("not a req", &v2), Err(FatalError::InvalidVersionReq(_))));
    let pre = Version::parse("2.0.0-rc.1").unwrap();
    assert_eq!(upgrade_requirement("=1.0.0", &pre).unwrap().as_deref(), Some("=2.0.0-rc.1"));
    assert!(req_matches("^1.0", &Version::parse("1.5.0").unwrap()).unwrap());
    assert!(!req_matches("^1.0", &v2).unwrap());
}

#[test]
fn no_level_keeps_current_versions() {
    let p = package("demo", "1.2.2", true, Config::default(), vec![]);
    let out = plan(vec![p], None).unwrap();
    assert!(out.packages[0].planned_version.is_none());
    assert_eq!(out.packages[0].planned_tag.as_deref(), Some("v1.2.2"));
}

#[test]
fn dependency_order_puts_dependencies_first() {
    let a = package("a", "1.0.0", false, Config::default(), vec![("b", "1"), ("serde", "1")]);
    let b = package("b", "1.0.0", false, Config::default(), vec![("c", "1")]);
    let c = package("c", "1.0.0", false, Config::default(), vec![]);
    assert_eq!(dependency_order(&[a.clone(), b.clone(), c.clone()]), Some(vec![2, 1, 0]));
    let x = package("x", "1.0.0", false, Config::default(), vec![("y", "1")]);
    let y = package("y", "1.0.0", false, Config::default(), vec![("x", "1")]);
    assert_eq!(dependency_order(&[c, x, y]), None);
}
