use cargo_release::cmd::{call, call_on_path, Invocation};
use cargo_release::config::{
    package_config_sources, workspace_config_sources, CargoManifest, CargoMetadata, CargoPackage, CargoWorkspace,
    Config, ConfigSource, Replace,
};
use cargo_release::index::{CratesIndex, Lookup, RegistryIndex, RegistryResponse};
use cargo_release::plan::{exclude_from_release, exclude_from_tagging, needs_publish_check, plan, release_groups, PackageRelease};
use cargo_release::replace::{replace, SourceFile};
use cargo_release::tag::show_status;
use cargo_release::version::{BumpLevel, Version};

fn package(name: &str, version: &str, config: Config) -> PackageRelease {
    PackageRelease {
        name: name.to_owned(),
        is_root: false,
        package_root: format!("/ws/{name}"),
        config,
        initial_version: Version::parse(version).unwrap(),
        planned_version: None,
        planned_tag: None,
        dependencies: vec![],
    }
}

fn paths(sources: &[ConfigSource]) -> Vec<String> {
    sources
        .iter()
        .map(|s| match s {
            ConfigSource::File(p) => format!("file:{p}"),
            ConfigSource::WorkspaceManifest(p) => format!("workspace:{p}"),
            ConfigSource::PackageManifest(p) => format!("package:{p}"),
        })
        .collect()
}

#[test]
fn status_lists_each_tag_once_in_order() {
    let mut pkgs = vec![package("b", "1.0.0", Config::default()), package("a", "1.0.0", Config::default()), package("c", "1.0.0", Config::default())];
    pkgs[0].planned_tag = Some("b-v1.0.1".to_owned());
    pkgs[1].planned_tag = Some("a-v1.0.1".to_owned());
    pkgs[2].planned_tag = Some("b-v1.0.1".to_owned());
    assert_eq!(show_status(&pkgs), "a-v1.0.1, b-v1.0.1");
    assert_eq!(show_status(&[]), "");
}

#[test]
fn package_replace_uses_planned_version() {
    let mut config = Config::default();
    config.pre_release_replacements = Some(vec![Replace {
        file: "CHANGELOG.md".to_owned(),
        search: "Unreleased".to_owned(),
        replace: "{{version}} - {{date}} ({{prev-version}})".to_owned(),
        min: Some(1),
        max: None,
        exactly: None,
        prerelease: false,
    }]);
    let out = plan(vec![package("demo", "0.4.1", config)], Some(BumpLevel::Minor)).unwrap();
    let files = vec![SourceFile { path: "CHANGELOG.md".to_owned(), content: "## Unreleased\n".to_owned() }];
    let changed = replace(&out.packages[0], files, "2024-05-06").unwrap();
    assert_eq!(changed[0].content, "## 0.5.0 - 2024-05-06 (0.4.1)\n");
}

#[test]
fn exclusion_rules() {
    let mut p = package("a", "1.0.0", Config::default());
    assert!(needs_publish_check(&p, true, false));
    assert!(!needs_publish_check(&p, true, true));
    assert!(!needs_publish_check(&p, false, false));
    p.config.pre_release_replacements = Some(vec![]);
    exclude_from_release(&mut p);
    assert!(!p.config.release());
    assert!(p.config.pre_release_replacements().is_empty());
    assert!(!needs_publish_check(&p, true, false));

    let mut q = package("b", "1.0.0", Config::default());
    q.planned_tag = Some("b-v1.0.0".to_owned());
    exclude_from_tagging(&mut q);
    assert!(q.planned_tag.is_none());
    assert!(!q.config.tag());
    assert!(!q.config.release());
}

#[test]
fn layer_sources_in_order() {
    let ws = workspace_config_sources(Some("/home/u"), Some("/home/u/.config/"), "/ws");
    assert_eq!(
        paths(&ws),
        vec![
            "file:/home/u/.release.toml",
            "file:/home/u/.config/cargo-release/release.toml",
            "file:/ws/release.toml",
            "workspace:/ws/Cargo.toml",
        ]
    );
    let member = package_config_sources(None, None, "/ws", "/ws/member", "/ws/member/Cargo.toml");
    assert_eq!(
        paths(&member),
        vec![
            "file:/ws/release.toml",
            "workspace:/ws/member/Cargo.toml",
            "file:/ws/member/release.toml",
            "package:/ws/member/Cargo.toml",
        ]
    );
    let root = package_config_sources(None, None, "/ws", "/ws", "/ws/Cargo.toml");
    assert_eq!(
        paths(&root),
        vec!["workspace:/ws/Cargo.toml", "file:/ws/release.toml", "package:/ws/Cargo.toml"]
    );
}

#[test]
fn manifest_overrides() {
    let mut c = Config::default();
    c.rust_version = Some("manifest".to_owned());
    c.apply_manifest(Some(false), Some("1.70".to_owned()));
    assert!(!c.publish());
    assert_eq!(c.rust_version(), Some("1.70"));
    let mut d = Config::default();
    d.rust_version = Some("1.60".to_owned());
    d.apply_manifest(None, Some("1.70".to_owned()));
    assert!(d.publish());
    assert_eq!(d.rust_version(), Some("1.60"));
    let mut e = Config::default();
    e.rust_version = Some("manifest".to_owned());
    e.apply_manifest(Some(true), None);
    assert_eq!(e.rust_version(), None);
}

#[test]
fn manifest_tables() {
    let mut release = Config::default();
    release.sign_tag = Some(true);
    let m = CargoManifest {
        workspace: Some(CargoWorkspace { metadata: Some(CargoMetadata { release: Some(release.clone()) }) }),
        package: Some(CargoPackage { metadata: None }),
    };
    assert!(m.clone().workspace_config().unwrap().sign_tag());
    assert!(m.package_config().is_none());
}

#[test]
fn command_invocations() {
    let cmd = vec!["git".to_owned(), "".to_owned(), "tag".to_owned(), "v1".to_owned()];
    assert!(matches!(call(&cmd, true), Invocation::Skipped));
    match call(&cmd, false) {
        Invocation::Run { program, args, dir, envs } => {
            assert_eq!(program, "git");
            assert_eq!(args, vec!["tag".to_owned(), "v1".to_owned()]);
            assert!(dir.is_none());
            assert!(envs.is_empty());
        }
        _ => panic!("expected a run"),
    }
    match call_on_path(&cmd, "/ws", false) {
        Invocation::Run { dir, .. } => assert_eq!(dir.as_deref(), Some("/ws")),
        _ => panic!("expected a run"),
    }
}

#[test]
fn registries_are_opened_once() {
    let mut all = CratesIndex::new();
    assert!(!all.has_registry(None));
    assert!(all.lookup(None, "foo").is_none());
    assert!(all.record(None, "foo", RegistryResponse::NotFound).is_err());
    all.open_registry(None, RegistryIndex::new("crates-io".to_owned()));
    assert!(all.has_registry(None));
    assert!(!all.has_registry(Some("private")));
    assert!(matches!(all.lookup(None, "foo"), Some(Lookup::Fetch(None))));
    assert_eq!(all.record(None, "foo", RegistryResponse::NotFound).unwrap(), None);
    assert!(matches!(all.lookup(None, "foo"), Some(Lookup::Cached(None))));
}

#[test]
fn grouping_for_commits() {
    let mut off = Config::default();
    off.release = Some(false);
    let pkgs = vec![package("a", "1.0.0", Config::default()), package("b", "1.0.0", off), package("c", "1.0.0", Config::default())];
    assert_eq!(release_groups(&pkgs, true), vec![vec![0, 2]]);
    assert_eq!(release_groups(&pkgs, false), vec![vec![0], vec![2]]);
    assert!(release_groups(&[], true).is_empty());
}
