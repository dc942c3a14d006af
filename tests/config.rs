use cargo_release::config::{resolve_bool_arg, resolve_layers, Command, Config, DependentVersion, Features, Replace};
use cargo_release::error::FatalError;

fn rule(file: &str) -> Replace {
    Replace {
        file: file.to_owned(),
        search: "a".to_owned(),
        replace: "b".to_owned(),
        min: None,
        max: None,
        exactly: None,
        prerelease: false,
    }
}

#[test]
fn last_layer_defining_a_field_wins() {
    let mut home = Config::default();
    home.push_remote = Some("upstream".to_owned());
    home.sign_commit = Some(true);
    home.tag_name = Some("home-{{version}}".to_owned());
    let mut workspace = Config::default();
    workspace.push_remote = Some("fork".to_owned());
    workspace.pre_release_replacements = Some(vec![rule("README.md"), rule("CHANGELOG.md")]);
    let mut package = Config::default();
    package.pre_release_replacements = Some(vec![rule("src/lib.rs")]);
    package.dependent_version = Some(DependentVersion::Upgrade);

    let c = resolve_layers(&vec![home, workspace, package]).unwrap();
    assert_eq!(c.push_remote(), "fork");
    assert!(c.sign_commit());
    assert_eq!(c.tag_name(), "home-{{version}}");
    assert_eq!(c.pre_release_replacements().len(), 1);
    assert_eq!(c.pre_release_replacements()[0].file, "src/lib.rs");
    assert_eq!(c.dependent_version(), DependentVersion::Upgrade);
    assert!(!c.sign_tag());
}

#[test]
fn defaults_apply_when_no_layer_defines_a_field() {
    let c = resolve_layers(&vec![Config::default(), Config::default()]).unwrap();
    assert_eq!(c.push_remote(), "origin");
    assert_eq!(c.tag_name(), "{{prefix}}v{{version}}");
    assert_eq!(c.tag_prefix(true), "");
    assert_eq!(c.tag_prefix(false), "{{crate_name}}-");
    assert_eq!(c.dependent_version(), DependentVersion::Fix);
    assert_eq!(c.dev_version_ext(), "alpha.0");
    assert_eq!(c.pre_release_commit_message(), "(cargo-release) version {{version}}");
    assert_eq!(
        c.post_release_commit_message(),
        "(cargo-release) start next development iteration {{next_version}}"
    );
    assert_eq!(c.tag_message(), "(cargo-release) {{crate_name}} version {{version}}");
    assert_eq!(c.registry(), None);
    assert!(c.release());
    assert!(c.publish());
    assert!(c.verify());
    assert!(c.push());
    assert!(c.tag());
    assert!(!c.dev_version());
    assert!(!c.shared_version());
    assert!(!c.consolidate_commits());
    assert!(!c.consolidate_pushes());
    assert!(c.push_options().is_empty());
    assert!(c.pre_release_hook().is_none());
    assert_eq!(c.allow_branch(), vec!["*".to_owned(), "!HEAD".to_owned()]);
    assert!(matches!(c.features(), Features::Empty));
}

#[test]
fn no_layers_give_the_defaults() {
    let c = resolve_layers(&vec![]).unwrap();
    assert!(!c.sign_commit());
    assert_eq!(c.push_remote(), "origin");
}

#[test]
fn flag_pair_resolution() {
    assert!(matches!(resolve_bool_arg(Some(true), Some(false)), Err(FatalError::ConflictingFlags(_))));
    assert_eq!(resolve_bool_arg(Some(false), None).unwrap(), Some(false));
    assert_eq!(resolve_bool_arg(None, Some(true)).unwrap(), Some(false));
    assert_eq!(resolve_bool_arg(None, Some(false)).unwrap(), Some(true));
    assert_eq!(resolve_bool_arg(None, None).unwrap(), None);
}

#[test]
fn conflicting_layer_is_refused_and_changes_nothing() {
    let mut base = Config::default();
    base.push_remote = Some("origin2".to_owned());
    let mut bad = Config::default();
    bad.verify = Some(true);
    bad.disable_verify = Some(true);
    bad.push_remote = Some("other".to_owned());
    assert!(base.update(&bad).is_err());
    assert_eq!(base.push_remote(), "origin2");
    assert!(resolve_layers(&vec![Config::default(), bad]).is_err());
}

#[test]
fn negative_spelling_is_negated_and_flagged() {
    let mut layer = Config::default();
    layer.disable_push = Some(true);
    assert!(layer.uses_deprecated_flags());
    let mut c = Config::default();
    c.update(&layer).unwrap();
    assert!(!c.push());
    assert_eq!(c.disable_push, None);
    assert!(!c.uses_deprecated_flags());

    let mut positive = Config::default();
    positive.push = Some(true);
    assert!(!positive.uses_deprecated_flags());
    c.update(&positive).unwrap();
    assert!(c.push());
}

#[test]
fn unset_flag_layer_keeps_earlier_value() {
    let mut a = Config::default();
    a.publish = Some(false);
    let c = resolve_layers(&vec![a, Config::default()]).unwrap();
    assert!(!c.publish());
}

#[test]
fn command_args_and_features() {
    let line = Command::Line("make release".to_owned());
    assert_eq!(line.args(), vec!["make release"]);
    let args = Command::Args(vec!["cargo".to_owned(), "test".to_owned()]);
    assert_eq!(args.args(), vec!["cargo", "test"]);

    let mut c = Config::default();
    c.enable_features = Some(vec!["serde".to_owned()]);
    match c.features() {
        Features::Selective(v) => assert_eq!(v, vec!["serde".to_owned()]),
        _ => panic!("expected selected features"),
    }
    c.enable_all_features = Some(true);
    assert!(matches!(c.features(), Features::All));
}
