use cargo_release::cmd::{call_with_env, Invocation};
use cargo_release::config::Config;
use cargo_release::error::FatalError;
use cargo_release::plan::{apply_publish_status, plan, Dependency, PackageRelease};
use cargo_release::release::{
    hook_env, next_dev_version, next_release_action, post_release_commit_message, pre_release_commit_message,
    set_manifest_version, changed_requirements, set_dependency_requirement, ReleaseAction, ReleaseState,
    StepOutcome,
};
use cargo_release::version::{BumpLevel, Version};

fn package(name: &str, version: &str, config: Config) -> PackageRelease {
    PackageRelease {
        name: name.to_owned(),
        is_root: true,
        package_root: format!("/ws/{name}"),
        config,
        initial_version: Version::parse(version).unwrap(),
        planned_version: None,
        planned_tag: None,
        dependencies: vec![],
    }
}

fn run_all(mut state: ReleaseState, fail_at: Option<ReleaseAction>) -> Vec<ReleaseAction> {
    let mut seen = Vec::new();
    let mut outcome = StepOutcome::Succeeded;
    loop {
        let (next, action) = next_release_action(&state, outcome);
        state = next;
        seen.push(action);
        if let ReleaseAction::Exit(_) = action {
            return seen;
        }
        outcome = if Some(action) == fail_at { StepOutcome::Failed } else { StepOutcome::Succeeded };
    }
}

#[test]
fn patch_release_end_to_end_decisions() {
    let out = plan(vec![package("demo", "1.2.2", Config::default())], Some(BumpLevel::Patch)).unwrap();
    let pkg = &out.packages[0];
    assert_eq!(pkg.planned_version.as_ref().unwrap().full_version_string(), "1.2.3");
    assert_eq!(pkg.planned_tag.as_deref(), Some("v1.2.3"));
    assert_eq!(pre_release_commit_message(pkg), "(cargo-release) version 1.2.3");
    let state = ReleaseState::new(&pkg.config, Some(BumpLevel::Patch));
    assert_eq!(
        run_all(state, None),
        vec![
            ReleaseAction::WriteVersion,
            ReleaseAction::Commit,
            ReleaseAction::Publish,
            ReleaseAction::Tag,
            ReleaseAction::Push,
            ReleaseAction::Exit(0),
        ]
    );
}

#[test]
fn development_step_and_messages() {
    let mut config = Config::default();
    config.dev_version = Some(true);
    let out = plan(vec![package("demo", "0.3.0", config)], Some(BumpLevel::Minor)).unwrap();
    let pkg = &out.packages[0];
    let next = next_dev_version(pkg.planned_version.as_ref().unwrap(), pkg.config.dev_version_ext()).unwrap();
    assert_eq!(next.full_version_string(), "0.4.1-alpha.0");
    assert_eq!(
        post_release_commit_message(pkg, &next),
        "(cargo-release) start next development iteration 0.4.1-alpha.0"
    );
    let actions = run_all(ReleaseState::new(&pkg.config, Some(BumpLevel::Minor)), None);
    assert_eq!(
        actions,
        vec![
            ReleaseAction::WriteVersion,
            ReleaseAction::Commit,
            ReleaseAction::Publish,
            ReleaseAction::Tag,
            ReleaseAction::WriteDevVersion,
            ReleaseAction::DevelopmentCommit,
            ReleaseAction::Push,
            ReleaseAction::Exit(0),
        ]
    );
    let release_only = run_all(ReleaseState::new(&pkg.config, Some(BumpLevel::Release)), None);
    assert!(!release_only.contains(&ReleaseAction::WriteDevVersion));
    let top = Version::parse("1.0.18446744073709551615").unwrap();
    assert!(matches!(next_dev_version(&top, "alpha.0"), Err(FatalError::VersionOverflow(_))));
}

#[test]
fn failures_give_exit_codes() {
    let mut config = Config::default();
    config.dev_version = Some(true);
    let state = ReleaseState::new(&config, Some(BumpLevel::Patch));
    let code = |a| *run_all(state, Some(a)).last().unwrap();
    assert_eq!(code(ReleaseAction::Commit), ReleaseAction::Exit(102));
    assert_eq!(code(ReleaseAction::Publish), ReleaseAction::Exit(103));
    assert_eq!(code(ReleaseAction::Tag), ReleaseAction::Exit(101));
    assert_eq!(code(ReleaseAction::DevelopmentCommit), ReleaseAction::Exit(105));
    assert_eq!(code(ReleaseAction::Push), ReleaseAction::Exit(106));
    assert_eq!(code(ReleaseAction::WriteVersion), ReleaseAction::Exit(128));
    let ended = next_release_action(&state, StepOutcome::Succeeded).0;
    let (after_fail, exit) = next_release_action(&ended, StepOutcome::Failed);
    assert_eq!(exit, ReleaseAction::Exit(128));
    assert_eq!(next_release_action(&after_fail, StepOutcome::Succeeded).1, ReleaseAction::Exit(128));
}

#[test]
fn disabled_steps_are_skipped() {
    let mut config = Config::default();
    config.publish = Some(false);
    config.push = Some(false);
    config.tag = Some(false);
    let actions = run_all(ReleaseState::new(&config, None), None);
    assert_eq!(actions, vec![ReleaseAction::WriteVersion, ReleaseAction::Commit, ReleaseAction::Exit(0)]);
}

#[test]
fn manifest_version_is_rewritten() {
    let text = "[package]\nname = \"demo\" # the name\nversion = \"1.2.2\"\n\n[dependencies]\n";
    let v = Version::parse("1.2.3").unwrap();
    let out = set_manifest_version("Cargo.toml", text, &v).unwrap();
    assert_eq!(out, "[package]\nname = \"demo\" # the name\nversion = \"1.2.3\"\n\n[dependencies]\n");
    assert!(matches!(set_manifest_version("Cargo.toml", "[workspace]\n", &v), Err(FatalError::InvalidManifest(p)) if p == "Cargo.toml"));
    assert!(set_manifest_version("Cargo.toml", "not = = toml", &v).is_err());
}

#[test]
fn environment_for_commands_and_hooks() {
    let cmd = vec!["./hook.sh".to_owned(), "".to_owned(), "x".to_owned()];
    let envs = vec![("DRY_RUN".to_owned(), "true".to_owned())];
    match call_with_env(&cmd, envs.clone(), "/ws", false) {
        Invocation::Run { program, args, dir, envs: e } => {
            assert_eq!(program, "./hook.sh");
            assert_eq!(args, vec!["x".to_owned()]);
            assert_eq!(dir.as_deref(), Some("/ws"));
            assert_eq!(e, envs);
        }
        _ => panic!("expected a run"),
    }
    assert!(matches!(call_with_env(&cmd, envs, "/ws", true), Invocation::Skipped));
    let out = plan(vec![package("demo", "1.2.2", Config::default())], Some(BumpLevel::Patch)).unwrap();
    let env = hook_env(&out.packages[0], true);
    assert_eq!(env[1], ("PREV_VERSION".to_owned(), "1.2.2".to_owned()));
    assert_eq!(env[2], ("NEW_VERSION".to_owned(), "1.2.3".to_owned()));
    assert_eq!(env[4], ("DRY_RUN".to_owned(), "true".to_owned()));
}

#[test]
fn publish_status_settles_excluded_packages() {
    let mut published = package("a", "1.0.0", Config::default());
    apply_publish_status(&mut published, true);
    assert!(!published.config.release());
    assert!(published.config.pre_release_replacements().is_empty());
    let mut fresh = package("b", "1.0.0", Config::default());
    apply_publish_status(&mut fresh, false);
    assert!(fresh.config.release());
}

#[test]
fn rewritten_requirements_reach_the_manifest() {
    let before = vec![
        Dependency { name: "b".to_owned(), req: "^1.0".to_owned() },
        Dependency { name: "c".to_owned(), req: "^0.3".to_owned() },
    ];
    let after = vec![
        Dependency { name: "b".to_owned(), req: "^2.0".to_owned() },
        Dependency { name: "c".to_owned(), req: "^0.3".to_owned() },
    ];
    let changed = changed_requirements(&before, &after);
    assert_eq!(changed.len(), 1);
    assert_eq!(changed[0].name, "b");
    let text = "[package]\nname = \"a\"\n\n[dependencies]\nb = { version = \"1.0\", path = \"../b\" }\nc = \"0.3\"\n\n[dev-dependencies]\nb = \"1.0\"\n";
    let out = set_dependency_requirement(text, &changed[0]);
    assert_eq!(
        out,
        "[package]\nname = \"a\"\n\n[dependencies]\nb = { version = \"^2.0\", path = \"../b\" }\nc = \"0.3\"\n\n[dev-dependencies]\nb = \"^2.0\"\n"
    );
    let path_only = "[dependencies]\nb = { path = \"../b\" }\n";
    assert_eq!(set_dependency_requirement(path_only, &changed[0]), path_only);
}
