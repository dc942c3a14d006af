use cargo_release::config::Replace;
use cargo_release::error::FatalError;
use cargo_release::replace::{apply, apply_rule, check_occurrences, SourceFile};
use cargo_release::template::Template;

fn rule(file: &str, search: &str, replace: &str) -> Replace {
    Replace {
        file: file.to_owned(),
        search: search.to_owned(),
        replace: replace.to_owned(),
        min: None,
        max: None,
        exactly: None,
        prerelease: false,
    }
}

fn context() -> Template {
    Template {
        prev_version: Some("1.2.2".to_owned()),
        prev_metadata: None,
        version: Some("1.2.3".to_owned()),
        metadata: None,
        crate_name: Some("demo".to_owned()),
        date: Some("2024-01-02".to_owned()),
        tag_name: Some("v1.2.3".to_owned()),
        prefix: None,
        next_version: None,
    }
}

#[test]
fn render_replaces_known_placeholders() {
    let t = context();
    assert_eq!(t.render("{{crate_name}} {{version}} (was {{prev-version}}) on {{date}}"), "demo 1.2.3 (was 1.2.2) on 2024-01-02");
    assert_eq!(t.render("{{unknown}} {{metadata}}|"), "{{unknown}} |");
    assert_eq!(t.render(""), "");
    assert_eq!(t.render("{{version"), "{{version");
}

#[test]
fn exactly_two_rejects_other_counts() {
    for (min, max) in [(None, None), (Some(0), Some(10)), (Some(3), Some(1))] {
        let mut r = rule("f", "x", "y");
        r.exactly = Some(2);
        r.min = min;
        r.max = max;
        assert!(matches!(check_occurrences(&r, 0), Err(FatalError::ReplacerMinError { req: 2, actual: 0, .. })));
        assert!(matches!(check_occurrences(&r, 1), Err(FatalError::ReplacerMinError { req: 2, actual: 1, .. })));
        assert!(matches!(check_occurrences(&r, 3), Err(FatalError::ReplacerMaxError { req: 2, actual: 3, .. })));
        assert!(check_occurrences(&r, 2).is_ok());
    }
}

#[test]
fn exactly_two_on_real_text() {
    let t = context();
    let mut r = rule("f", "ver", "VER");
    r.exactly = Some(2);
    assert!(apply_rule(&r, &t, "ver ver", false).is_ok());
    assert!(apply_rule(&r, &t, "ver", false).is_err());
    assert!(apply_rule(&r, &t, "ver ver ver", false).is_err());
    assert!(apply_rule(&r, &t, "none", false).is_err());
}

#[test]
fn min_and_max_bounds() {
    let mut r = rule("f", "x", "y");
    r.min = Some(2);
    r.max = Some(3);
    assert!(matches!(check_occurrences(&r, 1), Err(FatalError::ReplacerMinError { req: 2, actual: 1, .. })));
    assert!(check_occurrences(&r, 2).is_ok());
    assert!(check_occurrences(&r, 3).is_ok());
    assert!(matches!(check_occurrences(&r, 4), Err(FatalError::ReplacerMaxError { req: 3, actual: 4, .. })));
    let unbounded = rule("f", "x", "y");
    assert!(check_occurrences(&unbounded, 0).is_ok());
    assert!(check_occurrences(&unbounded, 1000).is_ok());
}

#[test]
fn apply_rewrites_with_rendered_template() {
    let t = context();
    let r = rule("README.md", "demo = \"[0-9.]+\"", "demo = \"{{version}}\"");
    let files = vec![SourceFile { path: "README.md".to_owned(), content: "demo = \"1.2.2\"\nother".to_owned() }];
    let out = apply(&[r], &t, files, false).unwrap();
    assert_eq!(out[0].content, "demo = \"1.2.3\"\nother");
}

#[test]
fn rules_apply_in_order_to_their_files() {
    let t = context();
    let rules = vec![rule("a.txt", "one", "two"), rule("b.txt", "x", "{{crate_name}}"), rule("a.txt", "two", "three")];
    let files = vec![
        SourceFile { path: "a.txt".to_owned(), content: "one one".to_owned() },
        SourceFile { path: "b.txt".to_owned(), content: "x".to_owned() },
    ];
    let out = apply(&rules, &t, files, false).unwrap();
    assert_eq!(out[0].content, "three three");
    assert_eq!(out[1].content, "demo");
}

#[test]
fn missing_file_is_named() {
    let t = context();
    let r = rule("missing.md", "a", "b");
    match apply(&[r], &t, vec![], false) {
        Err(FatalError::FileNotFound(f)) => assert_eq!(f, "missing.md"),
        other => panic!("unexpected {:?}", other),
    }
}

#[test]
fn prerelease_skips_rules_not_marked() {
    let t = context();
    let skipped = rule("missing.md", "a", "b");
    let mut applied = rule("a.txt", "a", "b");
    applied.prerelease = true;
    let files = vec![SourceFile { path: "a.txt".to_owned(), content: "a".to_owned() }];
    let out = apply(&[skipped, applied], &t, files, true).unwrap();
    assert_eq!(out[0].content, "b");
}

#[test]
fn invalid_pattern_is_an_error() {
    let t = context();
    let r = rule("a.txt", "(", "b");
    assert!(matches!(apply_rule(&r, &t, "(", false), Err(FatalError::InvalidPattern(_))));
}

#[test]
fn failure_in_a_later_rule_fails_the_run() {
    let t = context();
    let mut second = rule("a.txt", "zzz", "y");
    second.min = Some(1);
    let rules = vec![rule("a.txt", "a", "b"), second];
    let files = vec![SourceFile { path: "a.txt".to_owned(), content: "a".to_owned() }];
    assert!(matches!(apply(&rules, &t, files, false), Err(FatalError::ReplacerMinError { req: 1, actual: 0, .. })));
}
