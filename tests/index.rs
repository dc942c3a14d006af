use cargo_release::error::FatalError;
use cargo_release::index::{Lookup, RegistryIndex, RegistryResponse};

fn line(name: &str, vers: &str) -> String {
    format!(
        "{{\"name\":\"{name}\",\"vers\":\"{vers}\",\"deps\":[],\"cksum\":\"{}\",\"features\":{{}},\"yanked\":false}}\n",
        "0".repeat(64)
    )
}

fn body(versions: &[&str]) -> Vec<u8> {
    versions.iter().map(|v| line("foo", v)).collect::<String>().into_bytes()
}

#[test]
fn second_lookup_is_answered_from_the_index() {
    let mut idx = RegistryIndex::new("crates-io".to_owned());
    assert!(matches!(idx.lookup("foo"), Lookup::Fetch(None)));
    assert_eq!(idx.has_krate("foo"), None);
    let entry = idx
        .record("foo", RegistryResponse::Entry { etag: Some("\"e1\"".to_owned()), body: body(&["1.0.0", "1.1.0"]) })
        .unwrap();
    assert_eq!(entry, Some(vec!["1.0.0".to_owned(), "1.1.0".to_owned()]));
    match idx.lookup("foo") {
        Lookup::Cached(Some(v)) => assert_eq!(v, vec!["1.0.0".to_owned(), "1.1.0".to_owned()]),
        other => panic!("unexpected {:?}", other),
    }
    assert_eq!(idx.has_krate("foo"), Some(true));
    assert_eq!(idx.has_krate_version("foo", "1.1.0"), Some(Some(true)));
    assert_eq!(idx.has_krate_version("foo", "2.0.0"), Some(Some(false)));
    assert!(matches!(idx.lookup("bar"), Lookup::Fetch(None)));
}

#[test]
fn not_modified_reuses_stored_content() {
    let mut idx = RegistryIndex::new("crates-io".to_owned());
    idx.record("foo", RegistryResponse::Entry { etag: Some("\"e1\"".to_owned()), body: body(&["0.1.0"]) })
        .unwrap();
    let again = idx.record("foo", RegistryResponse::NotModified).unwrap();
    assert_eq!(again, Some(vec!["0.1.0".to_owned()]));
    assert!(idx.record("bar", RegistryResponse::NotModified).is_err());
}

#[test]
fn missing_crate_and_failures() {
    let mut idx = RegistryIndex::new("crates-io".to_owned());
    assert_eq!(idx.record("gone", RegistryResponse::NotFound).unwrap(), None);
    assert_eq!(idx.has_krate("gone"), Some(false));
    assert_eq!(idx.has_krate_version("gone", "1.0.0"), Some(None));
    assert!(matches!(
        idx.record("foo", RegistryResponse::Failed("timeout".to_owned())),
        Err(FatalError::Registry(_))
    ));
    assert!(matches!(idx.lookup("foo"), Lookup::Fetch(None)));
    assert_eq!(idx.has_krate("gone"), Some(false));
    assert!(idx
        .record("foo", RegistryResponse::Entry { etag: None, body: b"not json".to_vec() })
        .is_err());
    assert!(matches!(idx.lookup("foo"), Lookup::Fetch(None)));
}

#[test]
fn status_codes_map_to_answers() {
    assert!(matches!(RegistryResponse::from_status(200, None, vec![]), RegistryResponse::Entry { .. }));
    assert!(matches!(RegistryResponse::from_status(304, None, vec![]), RegistryResponse::NotModified));
    assert!(matches!(RegistryResponse::from_status(404, None, vec![]), RegistryResponse::NotFound));
    assert!(matches!(RegistryResponse::from_status(410, None, vec![]), RegistryResponse::NotFound));
    assert!(matches!(RegistryResponse::from_status(500, None, vec![]), RegistryResponse::Failed(_)));
}
