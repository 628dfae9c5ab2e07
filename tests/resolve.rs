use mdbook_keeper::resolve::{archive_candidates, descriptor_parts, get_rlib_dependencies, pick_archive, Fingerprint};

fn fp(name: &str, version: Option<&str>, rlib: Option<&str>, mtime: u128) -> Fingerprint {
    Fingerprint {
        libname: name.to_string(),
        version: version.map(|v| v.to_string()),
        rlib: rlib.map(|r| r.to_string()),
        mtime,
    }
}

fn locked() -> Vec<(String, String)> {
    vec![("foo".to_string(), "1.0.0".to_string()), ("bar".to_string(), "2.0.0".to_string())]
}

#[test]
fn exact_version_replaces_unversioned() {
    let cands = vec![fp("foo", None, Some("/a"), 10), fp("foo", Some("1.0.0"), Some("/b"), 20)];
    let r = get_rlib_dependencies(&locked(), &cands);
    assert_eq!(r.len(), 1);
    assert_eq!(r[0].rlib, Some("/b".to_string()));
}

#[test]
fn older_exact_match_does_not_replace() {
    let cands = vec![fp("foo", None, Some("/a"), 30), fp("foo", Some("1.0.0"), Some("/b"), 20)];
    let r = get_rlib_dependencies(&locked(), &cands);
    assert_eq!(r.len(), 1);
    assert_eq!(r[0].rlib, Some("/a".to_string()));
}

#[test]
fn wrong_version_and_unlocked_are_dropped() {
    let cands = vec![fp("foo", Some("0.9.0"), Some("/a"), 10), fp("baz", None, Some("/c"), 10)];
    assert!(get_rlib_dependencies(&locked(), &cands).is_empty());
}

#[test]
fn newest_exact_build_wins() {
    let cands = vec![
        fp("bar", Some("2.0.0"), Some("/1"), 5),
        fp("bar", Some("2.0.0"), Some("/2"), 9),
        fp("bar", Some("2.0.0"), Some("/3"), 7),
        fp("foo", None, Some("/f"), 1),
    ];
    let r = get_rlib_dependencies(&locked(), &cands);
    assert_eq!(r.len(), 2);
    assert_eq!(r[0].rlib, Some("/2".to_string()));
    assert_eq!(r[1].name(), "foo");
    assert_eq!(r[1].version(), None);
}

#[test]
fn missing_archive_is_dropped() {
    let cands = vec![fp("foo", None, None, 10)];
    assert!(get_rlib_dependencies(&locked(), &cands).is_empty());
}

#[test]
fn descriptor_names() {
    let json = Some("json".to_string());
    assert_eq!(descriptor_parts("serde_json-abc123", &json), Some(("serde_json".to_string(), "abc123".to_string())));
    assert_eq!(descriptor_parts("foo-bar-123", &json), Some(("foo_bar".to_string(), "123".to_string())));
    assert_eq!(descriptor_parts("nohash", &json), Some((String::new(), "nohash".to_string())));
    assert_eq!(descriptor_parts("foo-1", &Some("txt".to_string())), None);
    assert_eq!(descriptor_parts("foo-1", &None), None);
}

#[test]
fn archive_paths_in_order() {
    assert_eq!(
        archive_candidates("/t/debug", "foo", "h1"),
        vec![
            "/t/debug/deps/libfoo-h1.rlib",
            "/t/debug/deps/libfoo-h1.so",
            "/t/debug/deps/libfoo-h1.dylib",
            "/t/debug/deps/foo-h1.dll",
        ]
    );
    let c = archive_candidates("/t/debug", "foo", "h1");
    assert_eq!(pick_archive(&c, &[false, true, true, false]), Some("/t/debug/deps/libfoo-h1.so".to_string()));
    assert_eq!(pick_archive(&c, &[false, false, false, false]), None);
}

