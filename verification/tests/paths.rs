use nest_rs_http::{canonical_path, join_path, normalize_mount_path, version_path, versions_declare};

#[test]
fn join_path_concatenates_clean_segments() {
    assert_eq!(join_path("/health", "/live"), "/health/live");
    assert_eq!(join_path("/users", "/:id"), "/users/:id");
}

#[test]
fn join_path_strips_redundant_slashes_on_either_side() {
    assert_eq!(join_path("/health/", "/live"), "/health/live");
    assert_eq!(join_path("/health", "live"), "/health/live");
    assert_eq!(join_path("/health/", "live"), "/health/live");
}

#[test]
fn join_path_handles_empty_or_root_segments() {
    assert_eq!(join_path("", ""), "/");
    assert_eq!(join_path("/", ""), "/");
    assert_eq!(join_path("/", "/"), "/");
    assert_eq!(join_path("", "/users"), "/users");
    assert_eq!(join_path("/users", ""), "/users");
}

#[test]
fn version_path_prefixes_when_a_version_is_supplied() {
    assert_eq!(version_path(Some("1"), "/users"), "/v1/users");
    assert_eq!(version_path(Some("2"), "/users/:id"), "/v2/users/:id");
    assert_eq!(version_path(Some("1"), "/"), "/v1");
}

#[test]
fn version_path_leaves_an_unversioned_path_alone() {
    assert_eq!(version_path(None, "/users"), "/users");
    assert_eq!(version_path(None, "/"), "/");
}

#[test]
fn versions_declare_accepts_a_subset_and_refuses_a_stranger() {
    assert!(versions_declare(&["1", "2"], &["2"]));
    assert!(versions_declare(&["1", "2"], &["1", "2"]));
    assert!(versions_declare(&["1"], &[]));
    assert!(!versions_declare(&["1", "2"], &["3"]));
    assert!(!versions_declare(&[], &["1"]));
    assert!(!versions_declare(&["1"], &["11"]));
}

#[test]
fn a_trailing_slash_is_not_part_of_the_path() {
    assert_eq!(canonical_path("/kitchen/").as_deref(), Some("/kitchen"));
    assert_eq!(canonical_path("/kitchen///").as_deref(), Some("/kitchen"));
    assert_eq!(
        canonical_path("/v1/kitchen/items/").as_deref(),
        Some("/v1/kitchen/items")
    );
    assert_eq!(canonical_path("//").as_deref(), Some("/"));
}

#[test]
fn a_canonical_path_is_left_alone() {
    assert_eq!(canonical_path("/"), None);
    assert_eq!(canonical_path("/kitchen"), None);
    assert_eq!(canonical_path(""), None);
    assert_eq!(canonical_path("/kitchen//items"), None);
}

#[test]
fn a_mount_path_has_one_canonical_spelling() {
    assert_eq!(normalize_mount_path("/x/"), "/x");
    assert_eq!(normalize_mount_path("x"), "/x");
    assert_eq!(normalize_mount_path("  /mcp  "), "/mcp");
    assert_eq!(normalize_mount_path(""), "/");
    assert_eq!(normalize_mount_path("/"), "/");
    assert_eq!(normalize_mount_path(normalize_mount_path("//a/b//").as_str()), "/a/b");
}

#[test]
fn the_seam_slash_does_not_change_a_join() {
    assert_eq!(join_path("/api/", "users"), join_path("/api", "users"));
    assert_eq!(join_path("/api", "/users"), join_path("/api", "users"));
}

#[test]
fn a_canonical_path_is_final() {
    let once = canonical_path("/kitchen///").expect("trimmed");
    assert_eq!(canonical_path(&once), None);
}

#[test]
fn joining_is_associative() {
    for (a, b, c) in [("/api/", "/users", ":id"), ("", "/", "live"), ("/", "", "/x/"), ("a//", "//b//", "")] {
        assert_eq!(join_path(&join_path(a, b), c), join_path(a, &join_path(b, c)));
    }
    assert_eq!(join_path("/api", ""), join_path("/api", "/"));
}

#[test]
fn a_mount_path_wrapped_in_slashes_is_the_same_key() {
    for raw in ["", "/", "//", "x", "/x", "/x/", "a/b"] {
        let r = normalize_mount_path(raw);
        assert!(r.starts_with('/'));
        assert!(r == "/" || (!r.ends_with('/') && !r.starts_with("//")));
        assert_eq!(normalize_mount_path(&r), r);
        assert_eq!(normalize_mount_path(&format!("/{raw}/")), r);
    }
}
