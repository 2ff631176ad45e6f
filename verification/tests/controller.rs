use nest_rs_http::{HttpControllerMeta, HttpRouteMeta, HttpVerb};
use nest_rs_http::controller::RequestBodyKind;

fn route_meta() -> HttpRouteMeta {
    HttpRouteMeta {
        verb: HttpVerb::Get,
        path: "/:id",
        handler: "show",
        versions: &[],
        summary: Some("Fetch one"),
        description: None,
        tags: &["Users"],
        response_content_type: None,
        masked: false,
        may_conflict: false,
        throttled: false,
        sets_location: false,
        success_status: 200,
        scoped_guarded: false,
        public: false,
    }
}

fn route(scoped_guarded: bool, public: bool) -> HttpRouteMeta {
    HttpRouteMeta {
        verb: HttpVerb::Post,
        path: "/",
        handler: "create",
        versions: &[],
        summary: None,
        description: None,
        tags: &[],
        response_content_type: None,
        masked: false,
        may_conflict: false,
        throttled: false,
        sets_location: false,
        success_status: 200,
        scoped_guarded,
        public,
    }
}

#[test]
fn http_verb_as_str_renders_each_method_name() {
    assert_eq!(HttpVerb::Get.as_str(), "GET");
    assert_eq!(HttpVerb::Post.as_str(), "POST");
    assert_eq!(HttpVerb::Put.as_str(), "PUT");
    assert_eq!(HttpVerb::Delete.as_str(), "DELETE");
    assert_eq!(HttpVerb::Patch.as_str(), "PATCH");
}

#[test]
fn http_verb_is_value_type_for_equality_and_clone() {
    let a = HttpVerb::Get;
    let b = a;
    assert_eq!(a, b);
    assert_eq!(format!("{a:?}"), "Get");
}

#[test]
fn an_unversioned_controller_still_mounts_at_one_address() {
    let meta = HttpControllerMeta::new("UsersController", "users", "/users", &[], Vec::new());
    let mounted = meta.mounted_versions();
    assert_eq!(mounted, vec![None]);
    assert_eq!(meta.effective_prefix(None), "/users");
}

#[test]
fn each_declared_version_is_its_own_mount_prefix() {
    let meta = HttpControllerMeta::new("UsersController", "users", "/users", &["1", "2"], Vec::new());
    let prefixes: Vec<String> = meta
        .mounted_versions()
        .into_iter()
        .map(|v| meta.effective_prefix(v))
        .collect();
    assert_eq!(prefixes, ["/v1/users", "/v2/users"]);
}

#[test]
fn a_route_serves_every_controller_version_until_it_narrows_itself() {
    let mut route = route_meta();
    assert!(HttpControllerMeta::serves(&route, Some("1")));
    route.versions = &["2"];
    assert!(HttpControllerMeta::serves(&route, Some("2")));
    assert!(!HttpControllerMeta::serves(&route, Some("1")));
    assert!(HttpControllerMeta::serves(&route, None));
}

#[test]
fn new_stores_the_path_versions_and_routes_verbatim() {
    let meta = HttpControllerMeta::new("UsersController", "users", "/users", &["2"], vec![route_meta()]);
    assert_eq!(meta.path, "/users");
    assert_eq!(meta.versions, &["2"]);
    assert_eq!(meta.routes.len(), 1);
    assert_eq!(meta.routes[0].handler, "show");
    assert_eq!(meta.routes[0].tags, &["Users"]);
}

#[test]
fn access_is_implicit_only_when_uncovered_and_no_global_pool() {
    assert!(route(false, false).access_is_implicit(false));
}

#[test]
fn a_global_pool_covers_every_route() {
    assert!(!route(false, false).access_is_implicit(true));
}

#[test]
fn a_scoped_guard_or_public_marker_makes_the_decision_explicit() {
    assert!(!route(true, false).access_is_implicit(false));
    assert!(!route(false, true).access_is_implicit(false));
    assert!(!route(true, true).access_is_implicit(false));
}

#[test]
fn each_body_kind_is_filed_under_its_media_type() {
    assert_eq!(RequestBodyKind::Json.media_type(), "application/json");
    assert_eq!(RequestBodyKind::Multipart.media_type(), "multipart/form-data");
    assert_eq!(RequestBodyKind::Form.media_type(), "application/x-www-form-urlencoded");
}
