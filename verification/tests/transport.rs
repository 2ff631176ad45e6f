use nest_rs_http::transport::prefix_remedy;
use nest_rs_http::{
    plan_mounts, ApiVersioning, HttpControllerMeta, HttpEndpointMeta, HttpRouteMeta, HttpVerb, VersionSelector,
    DEFAULT_VERSION_HEADER,
};

fn r(verb: HttpVerb, path: &'static str, handler: &'static str) -> HttpRouteMeta {
    HttpRouteMeta {
        verb,
        path,
        handler,
        versions: &[],
        summary: None,
        description: None,
        tags: &[],
        response_content_type: None,
        masked: false,
        may_conflict: false,
        throttled: false,
        sets_location: false,
        success_status: 200,
        scoped_guarded: false,
        public: false,
    }
}

fn controller(name: &'static str, path: &'static str, versions: &'static [&'static str], routes: Vec<HttpRouteMeta>) -> HttpControllerMeta {
    HttpControllerMeta::new(name, name, path, versions, routes)
}

fn header_selector(default: Option<&str>) -> VersionSelector {
    VersionSelector::new(ApiVersioning::Header, DEFAULT_VERSION_HEADER, default.map(str::to_owned)).expect("a header name")
}

#[test]
fn a_plan_lists_what_each_version_mounts() {
    let cs = [
        controller("PostsController", "/posts", &["1", "2"], vec![r(HttpVerb::Get, "/:id", "show"), r(HttpVerb::Post, "/", "create")]),
        controller("HealthController", "/health", &[], vec![r(HttpVerb::Get, "/live", "live")]),
    ];
    let plan = plan_mounts(&cs, &[], &Vec::new(), true, true, None).expect("no collision");
    assert_eq!(plan.versioned_routes, ["/v1/posts/:id", "/v1/posts", "/v2/posts/:id", "/v2/posts"]);
    assert_eq!(plan.unversioned_routes, ["/health/live"]);
    assert_eq!(plan.declared_versions, ["1", "2"]);
    assert!(plan.unguarded_routes.is_empty(), "a global pool covers every route");
}

#[test]
fn two_controllers_on_one_prefix_fail_boot_naming_both() {
    let cs = [
        controller("UsersController", "/users", &[], vec![]),
        controller("AdminUsersController", "/users", &[], vec![]),
    ];
    let err = plan_mounts(&cs, &[], &Vec::new(), false, true, None).err().expect("collision");
    assert_eq!(
        err,
        "duplicate controller prefix \"/users\": UsersController and AdminUsersController both mount there — a controller prefix is its exclusive namespace; give each one a distinct path",
    );
}

#[test]
fn two_versions_of_one_resource_are_told_to_drop_a_version() {
    let cs = [
        controller("PostsV1", "/posts", &["2"], vec![]),
        controller("PostsV2", "/posts", &["2"], vec![]),
    ];
    let err = plan_mounts(&cs, &[], &Vec::new(), false, true, None).err().expect("collision");
    assert!(err.contains("both declare version \"2\" at that path"), "{err}");
    assert_eq!(prefix_remedy(None), "give each one a distinct path");
}

#[test]
fn several_verbs_on_one_path_are_one_owner() {
    let cs = [controller("UsersController", "/users", &[], vec![
        r(HttpVerb::Get, "/:id", "show"),
        r(HttpVerb::Put, "/:id", "update"),
        r(HttpVerb::Delete, "/:id", "remove"),
    ])];
    let plan = plan_mounts(&cs, &[], &Vec::new(), false, true, None).expect("one owner");
    assert_eq!(plan.unversioned_routes.len(), 3);
    assert_eq!(
        plan.unguarded_routes,
        ["GET /users/:id (show)", "PUT /users/:id (update)", "DELETE /users/:id (remove)"],
    );
}

#[test]
fn two_controllers_meeting_at_one_full_path_fail_boot() {
    let cs = [
        controller("ApiController", "/api", &[], vec![r(HttpVerb::Get, "/users", "list")]),
        controller("UsersController", "/api/users", &[], vec![r(HttpVerb::Get, "/", "index")]),
    ];
    let err = plan_mounts(&cs, &[], &Vec::new(), true, true, None).err().expect("collision");
    assert_eq!(
        err,
        "duplicate route path \"/api/users\": ApiController and UsersController both mount there — give each controller route a distinct full path",
    );
}

#[test]
fn a_default_version_nothing_declares_fails_boot() {
    let cs = [controller("PostsController", "/posts", &["1", "2"], vec![])];
    let sel = header_selector(Some("3"));
    let err = plan_mounts(&cs, &[], &Vec::new(), false, true, Some(&sel)).err().expect("undeclared");
    assert_eq!(
        err,
        "NESTRS_HTTP__DEFAULT_VERSION names API version \"3\", which no controller declares — the versions mounted are 1, 2; name one of those or unset NESTRS_HTTP__DEFAULT_VERSION",
    );
    let none: [HttpControllerMeta; 0] = [];
    let err = plan_mounts(&none, &[], &Vec::new(), false, true, Some(&sel)).err().expect("undeclared");
    assert!(err.contains("no controller declares a version at all"), "{err}");
    let ok = header_selector(Some("2"));
    assert!(plan_mounts(&cs, &[], &Vec::new(), false, true, Some(&ok)).is_ok());
    let uri = VersionSelector::new(ApiVersioning::Uri, DEFAULT_VERSION_HEADER, Some("3".into())).expect("a header name");
    assert!(plan_mounts(&cs, &[], &Vec::new(), false, true, Some(&uri)).is_ok(), "the URI strategy rewrites nothing");
}

#[test]
fn a_self_mount_on_a_controller_path_fails_boot() {
    let cs = [controller("ChatController", "/chat", &[], vec![])];
    let es = [HttpEndpointMeta::new("/chat/", "ws")];
    let err = plan_mounts(&cs, &es, &Vec::new(), false, true, None).err().expect("collision");
    assert!(err.starts_with("duplicate mount path \"/chat\": controller ChatController and the ws endpoint"), "{err}");
}

#[test]
fn two_self_mounts_on_one_path_fail_boot() {
    let es = [HttpEndpointMeta::new("/mcp", "mcp"), HttpEndpointMeta::new("/mcp/", "mcp")];
    let none: [HttpControllerMeta; 0] = [];
    let err = plan_mounts(&none, &es, &Vec::new(), false, true, None).err().expect("collision");
    assert_eq!(
        err,
        "duplicate self-mounted endpoint path \"/mcp\": mcp endpoint and mcp endpoint both mount there — a self-mounted endpoint path is its exclusive namespace; give each one a distinct path",
    );
}

#[test]
fn self_mounts_are_listed_and_guarded_edges_reported() {
    let es = [HttpEndpointMeta::new("/ws", "ws"), HttpEndpointMeta::new("/api-json", "openapi").exempt()];
    let none: [HttpControllerMeta; 0] = [];
    let plan = plan_mounts(&none, &es, &Vec::new(), false, true, None).expect("no collision");
    assert_eq!(plan.self_mounts, ["/ws", "/api-json"]);
    assert_eq!(plan.unguarded_edges, ["/ws (ws)"]);
    let plan = plan_mounts(&none, &es, &Vec::new(), true, true, None).expect("no collision");
    assert!(plan.unguarded_edges.is_empty());
}

#[test]
fn imperative_mounts_fail_secure_under_a_global_pool() {
    let none: [HttpControllerMeta; 0] = [];
    let mounts = vec!["/metrics".to_owned(), "/debug".to_owned()];
    let err = plan_mounts(&none, &[], &mounts, true, true, None).err().expect("fail-secure");
    assert_eq!(
        err,
        "fail-secure: imperative mount(...) endpoints bypass the global guard pool: /metrics, /debug — route them through a #[controller], guard them explicitly, or opt out with HttpTransport::fail_secure_strict(false) / NESTRS_HTTP__FAIL_SECURE_STRICT=false",
    );
    let plan = plan_mounts(&none, &[], &mounts, true, false, None).expect("relaxed to a warning");
    assert_eq!(plan.bypassing_mounts, mounts);
    let plan = plan_mounts(&none, &[], &mounts, false, true, None).expect("no pool to bypass");
    assert!(plan.bypassing_mounts.is_empty());
}

#[test]
fn a_route_narrowed_out_of_a_version_is_not_mounted_there() {
    let mut narrowed = r(HttpVerb::Get, "/drafts", "drafts");
    narrowed.versions = &["2"];
    let cs = [controller("PostsController", "/posts", &["1", "2"], vec![narrowed])];
    let plan = plan_mounts(&cs, &[], &Vec::new(), false, true, None).expect("no collision");
    assert_eq!(plan.versioned_routes, ["/v2/posts/drafts"]);
}
