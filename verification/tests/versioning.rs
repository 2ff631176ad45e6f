use nest_rs_http::versioning::{accept_version, is_valid_version, route_matches, Requested, VersionRefusal};
use nest_rs_http::{declared_versions, ApiVersioning, HttpControllerMeta, VersionSelector, DEFAULT_VERSION_HEADER};

fn selector(strategy: ApiVersioning, default_version: Option<&str>) -> VersionSelector {
    VersionSelector::new(
        strategy,
        DEFAULT_VERSION_HEADER,
        default_version.map(str::to_owned),
    )
    .expect("a header name")
    .with_routes(
        vec!["/v1/users".into(), "/v2/users".into()],
        vec![],
        vec!["/users".into()],
        vec!["1".into(), "2".into()],
    )
}

fn routed(sel: &VersionSelector, path: &str, header: Option<&str>, accept: Option<&str>) -> Result<Option<String>, VersionRefusal> {
    let requested = sel.requested(header.map(str::as_bytes), accept.map(str::as_bytes));
    sel.resolve(path, &requested)
}

#[test]
fn the_matcher_reads_every_segment_form_the_router_parses() {
    assert!(route_matches("/posts/abc", "/posts/:id"));
    assert!(route_matches("/mix/@bob", "/mix/@:handle"));
    assert!(!route_matches("/mix/bob", "/mix/@:handle"));
    assert!(route_matches("/r/report-7", "/r/report-:id"));
    assert!(route_matches("/probe/7", r"/probe/<\d+>"));
    assert!(!route_matches("/probe/archive/7", r"/probe/<\d+>"));
    assert!(route_matches("/cat/a/b", "/cat/*rest"));
    assert!(route_matches("/cat/", "/cat/*rest"));
    assert!(route_matches("/users/", "/users"));
    assert!(!route_matches("/users/1", "/users"));
    assert!(!route_matches("/postsy", "/posts"));
}

#[test]
fn a_selector_with_nothing_versioned_reports_itself_inert() {
    let bare = VersionSelector::new(
        ApiVersioning::Header,
        DEFAULT_VERSION_HEADER,
        Some("1".into()),
    )
    .expect("a header name");
    assert!(bare.is_inert(), "a strategy alone versions nothing — only a controller does");
    assert!(!bare
        .clone()
        .with_routes(vec!["/v1/users".into()], vec![], vec!["/vendors".into()], vec!["1".into()])
        .is_inert());
}

#[test]
fn route_matching_follows_the_router_not_the_prefix() {
    assert!(route_matches("/ping", "/ping"));
    assert!(route_matches("/posts/abc", "/posts/:id"));
    assert!(route_matches("/files/a/b/c", "/files/*rest"));
    assert!(!route_matches("/postsy", "/posts"));
    assert!(
        !route_matches("/posts/drafts", "/posts"),
        "a nested controller is not the versioned one above it",
    );
    assert!(
        route_matches("/root-ping", "/root-ping"),
        "a root-mounted controller's routes are ordinary routes",
    );
    assert!(
        !route_matches("/posts", "/posts/:id"),
        "a parameter segment is required, not optional",
    );
}

#[test]
fn strategies_parse_from_their_documented_spellings() {
    assert_eq!("uri".parse(), Ok(ApiVersioning::Uri));
    assert_eq!("HEADER".parse(), Ok(ApiVersioning::Header));
    assert_eq!("media-type".parse(), Ok(ApiVersioning::MediaType));
    assert_eq!("media_type".parse(), Ok(ApiVersioning::MediaType));
    let err = "v2".parse::<ApiVersioning>().expect_err("unknown strategy");
    assert!(err.contains("media_type"), "names the options: {err}");
}

#[test]
fn a_strategy_renders_its_configured_spelling() {
    assert_eq!(ApiVersioning::Uri.as_str(), "uri");
    assert_eq!(ApiVersioning::Header.as_str(), "header");
    assert_eq!(ApiVersioning::MediaType.as_str(), "media_type");
    assert_eq!(ApiVersioning::default(), ApiVersioning::Uri);
}

#[test]
fn a_header_names_the_version_to_route_to() {
    let sel = selector(ApiVersioning::Header, None);
    assert_eq!(routed(&sel, "/users", Some("2"), None), Ok(Some("/v2/users".to_owned())));
}

#[test]
fn a_media_type_parameter_names_the_version_to_route_to() {
    let sel = selector(ApiVersioning::MediaType, None);
    assert_eq!(
        routed(&sel, "/users", None, Some("application/json; version=1")),
        Ok(Some("/v1/users".to_owned())),
    );
    assert_eq!(
        routed(&sel, "/users", None, Some("text/html, application/json;version=\"2\"")),
        Ok(Some("/v2/users".to_owned())),
    );
}

#[test]
fn a_default_version_leaves_an_unversioned_address_where_it_is() {
    for default in [Some("1"), None] {
        let sel = selector(ApiVersioning::Header, default);
        assert_eq!(routed(&sel, "/users", None, None), Ok(None));
    }
    let sel = selector(ApiVersioning::Header, Some("1"));
    assert_eq!(routed(&sel, "/users", Some("2"), None), Ok(Some("/v2/users".to_owned())));
}

#[test]
fn a_version_token_that_could_reach_another_path_is_a_bad_request() {
    let sel = selector(ApiVersioning::Header, None);
    let long = "a".repeat(64);
    for probe in ["../admin", "1/../../etc", "1%2f2", "", long.as_str()] {
        assert_eq!(routed(&sel, "/users", Some(probe), None), Err(VersionRefusal::Malformed), "{probe:?}");
    }
    assert_eq!(VersionRefusal::Malformed.status(), 400);
}

#[test]
fn a_typed_version_path_is_not_found_under_a_rewriting_strategy() {
    let sel = selector(ApiVersioning::Header, None);
    assert_eq!(routed(&sel, "/v2/users", None, None), Err(VersionRefusal::NotFound));
    assert_eq!(VersionRefusal::NotFound.status(), 404);
}

#[test]
fn an_opaque_version_is_spliced_as_written() {
    let sel = VersionSelector::new(
        ApiVersioning::Header,
        DEFAULT_VERSION_HEADER,
        None,
    )
    .expect("a header name")
    .with_routes(vec!["/v2024-08-11/users".into()], vec![], vec![], vec!["2024-08-11".into()]);
    assert_eq!(routed(&sel, "/v2024-08-11/users", None, None), Err(VersionRefusal::NotFound));
    assert_eq!(
        routed(&sel, "/users", Some("2024-08-11"), None),
        Ok(Some("/v2024-08-11/users".to_owned())),
    );
}

#[test]
fn a_path_that_only_starts_with_v_is_not_a_version() {
    let sel = VersionSelector::new(
        ApiVersioning::Header,
        DEFAULT_VERSION_HEADER,
        Some("1".into()),
    )
    .expect("a header name")
    .with_routes(vec!["/v1/users".into()], vec![], vec!["/vendors".into()], vec!["1".into()]);
    assert_eq!(routed(&sel, "/vendors", None, None), Ok(None));
}

#[test]
fn a_self_mount_is_never_rewritten() {
    let sel = VersionSelector::new(
        ApiVersioning::Header,
        DEFAULT_VERSION_HEADER,
        Some("1".into()),
    )
    .expect("a header name")
    .with_routes(vec!["/v1/*rest".into()], vec!["/graphql".into()], vec![], vec!["1".into()]);
    assert_eq!(routed(&sel, "/graphql", Some("1"), None), Ok(None));
    assert_eq!(routed(&sel, "/graphql", None, None), Ok(None));
}

#[test]
fn the_uri_strategy_reads_no_header() {
    let sel = selector(ApiVersioning::Uri, None);
    assert_eq!(sel.requested(Some(b"2"), Some(b"application/json; version=2")), Requested::Absent);
    assert!(!sel.rewrites());
}

#[test]
fn an_unreadable_accept_header_is_malformed() {
    assert_eq!(accept_version(Some(&[0xff, 0xfe])), Requested::Malformed);
    assert_eq!(accept_version(None), Requested::Absent);
    assert_eq!(accept_version(Some(b"application/json")), Requested::Absent);
}

#[test]
fn version_tokens_are_short_and_plain() {
    for ok in ["1", "2", "2024-08-11", "1.0", "v1"] {
        assert!(is_valid_version(ok), "{ok:?}");
    }
    for bad in ["", "1/2", "../admin", "a b", "\u{e9}"] {
        assert!(!is_valid_version(bad), "{bad:?}");
    }
    assert!(is_valid_version(&"a".repeat(32)));
    assert!(!is_valid_version(&"a".repeat(33)));
}

#[test]
fn the_declared_versions_are_sorted_and_listed_once() {
    let a = HttpControllerMeta::new("A", "a", "/a", &["2", "1"], Vec::new());
    let b = HttpControllerMeta::new("B", "b", "/b", &["1", "10"], Vec::new());
    let c = HttpControllerMeta::new("C", "c", "/c", &[], Vec::new());
    assert_eq!(declared_versions(&[a, b, c]), vec!["1", "10", "2"]);
    assert!(declared_versions(&[]).is_empty());
}

#[test]
fn a_literal_route_matches_itself_and_its_trailing_slashes_only() {
    assert!(route_matches("/posts", "/posts"));
    assert!(route_matches("/posts/", "/posts"));
    assert!(route_matches("/posts//", "/posts"));
    assert!(!route_matches("/posts/drafts", "/posts"));
    assert!(!route_matches("/postsy", "/posts"));
}

#[test]
fn the_first_version_parameter_of_accept_is_read() {
    assert_eq!(
        accept_version(Some(b"text/html, application/json;version=\"2\"")),
        Requested::Stated("2".into()),
    );
    assert_eq!(accept_version(Some(b"application/json; Version = 3; version=4")), Requested::Stated("3".into()));
    assert_eq!(accept_version(Some(b"application/json")), Requested::Absent);
    assert_eq!(accept_version(None), Requested::Absent);
    assert_eq!(accept_version(Some(&[0xff, b'x'])), Requested::Malformed);
    assert_eq!(accept_version(Some(b"version=9, text/html;version=1")), Requested::Stated("1".into()));
}

#[test]
fn strategy_spellings_round_trip_and_normalize() {
    for v in [ApiVersioning::Uri, ApiVersioning::Header, ApiVersioning::MediaType] {
        assert_eq!(ApiVersioning::parse(v.as_str()), Ok(v));
    }
    assert_eq!(ApiVersioning::parse("HEADER"), Ok(ApiVersioning::Header));
    assert_eq!(ApiVersioning::parse(" media-type "), Ok(ApiVersioning::MediaType));
    assert!(ApiVersioning::parse("v2").unwrap_err().contains("media_type"));
    assert_eq!(ApiVersioning::parse(" V2 ").unwrap_err(), ApiVersioning::parse("v2").unwrap_err());
}

#[test]
fn a_selector_reads_its_header_in_lower_case_and_refuses_a_non_name() {
    let sel = VersionSelector::new(ApiVersioning::Header, "X-Api-Version", None).expect("a header name");
    assert_eq!(sel.header_text(), "x-api-version");
    assert!(VersionSelector::new(ApiVersioning::Header, "X Api Version", None).is_none());
    assert!(VersionSelector::new(ApiVersioning::Header, "", None).is_none());
}
