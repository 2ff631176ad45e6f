use nest_rs_http::problem::{header_is_carried, lifted_problem, rebuilds_as_problem};
use nest_rs_http::ProblemDetails;

#[test]
fn constructors_set_status_and_title() {
    assert_eq!(ProblemDetails::bad_request().status, 400);
    assert_eq!(ProblemDetails::bad_request().title, "Bad Request");
    assert_eq!(ProblemDetails::unauthorized().status, 401);
    assert_eq!(ProblemDetails::forbidden().status, 403);
    assert_eq!(ProblemDetails::not_found().status, 404);
    assert_eq!(ProblemDetails::conflict().status, 409);
    assert_eq!(ProblemDetails::unprocessable().status, 422);
    assert_eq!(ProblemDetails::internal().status, 500);
}

#[test]
fn constructors_preset_type_uri() {
    assert!(ProblemDetails::not_found()
        .type_uri
        .starts_with("https://www.rfc-editor.org/rfc/rfc9110"));
    assert!(ProblemDetails::unprocessable().type_uri.contains("rfc9110"));
}

#[test]
fn with_detail_adds_field() {
    let p = ProblemDetails::not_found().with_detail("user 42 missing");
    assert_eq!(p.detail.as_deref(), Some("user 42 missing"));
    assert_eq!(p.status, 404);
    assert_eq!(p.title, "Not Found");
}

#[test]
fn with_instance_adds_field() {
    let p = ProblemDetails::conflict().with_instance("/orders/17");
    assert_eq!(p.instance.as_deref(), Some("/orders/17"));
}

#[test]
fn with_type_and_title_override_defaults() {
    let p = ProblemDetails::bad_request()
        .with_type("urn:problem:order-invalid")
        .with_title("Order invalid");
    assert_eq!(p.type_uri, "urn:problem:order-invalid");
    assert_eq!(p.title, "Order invalid");
}

#[test]
fn with_extension_flattens_alongside_standard_members() {
    let errors = serde_json::Value::from(vec![serde_json::Value::from("not an email")]);
    let p = ProblemDetails::bad_request()
        .with_detail("validation failed")
        .with_extension("errors", errors.clone());
    assert_eq!(p.status, 400);
    assert_eq!(p.detail.as_deref(), Some("validation failed"));
    assert_eq!(p.extensions.len(), 1);
    assert_eq!(p.extensions[0].0, "errors");
    assert_eq!(p.extensions[0].1, errors);
}

#[test]
fn setting_an_extension_again_replaces_it() {
    let p = ProblemDetails::bad_request()
        .with_extension("a", serde_json::Value::from(1))
        .with_extension("b", serde_json::Value::from(2))
        .with_extension("a", serde_json::Value::from(3));
    assert_eq!(p.extensions.len(), 2);
    assert_eq!(p.extensions[0], ("a".to_owned(), serde_json::Value::from(3)));
    assert_eq!(p.extensions[1], ("b".to_owned(), serde_json::Value::from(2)));
}

#[test]
fn from_status_routes_well_known_codes_to_their_constructor() {
    assert_eq!(ProblemDetails::from_status(404).type_uri, ProblemDetails::not_found().type_uri);
    assert_eq!(ProblemDetails::from_status(409).status, 409);
    let teapot = ProblemDetails::from_status(418);
    assert_eq!(teapot.type_uri, "about:blank");
    assert_eq!(teapot.title, "I'm a teapot");
}

#[test]
fn an_unregistered_status_is_titled_error() {
    let odd = ProblemDetails::from_status(599);
    assert_eq!(odd.type_uri, "about:blank");
    assert_eq!(odd.title, "Error");
    assert_eq!(ProblemDetails::from_status_with_reason(418, Some("Short and stout")).title, "Short and stout");
    assert_eq!(ProblemDetails::from_status_with_reason(404, Some("ignored")).title, "Not Found");
}

#[test]
fn detail_and_instance_omitted_when_absent() {
    let p = ProblemDetails::not_found();
    assert!(p.detail.is_none());
    assert!(p.instance.is_none());
    assert!(p.extensions.is_empty());
}

#[test]
fn from_error_carries_the_message_as_detail() {
    let p = ProblemDetails::from_error(502, "Upstream failed", "connection reset");
    assert_eq!(p.type_uri, "about:blank");
    assert_eq!(p.title, "Upstream failed");
    assert_eq!(p.status, 502);
    assert_eq!(p.detail.as_deref(), Some("connection reset"));
}

#[test]
fn a_raw_plain_text_error_is_rebuilt_with_its_client_message() {
    assert!(rebuilds_as_problem(400, false, Some(b"text/plain; charset=utf-8")));
    let p = lifted_problem(400, Some("  id must be a UUID v7 \n"));
    assert_eq!(p.status, 400);
    assert_eq!(p.detail.as_deref(), Some("id must be a UUID v7"));
}

#[test]
fn an_existing_problem_or_a_typed_body_is_left_alone() {
    assert!(!rebuilds_as_problem(409, false, Some(b"application/problem+json")));
    assert!(!rebuilds_as_problem(400, false, Some(b"application/json")));
    assert!(!rebuilds_as_problem(400, false, Some(b"text/html")));
}

#[test]
fn a_filter_mapped_response_is_left_alone() {
    assert!(!rebuilds_as_problem(418, true, Some(b"text/plain")));
    assert!(!rebuilds_as_problem(418, true, None));
}

#[test]
fn a_success_is_never_rebuilt() {
    assert!(!rebuilds_as_problem(200, false, None));
    assert!(!rebuilds_as_problem(302, false, Some(b"text/plain")));
}

#[test]
fn a_server_error_never_echoes_its_text() {
    let p = lifted_problem(500, Some("connection to db-primary refused"));
    assert_eq!(p.status, 500);
    assert_eq!(p.title, "Internal Server Error");
    assert!(p.detail.is_none(), "no detail on a 500");
}

#[test]
fn a_bodyless_error_is_rebuilt_and_keeps_its_headers() {
    assert!(rebuilds_as_problem(401, false, None));
    assert!(rebuilds_as_problem(401, false, Some(&[0xff])));
    let p = lifted_problem(401, None);
    assert_eq!(p.title, "Unauthorized");
    assert!(p.detail.is_none());
    assert!(header_is_carried("www-authenticate"));
    assert!(header_is_carried("retry-after"));
}

#[test]
fn the_body_headers_of_the_original_are_dropped() {
    for name in ["content-type", "content-length", "content-encoding", "transfer-encoding"] {
        assert!(!header_is_carried(name), "{name}");
    }
    let p = lifted_problem(504, Some("upstream timed out"));
    assert_eq!(p.status, 504);
    assert_eq!(p.type_uri, "about:blank");
    assert_eq!(p.title, "Gateway Timeout");
    assert!(p.detail.is_none());
}

#[test]
fn a_blank_client_error_body_adds_no_detail() {
    let p = lifted_problem(404, Some("   "));
    assert!(p.detail.is_none());
}

#[test]
fn a_problem_describes_itself_by_status_title_and_detail() {
    assert_eq!(ProblemDetails::not_found().describe(), "404: Not Found");
    assert_eq!(
        ProblemDetails::not_found().with_detail("no such post").describe(),
        "404: Not Found — no such post",
    );
}
