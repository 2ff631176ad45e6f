use nest_rs_http::challenge::{bearer_error, bearer_error_described, INSUFFICIENT_SCOPE, INVALID_TOKEN};
use nest_rs_http::context::{ctx_answer, missing_context_answer, RejectedCredential};
use nest_rs_http::edge::{body_plan, canonical_target, count_chunk, BodyPlan};
use nest_rs_http::location::created_location;
use nest_rs_http::priority::{error_resolution_point, wrap_order, DATA_CONTEXT, FILTERS, INTERCEPTORS, POOL_INTERCEPTORS};
use nest_rs_http::raw_body::{body_limit_or_default, DEFAULT_BODY_LIMIT};
use nest_rs_http::shaper::{shaping_step, MaskProbe, ShapingStep};
use nest_rs_http::trace_context::{
    claimed_traceparent, inbound_traceparent, inbound_tracestate, span_name, upstream_request_id,
};
use nest_rs_http::{Ctx, IntoInner, Valid};

const ID: &str = "018f3f9c-0000-7000-8000-000000000001";

#[test]
fn the_location_is_the_collection_path_plus_the_id() {
    assert_eq!(created_location("/posts", ID), Some(format!("/posts/{ID}")));
    assert_eq!(created_location("/api/v1/posts", ID), Some(format!("/api/v1/posts/{ID}")));
    assert_eq!(created_location("/posts/", ID), Some(format!("/posts/{ID}")));
    assert_eq!(created_location("/", ID), Some(format!("/{ID}")));
}

#[test]
fn a_location_that_cannot_be_a_header_is_left_off() {
    assert_eq!(created_location("/posts", "a\nb"), None);
}

#[test]
fn into_inner_for_json_unwraps_the_payload() {
    let j = poem::web::Json(42i32);
    assert_eq!(j.into_inner(), 42);
}

#[test]
fn into_inner_for_path_unwraps_the_payload() {
    let p = poem::web::Path("/users/123".to_string());
    assert_eq!(p.into_inner(), "/users/123");
}

#[test]
fn into_inner_for_query_unwraps_the_payload() {
    #[derive(Debug, PartialEq)]
    struct Q {
        first: u32,
    }
    let q = poem::web::Query(Q { first: 7 });
    assert_eq!(q.into_inner(), Q { first: 7 });
}

#[test]
fn valid_into_inner_yields_the_validated_value() {
    let v: Valid<poem::web::Json<String>> = Valid("ok".into());
    assert_eq!(v.into_inner(), "ok");
}

#[test]
fn valid_deref_borrows_the_validated_value() {
    let v: Valid<poem::web::Json<String>> = Valid("ok".into());
    assert_eq!(v.len(), 2);
    assert_eq!(&*v, "ok");
}

#[test]
fn a_context_value_is_handed_over() {
    let c = Ctx("ada");
    assert_eq!(*c, "ada");
    assert_eq!(c.into_inner(), "ada");
}

#[test]
fn a_rejected_credential_defers_a_401_carrying_its_message() {
    let p = missing_context_answer(Some("authentication failed")).expect("the deferred 401");
    assert_eq!(p.status, 401);
    assert_eq!(p.detail.as_deref(), Some("authentication failed"));
    assert!(missing_context_answer(None).is_none(), "anything else is a wiring 500");
}

#[test]
fn the_bearer_challenge_is_one_production() {
    assert_eq!(bearer_error(INVALID_TOKEN), "Bearer error=\"invalid_token\"");
    assert_eq!(
        bearer_error_described(INSUFFICIENT_SCOPE, "needs posts:write"),
        "Bearer error=\"insufficient_scope\", error_description=\"needs posts:write\"",
    );
}

#[test]
fn the_body_cap_is_decided_by_what_the_request_declares() {
    assert_eq!(body_plan(None, Some(10_000), false, true), BodyPlan::PassThrough);
    assert_eq!(body_plan(Some(8), Some(9), false, false), BodyPlan::Reject);
    assert_eq!(body_plan(Some(8), Some(9), true, false), BodyPlan::Reject);
    assert_eq!(body_plan(Some(8), Some(8), false, false), BodyPlan::PassThrough);
    assert_eq!(body_plan(Some(8), Some(8), false, true), BodyPlan::Count);
    assert_eq!(body_plan(Some(8), None, true, true), BodyPlan::PassThrough);
    assert_eq!(body_plan(Some(8), None, false, false), BodyPlan::Buffer);
}

#[test]
fn a_counted_body_saturates_and_trips_past_the_cap() {
    assert_eq!(count_chunk(0, 5, 8), (5, false));
    assert_eq!(count_chunk(5, 4, 8), (9, true));
    assert_eq!(count_chunk(usize::MAX - 1, 10, 8), (usize::MAX, true));
}

#[test]
fn the_canonical_target_keeps_the_query() {
    assert_eq!(canonical_target("/kitchen/", Some("a=1")).as_deref(), Some("/kitchen?a=1"));
    assert_eq!(canonical_target("//", None).as_deref(), Some("/"));
    assert_eq!(canonical_target("/kitchen", Some("a=1")), None);
}

#[test]
fn the_ambient_cap_wins_over_the_default() {
    assert_eq!(body_limit_or_default(Some(64)), 64);
    assert_eq!(body_limit_or_default(None), DEFAULT_BODY_LIMIT);
    assert_eq!(DEFAULT_BODY_LIMIT, 2 * 1024 * 1024);
}

#[test]
fn an_upstream_request_id_is_read_only_behind_a_trusted_peer() {
    assert_eq!(upstream_request_id(false, Some(b"req-1")), None);
    assert_eq!(upstream_request_id(true, Some(b"req-1")).as_deref(), Some("req-1"));
    assert_eq!(upstream_request_id(true, Some(b"")), None);
    let long = "a".repeat(201);
    assert_eq!(upstream_request_id(true, Some(long.as_bytes())), None);
    assert_eq!(upstream_request_id(true, Some("a".repeat(200).as_bytes())).map(|s| s.len()), Some(200));
}

#[test]
fn a_claimed_traceparent_is_visible_text_or_nothing() {
    let tp = "00-4bf92f3577b34da6a3ce929d0e0e4736-00f067aa0ba902b7-01";
    assert_eq!(claimed_traceparent(Some(tp.as_bytes())).as_deref(), Some(tp));
    assert_eq!(claimed_traceparent(Some(b"")), None);
    assert_eq!(claimed_traceparent(Some(&[0x80])), None);
    assert_eq!(claimed_traceparent(None), None);
}

#[test]
fn a_span_is_named_for_its_route_never_its_path() {
    assert_eq!(span_name("GET", Some("/users/:id")), "GET /users/:id");
    assert_eq!(span_name("GET", None), "GET");
}

#[test]
fn wraps_apply_by_band_then_registration_order() {
    let order = wrap_order(&[INTERCEPTORS, DATA_CONTEXT, POOL_INTERCEPTORS, FILTERS, INTERCEPTORS]);
    assert_eq!(order, vec![1, 3, 2, 0, 4]);
    assert!(wrap_order(&[]).is_empty());
}

#[test]
fn a_marked_probe_on_success_fails_closed() {
    assert!(MaskProbe::fails_closed(true, 200));
    assert!(MaskProbe::fails_closed(true, 299));
}

#[test]
fn an_unmarked_probe_passes_the_response_through() {
    assert!(!MaskProbe::fails_closed(false, 200));
    assert!(!MaskProbe::fails_closed(true, 404));
    assert!(!MaskProbe::fails_closed(true, 500));
    assert!(!MaskProbe::fails_closed(true, 199));
}

#[test]
fn an_armed_route_runs_no_probe_scope() {
    assert_eq!(shaping_step(true, true), ShapingStep::Shape);
    assert_eq!(shaping_step(true, false), ShapingStep::Shape);
}

#[test]
fn a_capture_that_declines_leaves_the_response_untouched() {
    assert_eq!(shaping_step(false, false), ShapingStep::Plain);
    assert_eq!(shaping_step(false, true), ShapingStep::Probe);
}

#[test]
fn a_counted_body_past_the_cap_stays_past_it() {
    let (seen, over) = count_chunk(9, 0, 8);
    assert!(over);
    assert_eq!(count_chunk(seen, 1, 8), (10, true));
}

const UPSTREAM_TRACE: &[u8] = b"00-4bf92f3577b34da6a3ce929d0e0e4736-00f067aa0ba902b7-01";

#[test]
fn a_traceparent_is_continued_only_behind_a_trusted_peer() {
    assert_eq!(inbound_traceparent(true, Some(UPSTREAM_TRACE)).as_deref(), Some("00-4bf92f3577b34da6a3ce929d0e0e4736-00f067aa0ba902b7-01"));
    assert_eq!(inbound_traceparent(false, Some(UPSTREAM_TRACE)), None);
    assert_eq!(inbound_traceparent(true, Some(b"")), None);
    assert_eq!(inbound_traceparent(true, None), None);
}

#[test]
fn tracestate_rides_only_with_a_continued_parent() {
    assert_eq!(inbound_tracestate(true, Some(b"congo=t61rcWkgMzE")).as_deref(), Some("congo=t61rcWkgMzE"));
    assert_eq!(inbound_tracestate(false, Some(b"congo=t61rcWkgMzE")), None);
    assert_eq!(inbound_tracestate(true, None).as_deref(), Some(""));
    assert_eq!(inbound_tracestate(true, Some(b"\xff")).as_deref(), Some(""));
}

#[test]
fn a_missing_context_is_a_401_only_for_the_rejected_principal() {
    struct Principal;
    struct Tenant;
    let rejected = RejectedCredential {
        principal: std::any::TypeId::of::<Principal>(),
        client_message: "token expired".into(),
    };
    assert_eq!(ctx_answer(Some(7u32), std::any::TypeId::of::<Principal>(), Some(&rejected)).ok(), Some(7));
    let deferred = ctx_answer::<u32>(None, std::any::TypeId::of::<Principal>(), Some(&rejected))
        .err()
        .flatten()
        .expect("the deferred 401");
    assert_eq!(deferred.status, 401);
    assert_eq!(deferred.detail.as_deref(), Some("token expired"));
    assert!(matches!(ctx_answer::<u32>(None, std::any::TypeId::of::<Tenant>(), Some(&rejected)), Err(None)));
    assert!(matches!(ctx_answer::<u32>(None, std::any::TypeId::of::<Principal>(), None), Err(None)));
}

#[test]
fn errors_become_responses_after_the_filter_pool() {
    let ps = [INTERCEPTORS, DATA_CONTEXT, POOL_INTERCEPTORS, FILTERS, INTERCEPTORS];
    let order = wrap_order(&ps);
    // data context, filters | pool interceptors, infra interceptors
    assert_eq!(error_resolution_point(&ps, &order), 2);
    let only_interceptors = [POOL_INTERCEPTORS, INTERCEPTORS];
    assert_eq!(error_resolution_point(&only_interceptors, &wrap_order(&only_interceptors)), 0);
    let only_inner = [FILTERS, DATA_CONTEXT];
    assert_eq!(error_resolution_point(&only_inner, &wrap_order(&only_inner)), 2);
    assert_eq!(error_resolution_point(&[], &[]), 0);
}
