use nest_rs_http::{EdgePosture, HttpEndpointMeta};

fn meta() -> HttpEndpointMeta {
    HttpEndpointMeta::new("/ws", "ws")
}

#[test]
fn a_guarded_edge_is_implicit_only_without_a_global_pool() {
    let m = meta();
    assert_eq!(m.posture(), EdgePosture::Guarded);
    assert!(m.edge_access_is_implicit(false));
    assert!(!m.edge_access_is_implicit(true));
}

#[test]
fn an_exempt_edge_is_never_implicit() {
    let m = meta().exempt();
    assert_eq!(m.posture(), EdgePosture::Exempt);
    assert!(!m.edge_access_is_implicit(false));
    assert!(!m.edge_access_is_implicit(true));
}

#[test]
fn a_self_mount_path_is_made_canonical() {
    let m = HttpEndpointMeta::new("/graphql/", "graphql");
    assert_eq!(m.path(), "/graphql");
    assert_eq!(m.label(), "graphql");
    assert_eq!(EdgePosture::default(), EdgePosture::Guarded);
}
