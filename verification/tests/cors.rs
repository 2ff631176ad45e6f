use nest_rs_http::cors::WILDCARD;
use nest_rs_http::{CorsConfig, CorsSettings};

fn cfg(origins: &[&str]) -> CorsConfig {
    CorsConfig { origins: origins.iter().map(|s| (*s).to_owned()).collect(), ..Default::default() }
}

fn err_string(result: Result<(), String>) -> String {
    match result {
        Ok(()) => panic!("expected an error"),
        Err(err) => err,
    }
}

#[test]
fn into_middleware_accepts_an_empty_config() {
    cfg(&[]).check().expect("empty config builds");
}

#[test]
fn into_middleware_accepts_a_basic_origin_list() {
    cfg(&["https://app.example.com"]).check().expect("valid config");
}

#[test]
fn into_middleware_rejects_an_invalid_method() {
    let cfg = CorsConfig { origins: vec!["*".into()], methods: vec!["BAD METHOD".into()], ..Default::default() };
    let err = err_string(cfg.check());
    assert!(err.contains("invalid HTTP method"), "got: {err}");
}

#[test]
fn into_middleware_rejects_an_invalid_header_name() {
    let cfg = CorsConfig { origins: vec!["*".into()], headers: vec!["bad header!".into()], ..Default::default() };
    let err = err_string(cfg.check());
    assert!(err.contains("invalid header name"), "got: {err}");
}

#[test]
fn into_middleware_rejects_a_max_age_that_overflows_i32_seconds() {
    let cfg = CorsConfig { origins: vec!["*".into()], max_age: Some(u64::MAX), ..Default::default() };
    let err = err_string(cfg.check());
    assert!(err.contains("max_age overflows"), "got: {err}");
}

#[test]
fn into_middleware_accepts_credentials_and_max_age_and_exposed_headers() {
    let cfg = CorsConfig {
        origins: vec!["https://app.example.com".into()],
        methods: vec!["GET".into(), "POST".into()],
        headers: vec!["content-type".into(), "x-trace-id".into()],
        exposed_headers: vec!["x-trace-id".into()],
        credentials: true,
        max_age: Some(60 * 60),
    };
    cfg.check().expect("a fully-specified config builds");
}

#[test]
fn into_middleware_rejects_an_invalid_exposed_header() {
    let cfg = CorsConfig { origins: vec!["*".into()], exposed_headers: vec!["bad header!".into()], ..Default::default() };
    let err = err_string(cfg.check());
    assert!(err.contains("invalid header name"), "got: {err}");
    assert!(err.contains("expose-list"), "must name the list: {err}");
}

#[test]
fn credentials_refuse_a_wildcard_in_every_list_the_rule_binds() {
    type Case = (&'static str, &'static str, fn(&mut CorsConfig));
    let cases: [Case; 4] = [
        ("origins", "Access-Control-Allow-Origin", |c| c.origins = vec![WILDCARD.into()]),
        ("headers", "Access-Control-Allow-Headers", |c| c.headers = vec![WILDCARD.into()]),
        ("methods", "Access-Control-Allow-Methods", |c| c.methods = vec![WILDCARD.into()]),
        ("exposed_headers", "Access-Control-Expose-Headers", |c| c.exposed_headers = vec![WILDCARD.into()]),
    ];
    for (field, header, wildcard) in cases {
        let mut cfg = CorsConfig {
            origins: vec!["https://app.example.com".into()],
            credentials: true,
            ..Default::default()
        };
        wildcard(&mut cfg);
        let err = err_string(cfg.check());
        assert!(err.contains(field), "must name the list: {err}");
        assert!(err.contains(header), "must name the header: {err}");
    }
}

#[test]
fn a_wildcard_without_credentials_still_builds() {
    CorsConfig {
        origins: vec![WILDCARD.into()],
        headers: vec![WILDCARD.into()],
        methods: vec![WILDCARD.into()],
        exposed_headers: vec![WILDCARD.into()],
        credentials: false,
        ..Default::default()
    }
    .check()
    .expect("a wildcard policy with no credentials is legal");
}

#[test]
fn from_env_returns_none_when_origins_unset() {
    assert!(CorsConfig::from_settings(None, CorsSettings::default()).is_none(), "unset origins means CORS off");
}

#[test]
fn from_env_reads_origins_methods_headers_when_set() {
    let s = CorsSettings {
        origins: Some(vec!["https://a.example".into(), "https://b.example".into()]),
        methods: Some(vec!["GET".into(), "POST".into()]),
        headers: Some(vec!["content-type".into()]),
        ..Default::default()
    };
    let cfg = CorsConfig::from_settings(None, s).expect("Some when origins set");
    assert_eq!(cfg.origins, vec!["https://a.example".to_string(), "https://b.example".into()]);
    assert_eq!(cfg.methods, vec!["GET".to_string(), "POST".into()]);
    assert_eq!(cfg.headers, vec!["content-type".to_string()]);
    assert!(!cfg.credentials, "off by default");
    assert!(cfg.max_age.is_none(), "off by default");
}

#[test]
fn from_env_reads_credentials_flag_and_max_age() {
    let s = CorsSettings {
        origins: Some(vec!["*".into()]),
        credentials: Some(true),
        max_age: Some(600),
        ..Default::default()
    };
    let cfg = CorsConfig::from_settings(None, s).expect("Some");
    assert!(cfg.credentials);
    assert_eq!(cfg.max_age, Some(600));
}

#[test]
fn a_deployment_widens_origins_without_restating_the_rest() {
    let base = CorsConfig {
        origins: vec!["https://a.example".into()],
        methods: vec!["GET".into()],
        credentials: true,
        ..Default::default()
    };
    let s = CorsSettings { origins: Some(vec!["https://a.example".into(), "https://b.example".into()]), ..Default::default() };
    let cfg = CorsConfig::from_settings(Some(base), s).expect("Some");
    assert_eq!(cfg.origins.len(), 2);
    assert_eq!(cfg.methods, vec!["GET".to_string()]);
    assert!(cfg.credentials);
}

#[test]
fn the_wildcard_table_names_four_lists() {
    let c = cfg(&["x"]);
    let lists = c.wildcard_lists();
    let fields: Vec<&str> = lists.iter().map(|(f, _, _)| *f).collect();
    assert_eq!(fields, ["origins", "headers", "methods", "exposed_headers"]);
    assert_eq!(CorsConfig { credentials: true, ..cfg(&["*"]) }.reject_wildcards_with_credentials().is_err(), true);
    assert!(CorsConfig { credentials: false, ..cfg(&["*"]) }.reject_wildcards_with_credentials().is_ok());
}

#[test]
fn the_largest_preflight_lifetime_still_builds() {
    let ok = CorsConfig { origins: vec!["*".into()], max_age: Some(2147483647), ..Default::default() };
    ok.check().expect("i32::MAX seconds fits");
    let over = CorsConfig { origins: vec!["*".into()], max_age: Some(2147483648), ..Default::default() };
    assert!(over.check().is_err());
}
