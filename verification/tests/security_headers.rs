use nest_rs_http::security_headers::{
    override_header, CONTENT_SECURITY_POLICY, CROSS_ORIGIN_EMBEDDER_POLICY, CROSS_ORIGIN_OPENER_POLICY,
    CROSS_ORIGIN_RESOURCE_POLICY, KEY_COEP, KEY_COOP, KEY_CORP, KEY_CSP, KEY_FRAME_OPTIONS, KEY_HSTS,
    KEY_PERMISSIONS_POLICY, KEY_REFERRER_POLICY, PERMISSIONS_POLICY, REFERRER_POLICY,
    STRICT_TRANSPORT_SECURITY, X_CONTENT_TYPE_OPTIONS, X_FRAME_OPTIONS,
};
use nest_rs_http::{SecurityHeaderSettings, SecurityHeadersConfig};

fn value_of(headers: &[(&'static str, String)], name: &str) -> Option<String> {
    headers.iter().find(|(n, _)| *n == name).map(|(_, v)| v.clone())
}

fn setting(key: &str, value: &str) -> SecurityHeaderSettings {
    let mut s = SecurityHeaderSettings::default();
    let v = Some(value.to_owned());
    match key {
        "FRAME_OPTIONS" => s.frame_options = v,
        "HSTS" => s.hsts = v,
        "REFERRER_POLICY" => s.referrer_policy = v,
        "CROSS_ORIGIN_OPENER_POLICY" => s.cross_origin_opener_policy = v,
        "CROSS_ORIGIN_RESOURCE_POLICY" => s.cross_origin_resource_policy = v,
        "CROSS_ORIGIN_EMBEDDER_POLICY" => s.cross_origin_embedder_policy = v,
        "PERMISSIONS_POLICY" => s.permissions_policy = v,
        "CONTENT_SECURITY_POLICY" => s.content_security_policy = v,
        other => panic!("unknown key {other}"),
    }
    s
}

#[test]
fn defaults_are_on_with_safe_values() {
    let plain = SecurityHeadersConfig::default().headers(false);
    assert_eq!(value_of(&plain, X_CONTENT_TYPE_OPTIONS).as_deref(), Some("nosniff"));
    assert_eq!(value_of(&plain, X_FRAME_OPTIONS).as_deref(), Some("DENY"));
    assert!(
        value_of(&plain, STRICT_TRANSPORT_SECURITY).is_none(),
        "HSTS must not be emitted over plain HTTP",
    );
}

#[test]
fn the_cross_origin_and_referrer_defaults_are_emitted() {
    let plain = SecurityHeadersConfig::default().headers(false);
    assert_eq!(value_of(&plain, REFERRER_POLICY).as_deref(), Some("strict-origin-when-cross-origin"));
    assert_eq!(value_of(&plain, CROSS_ORIGIN_OPENER_POLICY).as_deref(), Some("same-origin"));
    assert_eq!(value_of(&plain, CROSS_ORIGIN_RESOURCE_POLICY).as_deref(), Some("same-origin"));
}

#[test]
fn the_argued_off_members_are_absent_by_default_and_settable() {
    let plain = SecurityHeadersConfig::default().headers(false);
    for name in [CROSS_ORIGIN_EMBEDDER_POLICY, PERMISSIONS_POLICY, CONTENT_SECURITY_POLICY] {
        assert!(value_of(&plain, name).is_none(), "{name} carries no default");
    }
    let pinned = SecurityHeadersConfig {
        cross_origin_embedder_policy: Some("require-corp".into()),
        permissions_policy: Some("geolocation=()".into()),
        content_security_policy: Some("default-src 'none'".into()),
        ..Default::default()
    }
    .headers(false);
    assert_eq!(value_of(&pinned, CROSS_ORIGIN_EMBEDDER_POLICY).as_deref(), Some("require-corp"));
    assert_eq!(value_of(&pinned, PERMISSIONS_POLICY).as_deref(), Some("geolocation=()"));
    assert_eq!(value_of(&pinned, CONTENT_SECURITY_POLICY).as_deref(), Some("default-src 'none'"));
}

#[test]
fn every_value_header_is_settable_from_the_environment() {
    for key in [
        KEY_FRAME_OPTIONS,
        KEY_HSTS,
        KEY_REFERRER_POLICY,
        KEY_COOP,
        KEY_CORP,
        KEY_COEP,
        KEY_PERMISSIONS_POLICY,
        KEY_CSP,
    ] {
        let loaded = SecurityHeadersConfig::from_settings(Default::default(), setting(key, "no-referrer"))
            .expect("value loads");
        let emitted = loaded.headers(true);
        let name = loaded
            .value_headers()
            .into_iter()
            .find(|entry| entry.key == key)
            .map(|entry| entry.name)
            .expect("every key names a header in the table");
        assert_eq!(value_of(&emitted, name).as_deref(), Some("no-referrer"), "{key} must reach the wire");
    }
}

#[test]
fn hsts_only_under_tls() {
    let d = SecurityHeadersConfig::default();
    assert!(
        value_of(&d.headers(true), STRICT_TRANSPORT_SECURITY).is_some(),
        "HSTS must be emitted under TLS",
    );
}

#[test]
fn disabled_emits_nothing() {
    let cfg = SecurityHeadersConfig { enabled: false, ..Default::default() };
    assert!(cfg.headers(true).is_empty());
}

#[test]
fn an_invalid_header_value_fails_boot_naming_the_var() {
    let err = SecurityHeadersConfig::from_settings(Default::default(), setting(KEY_FRAME_OPTIONS, "bad\nvalue"))
        .unwrap_err();
    assert_eq!(err.var, "NESTRS_HTTP__FRAME_OPTIONS");
}

#[test]
fn an_invalid_value_on_a_newer_header_fails_boot_too() {
    let err = SecurityHeadersConfig::from_settings(
        Default::default(),
        setting(KEY_CSP, "default-src 'none'\nX-Injected: y"),
    )
    .unwrap_err();
    assert_eq!(err.var, "NESTRS_HTTP__CONTENT_SECURITY_POLICY");
}

#[test]
fn a_valid_override_still_loads() {
    let loaded = SecurityHeadersConfig::from_settings(Default::default(), setting(KEY_FRAME_OPTIONS, "SAMEORIGIN"))
        .expect("valid value loads");
    assert_eq!(loaded.frame_options.as_deref(), Some("SAMEORIGIN"));
}

#[test]
fn an_empty_override_drops_one_header() {
    let cfg = SecurityHeadersConfig {
        frame_options: override_header(Some(String::new()), Some("DENY".into())),
        ..Default::default()
    };
    let emitted = cfg.headers(false);
    assert!(value_of(&emitted, X_FRAME_OPTIONS).is_none());
    assert!(
        value_of(&emitted, X_CONTENT_TYPE_OPTIONS).is_some(),
        "dropping one header leaves the others",
    );
}

#[test]
fn the_default_policy_is_emitted_in_table_order() {
    let plain = SecurityHeadersConfig::default().headers(false);
    let names: Vec<&str> = plain.iter().map(|(n, _)| *n).collect();
    assert_eq!(
        names,
        [
            X_CONTENT_TYPE_OPTIONS,
            X_FRAME_OPTIONS,
            REFERRER_POLICY,
            CROSS_ORIGIN_OPENER_POLICY,
            CROSS_ORIGIN_RESOURCE_POLICY,
        ],
    );
    let tls = SecurityHeadersConfig::default().headers(true);
    assert_eq!(tls.last().map(|(n, v)| (*n, v.as_str())), Some((STRICT_TRANSPORT_SECURITY, "max-age=31536000; includeSubDomains")));
}

#[test]
fn a_value_is_emitted_trimmed_and_the_reason_never_hides_which_value() {
    let cfg = SecurityHeadersConfig { frame_options: Some("  SAMEORIGIN ".into()), ..Default::default() };
    assert_eq!(value_of(&cfg.headers(false), X_FRAME_OPTIONS).as_deref(), Some("SAMEORIGIN"));
    let err = SecurityHeadersConfig::from_settings(Default::default(), setting(KEY_HSTS, " a\u{7f}b "))
        .unwrap_err();
    assert_eq!(err.var, "NESTRS_HTTP__HSTS");
    assert_eq!(err.reason, "`a\u{7f}b` is not a valid HTTP header value");
}

#[test]
fn a_master_switch_setting_overrides_the_base() {
    let s = SecurityHeaderSettings { enabled: Some(false), ..Default::default() };
    let cfg = SecurityHeadersConfig::from_settings(Default::default(), s).expect("loads");
    assert!(cfg.headers(true).is_empty());
    assert_eq!(override_header(None, Some("DENY".into())).as_deref(), Some("DENY"));
    assert_eq!(override_header(Some("  ".into()), Some("DENY".into())), None);
}

#[test]
fn no_header_is_emitted_twice_and_each_follows_its_setting() {
    let cfg = SecurityHeadersConfig {
        permissions_policy: Some(" geolocation=() ".into()),
        content_security_policy: Some("   ".into()),
        ..Default::default()
    };
    let headers = cfg.headers(true);
    let mut names: Vec<&str> = headers.iter().map(|(n, _)| *n).collect();
    names.sort_unstable();
    names.dedup();
    assert_eq!(names.len(), headers.len());
    assert_eq!(value_of(&headers, PERMISSIONS_POLICY).as_deref(), Some("geolocation=()"));
    assert_eq!(value_of(&headers, CONTENT_SECURITY_POLICY), None);
    assert_eq!(value_of(&headers, X_CONTENT_TYPE_OPTIONS).as_deref(), Some("nosniff"));
}
