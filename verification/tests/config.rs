use nest_rs_http::config::{parse_flag, seconds_setting, split_list};
use nest_rs_http::raw_body::DEFAULT_BODY_LIMIT;
use nest_rs_http::{
    ApiVersioning, CorsSettings, HttpConfig, HttpSettings, IpAddress, SecurityHeaderSettings, SseSettings,
    DEFAULT_HOST, DEFAULT_PORT,
};

fn silent() -> HttpSettings {
    HttpSettings {
        host: None,
        port: None,
        tls_cert: None,
        tls_key: None,
        tls_reload: None,
        cors: CorsSettings::default(),
        versioning: None,
        version_header: None,
        default_version: None,
        server_header: None,
        global_prefix: None,
        max_body_bytes: None,
        request_timeout_secs: None,
        fail_secure_strict: None,
        security_headers: SecurityHeaderSettings::default(),
        compression: None,
        access_log: None,
        trusted_proxies: None,
        sse_max_connection: None,
        sse_keep_alive: None,
    }
}

#[test]
fn defaults_bind_all_interfaces_on_3000_with_no_tls_no_cors() {
    let d = HttpConfig::default();
    assert_eq!(d.host, "0.0.0.0");
    assert_eq!(d.port, 3000);
    assert!(d.tls.is_none(), "default must serve plain HTTP");
    assert!(d.cors.is_none(), "no CORS layer by default");
    assert!(!d.server_header, "Server header opt-out by default");
    assert!(d.global_prefix.is_none(), "no global prefix by default");
    assert_eq!(d.max_body_bytes, Some(DEFAULT_BODY_LIMIT));
    assert!(!d.compression, "compression opt-in");
    assert!(d.trusted_proxies.is_empty(), "no proxy is believed until the deployment names one");
}

#[test]
fn default_constants_do_not_drift() {
    assert_eq!(DEFAULT_HOST, "0.0.0.0");
    assert_eq!(DEFAULT_PORT, 3000);
}

#[test]
fn with_global_prefix_pins_in_code() {
    let cfg = HttpConfig::default().with_global_prefix("/api");
    assert_eq!(cfg.global_prefix.as_deref(), Some("/api"));
}

#[test]
fn with_max_body_bytes_pins_in_code() {
    let cfg = HttpConfig::default().with_max_body_bytes(64);
    assert_eq!(cfg.max_body_bytes, Some(64));
}

#[test]
fn a_pinned_port_does_not_freeze_the_rest_of_the_namespace() {
    let pinned = HttpConfig { port: 3000, ..Default::default() };
    let s = HttpSettings {
        port: Some(3555),
        global_prefix: Some("/api".into()),
        max_body_bytes: Some(4096),
        compression: Some(true),
        fail_secure_strict: Some(false),
        ..silent()
    };
    let cfg = HttpConfig::from_settings(pinned, s).expect("the overlay resolves");
    assert_eq!(cfg.port, 3555, "the deployment outranks the pinned port");
    assert_eq!(cfg.global_prefix.as_deref(), Some("/api"));
    assert_eq!(cfg.max_body_bytes, Some(4096));
    assert!(cfg.compression);
    assert!(!cfg.fail_secure_strict);
    assert_eq!(cfg.host, "0.0.0.0", "and an untouched field keeps the base");
}

#[test]
fn a_pinned_field_survives_a_silent_environment() {
    let pinned = HttpConfig::default().with_global_prefix("/pinned");
    let cfg = HttpConfig::from_settings(pinned, silent()).expect("the overlay resolves");
    assert_eq!(cfg.global_prefix.as_deref(), Some("/pinned"));
}

#[test]
fn a_pinned_trusted_proxy_list_survives_an_unrelated_env_override() {
    let pinned = HttpConfig { trusted_proxies: vec![IpAddress::V4(0x0a00_0009)], ..Default::default() };
    let cfg = HttpConfig::from_settings(pinned, HttpSettings { port: Some(8080), ..silent() }).expect("resolves");
    assert_eq!(cfg.port, 8080);
    assert_eq!(cfg.trusted_proxies, vec![IpAddress::V4(0x0a00_0009)]);
}

#[test]
fn from_env_reads_compression_flag() {
    let cfg = HttpConfig::from_settings(Default::default(), HttpSettings { compression: Some(true), ..silent() })
        .expect("resolves");
    assert!(cfg.compression);
}

#[test]
fn from_env_reads_global_prefix() {
    let cfg = HttpConfig::from_settings(Default::default(), HttpSettings { global_prefix: Some("/api".into()), ..silent() })
        .expect("resolves");
    assert_eq!(cfg.global_prefix.as_deref(), Some("/api"));
}

#[test]
fn from_env_treats_blank_global_prefix_as_unset() {
    let cfg = HttpConfig::from_settings(Default::default(), HttpSettings { global_prefix: Some("   ".into()), ..silent() })
        .expect("resolves");
    assert!(cfg.global_prefix.is_none());
}

#[test]
fn from_env_reads_max_body_bytes() {
    let cfg = HttpConfig::from_settings(Default::default(), HttpSettings { max_body_bytes: Some(1024), ..silent() })
        .expect("resolves");
    assert_eq!(cfg.max_body_bytes, Some(1024));
}

#[test]
fn an_unknown_versioning_strategy_fails_boot_naming_the_var() {
    let err = HttpConfig::from_settings(Default::default(), HttpSettings { versioning: Some("v2".into()), ..silent() })
        .err()
        .expect("unknown strategy");
    assert_eq!(err.var, "NESTRS_HTTP__VERSIONING");
    assert!(err.reason.contains("media_type"), "{}", err.reason);
}

#[test]
fn an_unusable_version_header_fails_boot_naming_the_var() {
    let err = HttpConfig::from_settings(Default::default(), HttpSettings { version_header: Some("X Version".into()), ..silent() })
        .err()
        .expect("not a header name");
    assert_eq!(err.var, "NESTRS_HTTP__VERSION_HEADER");
    assert_eq!(err.reason, "\"X Version\" is not a valid HTTP header name");
}

#[test]
fn a_half_configured_tls_pair_fails_boot() {
    let s = HttpSettings {
        tls_cert: Some(nest_rs_http::PemSetting { bytes: b"--CERT--".to_vec(), path: None }),
        ..silent()
    };
    let err = HttpConfig::from_settings(Default::default(), s).err().expect("half a pair");
    assert_eq!(err.var, "NESTRS_HTTP__TLS_*");
    assert!(err.reason.contains("KEY"), "{}", err.reason);
}

#[test]
fn a_header_strategy_describes_a_selector() {
    let cfg = HttpConfig {
        versioning: ApiVersioning::Header,
        default_version: Some("1".into()),
        ..Default::default()
    };
    let selector = cfg.version_selector().expect("a rewriting strategy");
    assert_eq!(selector.strategy(), ApiVersioning::Header);
    assert_eq!(selector.default_version(), Some("1"));
    assert_eq!(selector.header().as_str(), "x-api-version");
    assert!(HttpConfig::default().version_selector().is_none(), "the URI strategy needs none");
}

#[test]
fn the_trusted_proxy_list_splits_on_commas() {
    assert_eq!(split_list("10.0.0.1, 2001:db8::1,10.0.0.2"), vec!["10.0.0.1", "2001:db8::1", "10.0.0.2"]);
    assert_eq!(split_list(" , ,"), Vec::<String>::new());
    assert_eq!(split_list("10.0.0.1,10.0.0.oops"), vec!["10.0.0.1", "10.0.0.oops"]);
}

#[test]
fn sse_settings_follow_the_config() {
    let d = SseSettings::resolve(None);
    assert_eq!(d.keep_alive, Some(15));
    assert_eq!(d.max_connection, Some(4 * 60 * 60));
    let cfg = HttpConfig { sse_keep_alive: None, sse_max_connection: Some(60), ..Default::default() };
    let s = SseSettings::resolve(Some(&cfg));
    assert_eq!(s.keep_alive, None);
    assert_eq!(s.max_connection, Some(60));
}

#[test]
fn a_flag_reads_its_usual_spellings_in_any_case() {
    assert_eq!(parse_flag("true"), Some(true));
    assert_eq!(parse_flag(" YES "), Some(true));
    assert_eq!(parse_flag("1"), Some(true));
    assert_eq!(parse_flag("On"), Some(true));
    assert_eq!(parse_flag("false"), Some(false));
    assert_eq!(parse_flag("off"), Some(false));
    assert_eq!(parse_flag("0"), Some(false));
    assert_eq!(parse_flag("No"), Some(false));
    assert_eq!(parse_flag("maybe"), None);
    assert_eq!(parse_flag(""), None);
}

#[test]
fn zero_seconds_switches_a_bound_off() {
    assert_eq!(seconds_setting(0), None);
    assert_eq!(seconds_setting(14400), Some(14400));
}

#[test]
fn the_selector_reads_the_configured_header_in_lower_case() {
    let cfg = HttpConfig {
        versioning: ApiVersioning::Header,
        version_header: "X-Tenant-Version".into(),
        ..HttpConfig::default()
    };
    let selector = cfg.version_selector().expect("a rewriting strategy with a valid header");
    assert_eq!(selector.header_text(), "x-tenant-version");
    assert_eq!(selector.header().as_str(), "x-tenant-version");
}
