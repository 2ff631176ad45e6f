use nest_rs_http::tls::{
    bytes_eq, pair_outcome, settle_step, tls_from_settings, validate_pair, DEFAULT_RELOAD_SECS, KEYS_MISMATCH,
    KEY_UNSUPPORTED,
};
use nest_rs_http::{PemSetting, TlsConfig, TlsSource};

fn inline(bytes: &[u8]) -> Option<PemSetting> {
    Some(PemSetting { bytes: bytes.to_vec(), path: None })
}

fn file(bytes: &[u8], path: &str) -> Option<PemSetting> {
    Some(PemSetting { bytes: bytes.to_vec(), path: Some(path.to_owned()) })
}

#[test]
fn new_round_trips_bytes() {
    let cfg = TlsConfig::new(b"--CERT--".to_vec(), b"--KEY--".to_vec());
    assert_eq!(cfg.cert(), b"--CERT--");
    assert_eq!(cfg.key(), b"--KEY--");
}

#[test]
fn debug_redacts_key_bytes() {
    let cfg = TlsConfig::new(vec![0; 128], b"super secret key material".to_vec());
    let debug = cfg.describe();
    assert!(!debug.contains("super secret"), "key leaked: {debug}");
    assert!(debug.contains("redacted"), "missing redaction marker: {debug}");
    assert!(debug.contains("128 bytes"), "cert length missing: {debug}");
}

#[test]
fn inline_material_is_not_watchable() {
    let cfg = TlsConfig::new(b"--CERT--".to_vec(), b"--KEY--".to_vec());
    assert_eq!(*cfg.source(), TlsSource::Inline);
    assert_eq!(cfg.reload_secs(), 0);
    assert!(!cfg.is_watchable());
}

#[test]
fn from_env_is_none_when_no_tls_vars_are_set() {
    assert!(tls_from_settings(None, None, None, None).expect("no error").is_none());
}

#[test]
fn from_env_keeps_the_base_when_no_tls_vars_are_set() {
    let base = TlsConfig::new(b"--PINNED-CERT--".to_vec(), b"--PINNED-KEY--".to_vec());
    let kept = tls_from_settings(None, None, None, Some(base)).expect("no error").expect("the base");
    assert_eq!(kept.cert(), b"--PINNED-CERT--");
}

#[test]
fn from_env_overrides_the_base_when_both_halves_are_set() {
    let base = TlsConfig::new(b"--PINNED-CERT--".to_vec(), b"--PINNED-KEY--".to_vec());
    let cfg = tls_from_settings(inline(b"--ENV-CERT--"), inline(b"--ENV-KEY--"), None, Some(base))
        .expect("no error")
        .expect("Some");
    assert_eq!(cfg.cert(), b"--ENV-CERT--");
    assert_eq!(cfg.key(), b"--ENV-KEY--");
}

#[test]
fn from_env_reads_inline_pem_pair() {
    let cfg = tls_from_settings(inline(b"--CERT--"), inline(b"--KEY--"), None, None)
        .expect("no error")
        .expect("Some");
    assert_eq!(cfg.cert(), b"--CERT--");
    assert_eq!(cfg.key(), b"--KEY--");
}

#[test]
fn from_env_fails_when_only_cert_is_set() {
    let msg = tls_from_settings(inline(b"--CERT--"), None, None, None).err().expect("half a pair");
    assert!(msg.contains("KEY"), "must name the missing var: {msg}");
}

#[test]
fn from_env_fails_when_only_key_is_set() {
    let msg = tls_from_settings(None, inline(b"--KEY--"), None, None).err().expect("half a pair");
    assert!(msg.contains("CERT"), "must name the missing var: {msg}");
}

#[test]
fn from_env_fails_on_a_half_config_even_over_a_complete_base() {
    let base = TlsConfig::new(b"--CERT--".to_vec(), b"--KEY--".to_vec());
    assert!(
        tls_from_settings(inline(b"--NEW-CERT--"), None, None, Some(base)).is_err(),
        "a half-configured pair never falls back to the base",
    );
}

#[test]
fn from_env_rejects_an_unparseable_reload_interval() {
    let err = tls_from_settings(inline(b"--CERT--"), inline(b"--KEY--"), Some("hourly"), None)
        .err()
        .expect("a typo aborts the boot rather than silently disabling the watch");
    assert!(err.contains("RELOAD_SECS"), "must name the variable: {err}");
}

#[test]
fn from_env_applies_the_reload_interval_to_a_pinned_base() {
    let base = TlsConfig::new(b"--CERT--".to_vec(), b"--KEY--".to_vec());
    let cfg = tls_from_settings(None, None, Some("5"), Some(base)).expect("no error").expect("Some");
    assert_eq!(cfg.reload_secs(), 5);
}

#[test]
fn from_env_file_variants_are_watched_by_default() {
    let cfg = tls_from_settings(file(b"file-cert-bytes", "cert.pem"), file(b"file-key-bytes", "key.pem"), None, None)
        .expect("no error")
        .expect("Some");
    assert!(matches!(cfg.source(), TlsSource::Files { .. }));
    assert_eq!(cfg.reload_secs(), DEFAULT_RELOAD_SECS);
    assert!(cfg.is_watchable());
    let mixed = tls_from_settings(inline(b"--INLINE-CERT--"), file(b"file-key-bytes", "key.pem"), None, None)
        .expect("no error")
        .expect("Some");
    assert_eq!(*mixed.source(), TlsSource::Inline);
    assert_eq!(mixed.reload_secs(), 0);
}

#[test]
fn from_env_reads_file_variants_when_inline_unset() {
    let cfg = tls_from_settings(file(b"file-cert-bytes", "cert.pem"), file(b"file-key-bytes", "key.pem"), Some(" 30 "), None)
        .expect("no error")
        .expect("Some");
    assert_eq!(cfg.cert(), b"file-cert-bytes");
    assert_eq!(cfg.key(), b"file-key-bytes");
    assert_eq!(cfg.reload_secs(), 30);
}

#[test]
fn files_are_described_by_path_and_size() {
    let cfg = TlsConfig::from_files("/etc/tls/cert.pem", "/etc/tls/key.pem", b"12345".to_vec(), b"abc".to_vec())
        .with_reload_secs(0);
    assert_eq!(
        cfg.describe(),
        "TlsConfig { cert: <5 bytes>, key: <3 bytes redacted>, source: Files { cert: \"/etc/tls/cert.pem\", key: \"/etc/tls/key.pem\" }, reload_secs: 0 }",
    );
    assert!(!cfg.is_watchable());
}

#[test]
fn a_pair_is_installed_only_once_it_reads_back_the_same_twice() {
    let hand = (b"cert-v1".to_vec(), b"key-v1".to_vec());
    let v2 = (b"cert-v2".to_vec(), b"key-v2".to_vec());
    let (pending, installed) = settle_step(&hand.0, &hand.1, None, Some(v2.clone()));
    assert!(installed.is_none(), "first sighting waits a tick");
    assert_eq!(pending, Some(v2.clone()));
    let (pending, installed) = settle_step(&hand.0, &hand.1, pending, Some(v2.clone()));
    assert_eq!(installed, Some(v2.clone()));
    assert!(pending.is_none());
}

#[test]
fn a_pair_still_changing_or_unreadable_is_never_installed() {
    let hand = (b"c1".to_vec(), b"k1".to_vec());
    let half = (b"c2".to_vec(), b"k1".to_vec());
    let full = (b"c2".to_vec(), b"k2".to_vec());
    let (pending, installed) = settle_step(&hand.0, &hand.1, None, Some(half.clone()));
    assert!(installed.is_none());
    let (pending, installed) = settle_step(&hand.0, &hand.1, pending, Some(full.clone()));
    assert!(installed.is_none(), "it moved again");
    let (pending, installed) = settle_step(&hand.0, &hand.1, pending, None);
    assert!(installed.is_none() && pending.is_none(), "an unreadable read forgets what was pending");
    let (pending, installed) = settle_step(&hand.0, &hand.1, Some(full.clone()), Some(hand.clone()));
    assert!(installed.is_none() && pending.is_none(), "back to the pair in hand");
    assert!(bytes_eq(b"ab", b"ab"));
    assert!(!bytes_eq(b"ab", b"abc"));
}

/// A fresh self-signed certificate for `localhost` and its key, as PEM.
fn fresh_pair() -> (Vec<u8>, Vec<u8>) {
    let pair = rcgen::generate_simple_self_signed(vec!["localhost".to_owned()]).expect("a key pair is generated");
    (pair.cert.pem().into_bytes(), pair.key_pair.serialize_pem().into_bytes())
}

#[test]
fn a_pair_that_cannot_serve_is_refused_before_it_is_published() {
    let (cert_a, key_a) = fresh_pair();
    let (_, key_b) = fresh_pair();

    validate_pair(&cert_a, &key_a).expect("the fixture pair corresponds");

    let mismatched = validate_pair(&cert_a, &key_b).expect_err("a mismatched pair is refused");
    assert!(mismatched.contains("do not correspond"), "the refusal names what is wrong: {mismatched}");

    let empty = validate_pair(b"", &key_a).expect_err("an empty certificate is refused");
    assert!(empty.contains("no CERTIFICATE block"), "the refusal names what is wrong: {empty}");

    assert!(
        validate_pair(b"-----BEGIN CERTIFICATE-----\nnot base64\n", &key_a).is_err(),
        "and material that does not parse is still refused",
    );
}

#[test]
fn the_providers_verdict_decides_the_outcome() {
    assert_eq!(pair_outcome(Some(true)), Ok(()));
    assert_eq!(pair_outcome(Some(false)), Err(KEYS_MISMATCH.to_owned()));
    assert_eq!(pair_outcome(None), Err(KEY_UNSUPPORTED.to_owned()));
}
