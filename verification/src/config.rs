//! The HTTP transport's options, resolved at boot. Every field is settable in
//! code (the pinned struct) and by the deployment (`NESTRS_HTTP__*`), and the
//! two compose per field: the pinned struct is the base the deployment's
//! settings are laid over.
use vstd::prelude::*;

use crate::client_ip::IpAddress;
use crate::cors::{cors_overlaid, CorsConfig, CorsSettings};
use crate::raw_body::DEFAULT_BODY_LIMIT;
use crate::security_headers::{
    headers_overlaid, InvalidSetting, SecurityHeaderSettings, SecurityHeadersConfig,
};
use crate::text::{
    chars_of, debug_quoted, debug_str, eq_chars, lower_all, lower_all_exec, push_str, split_char, split_char_exec, string_of,
    trim_ws, trim_ws_exec,
};
use crate::tls::{opt_tls, pem_view, tls_from_settings, tls_settings_spec, PemSetting, TlsConfig, TlsView};
use crate::versioning::{
    strategy_key, strategy_of_key, texts, unknown_strategy_message, ApiVersioning, VersionSelector,
    DEFAULT_VERSION_HEADER,
};
use crate::wire::{header_name_from, valid_header_name};

verus! {

/// Bind address when none is set: all interfaces.
pub const DEFAULT_HOST: &'static str = "0.0.0.0";
/// Listen port when none is set.
pub const DEFAULT_PORT: u16 = 3000;
/// Default ceiling of a `#[sse]` stream: four hours.
pub const DEFAULT_SSE_MAX_CONNECTION_SECS: u64 = 14400;
/// Default keep-alive comment interval on a `#[sse]` stream.
pub const DEFAULT_SSE_KEEP_ALIVE_SECS: u64 = 15;
/// Default request timeout.
pub const DEFAULT_REQUEST_TIMEOUT_SECS: u64 = 30;

/// HTTP transport options.
#[derive(Clone)]
pub struct HttpConfig {
    /// Bind address; `0.0.0.0` by default.
    pub host: String,
    /// Listen port; `3000` by default.
    pub port: u16,
    /// PEM material for HTTPS; `None` serves plain HTTP.
    pub tls: Option<TlsConfig>,
    /// CORS policy; `None` installs no CORS layer.
    pub cors: Option<CorsConfig>,
    /// How a caller selects an API version; `Uri` by default.
    pub versioning: ApiVersioning,
    /// The header the `Header` strategy reads.
    pub version_header: String,
    /// The version served to a caller that states none.
    pub default_version: Option<String>,
    /// Emit `Server: nestrs/<version>`; off by default.
    pub server_header: bool,
    /// A shared prefix every controller mounts under.
    pub global_prefix: Option<String>,
    /// Transport-wide request body cap; 2 MiB by default.
    pub max_body_bytes: Option<usize>,
    /// Wall-clock budget of one request, in seconds; 30 by default.
    pub request_timeout_secs: Option<u64>,
    /// Fail boot when an endpoint would bypass an active global guard pool.
    pub fail_secure_strict: bool,
    /// Default security response headers.
    pub security_headers: SecurityHeadersConfig,
    /// Negotiate response compression; off by default.
    pub compression: bool,
    /// File one access event per request; on by default.
    pub access_log: bool,
    /// Reverse proxies whose forwarding headers are believed; none by default.
    pub trusted_proxies: Vec<IpAddress>,
    /// Ceiling of a `#[sse]` stream, in seconds; `None` is unlimited.
    pub sse_max_connection: Option<u64>,
    /// Keep-alive comment interval of a `#[sse]` stream, in seconds; `None`
    /// sends none.
    pub sse_keep_alive: Option<u64>,
}

/// The text of an optional string.
pub open spec fn opt_text(v: Option<String>) -> Option<Seq<char>> {
    match v {
        Some(s) => Some(s@),
        None => None,
    }
}

impl Default for HttpConfig {
    fn default() -> (r: Self)
        ensures
            r.host@ == DEFAULT_HOST@,
            r.port == DEFAULT_PORT,
            r.tls is None,
            r.cors is None,
            r.versioning == ApiVersioning::Uri,
            r.version_header@ == DEFAULT_VERSION_HEADER@,
            r.default_version is None,
            !r.server_header,
            r.global_prefix is None,
            r.max_body_bytes == Some(DEFAULT_BODY_LIMIT),
            r.request_timeout_secs == Some(DEFAULT_REQUEST_TIMEOUT_SECS),
            r.fail_secure_strict,
            !r.compression,
            r.access_log,
            r.trusted_proxies@.len() == 0,
            r.sse_max_connection == Some(DEFAULT_SSE_MAX_CONNECTION_SECS),
            r.sse_keep_alive == Some(DEFAULT_SSE_KEEP_ALIVE_SECS),
    {
        HttpConfig {
            host: DEFAULT_HOST.to_owned(),
            port: DEFAULT_PORT,
            tls: None,
            cors: None,
            versioning: ApiVersioning::Uri,
            version_header: DEFAULT_VERSION_HEADER.to_owned(),
            default_version: None,
            server_header: false,
            global_prefix: None,
            max_body_bytes: Some(DEFAULT_BODY_LIMIT),
            request_timeout_secs: Some(DEFAULT_REQUEST_TIMEOUT_SECS),
            fail_secure_strict: true,
            security_headers: SecurityHeadersConfig::default(),
            compression: false,
            access_log: true,
            trusted_proxies: Vec::new(),
            sse_max_connection: Some(DEFAULT_SSE_MAX_CONNECTION_SECS),
            sse_keep_alive: Some(DEFAULT_SSE_KEEP_ALIVE_SECS),
        }
    }
}

impl HttpConfig {
    /// Pin the global prefix in code; the transport normalizes it.
    pub fn with_global_prefix(self, prefix: &str) -> (r: Self)
        ensures
            opt_text(r.global_prefix) == Some(prefix@),
            r.host == self.host,
            r.port == self.port,
            r.max_body_bytes == self.max_body_bytes,
    {
        HttpConfig { global_prefix: Some(prefix.to_owned()), ..self }
    }

    /// Pin the request body cap in code.
    pub fn with_max_body_bytes(self, n: usize) -> (r: Self)
        ensures
            r.max_body_bytes == Some(n),
            r.host == self.host,
            r.port == self.port,
            r.global_prefix == self.global_prefix,
    {
        HttpConfig { max_body_bytes: Some(n), ..self }
    }

    /// The version selector this configuration describes: `None` under the
    /// URI strategy, which routing resolves by itself, or when the header
    /// name is unusable (refused at boot by [`HttpConfig::from_settings`]).
    pub fn version_selector(&self) -> (r: Option<VersionSelector>)
        ensures
            r is Some <==> (self.versioning != ApiVersioning::Uri && valid_header_name(self.version_header@)),
            r is Some ==> r->0@.strategy == self.versioning && r->0@.default_version == opt_text(self.default_version)
                && r->0@.header_text == lower_all(self.version_header@) && r->0@.versioned.len() == 0
                && r->0@.versions.len() == 0,
    {
        let default = match &self.default_version {
            Some(v) => Some(v.as_str().to_owned()),
            None => None,
        };
        let selector = match VersionSelector::new(self.versioning, self.version_header.as_str(), default) {
            Some(s) => s,
            None => {
                return None;
            },
        };
        if selector.rewrites() {
            Some(selector)
        } else {
            None
        }
    }
}

/// The SSE stream settings a configuration describes.
#[derive(Clone, Copy, Debug, PartialEq, Eq, Structural)]
pub struct SseSettings {
    /// Keep-alive comment interval, in seconds; `None` sends none.
    pub keep_alive: Option<u64>,
    /// Stream ceiling, in seconds; `None` is unlimited.
    pub max_connection: Option<u64>,
}

impl SseSettings {
    /// The SSE settings of `config`, or of the defaults when the app has
    /// none.
    pub fn resolve(config: Option<&HttpConfig>) -> (r: Self)
        ensures
            match config {
                Some(c) => r.keep_alive == c.sse_keep_alive && r.max_connection == c.sse_max_connection,
                None => r.keep_alive == Some(DEFAULT_SSE_KEEP_ALIVE_SECS)
                    && r.max_connection == Some(DEFAULT_SSE_MAX_CONNECTION_SECS),
            },
    {
        match config {
            Some(c) => SseSettings { keep_alive: c.sse_keep_alive, max_connection: c.sse_max_connection },
            None => SseSettings {
                keep_alive: Some(DEFAULT_SSE_KEEP_ALIVE_SECS),
                max_connection: Some(DEFAULT_SSE_MAX_CONNECTION_SECS),
            },
        }
    }
}

/// The entries of a comma-separated list: each piece trimmed, empty ones
/// dropped.
pub open spec fn list_entries(pieces: Seq<Seq<char>>) -> Seq<Seq<char>>
    decreases pieces.len(),
{
    if pieces.len() == 0 {
        Seq::empty()
    } else {
        let before = list_entries(pieces.drop_last());
        let t = trim_ws(pieces.last());
        if t.len() == 0 {
            before
        } else {
            before.push(t)
        }
    }
}

/// Split a comma-separated setting (`10.0.0.1, 10.0.0.2`) into its entries.
pub fn split_list(raw: &str) -> (r: Vec<String>)
    ensures
        texts(r@) == list_entries(split_char(raw@, ',')),
{
    let v = chars_of(raw);
    let pieces = split_char_exec(&v, ',');
    let ghost ps = split_char(raw@, ',');
    let mut out: Vec<String> = Vec::new();
    let mut i: usize = 0;
    while i < pieces.len()
        invariant
            i <= pieces.len(),
            v@ == raw@,
            ps == split_char(raw@, ','),
            pieces@.len() == ps.len(),
            forall|k: int| 0 <= k < pieces@.len() ==> #[trigger] pieces@[k]@ == ps[k],
            texts(out@) == list_entries(ps.take(i as int)),
        decreases pieces.len() - i,
    {
        assert(ps.take(i + 1).drop_last() == ps.take(i as int));
        assert(ps.take(i + 1).last() == ps[i as int]);
        let t = trim_ws_exec(&pieces[i]);
        if t.len() > 0 {
            let ghost before = texts(out@);
            out.push(string_of(&t));
            assert(texts(out@) == before.push(trim_ws(ps[i as int])));
        }
        i = i + 1;
    }
    assert(ps.take(pieces.len() as int) == ps);
    out
}

/// The flag a setting spells: `true`, `1`, `yes` or `on`, and `false`, `0`,
/// `no` or `off`, in any case, surrounding whitespace ignored; `None` for
/// anything else, which the reader refuses naming its variable.
pub open spec fn flag_spec(raw: Seq<char>) -> Option<bool> {
    let t = lower_all(trim_ws(raw));
    if t == "true"@ || t == "1"@ || t == "yes"@ || t == "on"@ {
        Some(true)
    } else if t == "false"@ || t == "0"@ || t == "no"@ || t == "off"@ {
        Some(false)
    } else {
        None
    }
}

/// Read a flag setting; see [`flag_spec`].
pub fn parse_flag(raw: &str) -> (r: Option<bool>)
    ensures
        r == flag_spec(raw@),
{
    let t = lower_all_exec(&trim_ws_exec(&chars_of(raw)));
    if eq_chars(&t, &chars_of("true")) || eq_chars(&t, &chars_of("1")) || eq_chars(&t, &chars_of("yes"))
        || eq_chars(&t, &chars_of("on")) {
        Some(true)
    } else if eq_chars(&t, &chars_of("false")) || eq_chars(&t, &chars_of("0")) || eq_chars(&t, &chars_of("no"))
        || eq_chars(&t, &chars_of("off")) {
        Some(false)
    } else {
        None
    }
}

/// A duration setting in whole seconds: `0` switches the bound off.
pub fn seconds_setting(secs: u64) -> (r: Option<u64>)
    ensures
        r == (if secs == 0 {
            None
        } else {
            Some(secs)
        }),
{
    if secs == 0 {
        None
    } else {
        Some(secs)
    }
}

/// The deployment's settings for the transport: `None` keeps the base's
/// value. Each arrives read and, where its grammar is not this crate's
/// (numbers, flags, addresses), parsed.
pub struct HttpSettings {
    /// `HOST`.
    pub host: Option<String>,
    /// `PORT`.
    pub port: Option<u16>,
    /// `TLS_CERT` / `TLS_CERT_FILE`, read.
    pub tls_cert: Option<PemSetting>,
    /// `TLS_KEY` / `TLS_KEY_FILE`, read.
    pub tls_key: Option<PemSetting>,
    /// `TLS_RELOAD_SECS`, raw.
    pub tls_reload: Option<String>,
    /// `CORS_*`.
    pub cors: CorsSettings,
    /// `VERSIONING`, raw.
    pub versioning: Option<String>,
    /// `VERSION_HEADER`.
    pub version_header: Option<String>,
    /// `DEFAULT_VERSION`.
    pub default_version: Option<String>,
    /// `SERVER_HEADER`.
    pub server_header: Option<bool>,
    /// `GLOBAL_PREFIX`, raw.
    pub global_prefix: Option<String>,
    /// `MAX_BODY_BYTES`.
    pub max_body_bytes: Option<usize>,
    /// `REQUEST_TIMEOUT_SECS`.
    pub request_timeout_secs: Option<u64>,
    /// `FAIL_SECURE_STRICT`.
    pub fail_secure_strict: Option<bool>,
    /// The security header settings.
    pub security_headers: SecurityHeaderSettings,
    /// `COMPRESSION`.
    pub compression: Option<bool>,
    /// `ACCESS_LOG`.
    pub access_log: Option<bool>,
    /// `TRUSTED_PROXIES`, parsed.
    pub trusted_proxies: Option<Vec<IpAddress>>,
    /// `SSE_MAX_CONNECTION_SECS`, resolved.
    pub sse_max_connection: Option<Option<u64>>,
    /// `SSE_KEEP_ALIVE_SECS`, resolved.
    pub sse_keep_alive: Option<Option<u64>>,
}

/// A prefix setting: trimmed; blank means none.
pub open spec fn prefix_setting(raw: Seq<char>) -> Option<Seq<char>> {
    if trim_ws(raw).len() == 0 {
        None
    } else {
        Some(trim_ws(raw))
    }
}

/// The header name the settings resolve to.
pub open spec fn header_setting(s: Option<String>, base: Seq<char>) -> Seq<char> {
    match s {
        Some(h) => h@,
        None => base,
    }
}

/// The settings' refusal, first in order: the TLS pair, the versioning
/// strategy, the version header, a security header value. `(variable,
/// reason)`.
pub open spec fn settings_refusal(base: HttpConfig, s: HttpSettings) -> Option<(Seq<char>, Seq<char>)> {
    let tls = tls_settings_spec(pem_view(s.tls_cert), pem_view(s.tls_key), opt_text(s.tls_reload), opt_tls(base.tls));
    let header = header_setting(s.version_header, base.version_header@);
    if tls is Err {
        Some(("NESTRS_HTTP__TLS_*"@, tls->Err_0))
    } else if s.versioning is Some && strategy_of_key(strategy_key(s.versioning->0@)) is None {
        Some(("NESTRS_HTTP__VERSIONING"@, unknown_strategy_message(strategy_key(s.versioning->0@))))
    } else if !valid_header_name(header) {
        Some(("NESTRS_HTTP__VERSION_HEADER"@, debug_str(header) + " is not a valid HTTP header name"@))
    } else {
        None
    }
}

/// `r` is `s` laid over `base`, field by field.
pub open spec fn settings_applied(base: HttpConfig, s: HttpSettings, r: HttpConfig) -> bool {
    &&& r.host@ == (match s.host { Some(h) => h@, None => base.host@ })
    &&& r.port == (match s.port { Some(p) => p, None => base.port })
    &&& tls_settings_spec(pem_view(s.tls_cert), pem_view(s.tls_key), opt_text(s.tls_reload), opt_tls(base.tls))
        == Ok::<Option<TlsView>, Seq<char>>(opt_tls(r.tls))
    &&& cors_overlaid(base.cors, s.cors, r.cors)
    &&& r.versioning == (match s.versioning {
        Some(v) => strategy_of_key(strategy_key(v@))->0,
        None => base.versioning,
    })
    &&& r.version_header@ == header_setting(s.version_header, base.version_header@)
    &&& opt_text(r.default_version) == (match s.default_version {
        Some(v) => Some(v@),
        None => opt_text(base.default_version),
    })
    &&& r.server_header == (match s.server_header { Some(b) => b, None => base.server_header })
    &&& opt_text(r.global_prefix) == (match s.global_prefix {
        Some(raw) => prefix_setting(raw@),
        None => opt_text(base.global_prefix),
    })
    &&& r.max_body_bytes == (match s.max_body_bytes { Some(n) => Some(n), None => base.max_body_bytes })
    &&& r.request_timeout_secs == (match s.request_timeout_secs {
        Some(n) => Some(n),
        None => base.request_timeout_secs,
    })
    &&& r.fail_secure_strict == (match s.fail_secure_strict { Some(b) => b, None => base.fail_secure_strict })
    &&& r.compression == (match s.compression { Some(b) => b, None => base.compression })
    &&& r.access_log == (match s.access_log { Some(b) => b, None => base.access_log })
    &&& r.trusted_proxies@ == (match s.trusted_proxies { Some(p) => p@, None => base.trusted_proxies@ })
    &&& r.sse_max_connection == (match s.sse_max_connection { Some(v) => v, None => base.sse_max_connection })
    &&& r.sse_keep_alive == (match s.sse_keep_alive { Some(v) => v, None => base.sse_keep_alive })
}

impl HttpConfig {
    /// Lay the deployment's settings over `base` (the struct pinned in code,
    /// or the defaults), field by field. A half-configured TLS pair, an
    /// unknown versioning strategy, an unusable version header or an invalid
    /// security header value fails boot naming its variable.
    pub fn from_settings(base: Self, s: HttpSettings) -> (r: Result<Self, InvalidSetting>)
        ensures
            match r {
                Ok(c) => settings_refusal(base, s) is None && headers_overlaid(
                    base.security_headers,
                    s.security_headers,
                    Ok(c.security_headers),
                ) && settings_applied(base, s, c),
                Err(e) => match settings_refusal(base, s) {
                    Some((var, reason)) => e.var@ == var && e.reason@ == reason,
                    None => headers_overlaid(base.security_headers, s.security_headers, Err(e)),
                },
            },
    {
        let ghost s0 = s;
        let ghost b0 = base;
        let tls = match tls_from_settings(s.tls_cert, s.tls_key, match &s.tls_reload {
            Some(r) => Some(r.as_str()),
            None => None,
        }, base.tls) {
            Ok(t) => t,
            Err(reason) => {
                return Err(InvalidSetting { var: "NESTRS_HTTP__TLS_*".to_owned(), reason });
            },
        };
        let versioning = match &s.versioning {
            Some(raw) => match ApiVersioning::parse(raw.as_str()) {
                Ok(v) => v,
                Err(reason) => {
                    return Err(InvalidSetting { var: "NESTRS_HTTP__VERSIONING".to_owned(), reason });
                },
            },
            None => base.versioning,
        };
        let version_header = match s.version_header {
            Some(h) => h,
            None => base.version_header,
        };
        if header_name_from(version_header.as_str()).is_none() {
            let mut reason = debug_quoted(version_header.as_str());
            push_str(&mut reason, " is not a valid HTTP header name");
            return Err(InvalidSetting { var: "NESTRS_HTTP__VERSION_HEADER".to_owned(), reason });
        }
        let global_prefix = match &s.global_prefix {
            Some(raw) => {
                let t = trim_ws_exec(&chars_of(raw.as_str()));
                if t.len() == 0 {
                    None
                } else {
                    Some(string_of(&t))
                }
            },
            None => base.global_prefix,
        };
        let security_headers = SecurityHeadersConfig::from_settings(base.security_headers, s.security_headers)?;
        Ok(
            HttpConfig {
                host: match s.host {
                    Some(h) => h,
                    None => base.host,
                },
                port: match s.port {
                    Some(p) => p,
                    None => base.port,
                },
                tls,
                cors: CorsConfig::from_settings(base.cors, s.cors),
                versioning,
                version_header,
                default_version: match s.default_version {
                    Some(v) => Some(v),
                    None => base.default_version,
                },
                server_header: match s.server_header {
                    Some(b) => b,
                    None => base.server_header,
                },
                global_prefix,
                max_body_bytes: match s.max_body_bytes {
                    Some(n) => Some(n),
                    None => base.max_body_bytes,
                },
                request_timeout_secs: match s.request_timeout_secs {
                    Some(n) => Some(n),
                    None => base.request_timeout_secs,
                },
                fail_secure_strict: match s.fail_secure_strict {
                    Some(b) => b,
                    None => base.fail_secure_strict,
                },
                security_headers,
                compression: match s.compression {
                    Some(b) => b,
                    None => base.compression,
                },
                access_log: match s.access_log {
                    Some(b) => b,
                    None => base.access_log,
                },
                trusted_proxies: match s.trusted_proxies {
                    Some(p) => p,
                    None => base.trusted_proxies,
                },
                sse_max_connection: match s.sse_max_connection {
                    Some(v) => v,
                    None => base.sse_max_connection,
                },
                sse_keep_alive: match s.sse_keep_alive {
                    Some(v) => v,
                    None => base.sse_keep_alive,
                },
            },
        )
    }
}

} // verus!
