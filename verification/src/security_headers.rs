//! Default security response headers, on by default: `nosniff`,
//! `X-Frame-Options: DENY`, a referrer policy, the cross-origin opener and
//! resource policies, and HSTS under TLS. The embedder policy, the
//! permissions policy and the content security policy carry no default — an
//! API framework cannot speak for the documents an app serves.
use vstd::prelude::*;

use crate::text::{chars_of, push_str, string_of, trim_ws, trim_ws_exec};
use crate::wire::{header_value_parses, valid_header_value};

verus! {

/// HSTS default: one year, include subdomains, no `preload`.
pub const DEFAULT_HSTS: &'static str = "max-age=31536000; includeSubDomains";
/// `X-Frame-Options` default.
pub const DEFAULT_FRAME_OPTIONS: &'static str = "DENY";
/// `Referrer-Policy` default: the origin travels cross-origin, the path never.
pub const DEFAULT_REFERRER_POLICY: &'static str = "strict-origin-when-cross-origin";
/// `Cross-Origin-Opener-Policy` default.
pub const DEFAULT_COOP: &'static str = "same-origin";
/// `Cross-Origin-Resource-Policy` default.
pub const DEFAULT_CORP: &'static str = "same-origin";

/// Setting key of `X-Frame-Options`.
pub const KEY_FRAME_OPTIONS: &'static str = "FRAME_OPTIONS";
/// Setting key of `Strict-Transport-Security`.
pub const KEY_HSTS: &'static str = "HSTS";
/// Setting key of `Referrer-Policy`.
pub const KEY_REFERRER_POLICY: &'static str = "REFERRER_POLICY";
/// Setting key of `Cross-Origin-Opener-Policy`.
pub const KEY_COOP: &'static str = "CROSS_ORIGIN_OPENER_POLICY";
/// Setting key of `Cross-Origin-Resource-Policy`.
pub const KEY_CORP: &'static str = "CROSS_ORIGIN_RESOURCE_POLICY";
/// Setting key of `Cross-Origin-Embedder-Policy`.
pub const KEY_COEP: &'static str = "CROSS_ORIGIN_EMBEDDER_POLICY";
/// Setting key of `Permissions-Policy`.
pub const KEY_PERMISSIONS_POLICY: &'static str = "PERMISSIONS_POLICY";
/// Setting key of `Content-Security-Policy`.
pub const KEY_CSP: &'static str = "CONTENT_SECURITY_POLICY";

/// The prefix of every HTTP setting's environment variable.
pub const VAR_PREFIX: &'static str = "NESTRS_HTTP__";

/// `X-Content-Type-Options`.
pub const X_CONTENT_TYPE_OPTIONS: &'static str = "x-content-type-options";
/// `X-Frame-Options`.
pub const X_FRAME_OPTIONS: &'static str = "x-frame-options";
/// `Referrer-Policy`.
pub const REFERRER_POLICY: &'static str = "referrer-policy";
/// `Cross-Origin-Opener-Policy`.
pub const CROSS_ORIGIN_OPENER_POLICY: &'static str = "cross-origin-opener-policy";
/// `Cross-Origin-Resource-Policy`.
pub const CROSS_ORIGIN_RESOURCE_POLICY: &'static str = "cross-origin-resource-policy";
/// `Cross-Origin-Embedder-Policy`.
pub const CROSS_ORIGIN_EMBEDDER_POLICY: &'static str = "cross-origin-embedder-policy";
/// `Permissions-Policy`.
pub const PERMISSIONS_POLICY: &'static str = "permissions-policy";
/// `Content-Security-Policy`.
pub const CONTENT_SECURITY_POLICY: &'static str = "content-security-policy";
/// `Strict-Transport-Security`.
pub const STRICT_TRANSPORT_SECURITY: &'static str = "strict-transport-security";

/// Default-on security headers. `enabled = false` emits none; an empty value
/// drops that one header.
#[derive(Clone, Debug, PartialEq, Eq)]
pub struct SecurityHeadersConfig {
    /// Master switch. `false` emits no security headers at all.
    pub enabled: bool,
    /// Emit `X-Content-Type-Options: nosniff` (default `true`).
    pub content_type_options: bool,
    /// `X-Frame-Options`; `None`/empty omits it. Default `DENY`.
    pub frame_options: Option<String>,
    /// `Strict-Transport-Security`, emitted only under TLS. Default one year
    /// with `includeSubDomains`.
    pub hsts: Option<String>,
    /// `Referrer-Policy`. Default `strict-origin-when-cross-origin`.
    pub referrer_policy: Option<String>,
    /// `Cross-Origin-Opener-Policy`. Default `same-origin`.
    pub cross_origin_opener_policy: Option<String>,
    /// `Cross-Origin-Resource-Policy`. Default `same-origin`.
    pub cross_origin_resource_policy: Option<String>,
    /// `Cross-Origin-Embedder-Policy`; no default.
    pub cross_origin_embedder_policy: Option<String>,
    /// `Permissions-Policy`; no default.
    pub permissions_policy: Option<String>,
    /// `Content-Security-Policy`; no default.
    pub content_security_policy: Option<String>,
}

/// The text of an optional string.
pub open spec fn opt_view(v: Option<String>) -> Option<Seq<char>> {
    match v {
        Some(s) => Some(s@),
        None => None,
    }
}

impl Default for SecurityHeadersConfig {
    fn default() -> (r: Self)
        ensures
            r.enabled,
            r.content_type_options,
            opt_view(r.frame_options) == Some(DEFAULT_FRAME_OPTIONS@),
            opt_view(r.hsts) == Some(DEFAULT_HSTS@),
            opt_view(r.referrer_policy) == Some(DEFAULT_REFERRER_POLICY@),
            opt_view(r.cross_origin_opener_policy) == Some(DEFAULT_COOP@),
            opt_view(r.cross_origin_resource_policy) == Some(DEFAULT_CORP@),
            r.cross_origin_embedder_policy is None,
            r.permissions_policy is None,
            r.content_security_policy is None,
    {
        SecurityHeadersConfig {
            enabled: true,
            content_type_options: true,
            frame_options: Some(DEFAULT_FRAME_OPTIONS.to_owned()),
            hsts: Some(DEFAULT_HSTS.to_owned()),
            referrer_policy: Some(DEFAULT_REFERRER_POLICY.to_owned()),
            cross_origin_opener_policy: Some(DEFAULT_COOP.to_owned()),
            cross_origin_resource_policy: Some(DEFAULT_CORP.to_owned()),
            cross_origin_embedder_policy: None,
            permissions_policy: None,
            content_security_policy: None,
        }
    }
}

/// One value-carrying header: its setting key, the response header it
/// renders into, whether TLS gates it, and the resolved value.
pub struct ValueHeader<'a> {
    pub key: &'static str,
    pub name: &'static str,
    pub tls_only: bool,
    pub value: &'a Option<String>,
}

/// A value-carrying header as plain values.
pub struct HeaderRow {
    pub key: Seq<char>,
    pub name: Seq<char>,
    pub tls_only: bool,
    pub value: Option<Seq<char>>,
}

/// The row of a table entry.
pub open spec fn row_of(h: ValueHeader) -> HeaderRow {
    HeaderRow { key: h.key@, name: h.name@, tls_only: h.tls_only, value: opt_view(*h.value) }
}

/// The value-carrying headers, in emission order, HSTS last.
pub open spec fn value_table(c: SecurityHeadersConfig) -> Seq<HeaderRow> {
    seq![
        HeaderRow { key: KEY_FRAME_OPTIONS@, name: X_FRAME_OPTIONS@, tls_only: false, value: opt_view(c.frame_options) },
        HeaderRow { key: KEY_REFERRER_POLICY@, name: REFERRER_POLICY@, tls_only: false, value: opt_view(c.referrer_policy) },
        HeaderRow { key: KEY_COOP@, name: CROSS_ORIGIN_OPENER_POLICY@, tls_only: false, value: opt_view(c.cross_origin_opener_policy) },
        HeaderRow { key: KEY_CORP@, name: CROSS_ORIGIN_RESOURCE_POLICY@, tls_only: false, value: opt_view(c.cross_origin_resource_policy) },
        HeaderRow { key: KEY_COEP@, name: CROSS_ORIGIN_EMBEDDER_POLICY@, tls_only: false, value: opt_view(c.cross_origin_embedder_policy) },
        HeaderRow { key: KEY_PERMISSIONS_POLICY@, name: PERMISSIONS_POLICY@, tls_only: false, value: opt_view(c.permissions_policy) },
        HeaderRow { key: KEY_CSP@, name: CONTENT_SECURITY_POLICY@, tls_only: false, value: opt_view(c.content_security_policy) },
        HeaderRow { key: KEY_HSTS@, name: STRICT_TRANSPORT_SECURITY@, tls_only: true, value: opt_view(c.hsts) },
    ]
}

/// A value, trimmed, when anything is left of it.
pub open spec fn non_empty_spec(v: Option<Seq<char>>) -> Option<Seq<char>> {
    match v {
        Some(s) => if trim_ws(s).len() == 0 {
            None
        } else {
            Some(trim_ws(s))
        },
        None => None,
    }
}

/// The table rows that reach the wire, as `(name, value)`.
pub open spec fn emitted(rows: Seq<HeaderRow>, tls_active: bool) -> Seq<(Seq<char>, Seq<char>)>
    decreases rows.len(),
{
    if rows.len() == 0 {
        Seq::empty()
    } else {
        let before = emitted(rows.drop_last(), tls_active);
        let r = rows.last();
        if r.tls_only && !tls_active {
            before
        } else {
            match non_empty_spec(r.value) {
                Some(v) => before.push((r.name, v)),
                None => before,
            }
        }
    }
}

/// The headers a configuration sets on every response.
pub open spec fn headers_spec(c: SecurityHeadersConfig, tls_active: bool) -> Seq<(Seq<char>, Seq<char>)> {
    if !c.enabled {
        Seq::empty()
    } else {
        let head: Seq<(Seq<char>, Seq<char>)> = if c.content_type_options {
            seq![(X_CONTENT_TYPE_OPTIONS@, "nosniff"@)]
        } else {
            Seq::empty()
        };
        head + emitted(value_table(c), tls_active)
    }
}

/// The `(name, value)` pairs as text.
pub open spec fn pair_texts(v: Seq<(&'static str, String)>) -> Seq<(Seq<char>, Seq<char>)> {
    v.map_values(|p: (&'static str, String)| (p.0@, p.1@))
}

/// `value`, trimmed, unless nothing is left of it.
pub fn non_empty(value: &Option<String>) -> (r: Option<String>)
    ensures
        opt_view(r) == non_empty_spec(opt_view(*value)),
{
    match value {
        Some(s) => {
            let v = chars_of(s.as_str());
            let t = trim_ws_exec(&v);
            if t.len() == 0 {
                None
            } else {
                Some(string_of(&t))
            }
        },
        None => None,
    }
}

/// A setting that is present, even empty, overrides the default; an empty
/// one drops the header; an absent one keeps the default.
pub open spec fn override_spec(setting: Option<Seq<char>>, default: Option<Seq<char>>) -> Option<Seq<char>> {
    match setting {
        Some(v) => if trim_ws(v).len() == 0 {
            None
        } else {
            Some(v)
        },
        None => default,
    }
}

/// Overlay one setting onto its default.
pub fn override_header(setting: Option<String>, default: Option<String>) -> (r: Option<String>)
    ensures
        opt_view(r) == override_spec(opt_view(setting), opt_view(default)),
{
    match setting {
        Some(v) => {
            let t = trim_ws_exec(&chars_of(v.as_str()));
            if t.len() == 0 {
                None
            } else {
                Some(v)
            }
        },
        None => default,
    }
}

impl SecurityHeadersConfig {
    /// The value-carrying headers, in emission order. The validation and the
    /// emitted list both read this one table.
    pub fn value_headers(&self) -> (r: Vec<ValueHeader<'_>>)
        ensures
            r@.map_values(|h: ValueHeader| row_of(h)) == value_table(*self),
    {
        let r = vec![
            ValueHeader { key: KEY_FRAME_OPTIONS, name: X_FRAME_OPTIONS, tls_only: false, value: &self.frame_options },
            ValueHeader { key: KEY_REFERRER_POLICY, name: REFERRER_POLICY, tls_only: false, value: &self.referrer_policy },
            ValueHeader { key: KEY_COOP, name: CROSS_ORIGIN_OPENER_POLICY, tls_only: false, value: &self.cross_origin_opener_policy },
            ValueHeader { key: KEY_CORP, name: CROSS_ORIGIN_RESOURCE_POLICY, tls_only: false, value: &self.cross_origin_resource_policy },
            ValueHeader { key: KEY_COEP, name: CROSS_ORIGIN_EMBEDDER_POLICY, tls_only: false, value: &self.cross_origin_embedder_policy },
            ValueHeader { key: KEY_PERMISSIONS_POLICY, name: PERMISSIONS_POLICY, tls_only: false, value: &self.permissions_policy },
            ValueHeader { key: KEY_CSP, name: CONTENT_SECURITY_POLICY, tls_only: false, value: &self.content_security_policy },
            ValueHeader { key: KEY_HSTS, name: STRICT_TRANSPORT_SECURITY, tls_only: true, value: &self.hsts },
        ];
        assert(r@.map_values(|h: ValueHeader| row_of(h)) =~= value_table(*self));
        r
    }

    /// The `(name, value)` headers to set, given whether TLS is active: HSTS
    /// only under TLS, nothing at all when disabled.
    pub fn headers(&self, tls_active: bool) -> (r: Vec<(&'static str, String)>)
        ensures
            pair_texts(r@) == headers_spec(*self, tls_active),
    {
        let mut out: Vec<(&'static str, String)> = Vec::new();
        if !self.enabled {
            assert(pair_texts(out@) =~= Seq::empty());
            return out;
        }
        if self.content_type_options {
            out.push((X_CONTENT_TYPE_OPTIONS, "nosniff".to_owned()));
        }
        let ghost head = pair_texts(out@);
        assert(head == (if self.content_type_options {
            seq![(X_CONTENT_TYPE_OPTIONS@, "nosniff"@)]
        } else {
            Seq::<(Seq<char>, Seq<char>)>::empty()
        }));
        let table = self.value_headers();
        let ghost rows = value_table(*self);
        let mut i: usize = 0;
        while i < table.len()
            invariant
                i <= table.len(),
                table@.map_values(|h: ValueHeader| row_of(h)) == rows,
                rows == value_table(*self),
                pair_texts(out@) == head + emitted(rows.take(i as int), tls_active),
            decreases table.len() - i,
        {
            let entry = &table[i];
            assert(row_of(*entry) == rows[i as int]);
            assert(rows.take(i + 1).drop_last() == rows.take(i as int));
            assert(rows.take(i + 1).last() == rows[i as int]);
            if !(entry.tls_only && !tls_active) {
                if let Some(value) = non_empty(entry.value) {
                    let ghost before = pair_texts(out@);
                    out.push((entry.name, value));
                    assert(pair_texts(out@) == before.push((entry.name@, value@)));
                }
            }
            i = i + 1;
        }
        assert(rows.take(table.len() as int) == rows);
        out
    }
}

/// The deployment's settings for the security headers: `None` keeps the
/// base value; a present but empty value drops that header.
#[derive(Clone, Debug, Default)]
pub struct SecurityHeaderSettings {
    /// `SECURITY_HEADERS`: the master switch.
    pub enabled: Option<bool>,
    /// `CONTENT_TYPE_OPTIONS`.
    pub content_type_options: Option<bool>,
    /// `FRAME_OPTIONS`.
    pub frame_options: Option<String>,
    /// `HSTS`.
    pub hsts: Option<String>,
    /// `REFERRER_POLICY`.
    pub referrer_policy: Option<String>,
    /// `CROSS_ORIGIN_OPENER_POLICY`.
    pub cross_origin_opener_policy: Option<String>,
    /// `CROSS_ORIGIN_RESOURCE_POLICY`.
    pub cross_origin_resource_policy: Option<String>,
    /// `CROSS_ORIGIN_EMBEDDER_POLICY`.
    pub cross_origin_embedder_policy: Option<String>,
    /// `PERMISSIONS_POLICY`.
    pub permissions_policy: Option<String>,
    /// `CONTENT_SECURITY_POLICY`.
    pub content_security_policy: Option<String>,
}

/// A setting whose value cannot be used, naming its environment variable.
#[derive(Clone, Debug)]
pub struct InvalidSetting {
    /// The environment variable, e.g. `NESTRS_HTTP__HSTS`.
    pub var: String,
    /// Why the value was refused.
    pub reason: String,
}

/// The value table once `s` is laid over `base`.
pub open spec fn overlaid_table(base: SecurityHeadersConfig, s: SecurityHeaderSettings) -> Seq<HeaderRow> {
    seq![
        HeaderRow { key: KEY_FRAME_OPTIONS@, name: X_FRAME_OPTIONS@, tls_only: false,
            value: override_spec(opt_view(s.frame_options), opt_view(base.frame_options)) },
        HeaderRow { key: KEY_REFERRER_POLICY@, name: REFERRER_POLICY@, tls_only: false,
            value: override_spec(opt_view(s.referrer_policy), opt_view(base.referrer_policy)) },
        HeaderRow { key: KEY_COOP@, name: CROSS_ORIGIN_OPENER_POLICY@, tls_only: false,
            value: override_spec(opt_view(s.cross_origin_opener_policy), opt_view(base.cross_origin_opener_policy)) },
        HeaderRow { key: KEY_CORP@, name: CROSS_ORIGIN_RESOURCE_POLICY@, tls_only: false,
            value: override_spec(opt_view(s.cross_origin_resource_policy), opt_view(base.cross_origin_resource_policy)) },
        HeaderRow { key: KEY_COEP@, name: CROSS_ORIGIN_EMBEDDER_POLICY@, tls_only: false,
            value: override_spec(opt_view(s.cross_origin_embedder_policy), opt_view(base.cross_origin_embedder_policy)) },
        HeaderRow { key: KEY_PERMISSIONS_POLICY@, name: PERMISSIONS_POLICY@, tls_only: false,
            value: override_spec(opt_view(s.permissions_policy), opt_view(base.permissions_policy)) },
        HeaderRow { key: KEY_CSP@, name: CONTENT_SECURITY_POLICY@, tls_only: false,
            value: override_spec(opt_view(s.content_security_policy), opt_view(base.content_security_policy)) },
        HeaderRow { key: KEY_HSTS@, name: STRICT_TRANSPORT_SECURITY@, tls_only: true,
            value: override_spec(opt_view(s.hsts), opt_view(base.hsts)) },
    ]
}

/// A row whose value, once trimmed, is not a header value.
pub open spec fn row_invalid(r: HeaderRow) -> bool {
    match non_empty_spec(r.value) {
        Some(v) => !valid_header_value(v),
        None => false,
    }
}

/// The first invalid row at or after `i`.
pub open spec fn first_invalid(rows: Seq<HeaderRow>, i: int) -> Option<int>
    decreases rows.len() - i,
{
    if i < 0 || i >= rows.len() {
        None
    } else if row_invalid(rows[i]) {
        Some(i)
    } else {
        first_invalid(rows, i + 1)
    }
}

/// Why a value was refused.
pub open spec fn invalid_reason(v: Seq<char>) -> Seq<char> {
    "`"@ + v + "` is not a valid HTTP header value"@
}

/// Validate one table entry, naming its variable when its value is unusable.
fn validate_header_value(key: &str, value: &Option<String>) -> (r: Result<(), InvalidSetting>)
    ensures
        match r {
            Ok(()) => !(match non_empty_spec(opt_view(*value)) {
                Some(v) => !valid_header_value(v),
                None => false,
            }),
            Err(e) => match non_empty_spec(opt_view(*value)) {
                Some(v) => !valid_header_value(v) && e.var@ == VAR_PREFIX@ + key@
                    && e.reason@ == invalid_reason(v),
                None => false,
            },
        },
{
    if let Some(v) = non_empty(value) {
        if !header_value_parses(v.as_str()) {
            let mut var = VAR_PREFIX.to_owned();
            push_str(&mut var, key);
            let mut reason = "`".to_owned();
            push_str(&mut reason, v.as_str());
            push_str(&mut reason, "` is not a valid HTTP header value");
            return Err(InvalidSetting { var, reason });
        }
    }
    Ok(())
}

/// `r` is `s` laid over `base`, or the refusal of its first value that is
/// not a header value, naming that value's variable.
pub open spec fn headers_overlaid(base: SecurityHeadersConfig, s: SecurityHeaderSettings, r: Result<SecurityHeadersConfig, InvalidSetting>) -> bool {
    match r {
        Ok(c) => first_invalid(overlaid_table(base, s), 0) is None
            && value_table(c) == overlaid_table(base, s)
            && c.enabled == (match s.enabled { Some(b) => b, None => base.enabled })
            && c.content_type_options == (match s.content_type_options {
                Some(b) => b,
                None => base.content_type_options,
            }),
        Err(e) => match first_invalid(overlaid_table(base, s), 0) {
            Some(i) => e.var@ == VAR_PREFIX@ + overlaid_table(base, s)[i].key
                && e.reason@ == invalid_reason(non_empty_spec(overlaid_table(base, s)[i].value)->0),
            None => false,
        },
    }
}

impl SecurityHeadersConfig {
    /// Lay the deployment's settings over `base` (the policy pinned in code):
    /// absent settings keep `base`, an empty one drops its header. A value
    /// that is not a header value fails boot naming its variable, rather than
    /// being dropped on the wire in silence.
    pub fn from_settings(base: Self, s: SecurityHeaderSettings) -> (r: Result<Self, InvalidSetting>)
        ensures
            headers_overlaid(base, s, r),
    {
        let ghost rows = overlaid_table(base, s);
        let resolved = SecurityHeadersConfig {
            enabled: match s.enabled {
                Some(b) => b,
                None => base.enabled,
            },
            content_type_options: match s.content_type_options {
                Some(b) => b,
                None => base.content_type_options,
            },
            frame_options: override_header(s.frame_options, base.frame_options),
            hsts: override_header(s.hsts, base.hsts),
            referrer_policy: override_header(s.referrer_policy, base.referrer_policy),
            cross_origin_opener_policy: override_header(
                s.cross_origin_opener_policy,
                base.cross_origin_opener_policy,
            ),
            cross_origin_resource_policy: override_header(
                s.cross_origin_resource_policy,
                base.cross_origin_resource_policy,
            ),
            cross_origin_embedder_policy: override_header(
                s.cross_origin_embedder_policy,
                base.cross_origin_embedder_policy,
            ),
            permissions_policy: override_header(s.permissions_policy, base.permissions_policy),
            content_security_policy: override_header(
                s.content_security_policy,
                base.content_security_policy,
            ),
        };
        assert(value_table(resolved) == rows);
        let table = resolved.value_headers();
        let mut i: usize = 0;
        while i < table.len()
            invariant
                i <= table.len(),
                table@.map_values(|h: ValueHeader| row_of(h)) == rows,
                rows.len() == 8,
                rows == overlaid_table(base, s),
                first_invalid(rows, 0) == first_invalid(rows, i as int),
            decreases table.len() - i,
        {
            let entry = &table[i];
            assert(row_of(*entry) == rows[i as int]);
            let checked = validate_header_value(entry.key, entry.value);
            if let Err(e) = checked {
                assert(row_invalid(rows[i as int]));
                assert(first_invalid(rows, i as int) == Some(i as int));
                return Err(e);
            }
            assert(!row_invalid(rows[i as int]));
            i = i + 1;
        }
        Ok(resolved)
    }
}

/// Disabled, the policy emits nothing, TLS or not.
pub proof fn law_disabled_emits_nothing(c: SecurityHeadersConfig, tls_active: bool)
    requires
        !c.enabled,
    ensures
        headers_spec(c, tls_active).len() == 0,
{
}

proof fn lemma_emitted_names(rows: Seq<HeaderRow>, tls_active: bool, i: int)
    requires
        0 <= i < emitted(rows, tls_active).len(),
    ensures
        exists|k: int| 0 <= k < rows.len() && #[trigger] rows[k].name == emitted(rows, tls_active)[i].0
            && (rows[k].tls_only ==> tls_active),
    decreases rows.len(),
{
    let before = emitted(rows.drop_last(), tls_active);
    if i < before.len() {
        lemma_emitted_names(rows.drop_last(), tls_active, i);
        let k = choose|k: int| 0 <= k < rows.drop_last().len() && #[trigger] rows.drop_last()[k].name == before[i].0
            && (rows.drop_last()[k].tls_only ==> tls_active);
        assert(rows[k] == rows.drop_last()[k]);
    } else {
        let k = rows.len() - 1;
        assert(rows[k].name == emitted(rows, tls_active)[i].0);
    }
}

/// Over plain HTTP no `Strict-Transport-Security` is ever emitted,
/// whatever the policy says: HSTS over plain HTTP is meaningless and a
/// foot-gun on localhost.
pub proof fn law_hsts_needs_tls(c: SecurityHeadersConfig, i: int)
    requires
        0 <= i < headers_spec(c, false).len(),
    ensures
        headers_spec(c, false)[i].0 != STRICT_TRANSPORT_SECURITY@,
{
    reveal_strlit("strict-transport-security");
    reveal_strlit("x-content-type-options");
    reveal_strlit("x-frame-options");
    reveal_strlit("referrer-policy");
    reveal_strlit("cross-origin-opener-policy");
    reveal_strlit("cross-origin-resource-policy");
    reveal_strlit("cross-origin-embedder-policy");
    reveal_strlit("permissions-policy");
    reveal_strlit("content-security-policy");
    assert(STRICT_TRANSPORT_SECURITY@.len() == 25);
    assert(X_CONTENT_TYPE_OPTIONS@.len() == 22);
    assert(X_FRAME_OPTIONS@.len() == 15);
    assert(REFERRER_POLICY@.len() == 15);
    assert(CROSS_ORIGIN_OPENER_POLICY@.len() == 26);
    assert(CROSS_ORIGIN_RESOURCE_POLICY@.len() == 28);
    assert(CROSS_ORIGIN_EMBEDDER_POLICY@.len() == 28);
    assert(PERMISSIONS_POLICY@.len() == 18);
    assert(CONTENT_SECURITY_POLICY@.len() == 23);
    let head: Seq<(Seq<char>, Seq<char>)> = if c.content_type_options {
        seq![(X_CONTENT_TYPE_OPTIONS@, "nosniff"@)]
    } else {
        Seq::empty()
    };
    let rows = value_table(c);
    let em = emitted(rows, false);
    if i >= head.len() {
        assert(headers_spec(c, false)[i] == em[i - head.len()]);
        lemma_emitted_names(rows, false, i - head.len());
        let k = choose|k: int| 0 <= k < rows.len() && #[trigger] rows[k].name == em[i - head.len()].0
            && (rows[k].tls_only ==> false);
        assert(k != 7);
        assert(rows[k].name.len() != 25);
    }
}

/// Under TLS an enabled policy with a non-blank HSTS value emits it, last.
pub proof fn law_hsts_is_emitted_under_tls(c: SecurityHeadersConfig)
    requires
        c.enabled,
        non_empty_spec(opt_view(c.hsts)) is Some,
    ensures
        headers_spec(c, true).len() > 0,
        headers_spec(c, true).last() == (STRICT_TRANSPORT_SECURITY@, non_empty_spec(opt_view(c.hsts))->0),
{
    let rows = value_table(c);
    assert(rows.last().name == STRICT_TRANSPORT_SECURITY@);
}

proof fn lemma_emitted_in_order(rows: Seq<HeaderRow>, tls_active: bool, i: int, j: int)
    requires
        0 <= i < j < emitted(rows, tls_active).len(),
    ensures
        exists|ki: int, kj: int|
            0 <= ki < kj < rows.len() && #[trigger] rows[ki].name == emitted(rows, tls_active)[i].0
                && #[trigger] rows[kj].name == emitted(rows, tls_active)[j].0,
    decreases rows.len(),
{
    let before = emitted(rows.drop_last(), tls_active);
    if j < before.len() {
        lemma_emitted_in_order(rows.drop_last(), tls_active, i, j);
        let (ki, kj) = choose|ki: int, kj: int|
            0 <= ki < kj < rows.drop_last().len() && #[trigger] rows.drop_last()[ki].name == before[i].0
                && #[trigger] rows.drop_last()[kj].name == before[j].0;
        assert(rows[ki] == rows.drop_last()[ki]);
        assert(rows[kj] == rows.drop_last()[kj]);
    } else {
        lemma_emitted_names(rows.drop_last(), tls_active, i);
        let ki = choose|k: int| 0 <= k < rows.drop_last().len() && #[trigger] rows.drop_last()[k].name == before[i].0
            && (rows.drop_last()[k].tls_only ==> tls_active);
        assert(rows[ki] == rows.drop_last()[ki]);
        let kj = rows.len() - 1;
        assert(rows[kj].name == emitted(rows, tls_active)[j].0);
    }
}

proof fn lemma_row_names(c: SecurityHeadersConfig)
    ensures
        forall|a: int, b: int|
            0 <= a < b < value_table(c).len() ==> #[trigger] value_table(c)[a].name != #[trigger] value_table(c)[b].name,
        forall|a: int| 0 <= a < value_table(c).len() ==> #[trigger] value_table(c)[a].name != X_CONTENT_TYPE_OPTIONS@,
{
    reveal_strlit("strict-transport-security");
    reveal_strlit("x-content-type-options");
    reveal_strlit("x-frame-options");
    reveal_strlit("referrer-policy");
    reveal_strlit("cross-origin-opener-policy");
    reveal_strlit("cross-origin-resource-policy");
    reveal_strlit("cross-origin-embedder-policy");
    reveal_strlit("permissions-policy");
    reveal_strlit("content-security-policy");
    let rows = value_table(c);
    assert(rows[0].name.len() == 15 && rows[0].name[0] == 'x');
    assert(rows[1].name.len() == 15 && rows[1].name[0] == 'r');
    assert(rows[2].name.len() == 26);
    assert(rows[3].name.len() == 28 && rows[3].name[13] == 'r');
    assert(rows[4].name.len() == 28 && rows[4].name[13] == 'e');
    assert(rows[5].name.len() == 18);
    assert(rows[6].name.len() == 23);
    assert(rows[7].name.len() == 25);
    assert(X_CONTENT_TYPE_OPTIONS@.len() == 22);
    assert forall|a: int, b: int| 0 <= a < b < rows.len() implies #[trigger] rows[a].name != #[trigger] rows[b].name by {}
    assert forall|a: int| 0 <= a < rows.len() implies #[trigger] rows[a].name != X_CONTENT_TYPE_OPTIONS@ by {}
}

proof fn lemma_emitted_has_row(rows: Seq<HeaderRow>, tls_active: bool, k: int)
    requires
        0 <= k < rows.len(),
        rows[k].tls_only ==> tls_active,
        non_empty_spec(rows[k].value) is Some,
    ensures
        emitted(rows, tls_active).contains((rows[k].name, non_empty_spec(rows[k].value)->0)),
    decreases rows.len(),
{
    let before = emitted(rows.drop_last(), tls_active);
    let em = emitted(rows, tls_active);
    if k == rows.len() - 1 {
        assert(em.last() == (rows[k].name, non_empty_spec(rows[k].value)->0));
    } else {
        assert(rows.drop_last()[k] == rows[k]);
        lemma_emitted_has_row(rows.drop_last(), tls_active, k);
        let i = choose|i: int| 0 <= i < before.len() && before[i] == (rows[k].name, non_empty_spec(rows[k].value)->0);
        assert(em[i] == before[i]);
    }
}

proof fn lemma_emitted_from_row(rows: Seq<HeaderRow>, tls_active: bool, i: int)
    requires
        0 <= i < emitted(rows, tls_active).len(),
    ensures
        exists|k: int|
            0 <= k < rows.len() && #[trigger] rows[k].name == emitted(rows, tls_active)[i].0 && (rows[k].tls_only
                ==> tls_active) && non_empty_spec(rows[k].value) == Some(emitted(rows, tls_active)[i].1),
    decreases rows.len(),
{
    let before = emitted(rows.drop_last(), tls_active);
    if i < before.len() {
        lemma_emitted_from_row(rows.drop_last(), tls_active, i);
        let k = choose|k: int|
            0 <= k < rows.drop_last().len() && #[trigger] rows.drop_last()[k].name == before[i].0 && (
            rows.drop_last()[k].tls_only ==> tls_active) && non_empty_spec(rows.drop_last()[k].value) == Some(before[i].1);
        assert(rows[k] == rows.drop_last()[k]);
    } else {
        let k = rows.len() - 1;
        assert(rows[k].name == emitted(rows, tls_active)[i].0);
    }
}

/// Each value-carrying header follows its own setting: an enabled policy
/// emits it, with the trimmed value, exactly when that value is not blank
/// (and, for HSTS, TLS is active); `X-Content-Type-Options: nosniff` is
/// emitted exactly when the switch is on.
pub proof fn law_each_header_follows_its_setting(c: SecurityHeadersConfig, tls_active: bool, k: int, v: Seq<char>)
    requires
        c.enabled,
        0 <= k < value_table(c).len(),
    ensures
        headers_spec(c, tls_active).contains((value_table(c)[k].name, v)) <==> ((value_table(c)[k].tls_only
            ==> tls_active) && non_empty_spec(value_table(c)[k].value) == Some(v)),
        headers_spec(c, tls_active).contains((X_CONTENT_TYPE_OPTIONS@, v)) <==> (c.content_type_options && v
            == "nosniff"@),
{
    lemma_row_names(c);
    let rows = value_table(c);
    let head: Seq<(Seq<char>, Seq<char>)> = if c.content_type_options {
        seq![(X_CONTENT_TYPE_OPTIONS@, "nosniff"@)]
    } else {
        Seq::empty()
    };
    let em = emitted(rows, tls_active);
    let h = headers_spec(c, tls_active);
    assert(h == head + em);
    if (rows[k].tls_only ==> tls_active) && non_empty_spec(rows[k].value) == Some(v) {
        lemma_emitted_has_row(rows, tls_active, k);
        let i = choose|i: int| 0 <= i < em.len() && em[i] == (rows[k].name, v);
        assert(h[head.len() + i] == em[i]);
    }
    if h.contains((rows[k].name, v)) {
        let i = choose|i: int| 0 <= i < h.len() && h[i] == (rows[k].name, v);
        if i < head.len() {
            assert(h[i].0 == X_CONTENT_TYPE_OPTIONS@);
        } else {
            assert(h[i] == em[i - head.len()]);
            lemma_emitted_from_row(rows, tls_active, i - head.len());
            let k2 = choose|k2: int|
                0 <= k2 < rows.len() && #[trigger] rows[k2].name == em[i - head.len()].0 && (rows[k2].tls_only
                    ==> tls_active) && non_empty_spec(rows[k2].value) == Some(em[i - head.len()].1);
            if k2 < k {
                assert(rows[k2].name != rows[k].name);
            } else if k < k2 {
                assert(rows[k].name != rows[k2].name);
            }
        }
    }
    if c.content_type_options && v == "nosniff"@ {
        assert(h[0] == (X_CONTENT_TYPE_OPTIONS@, v));
    }
    if h.contains((X_CONTENT_TYPE_OPTIONS@, v)) {
        let i = choose|i: int| 0 <= i < h.len() && h[i] == (X_CONTENT_TYPE_OPTIONS@, v);
        if i >= head.len() {
            assert(h[i] == em[i - head.len()]);
            lemma_emitted_names(rows, tls_active, i - head.len());
        }
    }
}

/// No header is set twice: the names a policy emits are distinct, so each
/// one is stamped once, with the one value the policy gives it.
pub proof fn law_no_header_is_set_twice(c: SecurityHeadersConfig, tls_active: bool)
    ensures
        forall|i: int, j: int|
            0 <= i < j < headers_spec(c, tls_active).len() ==> #[trigger] headers_spec(c, tls_active)[i].0
                != #[trigger] headers_spec(c, tls_active)[j].0,
{
    lemma_row_names(c);
    let rows = value_table(c);
    if c.enabled {
        let head: Seq<(Seq<char>, Seq<char>)> = if c.content_type_options {
            seq![(X_CONTENT_TYPE_OPTIONS@, "nosniff"@)]
        } else {
            Seq::empty()
        };
        let em = emitted(rows, tls_active);
        let h = headers_spec(c, tls_active);
        assert(h == head + em);
        assert forall|i: int, j: int| 0 <= i < j < h.len() implies #[trigger] h[i].0 != #[trigger] h[j].0 by {
            if i >= head.len() {
                assert(h[i] == em[i - head.len()]);
                assert(h[j] == em[j - head.len()]);
                lemma_emitted_in_order(rows, tls_active, i - head.len(), j - head.len());
            } else {
                assert(h[i].0 == X_CONTENT_TYPE_OPTIONS@);
                assert(h[j] == em[j - head.len()]);
                lemma_emitted_names(rows, tls_active, j - head.len());
            }
        }
    }
}

} // verus!
