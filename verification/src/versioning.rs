//! How a request says which API version it wants.
//!
//! A `#[controller(version = …)]` declares a version; this module decides how a
//! caller selects one. The `Header` and `MediaType` strategies are a rewrite in
//! front of routing: the version is read off the request, validated, and
//! folded into the path the controller already mounts at.
use vstd::prelude::*;

use crate::controller::{strs, HttpControllerMeta};
use crate::lexical::{
    chars_lt, lemma_lex_asymmetric, lemma_lex_irreflexive, lemma_lex_total, lemma_lex_transitive,
    lex_lt, strictly_sorted,
};
use crate::paths::{version_path, version_spec};
use crate::wire::{header_name_from, valid_header_name};
use crate::text::{
    chars_of, debug_quoted, debug_str, eq_chars, first_index, is_ascii_alnum, lower_all,
    lower_all_exec, split_char, split_char_exec, string_of, trim_char, trim_char_exec, trim_ws,
    trim_ws_exec, lemma_split_nonempty, find_char, slice_of, is_ws, lower, trim_ws_end, trim_ws_start,
};

verus! {

/// The media-type parameter the `MediaType` strategy reads.
pub const MEDIA_TYPE_PARAM: &'static str = "version";

/// The default header the `Header` strategy reads.
pub const DEFAULT_VERSION_HEADER: &'static str = "x-api-version";

/// The longest version token accepted from a request.
pub const MAX_VERSION_LEN: usize = 32;

#[verifier::external_type_specification]
#[verifier::external_body]
pub struct ExHeaderName(poem::http::HeaderName);

/// `http`'s `Clone` for `HeaderName`; nothing is claimed of the copy.
pub assume_specification[ <poem::http::HeaderName as Clone>::clone ](
    h: &poem::http::HeaderName,
) -> poem::http::HeaderName;

/// How a caller selects an API version.
#[derive(Clone, Copy, Debug, PartialEq, Eq, Structural)]
pub enum ApiVersioning {
    /// `/v2/users` — the version is part of the path. The default.
    Uri,
    /// `X-API-Version: 2` on an unversioned path.
    Header,
    /// `Accept: application/json; version=2` on an unversioned path.
    MediaType,
}

impl Default for ApiVersioning {
    fn default() -> (r: Self)
        ensures
            r == ApiVersioning::Uri,
    {
        ApiVersioning::Uri
    }
}

/// The spelling of a strategy in `NESTRS_HTTP__VERSIONING`.
pub open spec fn strategy_name(s: ApiVersioning) -> Seq<char> {
    match s {
        ApiVersioning::Uri => seq!['u', 'r', 'i'],
        ApiVersioning::Header => seq!['h', 'e', 'a', 'd', 'e', 'r'],
        ApiVersioning::MediaType => seq!['m', 'e', 'd', 'i', 'a', '_', 't', 'y', 'p', 'e'],
    }
}

/// The key a configured strategy is looked up by: trimmed, ASCII-lowercased,
/// `-` read as `_`.
pub open spec fn strategy_key(raw: Seq<char>) -> Seq<char> {
    lower_all(trim_ws(raw)).map_values(|c: char| if c == '-' { '_' } else { c })
}

/// Which strategy a key names, if any.
pub open spec fn strategy_of_key(k: Seq<char>) -> Option<ApiVersioning> {
    if k == seq!['u', 'r', 'i'] || k == seq!['u', 'r', 'l'] || k == seq!['p', 'a', 't', 'h'] {
        Some(ApiVersioning::Uri)
    } else if k == seq!['h', 'e', 'a', 'd', 'e', 'r'] {
        Some(ApiVersioning::Header)
    } else if k == seq!['m', 'e', 'd', 'i', 'a', '_', 't', 'y', 'p', 'e'] || k == seq![
        'a',
        'c',
        'c',
        'e',
        'p',
        't',
    ] {
        Some(ApiVersioning::MediaType)
    } else {
        None
    }
}

/// The refusal for a strategy no spelling names.
pub open spec fn unknown_strategy_message(k: Seq<char>) -> Seq<char> {
    "unknown API versioning strategy "@ + debug_str(k)
        + " — expected `uri`, `header` or `media_type`"@
}

impl ApiVersioning {
    /// The spelling used in `NESTRS_HTTP__VERSIONING`.
    pub fn as_str(self) -> (r: &'static str)
        ensures
            r@ == strategy_name(self),
    {
        match self {
            ApiVersioning::Uri => {
                proof { reveal_strlit("uri"); }
                "uri"
            },
            ApiVersioning::Header => {
                proof { reveal_strlit("header"); }
                "header"
            },
            ApiVersioning::MediaType => {
                proof { reveal_strlit("media_type"); }
                "media_type"
            },
        }
    }

    /// Parse a strategy from its configured spelling: `uri`/`url`/`path`,
    /// `header`, `media_type`/`accept`, in any case, with `-` for `_`.
    pub fn parse(raw: &str) -> (r: Result<ApiVersioning, String>)
        ensures
            match strategy_of_key(strategy_key(raw@)) {
                Some(s) => r == Ok::<ApiVersioning, String>(s),
                None => r matches Err(m) && m@ == unknown_strategy_message(strategy_key(raw@)),
            },
    {
        let v = chars_of(raw);
        let t = trim_ws_exec(&v);
        let l = lower_all_exec(&t);
        let mut k: Vec<char> = Vec::new();
        let mut i: usize = 0;
        while i < l.len()
            invariant
                i <= l.len(),
                k@ == l@.take(i as int).map_values(|c: char| if c == '-' { '_' } else { c }),
            decreases l.len() - i,
        {
            let c = l[i];
            k.push(if c == '-' { '_' } else { c });
            i = i + 1;
            assert(l@.take(i as int).drop_last() == l@.take(i - 1));
        }
        assert(l@.take(l.len() as int) == l@);
        assert(k@ == strategy_key(raw@));
        if eq_chars(&k, &['u', 'r', 'i']) || eq_chars(&k, &['u', 'r', 'l']) || eq_chars(
            &k,
            &['p', 'a', 't', 'h'],
        ) {
            Ok(ApiVersioning::Uri)
        } else if eq_chars(&k, &['h', 'e', 'a', 'd', 'e', 'r']) {
            Ok(ApiVersioning::Header)
        } else if eq_chars(&k, &['m', 'e', 'd', 'i', 'a', '_', 't', 'y', 'p', 'e']) || eq_chars(
            &k,
            &['a', 'c', 'c', 'e', 'p', 't'],
        ) {
            Ok(ApiVersioning::MediaType)
        } else {
            let key = string_of(&k);
            let quoted = debug_quoted(key.as_str());
            proof {
                reveal_strlit("unknown API versioning strategy ");
                reveal_strlit(" — expected `uri`, `header` or `media_type`");
            }
            let head = crate::text::cat("unknown API versioning strategy ", quoted.as_str());
            let full = crate::text::cat(head.as_str(), " — expected `uri`, `header` or `media_type`");
            Err(full)
        }
    }
}

impl core::str::FromStr for ApiVersioning {
    type Err = String;

    fn from_str(raw: &str) -> (r: Result<ApiVersioning, String>)
        ensures
            match strategy_of_key(strategy_key(raw@)) {
                Some(s) => r == Ok::<ApiVersioning, String>(s),
                None => r matches Err(m) && m@ == unknown_strategy_message(strategy_key(raw@)),
            },
    {
        ApiVersioning::parse(raw)
    }
}

// ── Route matching ─────────────────────────────────────────────────────────

/// The index of the first `:` or `<` in a pattern segment: where its
/// parameter starts.
pub open spec fn param_start(s: Seq<char>) -> Option<int>
    decreases s.len(),
{
    if s.len() == 0 {
        None
    } else if s[0] == ':' || s[0] == '<' {
        Some(0)
    } else {
        match param_start(s.drop_first()) {
            Some(i) => Some(i + 1),
            None => None,
        }
    }
}

/// One path segment against one pattern segment: a parameter matches any
/// non-empty text, and a literal before it must still match.
pub open spec fn segment_spec(segment: Seq<char>, pattern: Seq<char>) -> bool {
    match param_start(pattern) {
        None => segment == pattern,
        Some(k) => if k == 0 {
            segment.len() > 0
        } else {
            segment.len() > k && segment.take(k) == pattern.take(k)
        },
    }
}

/// Segment-wise matching from segment `i` on: a catch-all takes the rest, a
/// trailing empty path segment names the same address, anything else must
/// pair up.
pub open spec fn segments_match(p: Seq<Seq<char>>, q: Seq<Seq<char>>, i: int) -> bool
    decreases p.len() + q.len() - i,
{
    if i < 0 || (i >= p.len() && i >= q.len()) {
        i >= 0
    } else if i < q.len() && q[i].len() > 0 && q[i][0] == '*' {
        true
    } else if i < p.len() && i < q.len() {
        segment_spec(p[i], q[i]) && segments_match(p, q, i + 1)
    } else if i < p.len() {
        p[i].len() == 0 && segments_match(p, q, i + 1)
    } else {
        false
    }
}

/// Does `path` address the mounted route `pattern`?
pub open spec fn route_spec(path: Seq<char>, pattern: Seq<char>) -> bool {
    segments_match(split_char(path, '/'), split_char(pattern, '/'), 0)
}

proof fn lemma_param_start_at(s: Seq<char>, i: int)
    requires
        0 <= i < s.len(),
        s[i] == ':' || s[i] == '<',
        forall|j: int| 0 <= j < i ==> s[j] != ':' && s[j] != '<',
    ensures
        param_start(s) == Some(i),
    decreases i,
{
    if i > 0 {
        lemma_param_start_at(s.drop_first(), i - 1);
    }
}

proof fn lemma_param_start_none(s: Seq<char>)
    requires
        forall|j: int| 0 <= j < s.len() ==> s[j] != ':' && s[j] != '<',
    ensures
        param_start(s) is None,
    decreases s.len(),
{
    if s.len() > 0 {
        lemma_param_start_none(s.drop_first());
    }
}

/// One path segment against one pattern segment.
pub fn segment_matches(segment: &[char], pattern: &[char]) -> (r: bool)
    ensures
        r == segment_spec(segment@, pattern@),
{
    let mut k: usize = 0;
    while k < pattern.len() && pattern[k] != ':' && pattern[k] != '<'
        invariant
            k <= pattern.len(),
            forall|j: int| 0 <= j < k ==> pattern@[j] != ':' && pattern@[j] != '<',
        decreases pattern.len() - k,
    {
        k = k + 1;
    }
    if k == pattern.len() {
        proof { lemma_param_start_none(pattern@); }
        eq_chars(segment, pattern)
    } else {
        proof { lemma_param_start_at(pattern@, k as int); }
        if k == 0 {
            segment.len() > 0
        } else if segment.len() > k {
            let a = slice_of(segment, 0, k);
            let b = slice_of(pattern, 0, k);
            eq_chars(&a, &b)
        } else {
            false
        }
    }
}

/// Does `path` address the mounted route `pattern`? Segment-wise, aware of
/// `:name`, `<regex>`, `*rest` and a literal before a parameter.
pub fn route_matches(path: &str, pattern: &str) -> (r: bool)
    ensures
        r == route_spec(path@, pattern@),
{
    let pv = chars_of(path);
    let qv = chars_of(pattern);
    let p = split_char_exec(&pv, '/');
    let q = split_char_exec(&qv, '/');
    let ghost ps = split_char(path@, '/');
    let ghost qs = split_char(pattern@, '/');
    let mut i: usize = 0;
    loop
        invariant
            ps == split_char(path@, '/'),
            qs == split_char(pattern@, '/'),
            p@.len() == ps.len(),
            q@.len() == qs.len(),
            forall|j: int| 0 <= j < p@.len() ==> #[trigger] p@[j]@ == ps[j],
            forall|j: int| 0 <= j < q@.len() ==> #[trigger] q@[j]@ == qs[j],
            segments_match(ps, qs, 0) == segments_match(ps, qs, i as int),
            i <= p.len() || i <= q.len(),
        decreases p.len() + q.len() - i,
    {
        if i >= p.len() && i >= q.len() {
            return true;
        }
        if i < q.len() && q[i].len() > 0 && q[i][0] == '*' {
            return true;
        }
        if i < p.len() && i < q.len() {
            if !segment_matches(&p[i], &q[i]) {
                return false;
            }
        } else if i < p.len() {
            if p[i].len() != 0 {
                return false;
            }
        } else {
            return false;
        }
        i = i + 1;
    }
}

/// A version token is spliced into a URL path, so only bare alphanumerics,
/// `.` and `-` are accepted, at most [`MAX_VERSION_LEN`] of them.
pub open spec fn valid_version(raw: Seq<char>) -> bool {
    &&& 0 < raw.len() <= MAX_VERSION_LEN
    &&& forall|i: int| 0 <= i < raw.len() ==> is_ascii_alnum(#[trigger] raw[i]) || raw[i] == '.'
        || raw[i] == '-'
}

/// Whether `raw` is an acceptable version token.
pub fn is_valid_version(raw: &str) -> (r: bool)
    ensures
        r == valid_version(raw@),
{
    let v = chars_of(raw);
    if v.len() == 0 || v.len() > MAX_VERSION_LEN {
        return false;
    }
    let mut i: usize = 0;
    while i < v.len()
        invariant
            i <= v.len(),
            v@ == raw@,
            forall|j: int| 0 <= j < i ==> is_ascii_alnum(#[trigger] v@[j]) || v@[j] == '.' || v@[j]
                == '-',
        decreases v.len() - i,
    {
        let c = v[i];
        let ok = ('0' <= c && c <= '9') || ('a' <= c && c <= 'z') || ('A' <= c && c <= 'Z') || c
            == '.' || c == '-';
        if !ok {
            return false;
        }
        i = i + 1;
    }
    true
}

} // verus!

verus! {

// ── What a request says ────────────────────────────────────────────────────

/// A byte a header value may carry and still read as text
/// (`HeaderValue::to_str`): visible ASCII or a tab.
pub open spec fn visible_ascii(b: u8) -> bool {
    (32 <= b && b < 127) || b == 9
}

/// The text of a header value, or `None` when a byte is not visible ASCII.
pub open spec fn header_text_spec(raw: Seq<u8>) -> Option<Seq<char>> {
    if forall|i: int| 0 <= i < raw.len() ==> visible_ascii(#[trigger] raw[i]) {
        Some(raw.map_values(|b: u8| b as char))
    } else {
        None
    }
}

/// A header value's text (`HeaderValue::to_str`), or `None` when it carries a
/// byte that is not visible ASCII.
pub fn header_text(raw: &[u8]) -> (r: Option<String>)
    ensures
        match r {
            Some(s) => header_text_spec(raw@) == Some(s@),
            None => header_text_spec(raw@) is None,
        },
{
    let mut out: Vec<char> = Vec::new();
    let mut i: usize = 0;
    while i < raw.len()
        invariant
            i <= raw.len(),
            forall|j: int| 0 <= j < i ==> visible_ascii(#[trigger] raw@[j]),
            out@ == raw@.take(i as int).map_values(|b: u8| b as char),
        decreases raw.len() - i,
    {
        let b = raw[i];
        if !((32 <= b && b < 127) || b == 9) {
            return None;
        }
        out.push(b as char);
        i = i + 1;
        assert(raw@.take(i as int).drop_last() == raw@.take(i - 1));
    }
    assert(raw@.take(raw.len() as int) == raw@);
    Some(string_of(&out))
}

/// What a request said about the version it wants.
#[derive(Clone, Debug, PartialEq, Eq)]
pub enum Requested {
    /// Nothing was stated, so a deployment default may apply.
    Absent,
    /// This was stated; still to be validated as a version token.
    Stated(String),
    /// Something was stated that is not text at all.
    Malformed,
}

/// [`Requested`] over sequences.
pub enum Ask {
    Absent,
    Stated(Seq<char>),
    Malformed,
}

impl View for Requested {
    type V = Ask;

    open spec fn view(&self) -> Ask {
        match self {
            Requested::Absent => Ask::Absent,
            Requested::Stated(s) => Ask::Stated(s@),
            Requested::Malformed => Ask::Malformed,
        }
    }
}

/// The `version=` value of one media-range parameter, if that is what it is.
pub open spec fn version_param(param: Seq<char>) -> Option<Seq<char>> {
    match first_index(param, '=') {
        Some(i) => if lower_all(trim_ws(param.take(i))) == MEDIA_TYPE_PARAM@ {
            Some(trim_char(trim_ws(param.skip(i + 1)), '"'))
        } else {
            None
        },
        None => None,
    }
}

/// The first `version=` among `params[j..]`.
pub open spec fn first_version_param(params: Seq<Seq<char>>, j: int) -> Option<Seq<char>>
    decreases params.len() - j,
{
    if j < 0 || j >= params.len() {
        None
    } else {
        match version_param(params[j]) {
            Some(v) => Some(v),
            None => first_version_param(params, j + 1),
        }
    }
}

/// The `version=` of one media range: its parameters follow the first `;`.
pub open spec fn range_version(range: Seq<char>) -> Option<Seq<char>> {
    first_version_param(split_char(range, ';'), 1)
}

/// The first `version=` among `ranges[k..]`.
pub open spec fn first_range_version(ranges: Seq<Seq<char>>, k: int) -> Option<Seq<char>>
    decreases ranges.len() - k,
{
    if k < 0 || k >= ranges.len() {
        None
    } else {
        match range_version(ranges[k]) {
            Some(v) => Some(v),
            None => first_range_version(ranges, k + 1),
        }
    }
}

/// The `version=` parameter of the first media range in `Accept` that has one.
pub open spec fn accept_version_spec(accept: Seq<char>) -> Option<Seq<char>> {
    first_range_version(split_char(accept, ','), 0)
}

/// What an `Accept` header says about the version: nothing when absent or
/// when no range carries `version=`, malformed when it is not text.
pub open spec fn accept_ask(accept: Option<Seq<u8>>) -> Ask {
    match accept {
        None => Ask::Absent,
        Some(raw) => match header_text_spec(raw) {
            None => Ask::Malformed,
            Some(text) => match accept_version_spec(text) {
                Some(v) => Ask::Stated(v),
                None => Ask::Absent,
            },
        },
    }
}

/// What the strategy reads off the request.
pub open spec fn requested_spec(
    strategy: ApiVersioning,
    header: Option<Seq<u8>>,
    accept: Option<Seq<u8>>,
) -> Ask {
    match strategy {
        ApiVersioning::Uri => Ask::Absent,
        ApiVersioning::Header => match header {
            None => Ask::Absent,
            Some(raw) => match header_text_spec(raw) {
                Some(text) => Ask::Stated(text),
                None => Ask::Malformed,
            },
        },
        ApiVersioning::MediaType => accept_ask(accept),
    }
}

fn version_param_exec(param: &[char]) -> (r: Option<Vec<char>>)
    ensures
        match r {
            Some(v) => version_param(param@) == Some(v@),
            None => version_param(param@) is None,
        },
{
    match find_char(param, '=') {
        None => None,
        Some(i) => {
            let name = slice_of(param, 0, i);
            let name = trim_ws_exec(&name);
            let name = lower_all_exec(&name);
            let key = chars_of(MEDIA_TYPE_PARAM);
            assert(param@.take(i as int) == param@.subrange(0, i as int));
            if eq_chars(&name, &key) {
                let value = slice_of(param, i + 1, param.len());
                assert(param@.skip(i + 1) == param@.subrange(i + 1, param.len() as int));
                let value = trim_ws_exec(&value);
                Some(trim_char_exec(&value, '"'))
            } else {
                None
            }
        },
    }
}

#[verifier::loop_isolation(false)]
fn range_version_exec(range: &[char]) -> (r: Option<Vec<char>>)
    ensures
        match r {
            Some(v) => range_version(range@) == Some(v@),
            None => range_version(range@) is None,
        },
{
    let params = split_char_exec(range, ';');
    let ghost ps = split_char(range@, ';');
    let mut j: usize = 1;
    while j < params.len()
        invariant
            1 <= j,
            params@.len() == ps.len(),
            forall|k: int| 0 <= k < params@.len() ==> #[trigger] params@[k]@ == ps[k],
            first_version_param(ps, 1) == first_version_param(ps, j as int),
        decreases params.len() - j,
    {
        match version_param_exec(&params[j]) {
            Some(v) => {
                return Some(v);
            },
            None => {},
        }
        j = j + 1;
    }
    None
}

/// The version an `Accept` header names: the `version=` parameter of the first
/// media range carrying one, trimmed and unquoted.
#[verifier::loop_isolation(false)]
pub fn accept_version(accept: Option<&[u8]>) -> (r: Requested)
    ensures
        r@ == accept_ask(
            match accept {
                Some(a) => Some(a@),
                None => None,
            },
        ),
{
    let raw = match accept {
        None => {
            return Requested::Absent;
        },
        Some(raw) => raw,
    };
    let text = match header_text(raw) {
        None => {
            return Requested::Malformed;
        },
        Some(t) => t,
    };
    let tv = chars_of(text.as_str());
    let ranges = split_char_exec(&tv, ',');
    let ghost rs = split_char(tv@, ',');
    let mut k: usize = 0;
    while k < ranges.len()
        invariant
            ranges@.len() == rs.len(),
            rs == split_char(tv@, ','),
            forall|i: int| 0 <= i < ranges@.len() ==> #[trigger] ranges@[i]@ == rs[i],
            first_range_version(rs, 0) == first_range_version(rs, k as int),
        decreases ranges.len() - k,
    {
        match range_version_exec(&ranges[k]) {
            Some(v) => {
                return Requested::Stated(string_of(&v));
            },
            None => {},
        }
        k = k + 1;
    }
    Requested::Absent
}

// ── The selector ───────────────────────────────────────────────────────────

/// Why a request was refused a version.
#[derive(Clone, Copy, Debug, PartialEq, Eq, Structural)]
pub enum VersionRefusal {
    /// `404`: a URI-versioned path under another strategy, or a version this
    /// address does not serve while another one does.
    NotFound,
    /// `400`: a stated version that is not a valid token, or not text.
    Malformed,
}

impl VersionRefusal {
    /// The status the refusal answers with.
    pub fn status(self) -> (r: u16)
        ensures
            r == (match self {
                VersionRefusal::NotFound => 404u16,
                VersionRefusal::Malformed => 400u16,
            }),
    {
        match self {
            VersionRefusal::NotFound => 404,
            VersionRefusal::Malformed => 400,
        }
    }
}

/// Reads the requested version off a request and folds it into the path.
#[derive(Clone, Debug)]
pub struct VersionSelector {
    strategy: ApiVersioning,
    header: poem::http::HeaderName,
    header_text: String,
    default_version: Option<String>,
    versioned_routes: Vec<String>,
    self_mounts: Vec<String>,
    unversioned_routes: Vec<String>,
    versions: Vec<String>,
}

/// The selector as plain values.
pub struct SelectorView {
    pub strategy: ApiVersioning,
    pub header: poem::http::HeaderName,
    pub header_text: Seq<char>,
    pub default_version: Option<Seq<char>>,
    pub versioned: Seq<Seq<char>>,
    pub self_mounts: Seq<Seq<char>>,
    pub unversioned: Seq<Seq<char>>,
    pub versions: Seq<Seq<char>>,
}

/// The texts of a list of strings.
pub open spec fn texts(v: Seq<String>) -> Seq<Seq<char>> {
    v.map_values(|s: String| s@)
}

/// Some route of `routes` answers at `path`.
pub open spec fn matches_any(routes: Seq<Seq<char>>, path: Seq<char>) -> bool {
    exists|i: int| 0 <= i < routes.len() && route_spec(path, #[trigger] routes[i])
}

/// Some declared version serves `path`.
pub open spec fn some_version_serves(
    versions: Seq<Seq<char>>,
    versioned: Seq<Seq<char>>,
    path: Seq<char>,
) -> bool {
    exists|i: int|
        0 <= i < versions.len() && matches_any(versioned, #[trigger] version_spec(Some(versions[i]), path))
}

/// Where a request at `path` that asked `ask` is routed: `Ok(None)` as sent,
/// `Ok(Some(p))` at `p`, or refused.
pub open spec fn resolve_spec(sel: SelectorView, path: Seq<char>, ask: Ask) -> Result<Option<Seq<char>>, VersionRefusal> {
    if matches_any(sel.self_mounts, path) {
        Ok(None)
    } else if matches_any(sel.versioned, path) {
        Err(VersionRefusal::NotFound)
    } else {
        match ask {
            Ask::Malformed => Err(VersionRefusal::Malformed),
            Ask::Stated(raw) => if !valid_version(raw) {
                Err(VersionRefusal::Malformed)
            } else {
                let candidate = version_spec(Some(raw), path);
                if matches_any(sel.versioned, candidate) {
                    Ok(Some(candidate))
                } else if some_version_serves(sel.versions, sel.versioned, path) {
                    Err(VersionRefusal::NotFound)
                } else {
                    Ok(None)
                }
            },
            Ask::Absent => if matches_any(sel.unversioned, path) {
                Ok(None)
            } else {
                match sel.default_version {
                    None => Ok(None),
                    Some(v) => {
                        let candidate = version_spec(Some(v), path);
                        if matches_any(sel.versioned, candidate) {
                            Ok(Some(candidate))
                        } else {
                            Ok(None)
                        }
                    },
                }
            },
        }
    }
}

impl View for VersionSelector {
    type V = SelectorView;

    closed spec fn view(&self) -> SelectorView {
        SelectorView {
            strategy: self.strategy,
            header: self.header,
            header_text: self.header_text@,
            default_version: match self.default_version {
                Some(v) => Some(v@),
                None => None,
            },
            versioned: texts(self.versioned_routes@),
            self_mounts: texts(self.self_mounts@),
            unversioned: texts(self.unversioned_routes@),
            versions: texts(self.versions@),
        }
    }
}

/// Whether some route of `routes` answers at `path`.
fn any_route_matches(routes: &Vec<String>, path: &str) -> (r: bool)
    ensures
        r == matches_any(texts(routes@), path@),
{
    let ghost t = texts(routes@);
    let mut i: usize = 0;
    while i < routes.len()
        invariant
            i <= routes.len(),
            t == texts(routes@),
            forall|j: int| 0 <= j < i ==> !route_spec(path@, #[trigger] t[j]),
        decreases routes.len() - i,
    {
        if route_matches(path, routes[i].as_str()) {
            assert(route_spec(path@, t[i as int]));
            return true;
        }
        i = i + 1;
    }
    false
}

impl VersionSelector {
    /// Build a selector that reads the header named `header` (looked up in
    /// lower case, as header names are); `default_version` is what a
    /// request stating none is served. `None` when `header` is no header
    /// name — no request could ever carry it.
    pub fn new(
        strategy: ApiVersioning,
        header: &str,
        default_version: Option<String>,
    ) -> (r: Option<Self>)
        ensures
            r is Some <==> valid_header_name(header@),
            r matches Some(s) ==> {
                &&& s@.strategy == strategy
                &&& s@.header_text == lower_all(header@)
                &&& s@.default_version == (match default_version {
                    Some(v) => Some(v@),
                    None => None::<Seq<char>>,
                })
                &&& s@.versioned.len() == 0
                &&& s@.self_mounts.len() == 0
                &&& s@.unversioned.len() == 0
                &&& s@.versions.len() == 0
            },
    {
        let name = match header_name_from(header) {
            Some(h) => h,
            None => {
                return None;
            },
        };
        let header_text = string_of(&lower_all_exec(&chars_of(header)));
        Some(
            VersionSelector {
                strategy,
                header: name,
                header_text,
                default_version,
                versioned_routes: Vec::new(),
                self_mounts: Vec::new(),
                unversioned_routes: Vec::new(),
                versions: Vec::new(),
            },
        )
    }

    /// Teach the selector the app's shape: the versioned routes as mounted,
    /// the self-mounted paths, the unversioned routes, and the declared versions.
    pub fn with_routes(
        self,
        versioned: Vec<String>,
        self_mounts: Vec<String>,
        unversioned: Vec<String>,
        versions: Vec<String>,
    ) -> (r: Self)
        ensures
            r@.strategy == self@.strategy,
            r@.header == self@.header,
            r@.header_text == self@.header_text,
            r@.default_version == self@.default_version,
            r@.versioned == texts(versioned@),
            r@.self_mounts == texts(self_mounts@),
            r@.unversioned == texts(unversioned@),
            r@.versions == texts(versions@),
    {
        VersionSelector {
            strategy: self.strategy,
            header: self.header,
            header_text: self.header_text,
            default_version: self.default_version,
            versioned_routes: versioned,
            self_mounts,
            unversioned_routes: unversioned,
            versions,
        }
    }

    /// The header the `Header` strategy reads.
    pub fn header(&self) -> (r: &poem::http::HeaderName)
        ensures
            *r == self@.header,
    {
        &self.header
    }

    /// The text of that header, lower case, as a request's headers are
    /// looked up by it.
    pub fn header_text(&self) -> (r: &str)
        ensures
            r@ == self@.header_text,
    {
        self.header_text.as_str()
    }

    /// The strategy in force.
    pub fn strategy(&self) -> (r: ApiVersioning)
        ensures
            r == self@.strategy,
    {
        self.strategy
    }

    /// `true` when no controller declares a version, so this selector can
    /// never change an outcome.
    pub fn is_inert(&self) -> (r: bool)
        ensures
            r == (self@.versioned.len() == 0),
    {
        self.versioned_routes.len() == 0
    }

    /// `true` when this selector rewrites requests — anything but `Uri`.
    pub fn rewrites(&self) -> (r: bool)
        ensures
            r == (self@.strategy != ApiVersioning::Uri),
    {
        self.strategy != ApiVersioning::Uri
    }

    /// The version a request that states none is served.
    pub fn default_version(&self) -> (r: Option<&str>)
        ensures
            match r {
                Some(v) => self@.default_version == Some(v@),
                None => self@.default_version is None,
            },
    {
        match &self.default_version {
            Some(v) => Some(v.as_str()),
            None => None,
        }
    }

    /// What this request asks for, before validation: `header_value` is the
    /// raw value of the configured header, `accept` that of `Accept`.
    pub fn requested(&self, header_value: Option<&[u8]>, accept: Option<&[u8]>) -> (r: Requested)
        ensures
            r@ == requested_spec(
                self@.strategy,
                match header_value {
                    Some(h) => Some(h@),
                    None => None,
                },
                match accept {
                    Some(a) => Some(a@),
                    None => None,
                },
            ),
    {
        match self.strategy {
            ApiVersioning::Uri => Requested::Absent,
            ApiVersioning::Header => match header_value {
                None => Requested::Absent,
                Some(raw) => match header_text(raw) {
                    Some(text) => Requested::Stated(text),
                    None => Requested::Malformed,
                },
            },
            ApiVersioning::MediaType => accept_version(accept),
        }
    }

    /// Whether a versioned route answers at `path` as mounted.
    pub fn is_versioned(&self, path: &str) -> (r: bool)
        ensures
            r == matches_any(self@.versioned, path@),
    {
        any_route_matches(&self.versioned_routes, path)
    }

    /// Whether a self-mounted endpoint owns `path`.
    pub fn is_self_mount(&self, path: &str) -> (r: bool)
        ensures
            r == matches_any(self@.self_mounts, path@),
    {
        any_route_matches(&self.self_mounts, path)
    }

    /// Whether an unversioned controller route answers at `path`.
    pub fn is_unversioned(&self, path: &str) -> (r: bool)
        ensures
            r == matches_any(self@.unversioned, path@),
    {
        any_route_matches(&self.unversioned_routes, path)
    }

    /// Whether some declared version serves `path`.
    pub fn has_any_version(&self, path: &str) -> (r: bool)
        ensures
            r == some_version_serves(self@.versions, self@.versioned, path@),
    {
        let ghost vs = self@.versions;
        let mut i: usize = 0;
        while i < self.versions.len()
            invariant
                i <= self.versions.len(),
                vs == self@.versions,
                vs == texts(self.versions@),
                forall|j: int|
                    0 <= j < i ==> !matches_any(
                        self@.versioned,
                        #[trigger] version_spec(Some(vs[j]), path@),
                    ),
            decreases self.versions.len() - i,
        {
            let candidate = version_path(Some(self.versions[i].as_str()), path);
            if self.is_versioned(candidate.as_str()) {
                assert(matches_any(self@.versioned, version_spec(Some(vs[i as int]), path@)));
                return true;
            }
            i = i + 1;
        }
        false
    }

    /// The path this request should be routed at (`None`: as sent), or the
    /// refusal — decided here so the caller only applies the answer.
    pub fn resolve(&self, path: &str, requested: &Requested) -> (r: Result<Option<String>, VersionRefusal>)
        ensures
            match r {
                Ok(Some(p)) => resolve_spec(self@, path@, requested@) == Ok::<Option<Seq<char>>, VersionRefusal>(Some(p@)),
                Ok(None) => resolve_spec(self@, path@, requested@) == Ok::<Option<Seq<char>>, VersionRefusal>(None),
                Err(e) => resolve_spec(self@, path@, requested@) == Err::<Option<Seq<char>>, VersionRefusal>(e),
            },
    {
        if self.is_self_mount(path) {
            return Ok(None);
        }
        if self.is_versioned(path) {
            return Err(VersionRefusal::NotFound);
        }
        let (version, stated): (Option<&str>, bool) = match requested {
            Requested::Stated(raw) => {
                if !is_valid_version(raw.as_str()) {
                    return Err(VersionRefusal::Malformed);
                }
                (Some(raw.as_str()), true)
            },
            Requested::Malformed => {
                return Err(VersionRefusal::Malformed);
            },
            Requested::Absent => (self.default_version(), false),
        };
        if !stated && self.is_unversioned(path) {
            return Ok(None);
        }
        let version = match version {
            None => {
                return Ok(None);
            },
            Some(v) => v,
        };
        let candidate = version_path(Some(version), path);
        if self.is_versioned(candidate.as_str()) {
            return Ok(Some(candidate));
        }
        if stated && self.has_any_version(path) {
            return Err(VersionRefusal::NotFound);
        }
        Ok(None)
    }
}

/// Every version the controllers declare, in discovery order, repeats kept.
pub open spec fn all_versions(cs: Seq<HttpControllerMeta>) -> Seq<Seq<char>>
    decreases cs.len(),
{
    if cs.len() == 0 {
        Seq::empty()
    } else {
        all_versions(cs.drop_last()) + strs(cs.last().versions@)
    }
}

/// Put `v` into the ascending, repeat-free `r`, unless it is there already.
fn insert_sorted(r: &mut Vec<String>, v: &str)
    requires
        strictly_sorted(texts(old(r)@)),
    ensures
        strictly_sorted(texts(final(r)@)),
        forall|x: Seq<char>| #[trigger] texts(final(r)@).contains(x) <==> (texts(old(r)@).contains(x) || x == v@),
{
    let ghost old_t = texts(r@);
    let vv = chars_of(v);
    let mut i: usize = 0;
    while i < r.len() && chars_lt(chars_of(r[i].as_str()).as_slice(), vv.as_slice())
        invariant
            i <= r.len(),
            r@ == old(r)@,
            old_t == texts(r@),
            vv@ == v@,
            strictly_sorted(old_t),
            forall|k: int| 0 <= k < i ==> lex_lt(#[trigger] old_t[k], v@),
        decreases r.len() - i,
    {
        i = i + 1;
    }
    if i < r.len() && crate::paths::str_eq(r[i].as_str(), v) {
        assert(old_t[i as int] == v@);
        return;
    }
    proof {
        if i < r.len() {
            assert(!lex_lt(old_t[i as int], v@));
            lemma_lex_total(old_t[i as int], v@);
            assert(lex_lt(v@, old_t[i as int]));
        }
    }
    r.insert(i, v.to_owned());
    let ghost nt = texts(r@);
    proof {
        assert(nt == old_t.insert(i as int, v@));
        assert forall|a: int, b: int| 0 <= a < b < nt.len() implies lex_lt(#[trigger] nt[a], #[trigger] nt[b]) by {
            if b < i {
                assert(nt[a] == old_t[a] && nt[b] == old_t[b]);
            } else if b == i {
                assert(nt[a] == old_t[a]);
            } else if a < i {
                assert(nt[a] == old_t[a] && nt[b] == old_t[b - 1]);
                if b - 1 > i {
                    lemma_lex_transitive(old_t[a], v@, old_t[i as int]);
                    lemma_lex_transitive(old_t[a], old_t[i as int], old_t[b - 1]);
                } else {
                    lemma_lex_transitive(old_t[a], v@, old_t[i as int]);
                }
            } else if a == i {
                assert(nt[b] == old_t[b - 1]);
                if b - 1 > i {
                    lemma_lex_transitive(v@, old_t[i as int], old_t[b - 1]);
                }
            } else {
                assert(nt[a] == old_t[a - 1] && nt[b] == old_t[b - 1]);
            }
        }
        assert forall|x: Seq<char>| #[trigger] nt.contains(x) <==> (old_t.contains(x) || x == v@) by {
            if nt.contains(x) {
                let k = choose|k: int| 0 <= k < nt.len() && nt[k] == x;
                if k < i {
                    assert(old_t[k] == x);
                } else if k > i {
                    assert(old_t[k - 1] == x);
                }
            }
            if old_t.contains(x) {
                let k = choose|k: int| 0 <= k < old_t.len() && old_t[k] == x;
                if k < i {
                    assert(nt[k] == x);
                } else {
                    assert(nt[k + 1] == x);
                }
            }
            if x == v@ {
                assert(nt[i as int] == x);
            }
        }
    }
}

/// The versions the controllers declare, ascending, each once — the list a
/// default version is checked against and a request's version is tried in.
pub fn declared_versions(controllers: &[HttpControllerMeta]) -> (r: Vec<String>)
    ensures
        strictly_sorted(texts(r@)),
        forall|x: Seq<char>| #[trigger] texts(r@).contains(x) <==> all_versions(controllers@).contains(x),
{
    let mut r: Vec<String> = Vec::new();
    let mut i: usize = 0;
    while i < controllers.len()
        invariant
            i <= controllers.len(),
            strictly_sorted(texts(r@)),
            forall|x: Seq<char>| #[trigger] texts(r@).contains(x) <==> all_versions(controllers@.take(i as int)).contains(x),
        decreases controllers.len() - i,
    {
        let c = &controllers[i];
        let ghost before = all_versions(controllers@.take(i as int));
        let ghost vs = strs(c.versions@);
        let mut j: usize = 0;
        while j < c.versions.len()
            invariant
                i < controllers.len(),
                c == controllers@[i as int],
                vs == strs(c.versions@),
                j <= c.versions.len(),
                strictly_sorted(texts(r@)),
                forall|x: Seq<char>| #[trigger] texts(r@).contains(x) <==> (before + vs.take(j as int)).contains(x),
            decreases c.versions.len() - j,
        {
            insert_sorted(&mut r, c.versions[j]);
            proof {
                assert forall|x: Seq<char>| #[trigger] texts(r@).contains(x) <==> (before + vs.take(j + 1)).contains(x) by {
                    let a = before + vs.take(j as int);
                    let b = before + vs.take(j + 1);
                    assert(b == a.push(vs[j as int]));
                    if a.contains(x) {
                        let k = choose|k: int| 0 <= k < a.len() && a[k] == x;
                        assert(b[k] == x);
                    }
                    if b.contains(x) && x != vs[j as int] {
                        let k = choose|k: int| 0 <= k < b.len() && b[k] == x;
                        assert(k < a.len());
                        assert(a[k] == x);
                    }
                    assert(b[a.len() as int] == vs[j as int]);
                }
            }
            j = j + 1;
        }
        proof {
            assert(vs.take(vs.len() as int) == vs);
            assert(controllers@.take(i + 1).drop_last() == controllers@.take(i as int));
            assert(all_versions(controllers@.take(i + 1)) == before + vs);
        }
        i = i + 1;
    }
    assert(controllers@.take(controllers.len() as int) == controllers@);
    r
}

/// A self-mounted endpoint is never rewritten, whatever version is asked.
pub proof fn law_self_mounts_are_never_rewritten(sel: SelectorView, path: Seq<char>, ask: Ask)
    requires
        matches_any(sel.self_mounts, path),
    ensures
        resolve_spec(sel, path, ask) == Ok::<Option<Seq<char>>, VersionRefusal>(None),
{
}

/// A rewrite only ever lands on an address a versioned route answers at.
pub proof fn law_rewrites_land_on_a_versioned_route(sel: SelectorView, path: Seq<char>, ask: Ask)
    ensures
        resolve_spec(sel, path, ask) matches Ok(Some(p)) ==> matches_any(sel.versioned, p),
{
}

/// A request that states no version is never moved off an address an
/// unversioned route answers at — the default version does not shadow it.
pub proof fn law_default_never_moves_an_unversioned_route(sel: SelectorView, path: Seq<char>)
    requires
        matches_any(sel.unversioned, path),
        !matches_any(sel.versioned, path),
    ensures
        resolve_spec(sel, path, Ask::Absent) == Ok::<Option<Seq<char>>, VersionRefusal>(None),
{
}

/// A version asked for that cannot be read is refused with `400`, unless a
/// self-mount answers (those read no version) or the path already names one.
pub proof fn law_an_unreadable_version_is_a_bad_request(sel: SelectorView, path: Seq<char>)
    requires
        !matches_any(sel.self_mounts, path),
        !matches_any(sel.versioned, path),
    ensures
        resolve_spec(sel, path, Ask::Malformed) == Err::<Option<Seq<char>>, VersionRefusal>(VersionRefusal::Malformed),
{
}

/// A versioned address requested directly is refused with `404` under a
/// rewriting strategy: the version is selected by the request, never typed
/// into the path.
pub proof fn law_a_typed_version_path_is_not_found(sel: SelectorView, path: Seq<char>, ask: Ask)
    requires
        !matches_any(sel.self_mounts, path),
        matches_any(sel.versioned, path),
    ensures
        resolve_spec(sel, path, ask) == Err::<Option<Seq<char>>, VersionRefusal>(VersionRefusal::NotFound),
{
}

/// A valid version asked for that this address does not serve, while some
/// declared version does serve it, is refused with `404`: the request is
/// never routed as sent, which would answer with another version's body.
pub proof fn law_an_unserved_version_is_not_found(sel: SelectorView, path: Seq<char>, v: Seq<char>, w: int)
    requires
        !matches_any(sel.self_mounts, path),
        valid_version(v),
        !matches_any(sel.versioned, version_spec(Some(v), path)),
        0 <= w < sel.versions.len(),
        matches_any(sel.versioned, version_spec(Some(sel.versions[w]), path)),
    ensures
        resolve_spec(sel, path, Ask::Stated(v)) == Err::<Option<Seq<char>>, VersionRefusal>(VersionRefusal::NotFound),
{
    assert(some_version_serves(sel.versions, sel.versioned, path));
}

/// Off the self-mounts and the versioned addresses, a request is routed by
/// the version it states, or by the default when it states none:
/// - a stated version that is no valid token is refused with `400`;
/// - a valid stated version whose address a versioned route answers is
///   routed there;
/// - a valid stated version that no declared version's address matches
///   either, is routed as sent;
/// - a request stating none is routed as sent on an unversioned route or
///   without a default, and otherwise to the default version's address
///   when a versioned route answers there, else as sent.
pub proof fn law_a_request_is_routed_by_the_version_it_states(sel: SelectorView, path: Seq<char>, v: Seq<char>)
    requires
        !matches_any(sel.self_mounts, path),
        !matches_any(sel.versioned, path),
    ensures
        !valid_version(v) ==> resolve_spec(sel, path, Ask::Stated(v)) == Err::<Option<Seq<char>>, VersionRefusal>(
            VersionRefusal::Malformed,
        ),
        valid_version(v) && matches_any(sel.versioned, version_spec(Some(v), path)) ==> resolve_spec(
            sel,
            path,
            Ask::Stated(v),
        ) == Ok::<Option<Seq<char>>, VersionRefusal>(Some(version_spec(Some(v), path))),
        valid_version(v) && !matches_any(sel.versioned, version_spec(Some(v), path)) && (forall|w: int|
            0 <= w < sel.versions.len() ==> !matches_any(sel.versioned, #[trigger] version_spec(Some(sel.versions[w]), path)))
            ==> resolve_spec(sel, path, Ask::Stated(v)) == Ok::<Option<Seq<char>>, VersionRefusal>(None),
        matches_any(sel.unversioned, path) || sel.default_version is None ==> resolve_spec(sel, path, Ask::Absent)
            == Ok::<Option<Seq<char>>, VersionRefusal>(None),
        !matches_any(sel.unversioned, path) && sel.default_version == Some(v) && matches_any(
            sel.versioned,
            version_spec(Some(v), path),
        ) ==> resolve_spec(sel, path, Ask::Absent) == Ok::<Option<Seq<char>>, VersionRefusal>(
            Some(version_spec(Some(v), path)),
        ),
        !matches_any(sel.unversioned, path) && sel.default_version == Some(v) && !matches_any(
            sel.versioned,
            version_spec(Some(v), path),
        ) ==> resolve_spec(sel, path, Ask::Absent) == Ok::<Option<Seq<char>>, VersionRefusal>(None),
{
}

/// Under the `Header` strategy a header that is present is never read as
/// "nothing stated": its text is the version asked for, and a header with a
/// byte that is not visible ASCII or a tab is malformed — refused with `400`
/// wherever a version would be read, not served the default or an
/// unversioned neighbour.
pub proof fn law_a_present_version_header_is_never_absent(
    sel: SelectorView,
    path: Seq<char>,
    raw: Seq<u8>,
    accept: Option<Seq<u8>>,
)
    ensures
        requested_spec(ApiVersioning::Header, None, accept) == Ask::Absent,
        requested_spec(ApiVersioning::Header, Some(raw), accept) != Ask::Absent,
        (exists|i: int| 0 <= i < raw.len() && !visible_ascii(#[trigger] raw[i])) ==> requested_spec(
            ApiVersioning::Header,
            Some(raw),
            accept,
        ) == Ask::Malformed,
        (forall|i: int| 0 <= i < raw.len() ==> visible_ascii(#[trigger] raw[i])) ==> requested_spec(
            ApiVersioning::Header,
            Some(raw),
            accept,
        ) == Ask::Stated(raw.map_values(|b: u8| b as char)),
        (exists|i: int| 0 <= i < raw.len() && !visible_ascii(#[trigger] raw[i])) && !matches_any(
            sel.self_mounts,
            path,
        ) && !matches_any(sel.versioned, path) ==> resolve_spec(
            sel,
            path,
            requested_spec(ApiVersioning::Header, Some(raw), accept),
        ) == Err::<Option<Seq<char>>, VersionRefusal>(VersionRefusal::Malformed),
{
}

/// A pattern segment that is a parameter (`:name` or `<regex>`) matches
/// exactly the non-empty path segments: an empty segment is no parameter,
/// so `/posts/` is not `/posts/:id`.
pub proof fn law_a_parameter_matches_only_non_empty_text(segment: Seq<char>, pattern: Seq<char>)
    requires
        pattern.len() > 0,
        pattern[0] == ':' || pattern[0] == '<',
    ensures
        segment_spec(segment, pattern) <==> segment.len() > 0,
{
}

/// A pattern segment with no parameter (no `:` or `<`) is a literal: it
/// matches exactly the path segment spelled the same. One with a literal
/// before its parameter matches a segment that starts with that literal and
/// has at least one more character.
pub proof fn law_a_literal_segment_matches_itself_and_a_prefix_leads_a_parameter(
    segment: Seq<char>,
    pattern: Seq<char>,
    k: int,
)
    ensures
        (forall|j: int| 0 <= j < pattern.len() ==> #[trigger] pattern[j] != ':' && pattern[j] != '<') ==> (
        segment_spec(segment, pattern) <==> segment == pattern),
        0 < k < pattern.len() && (pattern[k] == ':' || pattern[k] == '<') && (forall|j: int|
            0 <= j < k ==> #[trigger] pattern[j] != ':' && pattern[j] != '<') ==> (segment_spec(segment, pattern) <==> (
        segment.len() > k && segment.take(k) == pattern.take(k))),
{
    if forall|j: int| 0 <= j < pattern.len() ==> #[trigger] pattern[j] != ':' && pattern[j] != '<' {
        lemma_param_start_none(pattern);
    }
    if 0 < k < pattern.len() && (pattern[k] == ':' || pattern[k] == '<') && (forall|j: int|
        0 <= j < k ==> #[trigger] pattern[j] != ':' && pattern[j] != '<') {
        lemma_param_start_at(pattern, k);
    }
}

/// Under the URI strategy the request is never read for a version.
pub proof fn law_the_uri_strategy_reads_nothing(header: Option<Seq<u8>>, accept: Option<Seq<u8>>)
    ensures
        requested_spec(ApiVersioning::Uri, header, accept) == Ask::Absent,
{
}

proof fn lemma_trim_ws_end_edge(s: Seq<char>)
    ensures
        trim_ws_end(s).len() > 0 ==> !is_ws(trim_ws_end(s).last()) && trim_ws_end(s)[0] == s[0],
    decreases s.len(),
{
    if s.len() > 0 && is_ws(s.last()) {
        lemma_trim_ws_end_edge(s.drop_last());
    }
}

proof fn lemma_trim_ws_start_edge(s: Seq<char>)
    ensures
        trim_ws_start(s).len() > 0 ==> !is_ws(trim_ws_start(s)[0]) && trim_ws_start(s).last() == s.last(),
    decreases s.len(),
{
    if s.len() > 0 && is_ws(s[0]) {
        lemma_trim_ws_start_edge(s.drop_first());
    }
}

/// The key of a strategy spelling is its own key: trimming, lower-casing
/// and reading `-` as `_` a second time change nothing.
proof fn lemma_strategy_key_idempotent(raw: Seq<char>)
    ensures
        strategy_key(strategy_key(raw)) == strategy_key(raw),
{
    let e = trim_ws_end(raw);
    lemma_trim_ws_end_edge(raw);
    lemma_trim_ws_start_edge(e);
    let t = trim_ws(raw);
    let k = strategy_key(raw);
    assert(k.len() == t.len());
    assert forall|i: int| 0 <= i < k.len() implies #[trigger] k[i] == (if lower(t[i]) == '-' {
        '_'
    } else {
        lower(t[i])
    }) by {}
    if k.len() > 0 {
        assert(!is_ws(t[0]));
        assert(t.last() == e.last());
        assert(!is_ws(t.last()));
        assert(!is_ws(k[0]));
        assert(!is_ws(k[k.len() - 1]));
        assert(trim_ws_end(k) == k);
        assert(trim_ws_start(k) == k);
    }
    assert(trim_ws(k) == k);
    assert(strategy_key(k) =~= k);
}

/// A key already lower case, of letters and `_`, is its own key.
proof fn lemma_plain_key(k: Seq<char>)
    requires
        k.len() > 0,
        forall|i: int| 0 <= i < k.len() ==> ('a' <= #[trigger] k[i] <= 'z' || k[i] == '_'),
    ensures
        strategy_key(k) == k,
{
    assert(!is_ws(k[0]));
    assert(!is_ws(k[k.len() - 1]));
    assert(trim_ws_end(k) == k);
    assert(trim_ws_start(k) == k);
    assert(strategy_key(k) =~= k);
}

/// A strategy's spelling (`as_str`) parses back to it. Parsing reads a
/// spelling only through its key — trimmed, lower-cased, `-` read as `_` —
/// and a key is its own key, so any spelling parses exactly as its key
/// does, refusal text included: `"HEADER"` is `Header`, `"media-type"` is
/// `MediaType`. A spelling no strategy has is refused with a message that
/// ends by naming `media_type` among the expected spellings.
pub proof fn law_strategy_spellings_round_trip(v: ApiVersioning, raw: Seq<char>)
    ensures
        strategy_of_key(strategy_key(strategy_name(v))) == Some(v),
        strategy_key(strategy_key(raw)) == strategy_key(raw),
        strategy_of_key(strategy_key(strategy_key(raw))) == strategy_of_key(strategy_key(raw)),
        strategy_of_key(strategy_key(raw)) is None ==> "`media_type`"@.is_suffix_of(
            unknown_strategy_message(strategy_key(raw)),
        ),
{
    lemma_strategy_key_idempotent(raw);
    lemma_plain_key(strategy_name(v));
    let k = strategy_key(raw);
    let m = unknown_strategy_message(k);
    let tail = " — expected `uri`, `header` or `media_type`"@;
    reveal_strlit(" — expected `uri`, `header` or `media_type`");
    reveal_strlit("`media_type`");
    reveal_strlit("unknown API versioning strategy ");
    let head = "unknown API versioning strategy "@ + debug_str(k);
    assert(m == head + tail);
    assert(m.subrange(head.len() as int, m.len() as int) =~= tail);
    assert(tail.subrange(tail.len() - 12, tail.len() as int) =~= "`media_type`"@);
    assert(m.subrange(m.len() - 12, m.len() as int) =~= tail.subrange(tail.len() - 12, tail.len() as int));
}

/// `k` slashes.
pub open spec fn slashes(k: nat) -> Seq<char> {
    Seq::new(k, |i: int| '/')
}

/// `k` empty segments.
pub open spec fn empty_segments(k: nat) -> Seq<Seq<char>> {
    Seq::new(k, |i: int| Seq::<char>::empty())
}

/// The text whose `/`-split is `parts`.
pub open spec fn unsplit(parts: Seq<Seq<char>>) -> Seq<char>
    decreases parts.len(),
{
    if parts.len() == 0 {
        Seq::empty()
    } else if parts.len() == 1 {
        parts[0]
    } else {
        unsplit(parts.drop_last()) + seq!['/'] + parts.last()
    }
}

proof fn lemma_unsplit_grow_last(parts: Seq<Seq<char>>, c: char)
    requires
        parts.len() >= 1,
    ensures
        unsplit(parts.update(parts.len() - 1, parts.last().push(c))) == unsplit(parts).push(c),
{
    let u = parts.update(parts.len() - 1, parts.last().push(c));
    if parts.len() > 1 {
        assert(u.drop_last() =~= parts.drop_last());
        assert(unsplit(u) =~= unsplit(parts).push(c));
    }
}

proof fn lemma_unsplit_split(s: Seq<char>)
    ensures
        unsplit(split_char(s, '/')) == s,
    decreases s.len(),
{
    if s.len() > 0 {
        let rest = split_char(s.drop_last(), '/');
        lemma_split_nonempty(s.drop_last(), '/');
        lemma_unsplit_split(s.drop_last());
        if s.last() == '/' {
            assert(rest.push(Seq::<char>::empty()).drop_last() =~= rest);
            assert(unsplit(rest.push(Seq::<char>::empty())) =~= s);
        } else {
            lemma_unsplit_grow_last(rest, s.last());
            assert(s.drop_last().push(s.last()) =~= s);
        }
    } else {
        assert(unsplit(seq![Seq::<char>::empty()]) == Seq::<char>::empty());
    }
}

proof fn lemma_split_slashes(s: Seq<char>, k: nat)
    ensures
        split_char(s + slashes(k), '/') == split_char(s, '/') + empty_segments(k),
    decreases k,
{
    if k == 0 {
        assert(s + slashes(k) =~= s);
        assert(split_char(s, '/') + empty_segments(k) =~= split_char(s, '/'));
    } else {
        let k1 = (k - 1) as nat;
        lemma_split_slashes(s, k1);
        let x = s + slashes(k1);
        assert(s + slashes(k) =~= x.push('/'));
        assert(x.push('/').drop_last() =~= x);
        assert((split_char(s, '/') + empty_segments(k1)).push(Seq::<char>::empty()) =~= split_char(s, '/')
            + empty_segments(k));
    }
}

proof fn lemma_split_chars(s: Seq<char>, j: int, i: int)
    requires
        0 <= j < split_char(s, '/').len(),
        0 <= i < split_char(s, '/')[j].len(),
    ensures
        s.contains(split_char(s, '/')[j][i]),
    decreases s.len(),
{
    if s.len() > 0 {
        let d = s.drop_last();
        let rest = split_char(d, '/');
        lemma_split_nonempty(d, '/');
        if s.last() == '/' {
            if j < rest.len() {
                lemma_split_chars(d, j, i);
                let w = choose|w: int| 0 <= w < d.len() && d[w] == rest[j][i];
                assert(s[w] == d[w]);
            }
        } else if j == rest.len() - 1 && i == rest.last().len() {
            assert(s[s.len() - 1] == s.last());
        } else {
            lemma_split_chars(d, j, i);
            let w = choose|w: int| 0 <= w < d.len() && d[w] == rest[j][i];
            assert(s[w] == d[w]);
        }
    }
}

proof fn lemma_tail_match(p: Seq<Seq<char>>, q: Seq<Seq<char>>, i: int)
    requires
        0 <= q.len() <= i,
    ensures
        segments_match(p, q, i) <==> (forall|j: int| i <= j < p.len() ==> (#[trigger] p[j]).len() == 0),
    decreases p.len() - i,
{
    if i < p.len() {
        lemma_tail_match(p, q, i + 1);
    }
}

proof fn lemma_literal_match(p: Seq<Seq<char>>, q: Seq<Seq<char>>, i: int)
    requires
        0 <= i <= q.len(),
        i <= p.len() || i < q.len(),
        forall|j: int| 0 <= j < q.len() ==> param_start(#[trigger] q[j]) is None && !(q[j].len() > 0 && q[j][0] == '*'),
    ensures
        segments_match(p, q, i) <==> (p.len() >= q.len() && (forall|j: int| i <= j < q.len() ==> #[trigger] p[j] == q[j])
            && (forall|j: int| q.len() <= j < p.len() ==> (#[trigger] p[j]).len() == 0)),
    decreases q.len() - i,
{
    if i == q.len() {
        lemma_tail_match(p, q, i);
    } else if i < p.len() {
        lemma_literal_match(p, q, i + 1);
        assert(segment_spec(p[i], q[i]) == (p[i] == q[i]));
    }
}

/// A literal route — no `:param`, no `<regex>`, no segment starting with
/// `*` — answers at its own path and at that path with trailing slashes,
/// and nowhere else: never a longer path (`/posts/drafts`) nor a lookalike
/// (`/postsy`).
pub proof fn law_a_literal_route_matches_only_itself(path: Seq<char>, pattern: Seq<char>)
    requires
        forall|i: int| 0 <= i < pattern.len() ==> #[trigger] pattern[i] != ':' && pattern[i] != '<',
        forall|j: int|
            0 <= j < split_char(pattern, '/').len() ==> !((#[trigger] split_char(pattern, '/')[j]).len() > 0
                && split_char(pattern, '/')[j][0] == '*'),
    ensures
        route_spec(path, pattern) <==> exists|k: nat| path == pattern + #[trigger] slashes(k),
{
    let p = split_char(path, '/');
    let q = split_char(pattern, '/');
    lemma_split_nonempty(path, '/');
    assert forall|j: int| 0 <= j < q.len() implies param_start(#[trigger] q[j]) is None && !(q[j].len() > 0
        && q[j][0] == '*') by {
        assert forall|i: int| 0 <= i < q[j].len() implies q[j][i] != ':' && q[j][i] != '<' by {
            lemma_split_chars(pattern, j, i);
        }
        lemma_param_start_none(q[j]);
    }
    lemma_literal_match(p, q, 0);
    if route_spec(path, pattern) {
        let k = (p.len() - q.len()) as nat;
        lemma_split_slashes(pattern, k);
        let e = q + empty_segments(k);
        assert forall|j: int| 0 <= j < p.len() implies #[trigger] p[j] == e[j] by {
            if j < q.len() {
                assert(p[j] == q[j]);
            } else {
                assert(p[j].len() == 0);
                assert(p[j] =~= Seq::<char>::empty());
            }
        }
        assert(p =~= e);
        lemma_unsplit_split(path);
        lemma_unsplit_split(pattern + slashes(k));
        assert(path == pattern + slashes(k));
    }
    if exists|k: nat| path == pattern + #[trigger] slashes(k) {
        let k = choose|k: nat| path == pattern + #[trigger] slashes(k);
        lemma_split_slashes(pattern, k);
        assert(p == q + empty_segments(k));
        assert forall|j: int| 0 <= j < q.len() implies #[trigger] p[j] == q[j] by {}
        assert forall|j: int| q.len() <= j < p.len() implies (#[trigger] p[j]).len() == 0 by {}
    }
}

/// The `;`-separated pieces of range `k` of an `Accept` value: its media
/// type, then its parameters.
pub open spec fn range_pieces(accept: Seq<char>, k: int) -> Seq<Seq<char>> {
    split_char(split_char(accept, ',')[k], ';')
}

proof fn lemma_first_param_found(params: Seq<Seq<char>>, j0: int)
    requires
        0 <= j0,
    ensures
        match first_version_param(params, j0) {
            Some(v) => exists|j: int|
                j0 <= j < params.len() && #[trigger] version_param(params[j]) == Some(v) && (forall|j2: int|
                    j0 <= j2 < j ==> #[trigger] version_param(params[j2]) is None),
            None => forall|j: int| j0 <= j < params.len() ==> #[trigger] version_param(params[j]) is None,
        },
    decreases params.len() - j0,
{
    if j0 < params.len() {
        lemma_first_param_found(params, j0 + 1);
        if version_param(params[j0]) is None {
            match first_version_param(params, j0 + 1) {
                Some(v) => {
                    let j = choose|j: int|
                        j0 + 1 <= j < params.len() && #[trigger] version_param(params[j]) == Some(v) && (forall|j2: int|
                            j0 + 1 <= j2 < j ==> #[trigger] version_param(params[j2]) is None);
                    assert(forall|j2: int| j0 <= j2 < j ==> #[trigger] version_param(params[j2]) is None);
                },
                None => {},
            }
        }
    }
}

proof fn lemma_first_range_found(accept: Seq<char>, k0: int)
    requires
        0 <= k0,
    ensures
        match first_range_version(split_char(accept, ','), k0) {
            Some(v) => exists|k: int|
                k0 <= k < split_char(accept, ',').len() && #[trigger] range_version(split_char(accept, ',')[k])
                    == Some(v) && (forall|k2: int|
                    k0 <= k2 < k ==> #[trigger] range_version(split_char(accept, ',')[k2]) is None),
            None => forall|k: int|
                k0 <= k < split_char(accept, ',').len() ==> #[trigger] range_version(split_char(accept, ',')[k])
                    is None,
        },
    decreases split_char(accept, ',').len() - k0,
{
    let ranges = split_char(accept, ',');
    if k0 < ranges.len() {
        lemma_first_range_found(accept, k0 + 1);
        if range_version(ranges[k0]) is None {
            match first_range_version(ranges, k0 + 1) {
                Some(v) => {
                    let k = choose|k: int|
                        k0 + 1 <= k < ranges.len() && #[trigger] range_version(ranges[k]) == Some(v) && (forall|k2: int|
                            k0 + 1 <= k2 < k ==> #[trigger] range_version(ranges[k2]) is None);
                    assert(forall|k2: int| k0 <= k2 < k ==> #[trigger] range_version(ranges[k2]) is None);
                },
                None => {},
            }
        }
    }
}

/// Parameter `j` of range `k` of `accept` is its first `version`
/// parameter, and it says `v`: no parameter of an earlier range, and no
/// earlier parameter of this range, is one.
pub open spec fn first_version_at(accept: Seq<char>, k: int, j: int, v: Seq<char>) -> bool {
    &&& 0 <= k < split_char(accept, ',').len()
    &&& 1 <= j < range_pieces(accept, k).len()
    &&& version_param(range_pieces(accept, k)[j]) == Some(v)
    &&& forall|k2: int, j2: int|
        0 <= k2 < k && 1 <= j2 < range_pieces(accept, k2).len() ==> #[trigger] version_param(
            range_pieces(accept, k2)[j2],
        ) is None
    &&& forall|j2: int| 1 <= j2 < j ==> #[trigger] version_param(range_pieces(accept, k)[j2]) is None
}

/// No parameter of any range of `accept` is a `version` parameter.
pub open spec fn no_version_param(accept: Seq<char>) -> bool {
    forall|k: int, j: int|
        0 <= k < split_char(accept, ',').len() && 1 <= j < range_pieces(accept, k).len()
            ==> #[trigger] version_param(range_pieces(accept, k)[j]) is None
}

/// The `MediaType` strategy reads the first `version` parameter of
/// `Accept`: over the `,`-separated ranges in order, and within each range
/// over the `;`-separated parameters after its media type, the first whose
/// trimmed name is `version` in any case gives the version — its value
/// trimmed and unquoted. So `text/html, application/json; version="2"`
/// states `2`.
pub proof fn law_the_first_version_parameter_is_read(accept: Seq<char>)
    ensures
        match accept_version_spec(accept) {
            Some(v) => exists|k: int, j: int| #[trigger] first_version_at(accept, k, j, v),
            None => no_version_param(accept),
        },
        forall|k: int, j: int, v: Seq<char>|
            #[trigger] first_version_at(accept, k, j, v) ==> accept_version_spec(accept) == Some(v),
{
    let ranges = split_char(accept, ',');
    lemma_first_range_found(accept, 0);
    assert forall|k: int| 0 <= k < ranges.len() implies (match range_version(#[trigger] ranges[k]) {
        Some(v) => exists|j: int|
            1 <= j < range_pieces(accept, k).len() && #[trigger] version_param(range_pieces(accept, k)[j]) == Some(v)
                && (forall|j2: int| 1 <= j2 < j ==> #[trigger] version_param(range_pieces(accept, k)[j2]) is None),
        None => forall|j: int| 1 <= j < range_pieces(accept, k).len() ==> #[trigger] version_param(range_pieces(accept, k)[j]) is None,
    }) by {
        lemma_first_param_found(range_pieces(accept, k), 1);
    }
    match accept_version_spec(accept) {
        Some(v) => {
            let k = choose|k: int|
                0 <= k < ranges.len() && #[trigger] range_version(ranges[k]) == Some(v) && (forall|k2: int|
                    0 <= k2 < k ==> #[trigger] range_version(ranges[k2]) is None);
            assert(range_version(ranges[k]) == Some(v));
            let j = choose|j: int|
                1 <= j < range_pieces(accept, k).len() && #[trigger] version_param(range_pieces(accept, k)[j]) == Some(v)
                    && (forall|j2: int| 1 <= j2 < j ==> #[trigger] version_param(range_pieces(accept, k)[j2]) is None);
            assert forall|k2: int, j2: int| 0 <= k2 < k && 1 <= j2 < range_pieces(accept, k2).len() implies #[trigger] version_param(
                range_pieces(accept, k2)[j2],
            ) is None by {
                assert(range_version(ranges[k2]) is None);
            }
            assert(first_version_at(accept, k, j, v));
            assert forall|k1: int, j1: int, v1: Seq<char>| #[trigger] first_version_at(accept, k1, j1, v1) implies v1 == v by {
                if k1 < k {
                    assert(version_param(range_pieces(accept, k1)[j1]) is None);
                } else if k < k1 {
                    assert(version_param(range_pieces(accept, k)[j]) is None);
                } else if j1 < j {
                    assert(version_param(range_pieces(accept, k)[j1]) is None);
                } else if j < j1 {
                    assert(version_param(range_pieces(accept, k)[j]) is None);
                }
            }
        },
        None => {
            assert forall|k: int, j: int| 0 <= k < ranges.len() && 1 <= j < range_pieces(accept, k).len() implies #[trigger] version_param(
                range_pieces(accept, k)[j],
            ) is None by {
                assert(range_version(ranges[k]) is None);
            }
        },
    }
}

/// What the `MediaType` strategy reads from the raw `Accept` header: no
/// header states nothing; a header that is not text is malformed;
/// otherwise the first `version` parameter is stated, and where no range
/// has one, nothing is.
pub proof fn law_accept_states_its_first_version_parameter(header: Option<Seq<u8>>, accept: Option<Seq<u8>>)
    ensures
        match accept {
            None => requested_spec(ApiVersioning::MediaType, header, accept) == Ask::Absent,
            Some(raw) => match header_text_spec(raw) {
                None => requested_spec(ApiVersioning::MediaType, header, accept) == Ask::Malformed,
                Some(text) => {
                    &&& (requested_spec(ApiVersioning::MediaType, header, accept) == Ask::Absent
                        <==> no_version_param(text))
                    &&& forall|k: int, j: int, v: Seq<char>|
                        #[trigger] first_version_at(text, k, j, v) ==> requested_spec(
                            ApiVersioning::MediaType,
                            header,
                            accept,
                        ) == Ask::Stated(v)
                    &&& forall|v: Seq<char>|
                        requested_spec(ApiVersioning::MediaType, header, accept) == Ask::Stated(v)
                            ==> exists|k: int, j: int| #[trigger] first_version_at(text, k, j, v)
                },
            },
        },
{
    if let Some(raw) = accept {
        if let Some(text) = header_text_spec(raw) {
            law_the_first_version_parameter_is_read(text);
            let asked = requested_spec(ApiVersioning::MediaType, header, accept);
            if accept_version_spec(text) is None {
                assert(asked == Ask::Absent);
                assert(no_version_param(text));
            } else {
                let v = accept_version_spec(text)->0;
                assert(asked == Ask::Stated(v));
                let (k, j) = choose|k: int, j: int| #[trigger] first_version_at(text, k, j, v);
                assert(version_param(range_pieces(text, k)[j]) == Some(v));
                assert(!no_version_param(text));
                assert forall|v1: Seq<char>| asked == Ask::Stated(v1) implies exists|k1: int, j1: int|
                    #[trigger] first_version_at(text, k1, j1, v1) by {
                    assert(v1 == v);
                    assert(first_version_at(text, k, j, v1));
                }
            }

        }
    }
}

} // verus!
