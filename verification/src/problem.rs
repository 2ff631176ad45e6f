//! RFC 9457 Problem Details: the one error shape at the HTTP boundary, and
//! the decision that lifts a raw transport error onto it.
use vstd::prelude::*;

use crate::text::{chars_of, decimal, decimal_string, push_str, starts_with, string_of, trim_ws, trim_ws_exec};
use crate::versioning::{header_text, header_text_spec};

verus! {

#[verifier::external_type_specification]
#[verifier::external_body]
pub struct ExJsonValue(serde_json::Value);

/// The `type` a problem carries when the client should key on its status.
pub const ABOUT_BLANK: &'static str = "about:blank";

/// The media type of a problem body.
pub const PROBLEM_JSON: &'static str = "application/problem+json";

/// A reason phrase the `http` crate knows for `code`, if any.
pub uninterp spec fn canonical_reason(code: u16) -> Option<Seq<char>>;

/// `http::StatusCode::canonical_reason` of the code: the crate's table of
/// registered reason phrases (`"I'm a teapot"` for 418), `None` for an
/// unregistered code. The contract claims that the phrase depends on the
/// code alone.
#[verifier::external_body]
pub(crate) fn reason_phrase(code: u16) -> (r: Option<&'static str>)
    requires
        100 <= code <= 999,
    ensures
        match r {
            Some(s) => canonical_reason(code) == Some(s@),
            None => canonical_reason(code) is None,
        },
{
    poem::http::StatusCode::from_u16(code).ok().and_then(|s| s.canonical_reason())
}

/// Body of an `application/problem+json` response.
#[derive(Debug, Clone)]
pub struct ProblemDetails {
    /// Stable URI identifying the problem type; `about:blank` means the
    /// client should key on `status` and `title`.
    pub type_uri: String,
    /// Short summary of the problem type.
    pub title: String,
    /// The HTTP status code.
    pub status: u16,
    /// Explanation specific to this occurrence, if any.
    pub detail: Option<String>,
    /// URI of this occurrence, if any.
    pub instance: Option<String>,
    /// RFC 9457 extension members, each key once, in insertion order.
    pub extensions: Vec<(String, serde_json::Value)>,
}

/// A problem as plain values.
pub struct ProblemView {
    pub type_uri: Seq<char>,
    pub title: Seq<char>,
    pub status: u16,
    pub detail: Option<Seq<char>>,
    pub instance: Option<Seq<char>>,
    pub extensions: Seq<(Seq<char>, serde_json::Value)>,
}

/// The text of an optional string.
pub open spec fn opt_text(v: Option<String>) -> Option<Seq<char>> {
    match v {
        Some(s) => Some(s@),
        None => None,
    }
}

impl View for ProblemDetails {
    type V = ProblemView;

    open spec fn view(&self) -> ProblemView {
        ProblemView {
            type_uri: self.type_uri@,
            title: self.title@,
            status: self.status,
            detail: opt_text(self.detail),
            instance: opt_text(self.instance),
            extensions: self.extensions@.map_values(|e: (String, serde_json::Value)| (e.0@, e.1)),
        }
    }
}

/// The statuses with a constructor of their own.
pub open spec fn is_well_known(status: u16) -> bool {
    status == 400 || status == 401 || status == 403 || status == 404 || status == 409 || status == 422
        || status == 500
}

/// The stable `type` URI of a well-known status.
pub open spec fn known_type(status: u16) -> Seq<char> {
    if status == 400 {
        "https://www.rfc-editor.org/rfc/rfc9110#status.400"@
    } else if status == 401 {
        "https://www.rfc-editor.org/rfc/rfc9110#status.401"@
    } else if status == 403 {
        "https://www.rfc-editor.org/rfc/rfc9110#status.403"@
    } else if status == 404 {
        "https://www.rfc-editor.org/rfc/rfc9110#status.404"@
    } else if status == 409 {
        "https://www.rfc-editor.org/rfc/rfc9110#status.409"@
    } else if status == 422 {
        "https://www.rfc-editor.org/rfc/rfc9110#status.422"@
    } else {
        "https://www.rfc-editor.org/rfc/rfc9110#status.500"@
    }
}

/// The title of a well-known status.
pub open spec fn known_title(status: u16) -> Seq<char> {
    if status == 400 {
        "Bad Request"@
    } else if status == 401 {
        "Unauthorized"@
    } else if status == 403 {
        "Forbidden"@
    } else if status == 404 {
        "Not Found"@
    } else if status == 409 {
        "Conflict"@
    } else if status == 422 {
        "Unprocessable Content"@
    } else {
        "Internal Server Error"@
    }
}

/// The text of an optional string slice.
pub open spec fn opt_str(v: Option<&str>) -> Option<Seq<char>> {
    match v {
        Some(s) => Some(s@),
        None => None,
    }
}

/// A problem with no detail, instance or extension.
pub open spec fn bare(type_uri: Seq<char>, title: Seq<char>, status: u16) -> ProblemView {
    ProblemView {
        type_uri,
        title,
        status,
        detail: None,
        instance: None,
        extensions: Seq::empty(),
    }
}

/// `from_status`, given the reason phrase the status has.
pub open spec fn from_status_spec(status: u16, reason: Option<Seq<char>>) -> ProblemView {
    if is_well_known(status) {
        bare(known_type(status), known_title(status), status)
    } else {
        bare(
            ABOUT_BLANK@,
            match reason {
                Some(r) => r,
                None => "Error"@,
            },
            status,
        )
    }
}

/// The index of the first member named `key` at or after `i`.
pub open spec fn key_index(exts: Seq<(Seq<char>, serde_json::Value)>, key: Seq<char>, i: int) -> Option<int>
    decreases exts.len() - i,
{
    if i < 0 || i >= exts.len() {
        None
    } else if exts[i].0 == key {
        Some(i)
    } else {
        key_index(exts, key, i + 1)
    }
}

/// The extension members once `key` is set to `value`: replaced in place when
/// present, appended otherwise.
pub open spec fn set_extension(
    exts: Seq<(Seq<char>, serde_json::Value)>,
    key: Seq<char>,
    value: serde_json::Value,
) -> Seq<(Seq<char>, serde_json::Value)> {
    match key_index(exts, key, 0) {
        Some(i) => exts.update(i, (key, value)),
        None => exts.push((key, value)),
    }
}

/// No key occurs twice.
pub open spec fn keys_distinct(exts: Seq<(Seq<char>, serde_json::Value)>) -> bool {
    forall|i: int, j: int| 0 <= i < j < exts.len() ==> #[trigger] exts[i].0 != #[trigger] exts[j].0
}

proof fn lemma_key_index_absent(exts: Seq<(Seq<char>, serde_json::Value)>, key: Seq<char>, i: int)
    requires
        0 <= i,
        key_index(exts, key, i) is None,
    ensures
        forall|k: int| i <= k < exts.len() ==> #[trigger] exts[k].0 != key,
    decreases exts.len() - i,
{
    if i < exts.len() {
        lemma_key_index_absent(exts, key, i + 1);
    }
}

proof fn lemma_key_index_found(exts: Seq<(Seq<char>, serde_json::Value)>, key: Seq<char>, i: int)
    requires
        0 <= i,
        key_index(exts, key, i) is Some,
    ensures
        i <= key_index(exts, key, i)->0 < exts.len(),
        exts[key_index(exts, key, i)->0].0 == key,
    decreases exts.len() - i,
{
    if i < exts.len() && exts[i].0 != key {
        lemma_key_index_found(exts, key, i + 1);
    }
}

impl ProblemDetails {
    fn new(type_uri: &str, title: &str, status: u16) -> (r: Self)
        ensures
            r@ == bare(type_uri@, title@, status),
    {
        let r = ProblemDetails {
            type_uri: type_uri.to_owned(),
            title: title.to_owned(),
            status,
            detail: None,
            instance: None,
            extensions: Vec::new(),
        };
        assert(r@.extensions =~= Seq::empty());
        r
    }

    /// A problem of `status` whose detail is the error's message.
    pub fn from_error(status: u16, title: &str, message: &str) -> (r: Self)
        ensures
            r@ == (ProblemView { detail: Some(message@), ..bare(ABOUT_BLANK@, title@, status) }),
    {
        let mut r = Self::new(ABOUT_BLANK, title, status);
        r.detail = Some(message.to_owned());
        r
    }

    /// A `400 Bad Request` problem.
    pub fn bad_request() -> (r: Self)
        ensures
            r@ == bare(known_type(400), known_title(400), 400),
    {
        Self::new("https://www.rfc-editor.org/rfc/rfc9110#status.400", "Bad Request", 400)
    }

    /// A `401 Unauthorized` problem.
    pub fn unauthorized() -> (r: Self)
        ensures
            r@ == bare(known_type(401), known_title(401), 401),
    {
        Self::new("https://www.rfc-editor.org/rfc/rfc9110#status.401", "Unauthorized", 401)
    }

    /// A `403 Forbidden` problem.
    pub fn forbidden() -> (r: Self)
        ensures
            r@ == bare(known_type(403), known_title(403), 403),
    {
        Self::new("https://www.rfc-editor.org/rfc/rfc9110#status.403", "Forbidden", 403)
    }

    /// A `404 Not Found` problem.
    pub fn not_found() -> (r: Self)
        ensures
            r@ == bare(known_type(404), known_title(404), 404),
    {
        Self::new("https://www.rfc-editor.org/rfc/rfc9110#status.404", "Not Found", 404)
    }

    /// A `409 Conflict` problem.
    pub fn conflict() -> (r: Self)
        ensures
            r@ == bare(known_type(409), known_title(409), 409),
    {
        Self::new("https://www.rfc-editor.org/rfc/rfc9110#status.409", "Conflict", 409)
    }

    /// A `422 Unprocessable Content` problem.
    pub fn unprocessable() -> (r: Self)
        ensures
            r@ == bare(known_type(422), known_title(422), 422),
    {
        Self::new("https://www.rfc-editor.org/rfc/rfc9110#status.422", "Unprocessable Content", 422)
    }

    /// A `500 Internal Server Error` problem.
    pub fn internal() -> (r: Self)
        ensures
            r@ == bare(known_type(500), known_title(500), 500),
    {
        Self::new("https://www.rfc-editor.org/rfc/rfc9110#status.500", "Internal Server Error", 500)
    }

    /// A problem for `status`, given its reason phrase: the well-known
    /// statuses through their constructor, anything else as `about:blank`
    /// titled by the phrase (`"Error"` without one).
    pub fn from_status_with_reason(status: u16, reason: Option<&str>) -> (r: Self)
        ensures
            r@ == from_status_spec(status, opt_str(reason)),
    {
        if status == 400 {
            Self::bad_request()
        } else if status == 401 {
            Self::unauthorized()
        } else if status == 403 {
            Self::forbidden()
        } else if status == 404 {
            Self::not_found()
        } else if status == 409 {
            Self::conflict()
        } else if status == 422 {
            Self::unprocessable()
        } else if status == 500 {
            Self::internal()
        } else {
            match reason {
                Some(title) => Self::new(ABOUT_BLANK, title, status),
                None => Self::new(ABOUT_BLANK, "Error", status),
            }
        }
    }

    /// A problem for a bare status: the well-known ones through their
    /// constructor, anything else as `about:blank` titled by its reason
    /// phrase.
    pub fn from_status(status: u16) -> (r: Self)
        requires
            100 <= status <= 999,
        ensures
            r@ == from_status_spec(status, canonical_reason(status)),
    {
        let reason = reason_phrase(status);
        Self::from_status_with_reason(status, reason)
    }

    /// Set the occurrence-specific `detail`.
    pub fn with_detail(self, detail: &str) -> (r: Self)
        ensures
            r@ == (ProblemView { detail: Some(detail@), ..self@ }),
    {
        let mut r = self;
        r.detail = Some(detail.to_owned());
        r
    }

    /// Set the `instance` URI.
    pub fn with_instance(self, instance: &str) -> (r: Self)
        ensures
            r@ == (ProblemView { instance: Some(instance@), ..self@ }),
    {
        let mut r = self;
        r.instance = Some(instance.to_owned());
        r
    }

    /// Override the `type` URI.
    pub fn with_type(self, type_uri: &str) -> (r: Self)
        ensures
            r@ == (ProblemView { type_uri: type_uri@, ..self@ }),
    {
        let mut r = self;
        r.type_uri = type_uri.to_owned();
        r
    }

    /// Override the `title`.
    pub fn with_title(self, title: &str) -> (r: Self)
        ensures
            r@ == (ProblemView { title: title@, ..self@ }),
    {
        let mut r = self;
        r.title = title.to_owned();
        r
    }

    /// Attach an extension member, serialized beside the standard fields;
    /// setting a key again replaces its value.
    pub fn with_extension(self, key: &str, value: serde_json::Value) -> (r: Self)
        ensures
            r@ == (ProblemView { extensions: set_extension(self@.extensions, key@, value), ..self@ }),
            keys_distinct(self@.extensions) ==> keys_distinct(r@.extensions),
    {
        let mut r = self;
        let ghost exts = r@.extensions;
        let mut i: usize = 0;
        while i < r.extensions.len()
            invariant
                i <= r.extensions.len(),
                r@ == self@,
                exts == self@.extensions,
                exts == r@.extensions,
                exts.len() == r.extensions@.len(),
                key_index(exts, key@, 0) == key_index(exts, key@, i as int),
            decreases r.extensions.len() - i,
        {
            if crate::paths::str_eq(r.extensions[i].0.as_str(), key) {
                assert(key_index(exts, key@, i as int) == Some(i as int));
                r.extensions.set(i, (key.to_owned(), value));
                assert(r@.extensions =~= exts.update(i as int, (key@, value)));
                proof {
                    if keys_distinct(exts) {
                        let n = r@.extensions;
                        assert forall|a: int, b: int| 0 <= a < b < n.len() implies #[trigger] n[a].0 != #[trigger] n[b].0 by {
                            assert(n[a].0 == exts[a].0 && n[b].0 == exts[b].0);
                        }
                    }
                }
                return r;
            }
            i = i + 1;
        }
        proof {
            lemma_key_index_absent(exts, key@, 0);
        }
        r.extensions.push((key.to_owned(), value));
        assert(r@.extensions =~= exts.push((key@, value)));
        r
    }
}

/// The short form a problem takes in logs: `404: Not Found`, and ` — ` and
/// the detail when there is one. The JSON body is the response; this is for
/// error chains.
pub open spec fn describe_spec(p: ProblemView) -> Seq<char> {
    decimal(p.status as nat) + ": "@ + p.title + match p.detail {
        Some(d) => " — "@ + d,
        None => Seq::empty(),
    }
}

impl ProblemDetails {
    /// See [`describe_spec`].
    pub fn describe(&self) -> (r: String)
        ensures
            r@ == describe_spec(self@),
    {
        let mut s = decimal_string(self.status as u64);
        push_str(&mut s, ": ");
        push_str(&mut s, self.title.as_str());
        if let Some(d) = &self.detail {
            push_str(&mut s, " — ");
            push_str(&mut s, d.as_str());
        }
        s
    }
}

/// A client error (`4xx`).
pub open spec fn client_error(status: u16) -> bool {
    400 <= status <= 499
}

/// A server error (`5xx`).
pub open spec fn server_error(status: u16) -> bool {
    500 <= status <= 599
}

/// Whether the edge boundary rebuilds a response as a problem: an error
/// status, not a filter's mapped response, and a body that is poem's plain
/// text (or none) rather than a problem already or a deliberately typed one.
pub open spec fn rebuilds_spec(status: u16, mapped_error: bool, content_type: Option<Seq<u8>>) -> bool {
    let ct = match content_type {
        Some(raw) => header_text_spec(raw),
        None => None,
    };
    &&& (client_error(status) || server_error(status))
    &&& !mapped_error
    &&& !(ct is Some && starts_with(ct->0, PROBLEM_JSON@))
    &&& (ct is None || starts_with(ct->0, "text/plain"@))
}

/// Decide whether a response is a raw transport error to rebuild as a
/// problem. `content_type` is the raw `Content-Type` header, if any.
pub fn rebuilds_as_problem(status: u16, mapped_error: bool, content_type: Option<&[u8]>) -> (r: bool)
    ensures
        r == rebuilds_spec(status, mapped_error, match content_type {
            Some(b) => Some(b@),
            None => None,
        }),
{
    if !((400 <= status && status <= 499) || (500 <= status && status <= 599)) {
        return false;
    }
    if mapped_error {
        return false;
    }
    let ct = match content_type {
        Some(raw) => header_text(raw),
        None => None,
    };
    match ct {
        Some(t) => {
            let v = chars_of(t.as_str());
            let problem = chars_of(PROBLEM_JSON);
            let plain = chars_of("text/plain");
            !crate::text::starts_with_chars(&v, &problem) && crate::text::starts_with_chars(&v, &plain)
        },
        None => true,
    }
}

/// The problem a raw error response is rebuilt as: keyed on its status, and
/// for a client error only, carrying the trimmed body text as `detail` when
/// anything is left of it. A server error's text is never echoed.
pub open spec fn lifted_spec(status: u16, reason: Option<Seq<char>>, body: Option<Seq<char>>) -> ProblemView {
    let base = from_status_spec(status, reason);
    match body {
        Some(text) => if client_error(status) && trim_ws(text).len() > 0 {
            ProblemView { detail: Some(trim_ws(text)), ..base }
        } else {
            base
        },
        None => base,
    }
}

/// Rebuild a raw error response's body as a problem; `body` is its text when
/// it could be read as UTF-8.
pub fn lifted_problem(status: u16, body: Option<&str>) -> (r: ProblemDetails)
    requires
        100 <= status <= 999,
    ensures
        r@ == lifted_spec(status, canonical_reason(status), opt_str(body)),
{
    let problem = ProblemDetails::from_status(status);
    match body {
        Some(text) => {
            if 400 <= status && status <= 499 {
                let t = trim_ws_exec(&chars_of(text));
                if t.len() > 0 {
                    let detail = string_of(&t);
                    return problem.with_detail(detail.as_str());
                }
            }
            problem
        },
        None => problem,
    }
}

/// Whether a header of the original response is carried onto the rebuilt
/// one: everything but the body's own `Content-Type`, `Content-Length`,
/// `Content-Encoding` and `Transfer-Encoding`. `name` is lower case.
pub open spec fn carried_spec(name: Seq<char>) -> bool {
    name != "content-type"@ && name != "content-length"@ && name != "content-encoding"@
        && name != "transfer-encoding"@
}

/// See [`carried_spec`].
pub fn header_is_carried(name: &str) -> (r: bool)
    ensures
        r == carried_spec(name@),
{
    !crate::paths::str_eq(name, "content-type") && !crate::paths::str_eq(name, "content-length")
        && !crate::paths::str_eq(name, "content-encoding") && !crate::paths::str_eq(
        name,
        "transfer-encoding",
    )
}

/// A problem built from a status keeps that status.
pub proof fn law_from_status_keeps_the_status(status: u16, reason: Option<Seq<char>>)
    ensures
        from_status_spec(status, reason).status == status,
{
}

/// A server error's text never reaches the wire: a lifted `5xx` carries no
/// detail, whatever its body said.
pub proof fn law_server_errors_carry_no_detail(status: u16, reason: Option<Seq<char>>, body: Option<Seq<char>>)
    requires
        server_error(status),
    ensures
        lifted_spec(status, reason, body).detail is None,
{
}

/// The boundary never rebuilds a success, a filter's mapped response, or a
/// response that is a problem already.
pub proof fn law_only_raw_errors_are_rebuilt(status: u16, mapped_error: bool, content_type: Option<Seq<u8>>)
    ensures
        rebuilds_spec(status, mapped_error, content_type) ==> (client_error(status) || server_error(status)),
        mapped_error ==> !rebuilds_spec(status, mapped_error, content_type),
        (content_type matches Some(raw) && header_text_spec(raw) matches Some(t) && starts_with(t, PROBLEM_JSON@))
            ==> !rebuilds_spec(status, mapped_error, content_type),
{
}

/// Rebuilding a raw error as a problem drops only the headers that
/// describe the old body — `content-type`, `content-length`,
/// `content-encoding`, `transfer-encoding` — and carries every other one:
/// a `405` keeps its `allow`, a `401` its `www-authenticate`.
pub proof fn law_only_the_body_headers_are_dropped(name: Seq<char>)
    ensures
        !carried_spec(name) <==> (name == "content-type"@ || name == "content-length"@ || name
            == "content-encoding"@ || name == "transfer-encoding"@),
{
}

} // verus!
