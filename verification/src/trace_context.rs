//! W3C Trace Context on HTTP: which headers are read, whether an inbound one
//! may be believed, and how the request's span is named. An inbound
//! `traceparent` or `X-Request-Id` is read only behind a trusted proxy — the
//! same evidence the client address is believed on.
use vstd::prelude::*;

use crate::versioning::{header_text, header_text_spec};

verus! {

/// The request header carrying the trace and the caller's span.
pub const TRACEPARENT_HEADER: &'static str = "traceparent";
/// The request header carrying vendor state, forwarded verbatim.
pub const TRACESTATE_HEADER: &'static str = "tracestate";
/// The response header reporting the trace this service used.
pub const TRACERESPONSE_HEADER: &'static str = "traceresponse";
/// The upstream proxy's own request id.
pub const UPSTREAM_REQUEST_ID_HEADER: &'static str = "x-request-id";
/// The longest upstream id recorded.
pub const MAX_UPSTREAM_LEN: usize = 200;

/// The text of a header value, when it is visible text and not empty.
pub open spec fn claimed_spec(raw: Option<Seq<u8>>) -> Option<Seq<char>> {
    match raw {
        Some(b) => match header_text_spec(b) {
            Some(t) => if t.len() > 0 { Some(t) } else { None },
            None => None,
        },
        None => None,
    }
}

/// What a caller claims as its `traceparent`, believed or not.
pub fn claimed_traceparent(raw: Option<&[u8]>) -> (r: Option<String>)
    ensures
        match r {
            Some(s) => claimed_spec(match raw { Some(b) => Some(b@), None => None }) == Some(s@),
            None => claimed_spec(match raw { Some(b) => Some(b@), None => None }) is None,
        },
{
    match raw {
        Some(b) => match header_text(b) {
            Some(t) => if crate::text::chars_of(t.as_str()).len() > 0 {
                Some(t)
            } else {
                None
            },
            None => None,
        },
        None => None,
    }
}

/// The upstream proxy's request id: read only when the direct peer is a
/// trusted proxy, and only when it is visible text of 1 to 200 characters.
pub open spec fn upstream_spec(trusted: bool, raw: Option<Seq<u8>>) -> Option<Seq<char>> {
    if !trusted {
        None
    } else {
        match claimed_spec(raw) {
            Some(t) => if t.len() <= MAX_UPSTREAM_LEN { Some(t) } else { None },
            None => None,
        }
    }
}

/// See [`upstream_spec`].
pub fn upstream_request_id(peer_is_trusted: bool, raw: Option<&[u8]>) -> (r: Option<String>)
    ensures
        match r {
            Some(s) => upstream_spec(peer_is_trusted, match raw { Some(b) => Some(b@), None => None }) == Some(s@),
            None => upstream_spec(peer_is_trusted, match raw { Some(b) => Some(b@), None => None }) is None,
        },
{
    if !peer_is_trusted {
        return None;
    }
    match claimed_traceparent(raw) {
        Some(t) => if crate::text::chars_of(t.as_str()).len() <= MAX_UPSTREAM_LEN {
            Some(t)
        } else {
            None
        },
        None => None,
    }
}

/// The exported span's name: `{method} {route}` for the template the router
/// matched, the method alone when nothing matched — never the raw path.
pub fn span_name(method: &str, route: Option<&str>) -> (r: String)
    ensures
        r@ == (match route {
            Some(t) => method@ + " "@ + t@,
            None => method@,
        }),
{
    let mut s = method.to_owned();
    if let Some(t) = route {
        crate::text::push_str(&mut s, " ");
        crate::text::push_str(&mut s, t);
    }
    s
}

/// An upstream request id is believed only from a trusted proxy: behind any
/// other peer nothing is recorded, whatever the header says.
pub proof fn law_an_untrusted_peer_names_no_upstream_id(raw: Option<Seq<u8>>)
    ensures
        upstream_spec(false, raw) is None,
{
}

/// The `traceparent` text a request may continue its trace from: read only
/// behind a trusted peer, and only when it is visible, non-empty text.
/// Anyone else's claim restarts the trace — a public caller cannot file its
/// request into a trace of its choosing. Whether the text is a well-formed
/// trace context is the parser's question.
pub fn inbound_traceparent(peer_is_trusted: bool, raw: Option<&[u8]>) -> (r: Option<String>)
    ensures
        match r {
            Some(s) => peer_is_trusted && claimed_spec(match raw { Some(b) => Some(b@), None => None }) == Some(s@),
            None => !peer_is_trusted || claimed_spec(match raw { Some(b) => Some(b@), None => None }) is None,
        },
{
    if !peer_is_trusted {
        return None;
    }
    claimed_traceparent(raw)
}

/// The `tracestate` adopted with a continued trace: its text, and only
/// beside a `traceparent` that was continued — state without its parent
/// belongs to a trace this service is not part of. A value that is not
/// text is adopted as empty state.
pub fn inbound_tracestate(parent_continued: bool, raw: Option<&[u8]>) -> (r: Option<String>)
    ensures
        match r {
            Some(s) => parent_continued && s@ == (match raw {
                Some(b) => match header_text_spec(b@) {
                    Some(t) => t,
                    None => Seq::empty(),
                },
                None => Seq::empty(),
            }),
            None => !parent_continued,
        },
{
    if !parent_continued {
        return None;
    }
    match raw {
        Some(b) => match header_text(b) {
            Some(t) => Some(t),
            None => Some(String::new()),
        },
        None => Some(String::new()),
    }
}

} // verus!
