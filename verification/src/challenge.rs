//! The `WWW-Authenticate: Bearer` challenge grammar of RFC 6750 §3: one
//! production, written in one place, for every writer of that header.
use vstd::prelude::*;

use crate::text::push_str;

verus! {

/// The scheme name, matched case-insensitively per RFC 7235 §2.1.
pub const BEARER: &'static str = "Bearer";

/// RFC 6750 §3.1 `invalid_request`: the request is malformed as a
/// credential-bearing request.
pub const INVALID_REQUEST: &'static str = "invalid_request";

/// RFC 6750 §3.1 `invalid_token`: a credential arrived and was refused.
pub const INVALID_TOKEN: &'static str = "invalid_token";

/// RFC 6750 §3.1 `insufficient_scope`: the credential lacks the scope the
/// operation requires.
pub const INSUFFICIENT_SCOPE: &'static str = "insufficient_scope";

/// `Bearer error="<code>"`.
pub open spec fn bearer_error_spec(code: Seq<char>) -> Seq<char> {
    BEARER@ + " error=\""@ + code + "\""@
}

/// `Bearer error="<code>", error_description="<why>"`.
pub open spec fn bearer_described_spec(code: Seq<char>, why: Seq<char>) -> Seq<char> {
    BEARER@ + " error=\""@ + code + "\", error_description=\""@ + why + "\""@
}

/// Render `Bearer error="<code>"`, the minimal conformant challenge. `code`
/// is one of the constants above, never caller data.
pub fn bearer_error(code: &str) -> (r: String)
    ensures
        r@ == bearer_error_spec(code@),
{
    let mut s = BEARER.to_owned();
    push_str(&mut s, " error=\"");
    push_str(&mut s, code);
    push_str(&mut s, "\"");
    s
}

/// Render `Bearer error="<code>", error_description="<why>"`. `why` is
/// quoted verbatim, so it must be a message the framework composed.
pub fn bearer_error_described(code: &str, why: &str) -> (r: String)
    ensures
        r@ == bearer_described_spec(code@, why@),
{
    let mut s = BEARER.to_owned();
    push_str(&mut s, " error=\"");
    push_str(&mut s, code);
    push_str(&mut s, "\", error_description=\"");
    push_str(&mut s, why);
    push_str(&mut s, "\"");
    s
}

} // verus!
