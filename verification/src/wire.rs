//! What the `http` crate accepts on the wire: header values, header names,
//! method tokens and status reason phrases. Each is one call into the crate,
//! with the rule its source applies stated here.
use vstd::prelude::*;

verus! {

/// A character that may stand in a header value: a tab, or anything from the
/// space on except DEL. (Every byte of a multi-byte character is at least
/// 0x80, so deciding per character and per byte agree.)
pub open spec fn header_value_char(c: char) -> bool {
    c == '\t' || (' ' <= c && c != '\u{7f}')
}

/// Text that parses as a header value.
pub open spec fn valid_header_value(s: Seq<char>) -> bool {
    forall|i: int| 0 <= i < s.len() ==> header_value_char(#[trigger] s[i])
}

/// A `tchar` of RFC 9110: a letter, a digit, or one of ``!#$%&'*+-.^_`|~``.
pub open spec fn token_char(c: char) -> bool {
    ||| ('a' <= c <= 'z')
    ||| ('A' <= c <= 'Z')
    ||| ('0' <= c <= '9')
    ||| c == '!' || c == '#' || c == '$' || c == '%' || c == '&' || c == '\''
    ||| c == '*' || c == '+' || c == '-' || c == '.' || c == '^' || c == '_'
    ||| c == '`' || c == '|' || c == '~'
}

/// A non-empty run of `tchar`s.
pub open spec fn valid_token(s: Seq<char>) -> bool {
    s.len() > 0 && forall|i: int| 0 <= i < s.len() ==> token_char(#[trigger] s[i])
}

/// A header name the `http` crate accepts: a token of at most 65535 bytes.
pub open spec fn valid_header_name(s: Seq<char>) -> bool {
    valid_token(s) && s.len() <= 65535
}

/// `http::HeaderValue::from_str`: the crate scans every byte and accepts the
/// value exactly when each is a tab, or at least 0x20 and not 0x7f.
#[verifier::external_body]
pub(crate) fn header_value_parses(src: &str) -> (ok: bool)
    ensures
        ok == valid_header_value(src@),
{
    poem::http::HeaderValue::from_str(src).is_ok()
}

/// `http::Method::from_bytes`: the crate accepts a method exactly when it is
/// a non-empty run of token characters (standard names and extensions alike).
#[verifier::external_body]
pub(crate) fn method_parses(src: &str) -> (ok: bool)
    ensures
        ok == valid_token(src@),
{
    poem::http::Method::from_bytes(src.as_bytes()).is_ok()
}

/// `http::HeaderName::from_bytes`: the crate accepts a name exactly when it
/// is 1 to 65535 token characters (upper case is folded to lower). What the
/// accepted name holds is not stated.
#[verifier::external_body]
pub(crate) fn header_name_from(src: &str) -> (r: Option<poem::http::HeaderName>)
    ensures
        r is Some <==> valid_header_name(src@),
{
    poem::http::HeaderName::from_bytes(src.as_bytes()).ok()
}

/// Whether `src` is a header name.
pub(crate) fn header_name_parses(src: &str) -> (ok: bool)
    ensures
        ok == valid_header_name(src@),
{
    header_name_from(src).is_some()
}

} // verus!
