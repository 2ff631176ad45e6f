//! Binding request headers to typed fields: what is read for each field, and
//! what a refusal says. A refusal names the header and never quotes its value
//! — a header is where credentials travel, and a `400` body is logged.
use vstd::prelude::*;

use crate::text::{chars_of, join_with, push_str, string_of, trim_ws, trim_ws_exec};
use crate::versioning::{header_text, header_text_spec, texts};
use crate::wire::{header_name_parses, valid_header_name};

verus! {

/// Request headers bound into `T`.
pub struct Header<T>(pub T);

impl<T> Header<T> {
    /// Take ownership of the bound headers.
    pub fn into_inner(self) -> (r: T)
        ensures
            r == self.0,
    {
        self.0
    }
}

impl<T> core::ops::Deref for Header<T> {
    type Target = T;

    fn deref(&self) -> (r: &T)
        ensures
            *r == self.0,
    {
        &self.0
    }
}

/// What binding a header can fail on. Each names the header; none carries
/// its value.
#[derive(Debug, Clone)]
pub enum HeaderError {
    /// A required field whose header is absent.
    Missing(String),
    /// The header is present but its value is not what the field needs.
    Malformed { name: String, expected: String },
    /// The content was refused before the header was known: what was
    /// expected, never what was read.
    Unexpected(String),
    /// Anything else the binding reports.
    Custom(String),
    /// A field naming something that cannot be a header name.
    NotAHeaderName(String),
}

/// A header error as plain values.
pub enum HeaderErrorView {
    Missing(Seq<char>),
    Malformed { name: Seq<char>, expected: Seq<char> },
    Unexpected(Seq<char>),
    Custom(Seq<char>),
    NotAHeaderName(Seq<char>),
}

impl View for HeaderError {
    type V = HeaderErrorView;

    open spec fn view(&self) -> HeaderErrorView {
        match self {
            HeaderError::Missing(n) => HeaderErrorView::Missing(n@),
            HeaderError::Malformed { name, expected } => HeaderErrorView::Malformed {
                name: name@,
                expected: expected@,
            },
            HeaderError::Unexpected(e) => HeaderErrorView::Unexpected(e@),
            HeaderError::Custom(m) => HeaderErrorView::Custom(m@),
            HeaderError::NotAHeaderName(f) => HeaderErrorView::NotAHeaderName(f@),
        }
    }
}

/// The sentence a header error renders as.
pub open spec fn header_message(e: HeaderErrorView) -> Seq<char> {
    match e {
        HeaderErrorView::Missing(name) => "missing required header `"@ + name + "`"@,
        HeaderErrorView::Malformed { name, expected } => "header `"@ + name + "` is not "@ + expected,
        HeaderErrorView::Unexpected(expected) => "header value is not "@ + expected,
        HeaderErrorView::Custom(msg) => msg,
        HeaderErrorView::NotAHeaderName(field) => "`"@ + field
            + "` is not a valid header name, so no request can carry it — fix the field's `#[serde(rename = \"…\")]`"@,
    }
}

/// A content refusal attributed to the header `name`; an error that
/// already names a header is left as it is.
pub open spec fn against_view(e: HeaderErrorView, name: Seq<char>) -> HeaderErrorView {
    match e {
        HeaderErrorView::Unexpected(expected) => HeaderErrorView::Malformed { name, expected },
        other => other,
    }
}

impl HeaderError {
    /// A field naming something that is not a header name.
    pub fn not_a_header_name(field: &str) -> (r: Self)
        ensures
            r@ == HeaderErrorView::NotAHeaderName(field@),
    {
        HeaderError::NotAHeaderName(field.to_owned())
    }

    /// The header `name` is not `expected`.
    pub fn malformed(name: &str, expected: &str) -> (r: Self)
        ensures
            r@ == (HeaderErrorView::Malformed { name: name@, expected: expected@ }),
    {
        HeaderError::Malformed { name: name.to_owned(), expected: expected.to_owned() }
    }

    /// Attribute a content refusal to the header it was read from; an error
    /// that already names a header is left as it is.
    pub fn against(self, name: &str) -> (r: Self)
        ensures
            r@ == against_view(self@, name@),
    {
        match self {
            HeaderError::Unexpected(expected) => HeaderError::Malformed {
                name: name.to_owned(),
                expected,
            },
            named => named,
        }
    }

    /// The sentence this error renders as.
    pub fn message(&self) -> (r: String)
        ensures
            r@ == header_message(self@),
    {
        match self {
            HeaderError::Missing(name) => {
                let mut s = "missing required header `".to_owned();
                push_str(&mut s, name.as_str());
                push_str(&mut s, "`");
                s
            },
            HeaderError::Malformed { name, expected } => {
                let mut s = "header `".to_owned();
                push_str(&mut s, name.as_str());
                push_str(&mut s, "` is not ");
                push_str(&mut s, expected.as_str());
                s
            },
            HeaderError::Unexpected(expected) => {
                let mut s = "header value is not ".to_owned();
                push_str(&mut s, expected.as_str());
                s
            },
            HeaderError::Custom(msg) => msg.clone(),
            HeaderError::NotAHeaderName(field) => {
                let mut s = "`".to_owned();
                push_str(&mut s, field.as_str());
                push_str(
                    &mut s,
                    "` is not a valid header name, so no request can carry it — fix the field's `#[serde(rename = \"…\")]`",
                );
                s
            },
        }
    }
}

/// Each item wrapped in backticks.
pub open spec fn ticked(items: Seq<Seq<char>>) -> Seq<Seq<char>> {
    items.map_values(|i: Seq<char>| "`"@ + i + "`"@)
}

/// serde's "expected one of" list, without the value its own message opens
/// with: ``one of `a`, `b` ``.
pub fn one_of(expected: &[&str]) -> (r: String)
    ensures
        r@ == "one of "@ + join_with(ticked(expected@.map_values(|s: &str| s@)), ", "@),
{
    let ghost items = expected@.map_values(|s: &str| s@);
    let mut list: Vec<String> = Vec::new();
    let mut i: usize = 0;
    while i < expected.len()
        invariant
            i <= expected.len(),
            items == expected@.map_values(|s: &str| s@),
            texts(list@) == ticked(items).take(i as int),
        decreases expected.len() - i,
    {
        let mut t = "`".to_owned();
        push_str(&mut t, expected[i]);
        push_str(&mut t, "`");
        let ghost before = texts(list@);
        list.push(t);
        assert(texts(list@) == before.push("`"@ + items[i as int] + "`"@));
        assert(ticked(items).take(i + 1) == ticked(items).take(i as int).push("`"@ + items[i as int] + "`"@));
        i = i + 1;
    }
    assert(ticked(items).take(expected.len() as int) == ticked(items));
    assert(list@.map_values(|p: String| p@) == texts(list@));
    let joined = crate::text::join_strings(&list, ", ");
    let mut r = "one of ".to_owned();
    push_str(&mut r, joined.as_str());
    r
}

/// One header's value, ready to be parsed into its field's type.
#[derive(Debug, Clone)]
pub struct Part {
    /// The header's name, as the field spells it.
    pub name: String,
    /// Its value, surrounding whitespace trimmed.
    pub value: String,
}

impl Part {
    /// A header's value, trimmed: a client that sent `id: 12 ` is not told
    /// its integer is malformed.
    pub fn new(name: &str, value: &str) -> (r: Self)
        ensures
            r.name@ == name@,
            r.value@ == trim_ws(value@),
    {
        let t = trim_ws_exec(&chars_of(value));
        Part { name: name.to_owned(), value: string_of(&t) }
    }
}

/// What binding the field `field` reads, given the raw value of that header
/// (`None`: absent).
pub open spec fn bind_spec(field: Seq<char>, raw: Option<Seq<u8>>) -> Result<Option<(Seq<char>, Seq<char>)>, HeaderErrorView> {
    match raw {
        None => if valid_header_name(field) {
            Ok(None)
        } else {
            Err(HeaderErrorView::NotAHeaderName(field))
        },
        Some(bytes) => match header_text_spec(bytes) {
            None => Err(HeaderErrorView::Malformed { name: field, expected: "valid UTF-8"@ }),
            Some(text) => Ok(Some((field, trim_ws(text)))),
        },
    }
}

/// Read the header a field names. An absent header binds nothing — unless
/// the field names no header at all, which no request could ever carry and
/// is refused so it does not bind `None` forever. A value that is not text
/// is refused against its header.
pub fn bind_field(field: &str, raw: Option<&[u8]>) -> (r: Result<Option<Part>, HeaderError>)
    ensures
        match r {
            Ok(Some(p)) => bind_spec(field@, match raw {
                Some(b) => Some(b@),
                None => None,
            }) == Ok::<Option<(Seq<char>, Seq<char>)>, HeaderErrorView>(Some((p.name@, p.value@))),
            Ok(None) => bind_spec(field@, match raw {
                Some(b) => Some(b@),
                None => None,
            }) == Ok::<Option<(Seq<char>, Seq<char>)>, HeaderErrorView>(None),
            Err(e) => bind_spec(field@, match raw {
                Some(b) => Some(b@),
                None => None,
            }) == Err::<Option<(Seq<char>, Seq<char>)>, HeaderErrorView>(e@),
        },
{
    match raw {
        None => {
            if header_name_parses(field) {
                Ok(None)
            } else {
                Err(HeaderError::not_a_header_name(field))
            }
        },
        Some(bytes) => match header_text(bytes) {
            None => Err(HeaderError::malformed(field, "valid UTF-8")),
            Some(text) => Ok(Some(Part::new(field, text.as_str()))),
        },
    }
}

/// A refusal of a header binding names the header and never quotes its
/// value: it is built from the field alone, whatever bytes arrived.
pub proof fn law_a_refusal_never_quotes_the_value(field: Seq<char>, raw: Option<Seq<u8>>)
    requires
        bind_spec(field, raw) is Err,
    ensures
        bind_spec(field, raw)->Err_0 == HeaderErrorView::NotAHeaderName(field) || bind_spec(field, raw)->Err_0
            == (HeaderErrorView::Malformed { name: field, expected: "valid UTF-8"@ }),
{
}

/// Attributing a refusal to its header once is enough: a second
/// attribution, to any header, leaves it as the first made it.
pub proof fn law_against_is_idempotent(e: HeaderErrorView, first: Seq<char>, second: Seq<char>)
    ensures
        against_view(against_view(e, first), second) == against_view(e, first),
{
}

} // verus!
