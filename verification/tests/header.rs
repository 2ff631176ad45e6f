use nest_rs_http::header::{bind_field, one_of};
use nest_rs_http::{Header, HeaderError, Part};

#[test]
fn into_inner_and_deref_expose_the_payload() {
    let h = Header("value".to_string());
    assert_eq!(h.len(), 5);
    assert_eq!(h.into_inner(), "value");
}

#[test]
fn a_surrounding_space_does_not_make_a_number_malformed() {
    let part = Part::new("X-Retry-Count", " 7 ");
    assert_eq!(part.value, "7");
}

#[test]
fn a_missing_required_header_is_a_sentence_naming_it() {
    assert_eq!(
        HeaderError::Missing("X-Request-Id".into()).message(),
        "missing required header `X-Request-Id`",
    );
}

#[test]
fn a_malformed_header_names_the_header_and_what_was_expected() {
    assert_eq!(
        HeaderError::malformed("X-Retry-Count", "an integer").message(),
        "header `X-Retry-Count` is not an integer",
    );
}

#[test]
fn an_enum_refusal_is_put_back_against_its_header() {
    let err = HeaderError::Unexpected(one_of(&["fast", "slow"])).against("X-Mode");
    assert_eq!(err.message(), "header `X-Mode` is not one of `fast`, `slow`");
    let named = HeaderError::Missing("X-A".into()).against("X-B");
    assert_eq!(named.message(), "missing required header `X-A`");
    assert_eq!(HeaderError::Unexpected("a number".into()).message(), "header value is not a number");
    assert_eq!(HeaderError::Custom("free text".into()).message(), "free text");
}

#[test]
fn a_field_naming_no_header_is_refused() {
    let err = bind_field("X Request Id", None).err().expect("not a header name");
    assert!(matches!(err, HeaderError::NotAHeaderName(_)));
    assert!(err.message().starts_with("`X Request Id` is not a valid header name"));
    assert!(matches!(bind_field("X-Request-Id", None), Ok(None)));
}

#[test]
fn a_non_text_value_is_reported_against_its_header() {
    let err = bind_field("X-Blob", Some(&[0xff, 0xfe])).err().expect("not text");
    assert_eq!(err.message(), "header `X-Blob` is not valid UTF-8");
    let part = bind_field("X-Retry-Count", Some(b" 12 ")).expect("text").expect("present");
    assert_eq!(part.name, "X-Retry-Count");
    assert_eq!(part.value, "12");
}

#[test]
fn one_of_lists_every_variant_in_backticks() {
    assert_eq!(one_of(&["a"]), "one of `a`");
    assert_eq!(one_of(&[]), "one of ");
}

#[test]
fn a_refusal_names_the_header_and_never_its_value() {
    let err = bind_field("Authorization", Some(b"Bearer s3cr3t\xff")).err().expect("not text");
    let message = err.message();
    assert_eq!(message, "header `Authorization` is not valid UTF-8");
    assert!(!message.contains("s3cr3t"));
}

#[test]
fn attributing_a_refusal_twice_keeps_the_first_header() {
    let once = HeaderError::Unexpected("one of `a`, `b`".into()).against("X-Mode");
    let twice = once.clone().against("X-Other");
    assert_eq!(once.message(), "header `X-Mode` is not one of `a`, `b`");
    assert_eq!(twice.message(), once.message());
}
