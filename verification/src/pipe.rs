//! Extracted request parts, unwrapped: the payload a `Json`, `Path` or
//! `Query` carries, and a value that passed validation.
use vstd::prelude::*;

verus! {

#[verifier::external_type_specification]
#[verifier::external_body]
#[verifier::reject_recursive_types(T)]
pub struct ExJson<T>(poem::web::Json<T>);

#[verifier::external_type_specification]
#[verifier::external_body]
#[verifier::reject_recursive_types(T)]
pub struct ExPath<T>(poem::web::Path<T>);

#[verifier::external_type_specification]
#[verifier::external_body]
#[verifier::reject_recursive_types(T)]
pub struct ExQuery<T>(poem::web::Query<T>);

/// An extractor that carries one payload and can hand it over.
pub trait IntoInner {
    /// The payload.
    type Inner;

    /// Take the payload out.
    fn into_inner(self) -> Self::Inner;
}

/// `poem::web::Json`'s one field: the JSON body poem deserialized. The type
/// is opaque here, so nothing is stated of the value handed back.
#[verifier::external_body]
fn json_payload<T>(e: poem::web::Json<T>) -> T {
    e.0
}

impl<T> IntoInner for poem::web::Json<T> {
    type Inner = T;

    fn into_inner(self) -> T {
        json_payload(self)
    }
}

/// `poem::web::Path`'s one field: the path parameters poem deserialized. The type
/// is opaque here, so nothing is stated of the value handed back.
#[verifier::external_body]
fn path_payload<T>(e: poem::web::Path<T>) -> T {
    e.0
}

impl<T> IntoInner for poem::web::Path<T> {
    type Inner = T;

    fn into_inner(self) -> T {
        path_payload(self)
    }
}

/// `poem::web::Query`'s one field: the query poem deserialized. The type
/// is opaque here, so nothing is stated of the value handed back.
#[verifier::external_body]
fn query_payload<T>(e: poem::web::Query<T>) -> T {
    e.0
}

impl<T> IntoInner for poem::web::Query<T> {
    type Inner = T;

    fn into_inner(self) -> T {
        query_payload(self)
    }
}

/// The payload of extractor `E`, after it passed validation.
pub struct Valid<E: IntoInner>(pub E::Inner);

impl<E: IntoInner> Valid<E> {
    /// Take the validated payload.
    pub fn into_inner(self) -> (r: E::Inner)
        ensures
            r == self.0,
    {
        self.0
    }
}

impl<E: IntoInner> core::ops::Deref for Valid<E> {
    type Target = E::Inner;

    fn deref(&self) -> (r: &E::Inner)
        ensures
            *r == self.0,
    {
        &self.0
    }
}

} // verus!
