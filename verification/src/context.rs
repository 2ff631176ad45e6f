//! Request-scoped context a guard or interceptor attaches for the handler to
//! read back, and what a handler is answered when it is missing.
use vstd::prelude::*;

use crate::problem::{known_title, known_type, ProblemDetails, ProblemView, bare};

verus! {

#[verifier::external_type_specification]
#[verifier::external_body]
pub struct ExTypeId(std::any::TypeId);

/// std's `TypeId` is `Copy`, so its `clone` returns the same identifier.
pub assume_specification[ <std::any::TypeId as Clone>::clone ](id: &std::any::TypeId) -> (r: std::any::TypeId)
    ensures
        r == *id,
;

/// Recorded when an authentication guard rejected a presented credential and
/// admitted the request anyway because the route is `#[public]`: the denial
/// is deferred rather than lost.
#[derive(Clone, Debug)]
pub struct RejectedCredential {
    /// The principal type the rejected credential would have produced.
    pub principal: std::any::TypeId,
    /// The client-safe message the guard would have denied with.
    pub client_message: String,
}

/// A request-scoped value of type `T` an upstream guard or interceptor
/// attached.
pub struct Ctx<T>(pub T);

impl<T> Ctx<T> {
    /// Take ownership of the extracted value.
    pub fn into_inner(self) -> (r: T)
        ensures
            r == self.0,
    {
        self.0
    }
}

impl<T> core::ops::Deref for Ctx<T> {
    type Target = T;

    fn deref(&self) -> (r: &T)
        ensures
            *r == self.0,
    {
        &self.0
    }
}

/// What a handler asking for a missing context is answered. When the value
/// is missing because a credential for exactly that principal was rejected
/// on a `#[public]` route (`rejected` is that rejection's client message),
/// the deferred `401`, carrying the message; otherwise `None` — a wiring bug,
/// answered with a bare `500`.
pub fn missing_context_answer(rejected: Option<&str>) -> (r: Option<ProblemDetails>)
    ensures
        match rejected {
            Some(m) => r is Some && r->0@ == (ProblemView { detail: Some(m@), ..bare(known_type(401), known_title(401), 401) }),
            None => r is None,
        },
{
    match rejected {
        Some(m) => Some(ProblemDetails::unauthorized().with_detail(m)),
        None => None,
    }
}

/// std's `==` on `TypeId`: derived, so two identifiers compare equal
/// exactly when they are the same value (the same type).
#[verifier::external_body]
fn same_type(a: &std::any::TypeId, b: &std::any::TypeId) -> (r: bool)
    ensures
        r == (*a == *b),
{
    *a == *b
}

/// The deferred `401` a rejected credential is answered with.
pub open spec fn deferred_401(message: Seq<char>) -> ProblemView {
    ProblemView { detail: Some(message), ..bare(known_type(401), known_title(401), 401) }
}

/// What a `Ctx<T>` extraction answers: `found` is the attached value of
/// type `T` (cloned out of the request), `wanted` is `T`'s identifier and
/// `rejected` a rejection the authentication guard recorded. The value when
/// it is there; else the deferred `401` carrying the rejection's message,
/// but only when the rejected credential was for exactly `T`; else
/// `Err(None)` — a wiring bug, answered with a bare `500`, which a
/// rejection for another type does not mask.
pub fn ctx_answer<T>(found: Option<T>, wanted: std::any::TypeId, rejected: Option<&RejectedCredential>) -> (r: Result<
    T,
    Option<ProblemDetails>,
>)
    ensures
        match found {
            Some(v) => r == Ok::<T, Option<ProblemDetails>>(v),
            None => match rejected {
                Some(rc) => if rc.principal == wanted {
                    r matches Err(Some(p)) && p@ == deferred_401(rc.client_message@)
                } else {
                    r matches Err(None)
                },
                None => r matches Err(None),
            },
        },
{
    match found {
        Some(v) => Ok(v),
        None => match rejected {
            Some(rc) => {
                if same_type(&rc.principal, &wanted) {
                    Err(missing_context_answer(Some(rc.client_message.as_str())))
                } else {
                    Err(None)
                }
            },
            None => Err(None),
        },
    }
}

} // verus!
