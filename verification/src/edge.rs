//! The decisions the transport edge makes for every request before the route
//! tree runs: the one spelling of a path, and how a body is held to the cap.
use vstd::prelude::*;

use crate::paths::{canonical_path, canonical_spec};
use crate::text::push_str;

verus! {

/// How the edge treats a request's body under a cap.
#[derive(Clone, Copy, Debug, PartialEq, Eq, Structural)]
pub enum BodyPlan {
    /// Leave the body as it is: no cap, nothing to bound, or a declared
    /// length nothing outside the edge can falsify.
    PassThrough,
    /// Answer `413` before a byte is read: the declared length is over.
    Reject,
    /// Count the bytes as they arrive and answer `413` past the cap: the
    /// declared length is a claim a body-rewriting layer can make false.
    Count,
    /// Read the body up to the cap, answering `413` past it: no length was
    /// declared.
    Buffer,
}

/// See [`body_plan`].
pub open spec fn body_plan_spec(limit: Option<usize>, declared: Option<usize>, empty: bool, counts_body: bool) -> BodyPlan {
    match limit {
        None => BodyPlan::PassThrough,
        Some(limit) => match declared {
            Some(d) => if d > limit {
                BodyPlan::Reject
            } else if empty {
                BodyPlan::PassThrough
            } else if counts_body {
                BodyPlan::Count
            } else {
                BodyPlan::PassThrough
            },
            None => if empty {
                BodyPlan::PassThrough
            } else {
                BodyPlan::Buffer
            },
        },
    }
}

/// How a request's body is held to `limit`, decided by what it declares:
/// a `Content-Length` over the cap is refused before a byte is read; an empty
/// body has nothing to bound; a declared length within the cap is counted
/// only where a layer outside (`counts_body`) can make it false; an
/// undeclared length is read up to the cap.
pub fn body_plan(limit: Option<usize>, declared: Option<usize>, empty: bool, counts_body: bool) -> (r: BodyPlan)
    ensures
        r == body_plan_spec(limit, declared, empty, counts_body),
{
    match limit {
        None => BodyPlan::PassThrough,
        Some(limit) => match declared {
            Some(d) => {
                if d > limit {
                    BodyPlan::Reject
                } else if empty {
                    BodyPlan::PassThrough
                } else if counts_body {
                    BodyPlan::Count
                } else {
                    BodyPlan::PassThrough
                }
            },
            None => {
                if empty {
                    BodyPlan::PassThrough
                } else {
                    BodyPlan::Buffer
                }
            },
        },
    }
}

/// The running count of a counted body after one more chunk, and whether
/// the count has run past `limit`. The count saturates rather than wraps.
pub fn count_chunk(seen: usize, chunk_len: usize, limit: usize) -> (r: (usize, bool))
    ensures
        r.0 == count_spec(seen, chunk_len),
        r.1 == (r.0 > limit),
{
    let next = seen.saturating_add(chunk_len);
    (next, next > limit)
}

/// The request target a trailing slash should have been written as, query
/// kept: `/kitchen/?a=1` gives `/kitchen?a=1`; `None` when the path is
/// already canonical.
pub open spec fn canonical_target_spec(path: Seq<char>, query: Option<Seq<char>>) -> Option<Seq<char>> {
    match canonical_spec(path) {
        None => None,
        Some(c) => match query {
            Some(q) => Some(c + "?"@ + q),
            None => Some(c),
        },
    }
}

/// See [`canonical_target_spec`].
pub fn canonical_target(path: &str, query: Option<&str>) -> (r: Option<String>)
    ensures
        match r {
            Some(s) => canonical_target_spec(path@, match query {
                Some(q) => Some(q@),
                None => None,
            }) == Some(s@),
            None => canonical_target_spec(path@, match query {
                Some(q) => Some(q@),
                None => None,
            }) is None,
        },
{
    match canonical_path(path) {
        None => None,
        Some(c) => match query {
            Some(q) => {
                let mut s = c;
                push_str(&mut s, "?");
                push_str(&mut s, q);
                Some(s)
            },
            None => Some(c),
        },
    }
}

/// With a cap in force and a layer outside that can rewrite the body, a
/// body that has bytes is never passed through unbounded: it is refused,
/// counted or buffered — a declared length is a claim, not a bound.
pub proof fn law_a_rewritable_body_is_always_bounded(limit: usize, declared: Option<usize>)
    ensures
        body_plan_spec(Some(limit), declared, false, true) != BodyPlan::PassThrough,
{
}

/// A body with no declared length is read up to the cap, whatever is
/// outside the edge.
pub proof fn law_an_undeclared_body_is_buffered(limit: usize, counts_body: bool)
    ensures
        body_plan_spec(Some(limit), None, false, counts_body) == BodyPlan::Buffer,
{
}

/// The running count after one more chunk: it saturates rather than wraps.
pub open spec fn count_spec(seen: usize, chunk_len: usize) -> usize {
    if seen + chunk_len > usize::MAX {
        usize::MAX
    } else {
        (seen + chunk_len) as usize
    }
}

/// Once a counted body is past the cap it stays past it, whatever arrives
/// next: the count never wraps back under.
pub proof fn law_a_counted_body_stays_over(seen: usize, chunk_len: usize, limit: usize)
    requires
        seen > limit,
    ensures
        count_spec(seen, chunk_len) > limit,
{
}

} // verus!
