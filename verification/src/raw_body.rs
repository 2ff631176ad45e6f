//! The body cap a raw-body reader applies.
use vstd::prelude::*;

verus! {

/// The cap when nothing configured one: 2 MiB.
pub const DEFAULT_BODY_LIMIT: usize = 2097152;

/// The cap in force: the one the request carries, else the default.
pub fn body_limit_or_default(ambient: Option<usize>) -> (r: usize)
    ensures
        r == (match ambient {
            Some(l) => l,
            None => DEFAULT_BODY_LIMIT,
        }),
{
    match ambient {
        Some(l) => l,
        None => DEFAULT_BODY_LIMIT,
    }
}

} // verus!
