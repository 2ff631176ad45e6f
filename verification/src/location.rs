//! The `Location` a `201` names: the collection path joined with the new id,
//! composed the way the transport mounts, so the URI handed back cannot drift
//! from the one the route serves.
use vstd::prelude::*;

use crate::paths::{join_path, join_spec};
use crate::wire::{header_value_parses, valid_header_value};

verus! {

/// The `Location` of a resource created under `collection_path` with `id`,
/// or `None` when that cannot be a header value (the header is then left
/// off rather than the response failing).
pub fn created_location(collection_path: &str, id: &str) -> (r: Option<String>)
    ensures
        match r {
            Some(l) => l@ == join_spec(collection_path@, id@) && valid_header_value(l@),
            None => !valid_header_value(join_spec(collection_path@, id@)),
        },
{
    let location = join_path(collection_path, id);
    if header_value_parses(location.as_str()) {
        Some(location)
    } else {
        None
    }
}

} // verus!
