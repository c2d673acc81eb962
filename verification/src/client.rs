//! Client configuration: the defaults a new client resolves when the
//! caller leaves a field unset.

use vstd::prelude::*;

verus! {

/// The hub endpoint used when none is configured.
pub open spec fn default_endpoint() -> Seq<char> {
    "https://huggingface.co"@
}

/// The endpoint a client runs against: the configured one, or the
/// public hub.
pub fn resolve_endpoint(endpoint: Option<String>) -> (r: String)
    ensures
        r@ == match endpoint {
            Some(e) => e@,
            None => default_endpoint(),
        },
{
    match endpoint {
        Some(e) => e,
        None => String::from_str("https://huggingface.co"),
    }
}

/// The concurrency bound a client runs with: the configured value,
/// or four when the caller passed zero.
pub fn resolve_max_concurrent(requested: u32) -> (r: u32)
    ensures
        r == if requested > 0 {
            requested as int
        } else {
            4
        },
        r >= 1,
{
    if requested > 0 {
        requested
    } else {
        4
    }
}

} // verus!
