//! A client library for downloading files and repository snapshots
//! from a HuggingFace-style model hub, with optional content-addressed
//! deduplication when the server advertises it.
//!
//! The crate holds the download coordinator's logic — header parsing,
//! destination resolution, the retry policy, the per-file download
//! state machine, snapshot planning, the progress aggregator's state
//! and the CAS token cache — with contracts checked by Verus. The
//! surrounding I/O (HTTP transport, filesystem, the C interface)
//! drives these functions and performs what their results ask for.

use vstd::prelude::*;

pub mod cas_cache;
pub mod client;
pub mod download;
pub mod error;
pub mod listing;
pub mod paths;
pub mod progress;
pub mod retry;
pub mod text;
pub mod token;
pub mod xet_integration;

verus! {

/// Evaluate one poll of the caller's cancellation capability.
/// `None` means no token was supplied, which never cancels.
pub fn is_cancelled(poll: Option<bool>) -> (r: bool)
    ensures
        r == (poll == Some(true)),
{
    match poll {
        Some(b) => b,
        None => false,
    }
}

} // verus!
