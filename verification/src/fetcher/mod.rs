//! What the subscription fetcher does with a response once it has arrived.
use vstd::prelude::*;

pub mod content_decode;
pub mod routing_template;

verus! {

/// The largest subscription body, in bytes, that is accepted (5 MiB).
pub const MAX_SUBSCRIPTION_BYTES: usize = 5 * 1024 * 1024;

} // verus!
