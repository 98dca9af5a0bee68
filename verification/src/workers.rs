//! The decisions of the two loops: what to store of a timeline, and what to
//! send for a queued post.

pub mod posting;
pub mod twitter;

use vstd::prelude::*;

verus! {

/// Seconds that each loop sleeps between two passes.
pub const PASS_DELAY_SECS: u64 = 120;

} // verus!
