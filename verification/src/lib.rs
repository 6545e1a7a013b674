//! Verified core of a crowdfunding campaign contract and its deployment factory.
pub mod campaign;
pub mod donation;
pub mod factory;
pub mod keyed;
pub mod laws;
pub mod refund;
pub mod release;
pub mod results;
pub mod trace;
pub mod types;

use vstd::prelude::*;

verus! {

/// Contract version reported by the campaign contract.
pub const VERSION: u32 = 1;

/// How long after the deadline donors may still claim a refund: thirty days, in seconds.
pub const REFUND_WINDOW: u64 = 30 * 24 * 60 * 60;

} // verus!
