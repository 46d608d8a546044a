//! Verified core of a two-venue market-data pipeline: normalized ticks and
//! balances, bounded per-venue history buffers, venue-specific request
//! signing, and a price-divergence evaluator.
use vstd::prelude::*;

pub mod bytes;
pub mod balance;
pub mod binance;
pub mod buffer;
pub mod creds;
pub mod crypto;
pub mod decimal;
pub mod exchanges;
pub mod jsonout;
pub mod kraken;
pub mod oneleg;
pub mod router;
pub mod tick;

verus! {

/// Identifies one of the two supported trading venues.
#[derive(Clone, Copy, PartialEq, Eq, Structural, Debug)]
pub enum Venue {
    Binance,
    Kraken,
}

} // verus!
