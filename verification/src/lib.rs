//! Matching and settlement core of a peer-to-peer exchange.
//!
//! Traders post buy/sell orders against two asset pools ("coin" and "pc"),
//! orders are matched by price-time priority, and because full collateral is
//! not locked upfront, matched trades pass through an asynchronous two-phase
//! finalization protocol with a time-boxed penalty fallback for
//! non-performance.  External collaborators (the custody service that moves
//! tokens and the clock) are modelled as plain inputs: callers perform the
//! transfer and hand the outcome in, and settlement calls take the current
//! timestamp as an argument.

pub mod book;
pub mod errors;
pub mod events;
pub mod exchange;
pub mod laws;
pub mod ledger;
pub mod market;
pub mod orders;
pub mod settle;
