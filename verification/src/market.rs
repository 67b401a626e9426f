//! The market record: asset-pair identifiers, lot sizes, running deposit
//! totals, and the addresses of the collaborating accounts.  Created once at
//! market initialization; only the deposit totals mutate afterwards.

use vstd::prelude::*;

verus! {

pub struct Market {
    /// Address of this market record itself.
    pub key: u64,
    /// Vault holding the base asset.
    pub coin_vault: u64,
    /// Vault holding the quote asset.
    pub pc_vault: u64,
    /// Mint of the base asset.
    pub coin_mint: u64,
    /// Mint of the quote asset.
    pub pc_mint: u64,
    /// Minimum tradable unit multiplier of the base asset.
    pub coin_lot_size: u64,
    /// Minimum tradable unit multiplier of the quote asset.
    pub pc_lot_size: u64,
    /// Running total of base-asset margin deposits requested.
    pub coin_deposits_total: u64,
    /// Running total of quote-asset margin deposits requested.
    pub pc_deposits_total: u64,
    /// Address of the bid-side book.
    pub bids: u64,
    /// Address of the ask-side book.
    pub asks: u64,
    /// Address of the request log.
    pub req_q: u64,
    /// Address of the event log.
    pub event_q: u64,
    /// Signing authority over the vaults.
    pub authority: u64,
}

impl Market {
    /// Lot sizes are positive: a zero lot size would make every quantity
    /// degenerate.
    pub open spec fn wf(self) -> bool {
        &&& self.coin_lot_size >= 1
        &&& self.pc_lot_size >= 1
    }
}

/// Creates the market record: stores the account identifiers and lot sizes
/// and zeroes the deposit totals.
pub fn initialize_market(
    key: u64,
    coin_vault: u64,
    pc_vault: u64,
    coin_mint: u64,
    pc_mint: u64,
    coin_lot_size: u64,
    pc_lot_size: u64,
    bids: u64,
    asks: u64,
    req_q: u64,
    event_q: u64,
    authority: u64,
) -> (m: Market)
    requires
        coin_lot_size >= 1,
        pc_lot_size >= 1,
    ensures
        m.wf(),
        m == (Market {
            key,
            coin_vault,
            pc_vault,
            coin_mint,
            pc_mint,
            coin_lot_size,
            pc_lot_size,
            coin_deposits_total: 0,
            pc_deposits_total: 0,
            bids,
            asks,
            req_q,
            event_q,
            authority,
        }),
{
    Market {
        key,
        coin_vault,
        pc_vault,
        coin_mint,
        pc_mint,
        coin_lot_size,
        pc_lot_size,
        coin_deposits_total: 0,
        pc_deposits_total: 0,
        bids,
        asks,
        req_q,
        event_q,
        authority,
    }
}

} // verus!
