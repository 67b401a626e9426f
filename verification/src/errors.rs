//! Error conditions surfaced by the exchange core.
//!
//! Every fallible operation rejects its call with one of these conditions and
//! leaves no partial mutation behind: validation, capacity, arithmetic,
//! external-transfer and timing failures are all distinguishable results.

use vstd::prelude::*;

verus! {

#[derive(Clone, Copy, Debug, PartialEq, Eq, Structural)]
pub enum ErrorCodeCustom {
    /// Wrong payer mint.
    WrongPayerMint,
    /// Wrong market.
    WrongMarket,
    /// Wrong authority.
    WrongAuthority,
    /// Insufficient funds (or an amount that does not fit the balance width).
    InsufficientFunds,
    /// The custody transfer reported failure.
    TransferFailed,
    /// The ledger entry was already initialized.
    AlreadyInitialized,
    /// The event log has no free slot.
    QueueAlreadyFull,
    /// No event rests at the given slot.
    EmptyQueue,
    /// Every order slot of the ledger entry is occupied.
    TooManyOpenOrders,
    /// The order slot is not occupied.
    SlotIsNotFree,
    /// No orders to operate on.
    EmptyOrders,
    /// The order table is already full.
    OrdersAlreadyFull,
    /// The price is not a valid limit price.
    InvalidPrice,
    /// Less is locked than the amount to be unlocked or debited.
    InvalidLocked,
    /// The order id was not found.
    OrderNotFound,
    /// The caller is not the owner of the account it names.
    InvalidAuthority,
    /// Both events of the pair are already in a terminal state.
    BothEventsFinalised,
    /// The leg being acted on is already in a terminal state.
    SideAlreadyFinalised,
    /// The grace period of the pair has not yet elapsed.
    FinalizeNotExpired,
    /// The event is already in a terminal state.
    EventFinalised,
    /// The wrong side was supplied for the event at the slot.
    WrongSide,
    /// Generic failure: a balance counter overflow or a pair mismatch.
    Error,
    /// The custody approval reported failure.
    ApprovalFailed,
}

} // verus!
