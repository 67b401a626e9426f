//! Per-trader ledger entries ("open orders" accounts).
//!
//! One entry exists per (trader, market).  It carries a fixed-size table of
//! the trader's resting order ids with a bitmask of free slots, and for each
//! of the two assets a `free` (withdrawable) and a `total` (free plus locked)
//! balance counter.  The standing invariant is `free <= total` for both
//! assets; `total - free` is the amount currently locked as order or match
//! margin.  Every balance mutation is checked and atomic: an operation either
//! applies in full or rejects the call and changes nothing.

use crate::errors::ErrorCodeCustom;
use crate::orders::Side;
use vstd::prelude::*;

verus! {

/// Number of order-id slots per ledger entry.
pub const MAX_OPEN_ORDERS: usize = 16;

/// Bitmask with one free bit per slot.
pub const ALL_SLOTS_FREE: u64 = 0xFFFF;

pub struct OpenOrders {
    /// Key of the market this entry belongs to.
    pub market: u64,
    /// Identity of the trader who owns the entry.
    pub authority: u64,
    /// Set by the first order placement.
    pub is_initialized: bool,
    /// Order ids by slot; a free slot holds zero.
    pub orders: Vec<u128>,
    /// Bit `i` set means slot `i` is free.
    pub free_slot_bits: u64,
    pub native_coin_free: u64,
    pub native_coin_total: u64,
    pub native_pc_free: u64,
    pub native_pc_total: u64,
}

/// Bit `i` of a slot bitmask is set, meaning the slot is free.
pub open spec fn slot_bit_free(bits: u64, i: int) -> bool {
    (bits >> (i as u64)) & 1 == 1
}

impl OpenOrders {
    /// Slot `i` is free by the bitmask.
    pub open spec fn slot_free(self, i: int) -> bool {
        slot_bit_free(self.free_slot_bits, i)
    }

    /// Well-formedness: the slot table has its fixed size, only real slots
    /// have bits, free slots hold no id, and `free <= total` on both assets.
    pub open spec fn wf(self) -> bool {
        &&& self.orders.len() == MAX_OPEN_ORDERS
        &&& self.free_slot_bits <= ALL_SLOTS_FREE
        &&& (forall|i: int|
            0 <= i < MAX_OPEN_ORDERS && slot_bit_free(self.free_slot_bits, i)
                ==> self.orders[i] == 0)
        &&& self.native_coin_free <= self.native_coin_total
        &&& self.native_pc_free <= self.native_pc_total
    }

    /// The amount of the quote asset locked as margin.
    pub open spec fn pc_locked(self) -> int {
        self.native_pc_total - self.native_pc_free
    }

    /// The amount of the base asset locked as margin.
    pub open spec fn coin_locked(self) -> int {
        self.native_coin_total - self.native_coin_free
    }

    /// Everything but the order slot table is equal.
    pub open spec fn same_balances_and_identity(self, other: OpenOrders) -> bool {
        &&& self.market == other.market
        &&& self.authority == other.authority
        &&& self.is_initialized == other.is_initialized
        &&& self.native_coin_free == other.native_coin_free
        &&& self.native_coin_total == other.native_coin_total
        &&& self.native_pc_free == other.native_pc_free
        &&& self.native_pc_total == other.native_pc_total
    }

    /// Everything but the four balance counters is equal.
    pub open spec fn same_slots_and_identity(self, other: OpenOrders) -> bool {
        &&& self.market == other.market
        &&& self.authority == other.authority
        &&& self.is_initialized == other.is_initialized
        &&& self.orders == other.orders
        &&& self.free_slot_bits == other.free_slot_bits
    }

    /// A blank, uninitialized ledger entry: no owner, no orders, zero
    /// balances, every slot free.
    pub fn new() -> (r: OpenOrders)
        ensures
            r.wf(),
            !r.is_initialized,
            r.market == 0 && r.authority == 0,
            r.free_slot_bits == ALL_SLOTS_FREE,
            forall|i: int| 0 <= i < MAX_OPEN_ORDERS ==> r.orders[i] == 0,
            r.native_coin_free == 0 && r.native_coin_total == 0,
            r.native_pc_free == 0 && r.native_pc_total == 0,
    {
        let orders: Vec<u128> = vec![0u128; MAX_OPEN_ORDERS];
        OpenOrders {
            market: 0,
            authority: 0,
            is_initialized: false,
            orders,
            free_slot_bits: ALL_SLOTS_FREE,
            native_coin_free: 0,
            native_coin_total: 0,
            native_pc_free: 0,
            native_pc_total: 0,
        }
    }

    /// First-use initialization: records owner and market, zeroes balances
    /// and the slot table.  Fails if the entry was already initialized.
    pub fn init(&mut self, market: u64, authority: u64) -> (r: Result<(), ErrorCodeCustom>)
        requires
            old(self).wf(),
        ensures
            final(self).wf(),
            r is Ok <==> !old(self).is_initialized,
            r is Err ==> *final(self) == *old(self) && r == Err::<(), ErrorCodeCustom>(
                ErrorCodeCustom::AlreadyInitialized,
            ),
            r is Ok ==> {
                &&& final(self).is_initialized
                &&& final(self).market == market
                &&& final(self).authority == authority
                &&& final(self).free_slot_bits == ALL_SLOTS_FREE
                &&& (forall|i: int| 0 <= i < MAX_OPEN_ORDERS ==> final(self).orders[i] == 0)
                &&& final(self).native_coin_free == 0
                &&& final(self).native_coin_total == 0
                &&& final(self).native_pc_free == 0
                &&& final(self).native_pc_total == 0
            },
    {
        if self.is_initialized {
            return Err(ErrorCodeCustom::AlreadyInitialized);
        }
        let blank = OpenOrders::new();
        *self = blank;
        self.market = market;
        self.authority = authority;
        self.is_initialized = true;
        Ok(())
    }

    /// Whether some order slot is still free.
    pub fn has_free_slot(&self) -> (r: bool)
        requires
            self.wf(),
        ensures
            r <==> exists|i: int|
                0 <= i < MAX_OPEN_ORDERS && slot_bit_free(self.free_slot_bits, i),
    {
        let mut i: usize = 0;
        while i < MAX_OPEN_ORDERS
            invariant
                i <= MAX_OPEN_ORDERS,
                forall|j: int| 0 <= j < i ==> !slot_bit_free(self.free_slot_bits, j),
            decreases MAX_OPEN_ORDERS - i,
        {
            if (self.free_slot_bits >> (i as u64)) & 1 == 1 {
                proof {
                    assert(slot_bit_free(self.free_slot_bits, i as int));
                }
                return true;
            }
            i = i + 1;
        }
        false
    }

    /// Records a resting order id in the lowest free slot and returns that
    /// slot.  Fails with a too-many-open-orders condition when no slot is
    /// free; no existing order is ever evicted to make room.
    pub fn add_order(&mut self, order_id: u128, side: Side) -> (r: Result<
        u8,
        ErrorCodeCustom,
    >)
        requires
            old(self).wf(),
            order_id != 0,
        ensures
            final(self).wf(),
            r is Ok <==> exists|i: int|
                0 <= i < MAX_OPEN_ORDERS && slot_bit_free(old(self).free_slot_bits, i),
            r is Err ==> *final(self) == *old(self) && r == Err::<u8, ErrorCodeCustom>(
                ErrorCodeCustom::TooManyOpenOrders,
            ),
            r is Ok ==> {
                let slot = r->Ok_0 as int;
                &&& 0 <= slot < MAX_OPEN_ORDERS
                &&& slot_bit_free(old(self).free_slot_bits, slot)
                &&& (forall|j: int|
                    0 <= j < slot ==> !slot_bit_free(old(self).free_slot_bits, j))
                &&& final(self).orders@ == old(self).orders@.update(slot, order_id)
                &&& (forall|j: int|
                    0 <= j < MAX_OPEN_ORDERS ==> (slot_bit_free(final(self).free_slot_bits, j)
                        <==> (j != slot && slot_bit_free(old(self).free_slot_bits, j))))
                &&& final(self).same_balances_and_identity(*old(self))
            },
    {
        let mut i: usize = 0;
        while i < MAX_OPEN_ORDERS
            invariant
                old(self).wf(),
                self == old(self),
                i <= MAX_OPEN_ORDERS,
                self == old(self),
                forall|j: int| 0 <= j < i ==> !slot_bit_free(self.free_slot_bits, j),
            decreases MAX_OPEN_ORDERS - i,
        {
            if (self.free_slot_bits >> (i as u64)) & 1 == 1 {
                proof {
                    assert(slot_bit_free(self.free_slot_bits, i as int));
                    lemma_mask_stays_small(self.free_slot_bits, i as u64);
                }
                let mask: u64 = self.free_slot_bits & !(1u64 << (i as u64));
                self.free_slot_bits = mask;
                self.orders[i] = order_id;
                proof {
                    assert forall|j: int|
                        0 <= j < MAX_OPEN_ORDERS implies (slot_bit_free(mask, j) <==> (j != i
                        && slot_bit_free(old(self).free_slot_bits, j))) by {
                        lemma_bit_clear_other(old(self).free_slot_bits, i as u64, j as u64);
                    }
                }
                return Ok(i as u8);
            }
            i = i + 1;
        }
        Err(ErrorCodeCustom::TooManyOpenOrders)
    }

    /// Clears an occupied slot.  Fails with a slot-not-free condition if the
    /// slot is out of range or already empty.
    pub fn remove_order(&mut self, slot: u8) -> (r: Result<(), ErrorCodeCustom>)
        requires
            old(self).wf(),
        ensures
            final(self).wf(),
            r is Ok <==> (slot < MAX_OPEN_ORDERS && !slot_bit_free(
                old(self).free_slot_bits,
                slot as int,
            )),
            r is Err ==> *final(self) == *old(self) && r == Err::<(), ErrorCodeCustom>(
                ErrorCodeCustom::SlotIsNotFree,
            ),
            r is Ok ==> {
                &&& final(self).orders@ == old(self).orders@.update(slot as int, 0u128)
                &&& (forall|j: int|
                    0 <= j < MAX_OPEN_ORDERS ==> (slot_bit_free(final(self).free_slot_bits, j)
                        <==> (j == slot as int || slot_bit_free(old(self).free_slot_bits, j))))
                &&& final(self).same_balances_and_identity(*old(self))
            },
    {
        if slot as usize >= MAX_OPEN_ORDERS {
            return Err(ErrorCodeCustom::SlotIsNotFree);
        }
        if (self.free_slot_bits >> (slot as u64)) & 1 == 1 {
            return Err(ErrorCodeCustom::SlotIsNotFree);
        }
        proof {
            lemma_bit_set(self.free_slot_bits, slot as u64);
        }
        let mask: u64 = self.free_slot_bits | (1u64 << (slot as u64));
        self.free_slot_bits = mask;
        self.orders[slot as usize] = 0;
        proof {
            assert forall|j: int|
                0 <= j < MAX_OPEN_ORDERS implies (slot_bit_free(mask, j) <==> (j == slot as int
                || slot_bit_free(old(self).free_slot_bits, j))) by {
                lemma_bit_set_other(old(self).free_slot_bits, slot as u64, j as u64);
            }
        }
        Ok(())
    }

    /// The slot table and identity are those of `prior`, and the four
    /// balance counters hold exactly the given values.
    pub open spec fn balances_set(self, prior: OpenOrders, cf: int, ct: int, pf: int, pt: int) -> bool {
        &&& self.same_slots_and_identity(prior)
        &&& self.native_coin_free == cf
        &&& self.native_coin_total == ct
        &&& self.native_pc_free == pf
        &&& self.native_pc_total == pt
    }

    /// The slot holding the given resting order id, if any: a slot counts
    /// only when its bit marks it occupied.
    pub fn find_order_slot(&self, order_id: u128) -> (r: Option<u8>)
        requires
            self.wf(),
        ensures
            r is Some ==> {
                let s = r->0 as int;
                &&& 0 <= s < MAX_OPEN_ORDERS
                &&& self.orders[s] == order_id
                &&& !slot_bit_free(self.free_slot_bits, s)
            },
            r is None ==> forall|i: int|
                0 <= i < MAX_OPEN_ORDERS ==> !(self.orders[i] == order_id && !slot_bit_free(
                    self.free_slot_bits,
                    i,
                )),
    {
        let mut i: usize = 0;
        while i < MAX_OPEN_ORDERS
            invariant
                self.wf(),
                i <= MAX_OPEN_ORDERS,
                forall|j: int|
                    0 <= j < i ==> !(self.orders[j] == order_id && !slot_bit_free(
                        self.free_slot_bits,
                        j,
                    )),
            decreases MAX_OPEN_ORDERS - i,
        {
            if self.orders[i] == order_id && !((self.free_slot_bits >> (i as u64)) & 1 == 1) {
                return Some(i as u8);
            }
            i = i + 1;
        }
        None
    }

    /// Locks quote-asset margin: moves `amount` out of `free` into the
    /// implicit locked portion.  Fails if less than `amount` is free.
    pub fn lock_pc(&mut self, amount: u64) -> (r: Result<(), ErrorCodeCustom>)
        requires
            old(self).wf(),
        ensures
            final(self).wf(),
            r is Ok <==> amount <= old(self).native_pc_free,
            r is Err ==> *final(self) == *old(self) && r == Err::<(), ErrorCodeCustom>(
                ErrorCodeCustom::InsufficientFunds,
            ),
            r is Ok ==> final(self).balances_set(
                *old(self),
                old(self).native_coin_free as int,
                old(self).native_coin_total as int,
                old(self).native_pc_free - amount,
                old(self).native_pc_total as int,
            ),
    {
        if amount > self.native_pc_free {
            return Err(ErrorCodeCustom::InsufficientFunds);
        }
        self.native_pc_free = self.native_pc_free - amount;
        Ok(())
    }

    /// Locks base-asset margin: moves `amount` out of `free` into the
    /// implicit locked portion.  Fails if less than `amount` is free.
    pub fn lock_coin(&mut self, amount: u64) -> (r: Result<(), ErrorCodeCustom>)
        requires
            old(self).wf(),
        ensures
            final(self).wf(),
            r is Ok <==> amount <= old(self).native_coin_free,
            r is Err ==> *final(self) == *old(self) && r == Err::<(), ErrorCodeCustom>(
                ErrorCodeCustom::InsufficientFunds,
            ),
            r is Ok ==> final(self).balances_set(
                *old(self),
                old(self).native_coin_free - amount,
                old(self).native_coin_total as int,
                old(self).native_pc_free as int,
                old(self).native_pc_total as int,
            ),
    {
        if amount > self.native_coin_free {
            return Err(ErrorCodeCustom::InsufficientFunds);
        }
        self.native_coin_free = self.native_coin_free - amount;
        Ok(())
    }

    /// Releases quote-asset margin back to `free`.  Fails when less than
    /// `amount` is locked: releasing more would break `free <= total`.
    pub fn unlock_pc(&mut self, amount: u64) -> (r: Result<(), ErrorCodeCustom>)
        requires
            old(self).wf(),
        ensures
            final(self).wf(),
            r is Ok <==> amount <= old(self).pc_locked(),
            r is Err ==> *final(self) == *old(self) && r == Err::<(), ErrorCodeCustom>(
                ErrorCodeCustom::InvalidLocked,
            ),
            r is Ok ==> final(self).balances_set(
                *old(self),
                old(self).native_coin_free as int,
                old(self).native_coin_total as int,
                old(self).native_pc_free + amount,
                old(self).native_pc_total as int,
            ),
    {
        if amount > self.native_pc_total - self.native_pc_free {
            return Err(ErrorCodeCustom::InvalidLocked);
        }
        self.native_pc_free = self.native_pc_free + amount;
        Ok(())
    }

    /// Releases base-asset margin back to `free`.  Fails when less than
    /// `amount` is locked: releasing more would break `free <= total`.
    pub fn unlock_coin(&mut self, amount: u64) -> (r: Result<(), ErrorCodeCustom>)
        requires
            old(self).wf(),
        ensures
            final(self).wf(),
            r is Ok <==> amount <= old(self).coin_locked(),
            r is Err ==> *final(self) == *old(self) && r == Err::<(), ErrorCodeCustom>(
                ErrorCodeCustom::InvalidLocked,
            ),
            r is Ok ==> final(self).balances_set(
                *old(self),
                old(self).native_coin_free + amount,
                old(self).native_coin_total as int,
                old(self).native_pc_free as int,
                old(self).native_pc_total as int,
            ),
    {
        if amount > self.native_coin_total - self.native_coin_free {
            return Err(ErrorCodeCustom::InvalidLocked);
        }
        self.native_coin_free = self.native_coin_free + amount;
        Ok(())
    }

    /// Posts quote-asset margin: grows `total` while `free` stays put, so
    /// the amount arrives locked.  Fails on counter overflow.
    pub fn credit_locked_pc(&mut self, amount: u64) -> (r: Result<(), ErrorCodeCustom>)
        requires
            old(self).wf(),
        ensures
            final(self).wf(),
            r is Ok <==> old(self).native_pc_total + amount <= u64::MAX,
            r is Err ==> *final(self) == *old(self) && r == Err::<(), ErrorCodeCustom>(
                ErrorCodeCustom::Error,
            ),
            r is Ok ==> final(self).balances_set(
                *old(self),
                old(self).native_coin_free as int,
                old(self).native_coin_total as int,
                old(self).native_pc_free as int,
                old(self).native_pc_total + amount,
            ),
    {
        if amount > u64::MAX - self.native_pc_total {
            return Err(ErrorCodeCustom::Error);
        }
        self.native_pc_total = self.native_pc_total + amount;
        Ok(())
    }

    /// Posts base-asset margin: grows `total` while `free` stays put, so
    /// the amount arrives locked.  Fails on counter overflow.
    pub fn credit_locked_coin(&mut self, amount: u64) -> (r: Result<(), ErrorCodeCustom>)
        requires
            old(self).wf(),
        ensures
            final(self).wf(),
            r is Ok <==> old(self).native_coin_total + amount <= u64::MAX,
            r is Err ==> *final(self) == *old(self) && r == Err::<(), ErrorCodeCustom>(
                ErrorCodeCustom::Error,
            ),
            r is Ok ==> final(self).balances_set(
                *old(self),
                old(self).native_coin_free as int,
                old(self).native_coin_total + amount,
                old(self).native_pc_free as int,
                old(self).native_pc_total as int,
            ),
    {
        if amount > u64::MAX - self.native_coin_total {
            return Err(ErrorCodeCustom::Error);
        }
        self.native_coin_total = self.native_coin_total + amount;
        Ok(())
    }

    /// Slashes quote-asset margin: shrinks `total` out of the locked
    /// portion.  Fails when less than `amount` is locked.
    pub fn debit_locked_pc(&mut self, amount: u64) -> (r: Result<(), ErrorCodeCustom>)
        requires
            old(self).wf(),
        ensures
            final(self).wf(),
            r is Ok <==> amount <= old(self).pc_locked(),
            r is Err ==> *final(self) == *old(self) && r == Err::<(), ErrorCodeCustom>(
                ErrorCodeCustom::InvalidLocked,
            ),
            r is Ok ==> final(self).balances_set(
                *old(self),
                old(self).native_coin_free as int,
                old(self).native_coin_total as int,
                old(self).native_pc_free as int,
                old(self).native_pc_total - amount,
            ),
    {
        if amount > self.native_pc_total - self.native_pc_free {
            return Err(ErrorCodeCustom::InvalidLocked);
        }
        self.native_pc_total = self.native_pc_total - amount;
        Ok(())
    }

    /// Slashes base-asset margin: shrinks `total` out of the locked
    /// portion.  Fails when less than `amount` is locked.
    pub fn debit_locked_coin(&mut self, amount: u64) -> (r: Result<(), ErrorCodeCustom>)
        requires
            old(self).wf(),
        ensures
            final(self).wf(),
            r is Ok <==> amount <= old(self).coin_locked(),
            r is Err ==> *final(self) == *old(self) && r == Err::<(), ErrorCodeCustom>(
                ErrorCodeCustom::InvalidLocked,
            ),
            r is Ok ==> final(self).balances_set(
                *old(self),
                old(self).native_coin_free as int,
                old(self).native_coin_total - amount,
                old(self).native_pc_free as int,
                old(self).native_pc_total as int,
            ),
    {
        if amount > self.native_coin_total - self.native_coin_free {
            return Err(ErrorCodeCustom::InvalidLocked);
        }
        self.native_coin_total = self.native_coin_total - amount;
        Ok(())
    }

    /// Credits a withdrawable quote-asset amount: grows `free` and `total`
    /// together.  Fails on counter overflow.
    pub fn credit_unlocked_pc(&mut self, amount: u64) -> (r: Result<(), ErrorCodeCustom>)
        requires
            old(self).wf(),
        ensures
            final(self).wf(),
            r is Ok <==> old(self).native_pc_total + amount <= u64::MAX,
            r is Err ==> *final(self) == *old(self) && r == Err::<(), ErrorCodeCustom>(
                ErrorCodeCustom::Error,
            ),
            r is Ok ==> final(self).balances_set(
                *old(self),
                old(self).native_coin_free as int,
                old(self).native_coin_total as int,
                old(self).native_pc_free + amount,
                old(self).native_pc_total + amount,
            ),
    {
        if amount > u64::MAX - self.native_pc_total {
            return Err(ErrorCodeCustom::Error);
        }
        self.native_pc_total = self.native_pc_total + amount;
        self.native_pc_free = self.native_pc_free + amount;
        Ok(())
    }

    /// Credits a withdrawable base-asset amount: grows `free` and `total`
    /// together.  Fails on counter overflow.
    pub fn credit_unlocked_coin(&mut self, amount: u64) -> (r: Result<(), ErrorCodeCustom>)
        requires
            old(self).wf(),
        ensures
            final(self).wf(),
            r is Ok <==> old(self).native_coin_total + amount <= u64::MAX,
            r is Err ==> *final(self) == *old(self) && r == Err::<(), ErrorCodeCustom>(
                ErrorCodeCustom::Error,
            ),
            r is Ok ==> final(self).balances_set(
                *old(self),
                old(self).native_coin_free + amount,
                old(self).native_coin_total + amount,
                old(self).native_pc_free as int,
                old(self).native_pc_total as int,
            ),
    {
        if amount > u64::MAX - self.native_coin_total {
            return Err(ErrorCodeCustom::Error);
        }
        self.native_coin_total = self.native_coin_total + amount;
        self.native_coin_free = self.native_coin_free + amount;
        Ok(())
    }

    /// Debits a withdrawable quote-asset amount: shrinks `free` and `total`
    /// together.  Fails if less than `amount` is free.
    pub fn debit_unlocked_pc(&mut self, amount: u64) -> (r: Result<(), ErrorCodeCustom>)
        requires
            old(self).wf(),
        ensures
            final(self).wf(),
            r is Ok <==> amount <= old(self).native_pc_free,
            r is Err ==> *final(self) == *old(self) && r == Err::<(), ErrorCodeCustom>(
                ErrorCodeCustom::InsufficientFunds,
            ),
            r is Ok ==> final(self).balances_set(
                *old(self),
                old(self).native_coin_free as int,
                old(self).native_coin_total as int,
                old(self).native_pc_free - amount,
                old(self).native_pc_total - amount,
            ),
    {
        if amount > self.native_pc_free {
            return Err(ErrorCodeCustom::InsufficientFunds);
        }
        self.native_pc_free = self.native_pc_free - amount;
        self.native_pc_total = self.native_pc_total - amount;
        Ok(())
    }

    /// Debits a withdrawable base-asset amount: shrinks `free` and `total`
    /// together.  Fails if less than `amount` is free.
    pub fn debit_unlocked_coin(&mut self, amount: u64) -> (r: Result<(), ErrorCodeCustom>)
        requires
            old(self).wf(),
        ensures
            final(self).wf(),
            r is Ok <==> amount <= old(self).native_coin_free,
            r is Err ==> *final(self) == *old(self) && r == Err::<(), ErrorCodeCustom>(
                ErrorCodeCustom::InsufficientFunds,
            ),
            r is Ok ==> final(self).balances_set(
                *old(self),
                old(self).native_coin_free - amount,
                old(self).native_coin_total - amount,
                old(self).native_pc_free as int,
                old(self).native_pc_total as int,
            ),
    {
        if amount > self.native_coin_free {
            return Err(ErrorCodeCustom::InsufficientFunds);
        }
        self.native_coin_free = self.native_coin_free - amount;
        self.native_coin_total = self.native_coin_total - amount;
        Ok(())
    }
}

/// Clearing bit `i` leaves bit `i` clear.
proof fn lemma_bit_cleared(m: u64, i: u64)
    requires
        i < 64,
    ensures
        ((m & !(1u64 << i)) >> i) & 1 == 0,
{
    assert(((m & !(1u64 << i)) >> i) & 1 == 0) by (bit_vector)
        requires
            i < 64,
    ;
}

/// Clearing bit `i` changes no other bit, and clears bit `i`.
proof fn lemma_bit_clear_other(m: u64, i: u64, j: u64)
    requires
        i < 64,
        j < 64,
    ensures
        ((m & !(1u64 << i)) >> j) & 1 == (if j == i {
            0u64
        } else {
            (m >> j) & 1
        }),
{
    assert(((m & !(1u64 << i)) >> j) & 1 == (if j == i {
        0u64
    } else {
        (m >> j) & 1
    })) by (bit_vector)
        requires
            i < 64,
            j < 64,
    ;
}

/// Clearing a bit cannot enlarge the mask.
proof fn lemma_mask_stays_small(m: u64, i: u64)
    requires
        i < 64,
    ensures
        (m & !(1u64 << i)) <= m,
{
    assert((m & !(1u64 << i)) <= m) by (bit_vector)
        requires
            i < 64,
    ;
}

/// Setting bit `i` sets it.
proof fn lemma_bit_set(m: u64, i: u64)
    requires
        i < 64,
        m <= ALL_SLOTS_FREE,
        i < 16,
    ensures
        (m | (1u64 << i)) <= ALL_SLOTS_FREE,
{
    assert((m | (1u64 << i)) <= 0xFFFFu64) by (bit_vector)
        requires
            i < 16,
            m <= 0xFFFFu64,
    ;
}

/// Setting bit `i` sets it and changes no other bit.
proof fn lemma_bit_set_other(m: u64, i: u64, j: u64)
    requires
        i < 64,
        j < 64,
    ensures
        ((m | (1u64 << i)) >> j) & 1 == (if j == i {
            1u64
        } else {
            (m >> j) & 1
        }),
{
    assert(((m | (1u64 << i)) >> j) & 1 == (if j == i {
        1u64
    } else {
        (m >> j) & 1
    })) by (bit_vector)
        requires
            i < 64,
            j < 64,
    ;
}

} // verus!
