//! The event log: a fixed-capacity, slot-addressed array of match records.
//!
//! One record is written per matched leg of a trade; the two legs of a match
//! cross-reference each other through `order_id_second`.  A slot is free when
//! it is empty or holds a record in a terminal settlement state; a live
//! (pending) record is never overwritten by the matcher.  Settlement calls
//! address records by their explicit slot index.

use crate::orders::{spec_id_price, Side};
use vstd::prelude::*;

verus! {

/// Number of slots in the event log.
pub const EVENT_CAPACITY: usize = 16;

/// Settlement status of one event: `Settled` and `Penalized` are terminal.
#[derive(Clone, Copy, Debug, PartialEq, Eq, Structural)]
pub enum SettleStatus {
    Pending,
    Settled,
    Penalized,
}

/// One matched leg of a trade.
#[derive(Clone, Copy, Debug, PartialEq, Eq, Structural)]
pub struct Event {
    /// Id of the order this leg belongs to.
    pub order_id: u128,
    /// Id of the counterparty's order: the two legs of a match name each
    /// other here.
    pub order_id_second: u128,
    /// Identity of the trader who owns this leg.
    pub owner: u64,
    /// The trader's ledger slot holding `order_id`.
    pub owner_slot: u8,
    /// Native quantity this leg's owner pays.
    pub native_qty_paid: u64,
    /// Native quantity this leg's owner receives.
    pub native_qty_released: u64,
    /// Creation time of the match.
    pub timestamp: u64,
    /// Tri-state settlement status.
    pub finalised: SettleStatus,
    /// Side of the order this leg belongs to.
    pub side: Side,
    /// Whether this leg's owner was the resting (maker) party.
    pub maker: bool,
}

impl Event {
    /// The match behind this leg did not trade through the price limits: the
    /// bid-side order id never carries a smaller price than the ask-side one.
    pub open spec fn crossed(self) -> bool {
        match self.side {
            Side::Bid => spec_id_price(self.order_id) >= spec_id_price(self.order_id_second),
            Side::Ask => spec_id_price(self.order_id_second) >= spec_id_price(self.order_id),
        }
    }
}

/// Slot `i` of the log can be written by the matcher: it is empty or holds a
/// record that already reached a terminal state.
pub open spec fn event_slot_free(s: Seq<Option<Event>>, i: int) -> bool {
    s[i] is None || s[i]->0.finalised != SettleStatus::Pending
}

/// Two distinct free slots remain: what the matcher needs for one more fill.
pub open spec fn two_slots_free(s: Seq<Option<Event>>) -> bool {
    exists|i: int, j: int| 0 <= i < j < s.len() && event_slot_free(s, i) && event_slot_free(s, j)
}

/// Every record in the log is a crossed match.
pub open spec fn events_wf(s: Seq<Option<Event>>) -> bool {
    forall|i: int| 0 <= i < s.len() && s[i] is Some ==> (#[trigger] s[i])->0.crossed()
}

pub struct EventQueue {
    pub buf: Vec<Option<Event>>,
}

impl EventQueue {
    /// Fixed capacity, and nothing but crossed matches on record.
    pub open spec fn wf(self) -> bool {
        &&& self.buf.len() == EVENT_CAPACITY
        &&& events_wf(self.buf@)
    }

    /// An empty log.
    pub fn new() -> (r: EventQueue)
        ensures
            r.wf(),
            forall|i: int| 0 <= i < EVENT_CAPACITY ==> r.buf[i] is None,
    {
        let buf: Vec<Option<Event>> = vec![None; EVENT_CAPACITY];
        EventQueue { buf }
    }

    /// Reads the record at a slot; `None` for an out-of-range or empty slot.
    pub fn get_event(&self, slot: usize) -> (r: Option<Event>)
        requires
            self.wf(),
        ensures
            r == if slot < EVENT_CAPACITY {
                self.buf[slot as int]
            } else {
                None::<Event>
            },
    {
        if slot < EVENT_CAPACITY {
            self.buf[slot]
        } else {
            None
        }
    }

    /// The two lowest slots the matcher may write, if two are free.
    pub fn two_free_slots(&self) -> (r: Option<(usize, usize)>)
        requires
            self.wf(),
        ensures
            r is Some ==> {
                let (a, b) = r->0;
                &&& a < b < EVENT_CAPACITY
                &&& event_slot_free(self.buf@, a as int)
                &&& event_slot_free(self.buf@, b as int)
            },
            r is None ==> !two_slots_free(self.buf@),
            r is Some ==> two_slots_free(self.buf@),
    {
        let mut first: usize = EVENT_CAPACITY;
        let mut i: usize = 0;
        while i < EVENT_CAPACITY
            invariant
                self.wf(),
                i <= EVENT_CAPACITY,
                first <= EVENT_CAPACITY,
                first < EVENT_CAPACITY ==> (first < i && event_slot_free(self.buf@, first as int)),
                forall|k: int| 0 <= k < i && k != first ==> !event_slot_free(self.buf@, k),
            decreases EVENT_CAPACITY - i,
        {
            let cell: Option<Event> = self.buf[i];
            let free = match cell {
                Option::None => true,
                Option::Some(e) => !matches!(e.finalised, SettleStatus::Pending),
            };
            proof {
                assert(free <==> event_slot_free(self.buf@, i as int));
            }
            if free {
                if first == EVENT_CAPACITY {
                    first = i;
                } else {
                    proof {
                        assert(event_slot_free(self.buf@, first as int) && event_slot_free(
                            self.buf@,
                            i as int,
                        ));
                    }
                    return Some((first, i));
                }
            }
            i = i + 1;
        }
        proof {
            assert forall|a: int, b: int|
                !(0 <= a < b < self.buf@.len() && event_slot_free(self.buf@, a)
                    && event_slot_free(self.buf@, b)) by {
                if 0 <= a < b < self.buf@.len() {
                    if a != first as int {
                        assert(!event_slot_free(self.buf@, a));
                    } else {
                        assert(!event_slot_free(self.buf@, b));
                    }
                }
            }
        }
        None
    }

    /// Writes (or rewrites) the record at a slot.  The caller is responsible
    /// for only handing the matcher free slots; settlement rewrites live
    /// records in place.
    pub fn set_event(&mut self, slot: usize, e: Event)
        requires
            old(self).wf(),
            slot < EVENT_CAPACITY,
            e.crossed(),
        ensures
            final(self).wf(),
            final(self).buf@ == old(self).buf@.update(slot as int, Some(e)),
    {
        self.buf[slot] = Some(e);
    }
}

} // verus!
