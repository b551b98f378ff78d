//! The single-slot, synchronous rendezvous primitive shared by the two
//! execution domains.
//!
//! The writer of the slot owns it exclusively until the reader acknowledges;
//! the reader must take everything it needs out of the slot before the slot
//! is reused. Here the slot holds the message itself, so taking it out and
//! acknowledging are one operation that transfers ownership.
//!
//! At most one message is ever in flight across the whole system at any
//! instant: a second send cannot occur before the acknowledgment of the
//! first. [`lemma_single_message_in_flight`] states that guarantee over every
//! valid sequence of slot operations.

use vstd::prelude::*;
use crate::kernel_proto::Message;

verus! {

/// The shared mailbox slot. Empty, or holding the one message in flight.
pub struct Mailbox {
    pub slot: Option<Message>,
}

impl Mailbox {
    /// A fresh mailbox with nothing in flight.
    pub fn new() -> (r: Mailbox)
        ensures
            r.slot is None,
    {
        Mailbox { slot: None }
    }

    /// True when a message is pending in the slot. Never blocks: the peer
    /// polls this until it turns true.
    pub fn pending(&self) -> (r: bool)
        ensures
            r == (self.slot is Some),
    {
        match &self.slot {
            Some(_) => true,
            None => false,
        }
    }

    /// Writes a message into the slot. The slot must be free: the sender
    /// busy-waits for the peer's acknowledgment of the previous message
    /// before it may send again.
    pub fn send(&mut self, message: Message)
        requires
            old(self).slot is None,
        ensures
            final(self).slot == Some(message),
    {
        self.slot = Some(message);
    }

    /// Takes the pending message out of the slot and acknowledges, freeing
    /// the slot for reuse. The receiver thereby owns everything the message
    /// carried before the writer can touch the slot again.
    pub fn acknowledge(&mut self) -> (r: Message)
        requires
            old(self).slot is Some,
        ensures
            final(self).slot is None,
            old(self).slot == Some(r),
    {
        self.slot.take().unwrap()
    }
}

/// One operation on the mailbox slot, as seen from the slot itself: a send
/// from either domain, or the matching acknowledgment by the other.
pub enum SlotOp {
    Send,
    Acknowledge,
}

/// One step of the slot's protocol: a send is enabled only on a free slot, an
/// acknowledgment only on an occupied one. `None` marks a forbidden step.
pub open spec fn slot_step(in_flight: bool, op: SlotOp) -> Option<bool> {
    match op {
        SlotOp::Send => if in_flight {
            None
        } else {
            Some(true)
        },
        SlotOp::Acknowledge => if in_flight {
            Some(false)
        } else {
            None
        },
    }
}

/// Runs a sequence of slot operations from the given state; `None` as soon
/// as any step is forbidden.
pub open spec fn run_slot_ops(in_flight: bool, ops: Seq<SlotOp>) -> Option<bool>
    decreases ops.len(),
{
    if ops.len() == 0 {
        Some(in_flight)
    } else {
        match slot_step(in_flight, ops[0]) {
            None => None,
            Some(next) => run_slot_ops(next, ops.subrange(1, ops.len() as int)),
        }
    }
}

/// A sequence of operations is valid when every step is enabled, starting
/// from a free slot.
pub open spec fn valid_slot_ops(ops: Seq<SlotOp>) -> bool {
    run_slot_ops(false, ops) is Some
}

/// Running a sequence splits at any point: run the first part, then the rest
/// from the state it reached.
proof fn lemma_run_slot_ops_split(in_flight: bool, ops: Seq<SlotOp>, at: int)
    requires
        0 <= at <= ops.len(),
    ensures
        run_slot_ops(in_flight, ops) == match run_slot_ops(in_flight, ops.subrange(0, at)) {
            None => None::<bool>,
            Some(mid) => run_slot_ops(mid, ops.subrange(at, ops.len() as int)),
        },
    decreases at,
{
    if at == 0 {
        assert(ops.subrange(0, 0) =~= Seq::<SlotOp>::empty());
        assert(ops.subrange(0, ops.len() as int) =~= ops);
    } else {
        let head = ops.subrange(0, at)[0];
        assert(head == ops[0]);
        match slot_step(in_flight, ops[0]) {
            None => {
                assert(run_slot_ops(in_flight, ops.subrange(0, at)) is None);
            },
            Some(next) => {
                let tail = ops.subrange(1, ops.len() as int);
                lemma_run_slot_ops_split(next, tail, at - 1);
                assert(tail.subrange(0, at - 1) =~= ops.subrange(0, at).subrange(
                    1,
                    ops.subrange(0, at).len() as int,
                ));
                assert(tail.subrange(at - 1, tail.len() as int) =~= ops.subrange(
                    at,
                    ops.len() as int,
                ));
            },
        }
    }
}

/// At most one message is in flight: in any valid sequence of slot
/// operations, between any two sends there is an acknowledgment. A second
/// send on either side cannot occur before the matching acknowledgment of
/// the first.
pub proof fn lemma_single_message_in_flight(ops: Seq<SlotOp>, first: int, second: int)
    requires
        valid_slot_ops(ops),
        0 <= first < second < ops.len(),
        ops[first] is Send,
        ops[second] is Send,
    ensures
        exists|k: int| first < k < second && ops[k] is Acknowledge,
{
    if !(exists|k: int| first < k < second && ops[k] is Acknowledge) {
        // Every operation strictly between the two sends is itself a send.
        // The step after the first send leaves a message in flight, so the
        // very next operation, a send either way, is forbidden.
        lemma_run_slot_ops_split(false, ops, first);
        let before = run_slot_ops(false, ops.subrange(0, first));
        assert(before is Some);
        let rest = ops.subrange(first, ops.len() as int);
        assert(rest[0] == ops[first]);
        let state_first = before->Some_0;
        assert(run_slot_ops(state_first, rest) is Some);
        assert(slot_step(state_first, rest[0]) is Some);
        assert(state_first == false);
        let after_first = rest.subrange(1, rest.len() as int);
        assert(run_slot_ops(true, after_first) is Some);
        // The operation at `first + 1` runs on an occupied slot.
        assert(after_first[0] == ops[first + 1]);
        let next_op = ops[first + 1];
        if first + 1 == second {
            assert(next_op is Send);
            assert(slot_step(true, next_op) is None);
        } else {
            assert(!(next_op is Acknowledge));
            assert(next_op is Send) by {
                match next_op {
                    SlotOp::Send => {},
                    SlotOp::Acknowledge => {},
                }
            }
            assert(slot_step(true, next_op) is None);
        }
        assert(run_slot_ops(true, after_first) is None);
    }
}

} // verus!
