//! The publish coordinator: fans a batch of events out to the broker with
//! bounded concurrency and collects one outcome per event, in submission
//! order. The coordinator itself is a state machine over per-event slots;
//! the caller performs the broker round trips and reports each result back.
//!
//! A serialization failure is recorded at batch creation and affects only
//! its own event; every other event is handed out for publishing exactly
//! once, and the batch is complete when every slot has resolved.

use vstd::prelude::*;

use crate::codec::encode_event_checked;
use crate::codec::wire_event;
use crate::event::Event;

verus! {

/// The resolution of one event's publish attempt.
#[derive(Debug, PartialEq, Eq)]
pub enum PublishOutcome {
    /// The broker accepted the message and assigned it this identifier.
    Published { message_id: String },
    /// The event could not be encoded; it was never sent.
    SerializationFailure,
    /// The broker round trip for this event failed.
    PublishFailure { reason: String },
}

/// The per-event slot of a batch.
#[derive(Debug)]
pub enum Slot {
    /// Serialized and waiting for a free concurrency slot.
    Pending { payload: String },
    /// Handed out for a broker round trip whose result is still owed.
    InFlight,
    /// Resolved.
    Done { outcome: PublishOutcome },
}

/// The outcome stored in a resolved slot.
pub open spec fn slot_outcome(s: Slot) -> PublishOutcome {
    match s {
        Slot::Done { outcome } => outcome,
        _ => PublishOutcome::SerializationFailure,
    }
}

/// How many slots are currently handed out.
pub open spec fn count_in_flight(s: Seq<Slot>) -> int
    decreases s.len(),
{
    if s.len() == 0 {
        0
    } else {
        count_in_flight(s.drop_last()) + if s.last() is InFlight {
            1int
        } else {
            0int
        }
    }
}

/// How many events of a batch cannot be serialized.
pub open spec fn count_unserializable(events: Seq<Event>) -> int
    decreases events.len(),
{
    if events.len() == 0 {
        0
    } else {
        count_unserializable(events.drop_last()) + if !events.last().wf() {
            1int
        } else {
            0int
        }
    }
}

/// How many outcomes report a serialization failure.
pub open spec fn count_ser_failures(outs: Seq<PublishOutcome>) -> int
    decreases outs.len(),
{
    if outs.len() == 0 {
        0
    } else {
        count_ser_failures(outs.drop_last()) + if outs.last() is SerializationFailure {
            1int
        } else {
            0int
        }
    }
}

proof fn lemma_count_in_flight_push(s: Seq<Slot>, v: Slot)
    ensures
        count_in_flight(s.push(v)) == count_in_flight(s) + if v is InFlight {
            1int
        } else {
            0int
        },
{
    assert(s.push(v).drop_last() =~= s);
}

proof fn lemma_count_in_flight_update(s: Seq<Slot>, i: int, v: Slot)
    requires
        0 <= i < s.len(),
    ensures
        count_in_flight(s.update(i, v)) == count_in_flight(s) - (if s[i] is InFlight {
            1int
        } else {
            0int
        }) + (if v is InFlight {
            1int
        } else {
            0int
        }),
    decreases s.len(),
{
    let t = s.update(i, v);
    if i == s.len() - 1 {
        assert(t.drop_last() =~= s.drop_last());
    } else {
        assert(t.drop_last() =~= s.drop_last().update(i, v));
        lemma_count_in_flight_update(s.drop_last(), i, v);
    }
}

proof fn lemma_count_in_flight_nonneg(s: Seq<Slot>)
    ensures
        count_in_flight(s) >= 0,
    decreases s.len(),
{
    if s.len() > 0 {
        lemma_count_in_flight_nonneg(s.drop_last());
    }
}

/// The slot of an event agrees with that event: an unserializable event is
/// resolved as a serialization failure from the start, and every other
/// event's slot carries (or carried) exactly its wire form.
pub open spec fn slot_matches(s: Slot, e: Event) -> bool {
    match s {
        Slot::Pending { payload } => e.wf() && payload@ == wire_event(
            e.timestamp@,
            e.source@,
            e.event_type@,
            e.payload@,
        ),
        Slot::InFlight => e.wf(),
        Slot::Done { outcome } => (outcome is SerializationFailure <==> !e.wf()),
    }
}

/// A batch of publish operations with bounded concurrency.
///
/// `limit` bounds how many slots may be handed out at once; an effectively
/// unbounded batch passes `usize::MAX`. The ghost `events` field remembers
/// the batch's events, so that every outcome stays attributable to its own
/// event.
pub struct PublishBatch {
    pub slots: Vec<Slot>,
    pub in_flight: usize,
    pub limit: usize,
    pub events: Ghost<Seq<Event>>,
}

impl PublishBatch {
    /// The coordinator's invariant.
    pub open spec fn wf(self) -> bool {
        &&& self.limit >= 1
        &&& self.in_flight as int == count_in_flight(self.slots@)
        &&& self.in_flight <= self.limit
        &&& self.slots@.len() == self.events@.len()
        &&& forall|i: int|
            0 <= i < self.slots@.len() ==> slot_matches(#[trigger] self.slots@[i], self.events@[i])
    }

    /// Opens a batch: serializes every event, records a
    /// `SerializationFailure` outcome for each event that cannot be encoded,
    /// and queues the rest. No publish is dispatched yet.
    pub fn new(events: &Vec<Event>, limit: usize) -> (b: PublishBatch)
        requires
            limit >= 1,
        ensures
            b.wf(),
            b.events@ == events@,
            b.slots@.len() == events@.len(),
            b.in_flight == 0,
            forall|i: int|
                0 <= i < events@.len() ==> ((#[trigger] b.slots@[i]) is Done <==> !events@[i].wf()),
    {
        let n = events.len();
        let mut slots: Vec<Slot> = Vec::new();
        let mut k: usize = 0;
        while k < n
            invariant
                0 <= k <= n,
                n == events@.len(),
                slots@.len() == k,
                count_in_flight(slots@) == 0,
                forall|i: int| 0 <= i < k ==> slot_matches(#[trigger] slots@[i], events@[i]),
                forall|i: int| 0 <= i < k ==> ((#[trigger] slots@[i]) is Done <==> !events@[i].wf()),
            decreases n - k,
        {
            let slot = match encode_event_checked(&events[k]) {
                Some(payload) => Slot::Pending { payload },
                None => Slot::Done { outcome: PublishOutcome::SerializationFailure },
            };
            proof {
                lemma_count_in_flight_push(slots@, slot);
            }
            slots.push(slot);
            k += 1;
        }
        PublishBatch { slots, in_flight: 0, limit, events: Ghost(events@) }
    }

    /// Hands out the next queued payload if a concurrency slot is free:
    /// the first pending event, marked in flight. Returns `None` when the
    /// concurrency limit is reached or nothing is pending.
    pub fn dispatch(&mut self) -> (r: Option<(usize, String)>)
        requires
            old(self).wf(),
        ensures
            final(self).wf(),
            final(self).limit == old(self).limit,
            final(self).events@ == old(self).events@,
            final(self).slots@.len() == old(self).slots@.len(),
            match r {
                Some(p) => {
                    &&& old(self).in_flight < old(self).limit
                    &&& 0 <= p.0 < old(self).slots@.len()
                    &&& old(self).slots@[p.0 as int] matches Slot::Pending { payload }
                        && payload@ == p.1@
                    &&& forall|k: int| 0 <= k < p.0 ==> !((#[trigger] old(self).slots@[k]) is Pending)
                    &&& final(self).slots@ == old(self).slots@.update(p.0 as int, Slot::InFlight)
                    &&& final(self).in_flight == old(self).in_flight + 1
                },
                None => {
                    &&& *final(self) == *old(self)
                    &&& (old(self).in_flight == old(self).limit || forall|k: int|
                        0 <= k < old(self).slots@.len() ==> !((#[trigger] old(self).slots@[k])
                            is Pending))
                },
            },
    {
        if self.in_flight >= self.limit {
            return None;
        }
        let n = self.slots.len();
        let mut k: usize = 0;
        while k < n
            invariant
                0 <= k <= n,
                n == self.slots@.len(),
                *self == *old(self),
                self.wf(),
                self.in_flight < self.limit,
                forall|i: int| 0 <= i < k ==> !((#[trigger] self.slots@[i]) is Pending),
            decreases n - k,
        {
            let payload_opt: Option<String> = match &self.slots[k] {
                Slot::Pending { payload } => Some(payload.clone()),
                _ => None,
            };
            if let Some(payload) = payload_opt {
                proof {
                    lemma_count_in_flight_update(self.slots@, k as int, Slot::InFlight);
                }
                self.slots.set(k, Slot::InFlight);
                self.in_flight = self.in_flight + 1;
                return Some((k, payload));
            }
            k += 1;
        }
        None
    }

    /// Resolves one in-flight publish with the broker's answer: a message
    /// identifier on success, a failure reason otherwise. Only that event's
    /// slot changes.
    pub fn complete(&mut self, index: usize, result: Result<String, String>)
        requires
            old(self).wf(),
            index < old(self).slots@.len(),
            old(self).slots@[index as int] is InFlight,
        ensures
            final(self).wf(),
            final(self).limit == old(self).limit,
            final(self).events@ == old(self).events@,
            final(self).in_flight == old(self).in_flight - 1,
            final(self).slots@ == old(self).slots@.update(
                index as int,
                Slot::Done {
                    outcome: match result {
                        Ok(id) => PublishOutcome::Published { message_id: id },
                        Err(reason) => PublishOutcome::PublishFailure { reason },
                    },
                },
            ),
    {
        let outcome = match result {
            Ok(id) => PublishOutcome::Published { message_id: id },
            Err(reason) => PublishOutcome::PublishFailure { reason },
        };
        proof {
            lemma_count_in_flight_update(self.slots@, index as int, Slot::Done { outcome });
            lemma_count_in_flight_nonneg(
                self.slots@.update(index as int, Slot::Done { outcome }),
            );
        }
        self.slots.set(index, Slot::Done { outcome });
        self.in_flight = self.in_flight - 1;
    }

    /// Whether every event of the batch has resolved to an outcome.
    pub fn is_complete(&self) -> (b: bool)
        ensures
            b == (forall|i: int| 0 <= i < self.slots@.len() ==> (#[trigger] self.slots@[i]) is Done),
    {
        let n = self.slots.len();
        let mut k: usize = 0;
        while k < n
            invariant
                0 <= k <= n,
                n == self.slots@.len(),
                forall|i: int| 0 <= i < k ==> (#[trigger] self.slots@[i]) is Done,
            decreases n - k,
        {
            let done = match &self.slots[k] {
                Slot::Done { .. } => true,
                _ => false,
            };
            if !done {
                return false;
            }
            k += 1;
        }
        true
    }

    /// Consumes a completed batch and returns one outcome per event, in
    /// submission order. An outcome reports a serialization failure exactly
    /// for the events that could not be encoded; every other event was
    /// attempted and resolved by the broker round trip.
    pub fn outcomes(self) -> (r: Vec<PublishOutcome>)
        requires
            self.wf(),
            forall|i: int| 0 <= i < self.slots@.len() ==> (#[trigger] self.slots@[i]) is Done,
        ensures
            r@.len() == self.events@.len(),
            forall|i: int| 0 <= i < r@.len() ==> r@[i] == slot_outcome(#[trigger] self.slots@[i]),
            forall|i: int|
                0 <= i < r@.len() ==> ((#[trigger] r@[i]) is SerializationFailure <==> !self.events@[
                    i
                ].wf()),
    {
        let ghost orig = self.slots@;
        let mut slots = self.slots;
        let mut out: Vec<PublishOutcome> = Vec::new();
        let mut k: usize = 0;
        let n = slots.len();
        while k < n
            invariant
                0 <= k <= n,
                n == orig.len(),
                slots@ =~= orig.skip(k as int),
                out@.len() == k,
                forall|i: int| 0 <= i < n ==> (#[trigger] orig[i]) is Done,
                forall|i: int| 0 <= i < k ==> out@[i] == slot_outcome(#[trigger] orig[i]),
            decreases n - k,
        {
            proof {
                assert(orig[k as int] is Done);
            }
            let slot = slots.remove(0);
            let outcome = match slot {
                Slot::Done { outcome } => outcome,
                _ => PublishOutcome::SerializationFailure,
            };
            out.push(outcome);
            k += 1;
            proof {
                assert(slots@ =~= orig.skip(k as int));
            }
        }
        proof {
            assert forall|i: int|
                0 <= i < out@.len() implies ((#[trigger] out@[i]) is SerializationFailure <==> !self
                .events@[i].wf()) by {
                assert(slot_matches(self.slots@[i], self.events@[i]));
            }
        }
        out
    }
}

/// Batch-publish isolation: for a completed batch over `events`, the number
/// of outcomes reporting a serialization failure equals the number of events
/// that cannot be serialized — given that outcomes and events agree
/// pointwise, as [`PublishBatch::outcomes`] ensures.
pub proof fn lemma_batch_isolation(outs: Seq<PublishOutcome>, events: Seq<Event>)
    requires
        outs.len() == events.len(),
        forall|i: int|
            0 <= i < outs.len() ==> ((#[trigger] outs[i]) is SerializationFailure <==> !events[
                i
            ].wf()),
    ensures
        count_ser_failures(outs) == count_unserializable(events),
    decreases outs.len(),
{
    if outs.len() > 0 {
        lemma_batch_isolation(outs.drop_last(), events.drop_last());
    }
}

} // verus!
