//! The relay: each message pulled from the input subscription is
//! deserialized, transformed, republished to the output topic, and only
//! then acknowledged. A message that fails to deserialize or to republish
//! is left unacknowledged, so the broker redelivers it (at-least-once
//! relay); the loop itself moves on to the next message either way.
//!
//! The broker round trips (pull, publish, acknowledge) are the caller's;
//! this module decides, for every possible answer of the broker, what the
//! relay does next.

use vstd::prelude::*;

use crate::codec::decode_event;
use crate::codec::encode_transformed;
use crate::codec::parse_event_chars;
use crate::codec::wire_transformed;
use crate::event::field_ok;
use crate::event::transform_event_at;

verus! {

/// A message's progress through the relay, one state per stage.
#[derive(Debug, PartialEq, Eq)]
pub enum MessageStage {
    /// The message bytes are not the wire form of any event; the message
    /// stays unacknowledged and the loop moves on.
    FailedDeserialize,
    /// Deserialized and transformed; this payload is owed to the output
    /// topic before the message may be acknowledged.
    ReadyToPublish { payload: String },
    /// The republish round trip failed; the message stays unacknowledged.
    FailedRepublish { reason: String },
    /// The transformed payload was durably published; the message may be
    /// acknowledged now.
    Republished,
}

/// Deserializes message text, transforms the event, and serializes the
/// derived form: the single decision between "republish this payload" and
/// "leave the message and move on".
pub fn plan_message(msg: &str, processed_at: String) -> (r: MessageStage)
    requires
        field_ok(processed_at@),
    ensures
        match parse_event_chars(msg@) {
            Some(f) => r matches MessageStage::ReadyToPublish { payload } && payload@
                == wire_transformed(processed_at@, f.1, f.2, f.3, true),
            None => r == MessageStage::FailedDeserialize,
        },
{
    match decode_event(msg) {
        Some(event) => {
            let transformed = transform_event_at(event, processed_at);
            let payload = encode_transformed(&transformed);
            MessageStage::ReadyToPublish { payload }
        },
        None => MessageStage::FailedDeserialize,
    }
}

/// Resolves the republish round trip: the message is republished on
/// success and marked failed otherwise.
pub fn after_publish(stage: MessageStage, result: Result<String, String>) -> (r: MessageStage)
    requires
        stage is ReadyToPublish,
    ensures
        match result {
            Ok(_) => r == MessageStage::Republished,
            Err(reason) => (r matches MessageStage::FailedRepublish { reason: rr } && rr@
                == reason@),
        },
{
    match result {
        Ok(_) => MessageStage::Republished,
        Err(reason) => MessageStage::FailedRepublish { reason },
    }
}

/// The acknowledgment gate: a message may be acknowledged exactly when its
/// transformed counterpart has been republished.
pub fn may_acknowledge(stage: &MessageStage) -> (b: bool)
    ensures
        b == (*stage is Republished),
{
    match stage {
        MessageStage::Republished => true,
        _ => false,
    }
}

/// Relay safety: a message that failed to republish, or never deserialized,
/// is never acknowledged; acknowledgment follows `Republished` alone.
pub proof fn lemma_no_ack_without_republish(stage: MessageStage)
    requires
        stage is FailedRepublish || stage is FailedDeserialize || stage is ReadyToPublish,
    ensures
        !(stage is Republished),
{
}

/// The loop's continuation rule: the relay keeps pulling messages until the
/// stream ends or cancellation is observed, and checks for cancellation at
/// the wait-for-next-message point.
pub fn loop_continues(cancelled: bool, stream_ended: bool) -> (b: bool)
    ensures
        b == (!cancelled && !stream_ended),
{
    !cancelled && !stream_ended
}

} // verus!
