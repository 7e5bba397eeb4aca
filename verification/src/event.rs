//! The event model: raw events drawn from a fixed vocabulary of coherent
//! (source, event_type, payload) triples, and the pure transform that maps a
//! raw event to its derived form.

use vstd::prelude::*;

verus! {

/// A raw event as carried on the wire.
///
/// The three descriptive fields of a generated event always form one of the
/// vocabulary's coherent triples; see [`coherent_event`].
#[derive(Clone, Debug, PartialEq, Eq)]
pub struct Event {
    pub timestamp: String,
    pub source: String,
    pub event_type: String,
    pub payload: String,
}

/// The derived form of an event produced by the relay's transform step.
#[derive(Clone, Debug, PartialEq, Eq)]
pub struct TransformedEvent {
    pub processed_at: String,
    pub original_source: String,
    pub kind: String,
    pub details: String,
    pub local_transformer: bool,
}

/// A string may stand in a wire field when it contains no double quote, no
/// backslash and no control character: exactly the characters JSON admits
/// in a string without escaping, so the codec needs none.
pub open spec fn field_ok(s: Seq<char>) -> bool {
    forall|i: int| 0 <= i < s.len() ==> s[i] != '"' && s[i] != '\\' && (s[i] as u32) >= 32
}

impl Event {
    /// All four fields are valid wire fields.
    pub open spec fn wf(self) -> bool {
        field_ok(self.timestamp@) && field_ok(self.source@) && field_ok(self.event_type@)
            && field_ok(self.payload@)
    }
}

impl TransformedEvent {
    /// All four string fields are valid wire fields.
    pub open spec fn wf(self) -> bool {
        field_ok(self.processed_at@) && field_ok(self.original_source@) && field_ok(self.kind@)
            && field_ok(self.details@)
    }
}

/// Number of coherent triples in the vocabulary.
pub open spec fn vocab_len() -> int {
    3
}

/// Source name of vocabulary entry `i`.
pub open spec fn vocab_source(i: int) -> Seq<char> {
    if i == 0 {
        "marketing"@
    } else if i == 1 {
        "user_activity"@
    } else {
        "monitoring"@
    }
}

/// Event type of vocabulary entry `i`.
pub open spec fn vocab_event_type(i: int) -> Seq<char> {
    if i == 0 {
        "click"@
    } else if i == 1 {
        "login"@
    } else {
        "error"@
    }
}

/// Payload text of vocabulary entry `i`.
pub open spec fn vocab_payload(i: int) -> Seq<char> {
    if i == 0 {
        "User clicked on ad"@
    } else if i == 1 {
        "User logged in"@
    } else {
        "CPU usage high"@
    }
}

/// The event's descriptive fields form the coherent triple at one single
/// vocabulary index: they are never mixed across indices.
pub open spec fn coherent_event(e: Event) -> bool {
    exists|i: int|
        0 <= i < vocab_len() && e.source@ == vocab_source(i) && e.event_type@
            == vocab_event_type(i) && e.payload@ == vocab_payload(i)
}

/// Builds the event for vocabulary entry `index` with the given generation
/// timestamp: the deterministic core of event generation.
pub fn generate_event_at(index: usize, timestamp: String) -> (e: Event)
    requires
        0 <= index < vocab_len(),
        field_ok(timestamp@),
    ensures
        e.timestamp@ == timestamp@,
        e.source@ == vocab_source(index as int),
        e.event_type@ == vocab_event_type(index as int),
        e.payload@ == vocab_payload(index as int),
        coherent_event(e),
        e.wf(),
{
    let source: &str = if index == 0 {
        "marketing"
    } else if index == 1 {
        "user_activity"
    } else {
        "monitoring"
    };
    let event_type: &str = if index == 0 {
        "click"
    } else if index == 1 {
        "login"
    } else {
        "error"
    };
    let payload: &str = if index == 0 {
        "User clicked on ad"
    } else if index == 1 {
        "User logged in"
    } else {
        "CPU usage high"
    };
    let e = Event {
        timestamp,
        source: source.to_owned(),
        event_type: event_type.to_owned(),
        payload: payload.to_owned(),
    };
    proof {
        lemma_vocab_fields_ok();
        assert(field_ok(vocab_source(index as int)));
        assert(field_ok(vocab_event_type(index as int)));
        assert(field_ok(vocab_payload(index as int)));
    }
    e
}

/// Every vocabulary string is a valid wire field.
pub proof fn lemma_vocab_fields_ok()
    ensures
        forall|i: int| 0 <= i < vocab_len() ==> #[trigger] field_ok(vocab_source(i)),
        forall|i: int| 0 <= i < vocab_len() ==> #[trigger] field_ok(vocab_event_type(i)),
        forall|i: int| 0 <= i < vocab_len() ==> #[trigger] field_ok(vocab_payload(i)),
{
    reveal_strlit("marketing");
    reveal_strlit("user_activity");
    reveal_strlit("monitoring");
    reveal_strlit("click");
    reveal_strlit("login");
    reveal_strlit("error");
    reveal_strlit("User clicked on ad");
    reveal_strlit("User logged in");
    reveal_strlit("CPU usage high");
}

/// Generates one synthetic event: a uniformly drawn vocabulary triple,
/// stamped with the current time. Whatever the draw and the clock return,
/// the result is a coherent, well-formed event.
pub fn generate_event() -> (e: Event)
    ensures
        coherent_event(e),
        e.wf(),
{
    let mut rng = crate::randomness::fresh_rng();
    let index = crate::randomness::draw_below(&mut rng, 3);
    let timestamp = crate::clock::now_rfc3339();
    generate_event_at(index, timestamp)
}

/// Lexicographic order on timestamp text. For RFC 3339 timestamps written
/// in one fixed offset, this order agrees with chronological order.
pub open spec fn lex_le(a: Seq<char>, b: Seq<char>) -> bool
    decreases a.len(),
{
    if a.len() == 0 {
        true
    } else if b.len() == 0 {
        false
    } else if a[0] == b[0] {
        lex_le(a.skip(1), b.skip(1))
    } else {
        (a[0] as u32) < (b[0] as u32)
    }
}

/// The pure, total transform: a field remap with a provenance flag, stamped
/// with the given processing time. No field is dropped and none is computed
/// from anything but the input event and the timestamp; in particular, when
/// the processing stamp is not before the event's own timestamp, neither is
/// the transformed event's.
pub fn transform_event_at(event: Event, processed_at: String) -> (t: TransformedEvent)
    ensures
        t.processed_at@ == processed_at@,
        t.original_source@ == event.source@,
        t.kind@ == event.event_type@,
        t.details@ == event.payload@,
        t.local_transformer == true,
        lex_le(event.timestamp@, processed_at@) ==> lex_le(event.timestamp@, t.processed_at@),
{
    TransformedEvent {
        processed_at,
        original_source: event.source,
        kind: event.event_type,
        details: event.payload,
        local_transformer: true,
    }
}

/// Transforms an event, stamping it with the current time: the total field
/// remap of [`transform_event_at`], whatever moment the clock returns.
pub fn transform_event(event: Event) -> (t: TransformedEvent)
    ensures
        t.original_source@ == event.source@,
        t.kind@ == event.event_type@,
        t.details@ == event.payload@,
        t.local_transformer == true,
        field_ok(t.processed_at@),
{
    let processed_at = crate::clock::now_rfc3339();
    transform_event_at(event, processed_at)
}

} // verus!
