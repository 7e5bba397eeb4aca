use event_relay::batch::PublishBatch;
use event_relay::batch::PublishOutcome;
use event_relay::event::generate_event_at;
use event_relay::event::Event;

fn good_event(i: usize) -> Event {
    generate_event_at(i % 3, format!("2024-01-01T00:00:{:02}+00:00", i))
}

fn bad_event() -> Event {
    Event {
        timestamp: "2024-01-01T00:00:00+00:00".to_string(),
        source: "user_activity".to_string(),
        event_type: "login".to_string(),
        payload: "a \"quoted\" word".to_string(),
    }
}

/// Drives a batch to completion, answering every dispatched publish with
/// `answer(index)`.
fn drive(
    events: &Vec<Event>,
    limit: usize,
    answer: impl Fn(usize) -> Result<String, String>,
) -> Vec<PublishOutcome> {
    let mut batch = PublishBatch::new(events, limit);
    let mut in_flight: Vec<(usize, String)> = Vec::new();
    loop {
        while let Some((i, payload)) = batch.dispatch() {
            assert!(in_flight.len() < limit, "concurrency limit exceeded");
            in_flight.push((i, payload));
        }
        match in_flight.pop() {
            Some((i, _payload)) => batch.complete(i, answer(i)),
            None => break,
        }
    }
    assert!(batch.is_complete());
    batch.outcomes()
}

#[test]
fn batch_isolates_serialization_failures() {
    let events = vec![good_event(0), bad_event(), good_event(2), bad_event(), good_event(4)];
    let outcomes = drive(&events, 2, |i| Ok(format!("id-{}", i)));
    assert_eq!(outcomes.len(), 5);
    let failures: Vec<usize> = outcomes
        .iter()
        .enumerate()
        .filter(|(_, o)| matches!(o, PublishOutcome::SerializationFailure))
        .map(|(i, _)| i)
        .collect();
    assert_eq!(failures, vec![1, 3]);
    for (i, o) in outcomes.iter().enumerate() {
        if i != 1 && i != 3 {
            assert_eq!(*o, PublishOutcome::Published { message_id: format!("id-{}", i) });
        }
    }
}

#[test]
fn five_events_concurrency_two() {
    let events: Vec<Event> = (0..5).map(good_event).collect();
    let outcomes = drive(&events, 2, |i| {
        if i == 3 {
            Err("broker rejected".to_string())
        } else {
            Ok(format!("msg-{}", i))
        }
    });
    assert_eq!(outcomes.len(), 5);
    let mut processed = 0;
    for o in &outcomes {
        match o {
            PublishOutcome::Published { message_id } => {
                assert!(!message_id.is_empty());
                processed += 1;
            }
            PublishOutcome::PublishFailure { reason } => {
                assert!(!reason.is_empty());
                processed += 1;
            }
            PublishOutcome::SerializationFailure => panic!("no serialization failure expected"),
        }
    }
    assert_eq!(processed, 5);
}

#[test]
fn dispatch_respects_concurrency_limit() {
    let events: Vec<Event> = (0..4).map(good_event).collect();
    let mut batch = PublishBatch::new(&events, 2);
    let first = batch.dispatch();
    let second = batch.dispatch();
    assert!(first.is_some());
    assert!(second.is_some());
    assert!(batch.dispatch().is_none(), "third dispatch must wait for a free slot");
    let (i, _) = first.unwrap();
    batch.complete(i, Ok("id".to_string()));
    assert!(batch.dispatch().is_some(), "freed slot must be reusable");
}

#[test]
fn per_event_failure_does_not_abort_batch() {
    let events: Vec<Event> = (0..3).map(good_event).collect();
    let outcomes = drive(&events, 3, |i| {
        if i == 0 {
            Err("timeout".to_string())
        } else {
            Ok(format!("ok-{}", i))
        }
    });
    assert_eq!(outcomes.len(), 3);
    assert_eq!(outcomes[0], PublishOutcome::PublishFailure { reason: "timeout".to_string() });
    assert_eq!(outcomes[1], PublishOutcome::Published { message_id: "ok-1".to_string() });
    assert_eq!(outcomes[2], PublishOutcome::Published { message_id: "ok-2".to_string() });
}

#[test]
fn unbounded_batch_dispatches_everything_at_once() {
    let events: Vec<Event> = (0..10).map(good_event).collect();
    let mut batch = PublishBatch::new(&events, usize::MAX);
    let mut handed_out = 0;
    while let Some(_) = batch.dispatch() {
        handed_out += 1;
    }
    assert_eq!(handed_out, 10);
}
