use event_relay::event::generate_event;
use event_relay::event::generate_event_at;
use event_relay::event::transform_event;
use event_relay::event::transform_event_at;

const TRIPLES: [(&str, &str, &str); 3] = [
    ("marketing", "click", "User clicked on ad"),
    ("user_activity", "login", "User logged in"),
    ("monitoring", "error", "CPU usage high"),
];

#[test]
fn generated_triples_are_coherent() {
    for (i, (src, et, pl)) in TRIPLES.iter().enumerate() {
        let e = generate_event_at(i, "2024-01-01T00:00:00+00:00".to_string());
        assert_eq!(e.timestamp, "2024-01-01T00:00:00+00:00");
        assert_eq!(e.source, *src);
        assert_eq!(e.event_type, *et);
        assert_eq!(e.payload, *pl);
    }
}

#[test]
fn random_generation_stays_in_vocabulary() {
    for _ in 0..50 {
        let e = generate_event();
        let coherent = TRIPLES
            .iter()
            .any(|(src, et, pl)| e.source == *src && e.event_type == *et && e.payload == *pl);
        assert!(coherent, "mismatched triple: {:?}", e);
        assert!(!e.timestamp.is_empty());
    }
}

#[test]
fn transform_remaps_fields() {
    let e = generate_event_at(1, "2024-01-01T00:00:00+00:00".to_string());
    let t = transform_event_at(e.clone(), "2024-01-02T00:00:00+00:00".to_string());
    assert_eq!(t.processed_at, "2024-01-02T00:00:00+00:00");
    assert_eq!(t.original_source, e.source);
    assert_eq!(t.kind, e.event_type);
    assert_eq!(t.details, e.payload);
    assert!(t.local_transformer);
    assert!(t.processed_at >= e.timestamp);
}

#[test]
fn transform_with_clock_remaps_fields() {
    let e = generate_event_at(0, "2024-01-01T00:00:00+00:00".to_string());
    let t = transform_event(e.clone());
    assert_eq!(t.original_source, e.source);
    assert_eq!(t.kind, e.event_type);
    assert_eq!(t.details, e.payload);
    assert!(t.local_transformer);
    assert!(!t.processed_at.is_empty());
}
