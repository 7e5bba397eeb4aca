use event_relay::codec::decode_event;
use event_relay::codec::encode_event;
use event_relay::codec::encode_event_checked;
use event_relay::codec::encode_transformed;
use event_relay::event::Event;
use event_relay::event::TransformedEvent;

fn sample_event() -> Event {
    Event {
        timestamp: "2024-01-01T00:00:00+00:00".to_string(),
        source: "user_activity".to_string(),
        event_type: "login".to_string(),
        payload: "User logged in".to_string(),
    }
}

#[test]
fn encode_produces_expected_wire_text() {
    let w = encode_event(&sample_event());
    assert_eq!(
        w,
        "{\"timestamp\":\"2024-01-01T00:00:00+00:00\",\"source\":\"user_activity\",\
         \"event_type\":\"login\",\"payload\":\"User logged in\"}"
    );
}

#[test]
fn round_trip_preserves_every_field() {
    let e = sample_event();
    let w = encode_event(&e);
    let d = decode_event(&w).expect("wire form must decode");
    assert_eq!(d, e);
}

#[test]
fn round_trip_with_empty_fields() {
    let e = Event {
        timestamp: String::new(),
        source: String::new(),
        event_type: String::new(),
        payload: String::new(),
    };
    let w = encode_event(&e);
    let d = decode_event(&w).expect("wire form must decode");
    assert_eq!(d, e);
}

#[test]
fn decode_accepts_external_wire_text() {
    let raw = "{\"timestamp\":\"2024-01-01T00:00:00Z\",\"source\":\"user_activity\",\
               \"event_type\":\"login\",\"payload\":\"User logged in\"}";
    let e = decode_event(raw).expect("valid wire text must decode");
    assert_eq!(e.timestamp, "2024-01-01T00:00:00Z");
    assert_eq!(e.source, "user_activity");
    assert_eq!(e.event_type, "login");
    assert_eq!(e.payload, "User logged in");
}

#[test]
fn decode_rejects_malformed_text() {
    assert!(decode_event("not json").is_none());
    assert!(decode_event("").is_none());
    assert!(decode_event("{}").is_none());
    assert!(decode_event("{\"timestamp\":\"a\",\"source\":\"b\"}").is_none());
    let good = encode_event(&sample_event());
    assert!(decode_event(&format!("{} ", good)).is_none());
    assert!(decode_event(&good[..good.len() - 1]).is_none());
}

#[test]
fn unserializable_event_is_detected() {
    let mut e = sample_event();
    e.payload = "User \"logged\" in".to_string();
    assert!(encode_event_checked(&e).is_none());
    let mut e2 = sample_event();
    e2.source = "back\\slash".to_string();
    assert!(encode_event_checked(&e2).is_none());
    let mut e3 = sample_event();
    e3.payload = "line\nbreak".to_string();
    assert!(encode_event_checked(&e3).is_none());
    assert!(encode_event_checked(&sample_event()).is_some());
}

#[test]
fn transformed_wire_text_is_exact() {
    let t = TransformedEvent {
        processed_at: "2024-01-02T00:00:00+00:00".to_string(),
        original_source: "user_activity".to_string(),
        kind: "login".to_string(),
        details: "User logged in".to_string(),
        local_transformer: true,
    };
    let w = encode_transformed(&t);
    assert_eq!(
        w,
        "{\"processed_at\":\"2024-01-02T00:00:00+00:00\",\"original_source\":\"user_activity\",\
         \"kind\":\"login\",\"details\":\"User logged in\",\"local_transformer\":true}"
    );
}

#[test]
fn wire_text_is_valid_json_for_serde() {
    let w = encode_event(&sample_event());
    let v: serde_json::Value = serde_json::from_str(&w).expect("wire text must be JSON");
    assert_eq!(v.get("timestamp").and_then(|x| x.as_str()), Some("2024-01-01T00:00:00+00:00"));
    assert_eq!(v.get("source").and_then(|x| x.as_str()), Some("user_activity"));
    assert_eq!(v.get("event_type").and_then(|x| x.as_str()), Some("login"));
    assert_eq!(v.get("payload").and_then(|x| x.as_str()), Some("User logged in"));

    let t = TransformedEvent {
        processed_at: "2024-01-02T00:00:00+00:00".to_string(),
        original_source: "monitoring".to_string(),
        kind: "error".to_string(),
        details: "CPU usage high".to_string(),
        local_transformer: true,
    };
    let tv: serde_json::Value =
        serde_json::from_str(&encode_transformed(&t)).expect("wire text must be JSON");
    assert_eq!(tv.get("local_transformer").and_then(|x| x.as_bool()), Some(true));
    assert_eq!(tv.get("original_source").and_then(|x| x.as_str()), Some("monitoring"));
}
