use event_relay::provision::needs_create;
use event_relay::provision::Subscriptions;
use event_relay::provision::Topology;

#[test]
fn ensure_topic_twice_creates_once() {
    let mut topology = Topology::new();
    let first = topology.ensure_name("events-topic".to_string());
    assert!(first, "first call must create the topic");
    let second = topology.ensure_name("events-topic".to_string());
    assert!(!second, "second call must be a no-op");
    assert_eq!(topology.names.len(), 1, "one topic, not two");
    assert!(topology.contains(&"events-topic".to_string()));
}

#[test]
fn distinct_names_are_provisioned_separately() {
    let mut topology = Topology::new();
    assert!(topology.ensure_name("events-topic".to_string()));
    assert!(topology.ensure_name("transformed-events-topic".to_string()));
    assert!(!topology.ensure_name("events-topic".to_string()));
    assert_eq!(topology.names.len(), 2);
}

#[test]
fn creation_follows_the_existence_query() {
    assert!(needs_create(false));
    assert!(!needs_create(true));
}

#[test]
fn ensure_subscription_twice_creates_once() {
    let mut subs = Subscriptions::new();
    let topic = "projects/local-project/topics/events-topic".to_string();
    assert!(subs.ensure_subscription("transformer-subscription".to_string(), topic.clone()));
    assert!(!subs.ensure_subscription("transformer-subscription".to_string(), topic));
    assert_eq!(subs.entries.len(), 1);
    assert_eq!(subs.entries[0].name, "transformer-subscription");
    assert_eq!(
        subs.entries[0].topic,
        "projects/local-project/topics/events-topic"
    );
}
