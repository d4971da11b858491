use hello_relay::broadcaster::Broadcaster;
use hello_relay::relay::run_feed_relay;

#[test]
fn publish_without_subscribers_succeeds() {
    let mut hub = Broadcaster::with_capacity(4);
    hub.broadcast("nobody listens");
}

#[test]
fn subscription_gets_no_replay_of_earlier_publishes() {
    let mut hub = Broadcaster::with_capacity(4);
    hub.broadcast("before");
    let feed = hub.subscribe();
    assert_eq!(hub.recv(feed), None);
    hub.broadcast("after");
    assert_eq!(hub.recv(feed), Some("after".to_string()));
    assert_eq!(hub.recv(feed), None);
}

#[test]
fn slow_subscriber_observes_gaps_not_a_stalled_publisher() {
    let mut hub = Broadcaster::with_capacity(3);
    let stalled = hub.subscribe();
    // Seven publishes while the subscriber consumes nothing: every publish
    // returns at once, and only the last three texts survive, in order.
    for text in ["a", "b", "c", "d", "e", "f", "g"] {
        hub.broadcast(text);
    }
    assert_eq!(hub.recv(stalled), Some("e".to_string()));
    assert_eq!(hub.recv(stalled), Some("f".to_string()));
    assert_eq!(hub.recv(stalled), Some("g".to_string()));
    assert_eq!(hub.recv(stalled), None);
}

#[test]
fn one_stalled_subscriber_does_not_slow_the_others() {
    let mut hub = Broadcaster::with_capacity(2);
    let stalled = hub.subscribe();
    let lively = hub.subscribe();
    for text in ["a", "b", "c", "d"] {
        hub.broadcast(text);
        // The lively subscriber keeps up and misses nothing.
        assert_eq!(hub.recv(lively), Some(text.to_string()));
    }
    // The stalled one sees only the newest two: a gap, not backpressure.
    assert_eq!(hub.recv(stalled), Some("c".to_string()));
    assert_eq!(hub.recv(stalled), Some("d".to_string()));
    assert_eq!(hub.recv(stalled), None);
}

#[test]
fn closing_one_subscription_leaves_the_others_alone() {
    let mut hub = Broadcaster::with_capacity(4);
    let first = hub.subscribe();
    let second = hub.subscribe();
    hub.broadcast("one");
    hub.unsubscribe(first);
    hub.broadcast("two");
    assert_eq!(hub.recv(first), None);
    assert_eq!(hub.recv(second), Some("one".to_string()));
    assert_eq!(hub.recv(second), Some("two".to_string()));
    assert_eq!(hub.recv(second), None);
}

#[test]
fn feed_relay_forwards_pending_texts_in_order() {
    let mut hub = Broadcaster::with_capacity(8);
    let feed = hub.subscribe();
    hub.broadcast("x");
    hub.broadcast("y");
    hub.broadcast("z");
    let sent = run_feed_relay(&mut hub, feed, 10);
    assert_eq!(
        sent,
        vec!["x".to_string(), "y".to_string(), "z".to_string()]
    );
    assert_eq!(hub.recv(feed), None);
}

#[test]
fn feed_relay_with_nothing_deliverable_sends_nothing() {
    let mut hub = Broadcaster::with_capacity(8);
    let feed = hub.subscribe();
    hub.broadcast("x");
    let sent = run_feed_relay(&mut hub, feed, 0);
    assert_eq!(sent, Vec::<String>::new());
    assert_eq!(hub.recv(feed), Some("x".to_string()));
}

#[test]
fn feed_relay_stops_when_the_peer_stops_taking_sends() {
    let mut hub = Broadcaster::with_capacity(8);
    let feed = hub.subscribe();
    hub.broadcast("x");
    hub.broadcast("y");
    hub.broadcast("z");
    let sent = run_feed_relay(&mut hub, feed, 2);
    assert_eq!(sent, vec!["x".to_string(), "y".to_string()]);
    // The undelivered remainder is still pending, in order.
    assert_eq!(hub.recv(feed), Some("z".to_string()));
}
