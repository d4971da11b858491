use hello_relay::broadcaster::Broadcaster;
use hello_relay::greeter::{list_reply, MyGreeter};
use hello_relay::greeting::make_greeting;
use hello_relay::relay::{ReadEvent, StreamItem};
use hello_relay::store::{Db, DbError, Message};

fn fresh_greeter(capacity: usize) -> MyGreeter {
    MyGreeter::new(Db::new(), Broadcaster::with_capacity(capacity))
}

#[test]
fn greeting_is_exact() {
    assert_eq!(make_greeting("Alice"), "Hello Alice!");
    assert_eq!(make_greeting(""), "Hello !");
    assert_eq!(make_greeting("Bob Jr."), "Hello Bob Jr.!");
    assert_eq!(make_greeting("Žofia"), "Hello Žofia!");
}

#[test]
fn unary_send_replies_and_persists() {
    let mut greeter = fresh_greeter(16);
    let reply = greeter.say_hello("Alice");
    assert_eq!(reply, "Hello Alice!");
    assert_eq!(greeter.list_messages(), vec!["Hello Alice!".to_string()]);
}

#[test]
fn two_unary_sends_list_in_append_order() {
    let mut greeter = fresh_greeter(16);
    greeter.say_hello("Alice");
    greeter.say_hello("Bob");
    assert_eq!(
        greeter.list_messages(),
        vec!["Hello Alice!".to_string(), "Hello Bob!".to_string()]
    );
}

#[test]
fn feed_subscribed_before_sends_sees_both_in_order() {
    let mut greeter = fresh_greeter(16);
    let feed = greeter.list_messages_stream();
    greeter.say_hello("Alice");
    greeter.say_hello("Bob");
    assert_eq!(greeter.poll_feed(feed), Some("Hello Alice!".to_string()));
    assert_eq!(greeter.poll_feed(feed), Some("Hello Bob!".to_string()));
    assert_eq!(greeter.poll_feed(feed), None);
}

#[test]
fn feed_subscribed_between_sends_misses_the_earlier_one() {
    let mut greeter = fresh_greeter(16);
    greeter.say_hello("Alice");
    let feed = greeter.list_messages_stream();
    greeter.say_hello("Bob");
    assert_eq!(greeter.poll_feed(feed), Some("Hello Bob!".to_string()));
    assert_eq!(greeter.poll_feed(feed), None);
}

#[test]
fn stream_acknowledges_in_arrival_order() {
    let mut greeter = fresh_greeter(16);
    let inbound = vec![
        ReadEvent::Item("Ana".to_string()),
        ReadEvent::Item("Ben".to_string()),
        ReadEvent::Item("Cid".to_string()),
    ];
    let outbound = greeter.say_hello_stream(&inbound);
    let expected = ["Hello Ana!", "Hello Ben!", "Hello Cid!"];
    assert_eq!(outbound.len(), expected.len());
    for (item, want) in outbound.iter().zip(expected.iter()) {
        match item {
            StreamItem::Reply(ack) => assert_eq!(ack, want),
            StreamItem::Fault(_) => panic!("unexpected fault item"),
        }
    }
}

#[test]
fn stream_persists_names_and_feeds_them() {
    let mut greeter = fresh_greeter(16);
    let feed = greeter.list_messages_stream();
    let inbound = vec![
        ReadEvent::Item("Ana".to_string()),
        ReadEvent::Item("Ben".to_string()),
    ];
    greeter.say_hello_stream(&inbound);
    assert_eq!(
        greeter.list_messages(),
        vec!["Ana".to_string(), "Ben".to_string()]
    );
    assert_eq!(greeter.poll_feed(feed), Some("Ana".to_string()));
    assert_eq!(greeter.poll_feed(feed), Some("Ben".to_string()));
    assert_eq!(greeter.poll_feed(feed), None);
}

#[test]
fn empty_stream_closes_without_output() {
    let mut greeter = fresh_greeter(16);
    let outbound = greeter.say_hello_stream(&Vec::new());
    assert_eq!(outbound.len(), 0);
    assert_eq!(greeter.list_messages().len(), 0);
}

#[test]
fn list_reply_forwards_a_storage_failure() {
    let reply = list_reply(Err(DbError::Database));
    match reply {
        Err(err) => assert_eq!(err, DbError::Database),
        Ok(_) => panic!("a storage failure must propagate on the list path"),
    }
}

#[test]
fn list_reply_reports_texts_with_empty_default() {
    let rows = vec![
        Message { id: 1, message: Some("Hello Ada!".to_string()), updated: None },
        Message { id: 2, message: None, updated: Some(7) },
    ];
    let reply = list_reply(Ok(rows));
    match reply {
        Ok(texts) => assert_eq!(texts, vec!["Hello Ada!".to_string(), String::new()]),
        Err(_) => panic!("a successful read must be reported"),
    }
}

#[test]
fn closing_one_feed_leaves_other_connections_alone() {
    let mut greeter = fresh_greeter(16);
    let first = greeter.list_messages_stream();
    let second = greeter.list_messages_stream();
    greeter.say_hello("Ada");
    greeter.close_feed(first);
    greeter.say_hello("Eve");
    assert_eq!(greeter.poll_feed(first), None);
    assert_eq!(greeter.poll_feed(second), Some("Hello Ada!".to_string()));
    assert_eq!(greeter.poll_feed(second), Some("Hello Eve!".to_string()));
    assert_eq!(greeter.poll_feed(second), None);
    // The persisted history is untouched by the disconnect.
    assert_eq!(
        greeter.list_messages(),
        vec!["Hello Ada!".to_string(), "Hello Eve!".to_string()]
    );
}

#[test]
fn slow_feed_on_the_service_sees_only_recent_sends() {
    let mut greeter = fresh_greeter(2);
    let feed = greeter.list_messages_stream();
    for name in ["A", "B", "C", "D", "E"] {
        greeter.say_hello(name);
    }
    // Every send went through; the stalled feed kept only the last two.
    assert_eq!(greeter.list_messages().len(), 5);
    assert_eq!(greeter.poll_feed(feed), Some("Hello D!".to_string()));
    assert_eq!(greeter.poll_feed(feed), Some("Hello E!".to_string()));
    assert_eq!(greeter.poll_feed(feed), None);
}

#[test]
fn counts_track_store_and_feeds() {
    let mut greeter = fresh_greeter(16);
    assert_eq!(greeter.message_count(), 0);
    assert_eq!(greeter.feed_count(), 0);
    greeter.say_hello("Ada");
    let feed = greeter.list_messages_stream();
    assert_eq!(greeter.message_count(), 1);
    assert_eq!(greeter.feed_count(), 1);
    greeter.close_feed(feed);
    // A closed identity is never reused, so the count stays.
    assert_eq!(greeter.feed_count(), 1);
}

#[test]
fn store_ids_grow_monotonically() {
    let mut db = Db::new();
    let first = db.insert_message("one");
    let second = db.insert_message("two");
    assert_eq!(first.id, 1);
    assert_eq!(second.id, 2);
    assert_eq!(first.message, Some("one".to_string()));
    assert!(first.updated.is_none());
    let rows = db.get_messages();
    assert_eq!(rows.len(), 2);
    assert_eq!(rows[0].message, Some("one".to_string()));
    assert_eq!(rows[1].message, Some("two".to_string()));
}
