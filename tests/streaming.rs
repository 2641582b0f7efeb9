use spook_chat::chat::{send, stream_step, subscribe, ChatError, Event, StreamStep};
use spook_chat::permissions::{Denied, Permissions};
use spook_chat::registry::{Registry, SubscriberHandle};
use spook_chat::servers::{add_channel, delete_channel, PermissionError};
use spook_chat::topic::{Received, Slot, Topic, TOPIC_CAPACITY};

fn member() -> Option<Permissions> {
    Some(Permissions { manage_channels: false, manage_users: false, manage_invites: false, banned: false })
}

fn admin() -> Option<Permissions> {
    Some(Permissions { manage_channels: true, manage_users: true, manage_invites: true, banned: false })
}

fn forward(text: &str) -> StreamStep {
    StreamStep::Forward(Event { data: text.to_string() })
}

#[test]
fn subscriber_receives_each_message_once_in_order() {
    let mut t = Topic::new();
    let a = t.subscribe();
    let b = t.subscribe();
    t.publish("one".to_string());
    t.publish("two".to_string());
    assert_eq!(t.recv(a), Received::Message("one".to_string()));
    assert_eq!(t.recv(b), Received::Message("one".to_string()));
    assert_eq!(t.recv(b), Received::Message("two".to_string()));
    assert_eq!(t.recv(a), Received::Message("two".to_string()));
    assert_eq!(t.recv(a), Received::Empty);
    assert_eq!(t.recv(b), Received::Empty);
    assert_eq!(t.sent_count(), 2);
}

#[test]
fn late_subscriber_gets_no_backlog() {
    let mut t = Topic::new();
    t.publish("before".to_string());
    let s = t.subscribe();
    assert_eq!(t.recv(s), Received::Empty);
    t.publish("after".to_string());
    assert_eq!(t.recv(s), Received::Message("after".to_string()));
}

#[test]
fn publish_without_subscribers_succeeds() {
    let mut t = Topic::new();
    t.publish("nobody".to_string());
    assert_eq!(t.sent_count(), 1);
    let mut reg = Registry::new();
    reg.create(5);
    assert_eq!(send(&mut reg, 5, member(), "hello".to_string()), Ok(()));
    assert_eq!(reg.sent_count(5), Some(1));
}

#[test]
fn slow_subscriber_observes_overflow_then_continues() {
    let mut t = Topic::new();
    let s = t.subscribe();
    for i in 0..20 {
        t.publish(format!("m{}", i));
    }
    assert_eq!(TOPIC_CAPACITY, 15);
    assert_eq!(t.recv(s), Received::Lagged(5));
    assert_eq!(t.recv(s), Received::Message("m5".to_string()));
    t.publish("m20".to_string());
    for i in 6..21 {
        assert_eq!(t.recv(s), Received::Message(format!("m{}", i)));
    }
    assert_eq!(t.recv(s), Received::Empty);
}

#[test]
fn overflow_of_one_subscriber_does_not_affect_another() {
    let mut t = Topic::new();
    let slow = t.subscribe();
    let fast = t.subscribe();
    for i in 0..16 {
        t.publish(format!("m{}", i));
        assert_eq!(t.recv(fast), Received::Message(format!("m{}", i)));
    }
    assert_eq!(t.recv(slow), Received::Lagged(1));
    assert_eq!(t.recv(fast), Received::Empty);
}

#[test]
fn stream_skips_overflow_notice() {
    let mut reg = Registry::new();
    reg.create(1);
    let h = subscribe(&mut reg, 1, member()).unwrap();
    for i in 0..16 {
        send(&mut reg, 1, member(), format!("m{}", i)).unwrap();
    }
    assert_eq!(stream_step(&mut reg, h, true), StreamStep::Skip);
    assert_eq!(stream_step(&mut reg, h, true), forward("m1"));
}

#[test]
fn unsubscribed_slot_is_closed() {
    let mut t = Topic::new();
    let s = t.subscribe();
    t.unsubscribe(s);
    t.publish("x".to_string());
    assert_eq!(t.recv(s), Received::Closed);
    assert_eq!(t.recv(Slot { index: 99, generation: 0 }), Received::Closed);
    assert_eq!(t.slot_count(), 1);
}

#[test]
fn freed_slot_is_reused_and_stale_handle_stays_closed() {
    let mut t = Topic::new();
    let a = t.subscribe();
    let b = t.subscribe();
    t.unsubscribe(a);
    let c = t.subscribe();
    assert_eq!(c, Slot { index: a.index, generation: a.generation + 1 });
    assert_eq!(t.slot_count(), 2);
    t.publish("x".to_string());
    assert_eq!(t.recv(a), Received::Closed);
    assert_eq!(t.recv(c), Received::Message("x".to_string()));
    assert_eq!(t.recv(b), Received::Message("x".to_string()));
    for _ in 0..100 {
        let s = t.subscribe();
        t.unsubscribe(s);
    }
    assert_eq!(t.slot_count(), 3);
}

#[test]
fn deleting_channel_ends_attached_sessions() {
    let mut reg = Registry::new();
    reg.create(3);
    let h1 = subscribe(&mut reg, 3, member()).unwrap();
    let h2 = subscribe(&mut reg, 3, member()).unwrap();
    assert_eq!(stream_step(&mut reg, h1, true), StreamStep::Wait);
    assert!(reg.remove(3));
    assert!(!reg.contains(3));
    assert_eq!(stream_step(&mut reg, h1, true), StreamStep::End);
    assert_eq!(stream_step(&mut reg, h2, true), StreamStep::End);
    reg.create(3);
    send(&mut reg, 3, member(), "again".to_string()).unwrap();
    assert_eq!(stream_step(&mut reg, h1, true), StreamStep::End);
    assert!(!reg.remove(4));
}

#[test]
fn disconnect_releases_handle() {
    let mut reg = Registry::new();
    reg.create(2);
    let h = subscribe(&mut reg, 2, member()).unwrap();
    assert_eq!(stream_step(&mut reg, h, false), StreamStep::End);
    send(&mut reg, 2, member(), "late".to_string()).unwrap();
    assert_eq!(stream_step(&mut reg, h, true), StreamStep::End);
}

#[test]
fn stale_handle_from_other_topic_instance_is_closed() {
    let mut reg = Registry::new();
    reg.create(8);
    let h = SubscriberHandle { channel_id: 8, serial: 41, slot: Slot { index: 0, generation: 0 } };
    assert_eq!(reg.recv(h), Received::Closed);
}

#[test]
fn registry_create_is_idempotent() {
    let mut reg = Registry::new();
    reg.create(10);
    let h = reg.subscribe(10).unwrap();
    reg.create(10);
    assert!(reg.publish(10, "kept".to_string()));
    assert_eq!(reg.recv(h), Received::Message("kept".to_string()));
    assert!(!reg.publish(11, "lost".to_string()));
    assert_eq!(reg.sent_count(11), None);
    assert_eq!(reg.sent_count(10), Some(1));
    assert_eq!(reg.subscribe(11), None);
}

#[test]
fn seeded_registry_has_one_topic_per_channel() {
    let reg = Registry::seeded(&vec![1, 2, 2, 3]);
    assert!(reg.contains(1));
    assert!(reg.contains(2));
    assert!(reg.contains(3));
    assert!(!reg.contains(4));
    assert_eq!(reg.serials_left(), u64::MAX - 3);
}

#[test]
fn subscribe_and_send_errors() {
    let mut reg = Registry::new();
    assert_eq!(subscribe(&mut reg, 9, member()), Err(ChatError::NotFound));
    assert_eq!(send(&mut reg, 9, member(), "x".to_string()), Err(ChatError::NotFound));
    reg.create(9);
    assert_eq!(subscribe(&mut reg, 9, None), Err(ChatError::Forbidden(Denied::NoMembership)));
    let banned = Some(Permissions { manage_channels: false, manage_users: true, manage_invites: false, banned: true });
    assert_eq!(subscribe(&mut reg, 9, banned), Err(ChatError::Forbidden(Denied::Banned)));
    assert_eq!(send(&mut reg, 9, banned, "x".to_string()), Err(ChatError::Forbidden(Denied::Banned)));
    assert_eq!(ChatError::NotFound.status(), 404);
    assert_eq!(ChatError::NotFound.message(), "This channel does not exist");
    assert_eq!(ChatError::Forbidden(Denied::Banned).status(), 403);
}

#[test]
fn channel_management_needs_manage_channels() {
    let mut reg = Registry::new();
    assert_eq!(add_channel(&mut reg, member(), 4), Err(PermissionError::MissingPermissions));
    assert!(!reg.contains(4));
    assert_eq!(add_channel(&mut reg, admin(), 4), Ok(()));
    assert!(reg.contains(4));
    assert_eq!(delete_channel(&mut reg, None, 4), Err(PermissionError::NoEntry));
    assert!(reg.contains(4));
    assert_eq!(delete_channel(&mut reg, admin(), 4), Ok(()));
    assert!(!reg.contains(4));
}

#[test]
fn end_to_end_hello() {
    let mut reg = Registry::new();
    let server_a_row = admin();
    let channel: u128 = 0x1234;
    add_channel(&mut reg, server_a_row, channel).unwrap();
    let b = subscribe(&mut reg, channel, member()).unwrap();
    assert_eq!(send(&mut reg, channel, server_a_row, "hello".to_string()), Ok(()));
    match stream_step(&mut reg, b, true) {
        StreamStep::Forward(e) => {
            assert_eq!(e.name(), "message");
            assert_eq!(e.data, "hello");
        }
        other => panic!("unexpected step {:?}", other),
    }
    assert_eq!(subscribe(&mut reg, channel, None), Err(ChatError::Forbidden(Denied::NoMembership)));
}
