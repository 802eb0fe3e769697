use chat_backend::ingress::{create_message, submit_message_at};
use chat_backend::message::{build_envelope, CreateMessageRequest, MessageResponse};
use chat_backend::registry::{ChannelRegistry, CHANNEL_CAPACITY};

fn submission(conversation_id: i64, sender_id: i64, text: &str) -> CreateMessageRequest {
    CreateMessageRequest { conversation_id, sender_id, text: text.to_string() }
}

fn envelope(conversation_id: i64, text: &str) -> MessageResponse {
    build_envelope(submission(conversation_id, 1, text), 0)
}

#[test]
fn two_sessions_receive_hi_in_order() {
    let mut registry = ChannelRegistry::new();
    let a = registry.subscribe(42).unwrap();
    let b = registry.subscribe(42).unwrap();
    assert_ne!(a.id, b.id);
    let hi = submit_message_at(&mut registry, submission(42, 7, "hi"), 1000);
    assert_eq!(hi.conversation_id, 42);
    assert_eq!(hi.sender_id, 7);
    assert_eq!(hi.text, "hi");
    let later = submit_message_at(&mut registry, submission(42, 8, "later"), 1001);
    for handle in [a, b] {
        let got = registry.take_pending(handle);
        assert_eq!(got.len(), 2);
        assert_eq!(got[0].conversation_id, 42);
        assert_eq!(got[0].sender_id, 7);
        assert_eq!(got[0].text, "hi");
        assert_eq!(got[1].text, later.text);
        assert_eq!(got[1].sender_id, 8);
    }
    assert!(registry.take_pending(a).is_empty());
}

#[test]
fn publish_reaches_only_its_conversation() {
    let mut registry = ChannelRegistry::new();
    let here = registry.subscribe(1).unwrap();
    let there = registry.subscribe(2).unwrap();
    assert!(registry.publish(1, &envelope(1, "one")));
    assert!(registry.publish(1, &envelope(1, "two")));
    let got = registry.take_pending(here);
    assert_eq!(got.iter().map(|m| m.text.as_str()).collect::<Vec<_>>(), vec!["one", "two"]);
    assert!(registry.take_pending(there).is_empty());
}

#[test]
fn late_subscriber_sees_no_history() {
    let mut registry = ChannelRegistry::new();
    let early = registry.subscribe(5).unwrap();
    registry.publish(5, &envelope(5, "before"));
    let late = registry.subscribe(5).unwrap();
    registry.publish(5, &envelope(5, "after"));
    assert_eq!(registry.take_pending(early).len(), 2);
    let got = registry.take_pending(late);
    assert_eq!(got.len(), 1);
    assert_eq!(got[0].text, "after");
}

#[test]
fn channel_lives_while_a_subscriber_remains() {
    let mut registry = ChannelRegistry::new();
    assert!(!registry.has_channel(3));
    let a = registry.subscribe(3).unwrap();
    let b = registry.subscribe(3).unwrap();
    assert!(registry.has_channel(3));
    assert!(!registry.unsubscribe(a));
    assert!(registry.has_channel(3));
    assert!(!registry.is_subscribed(a));
    assert!(registry.publish(3, &envelope(3, "still here")));
    assert_eq!(registry.take_pending(b).len(), 1);
    assert!(registry.unsubscribe(b));
    assert!(!registry.has_channel(3));
    assert!(!registry.publish(3, &envelope(3, "dropped")));
    assert!(registry.take_pending(b).is_empty());
    assert!(!registry.unsubscribe(b));
}

#[test]
fn publish_without_channel_is_dropped_silently() {
    let mut registry = ChannelRegistry::new();
    let other = registry.subscribe(8).unwrap();
    assert!(!registry.publish(9, &envelope(9, "nobody")));
    let sent = create_message(&mut registry, submission(9, 4, "idle room"));
    assert_eq!(sent.text, "idle room");
    assert_eq!(sent.conversation_id, 9);
    assert_eq!(sent.sender_id, 4);
    assert_eq!(sent.created_at, sent.updated_at);
    assert!(registry.take_pending(other).is_empty());
}

#[test]
fn full_mailbox_drops_oldest() {
    let mut registry = ChannelRegistry::new();
    let slow = registry.subscribe(1).unwrap();
    for i in 0..(CHANNEL_CAPACITY + 3) {
        registry.publish(1, &envelope(1, &i.to_string()));
    }
    let got = registry.take_pending(slow);
    assert_eq!(got.len(), CHANNEL_CAPACITY);
    assert_eq!(got[0].text, "3");
    assert_eq!(got[CHANNEL_CAPACITY - 1].text, (CHANNEL_CAPACITY + 2).to_string());
}

#[test]
fn envelope_is_built_from_submission() {
    let env = build_envelope(submission(11, 12, "text"), 99);
    assert_eq!(env.id, 0);
    assert_eq!(env.conversation_id, 11);
    assert_eq!(env.sender_id, 12);
    assert_eq!(env.text, "text");
    assert_eq!(env.created_at, 99);
    assert_eq!(env.updated_at, 99);
    assert!(env.deleted_at.is_none());
    let copy = env.duplicate();
    assert_eq!(copy.text, env.text);
}
