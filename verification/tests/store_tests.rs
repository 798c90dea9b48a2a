//! The bounded store: FIFO eviction, local-echo reconciliation, and
//! silent no-ops on missing ids.
use weecord::message::{MessageData, MessageKind, ReactionEmoji, UserInfo, WeecordMessage};
use weecord::store::{MessageStore, MessageUpdate};

fn user(id: u64, name: &str) -> UserInfo {
    UserInfo { id, name: name.to_string(), discriminator: 1 }
}

fn msg(id: u64, content: &str) -> MessageData {
    MessageData {
        id,
        channel_id: 10,
        guild_id: None,
        author: user(1, "author"),
        kind: MessageKind::Regular,
        content: content.to_string(),
        markup: Vec::new(),
        timestamp: 0,
        edited: false,
        nonce: None,
        mention_ids: Vec::new(),
        attachments: Vec::new(),
        embeds: Vec::new(),
        reactions: Vec::new(),
        referenced_message: None,
        reference_guild_id: None,
    }
}

fn ids(store: &MessageStore) -> Vec<u64> {
    store.messages().iter().map(|m| m.id()).collect()
}

#[test]
fn fifo_eviction_keeps_most_recent() {
    // Capacity 3; append A, B, C, D; the store holds [B, C, D].
    let mut store = MessageStore::new(3);
    for (i, _name) in ["A", "B", "C", "D"].iter().enumerate() {
        store.add_msg(WeecordMessage::new(msg(i as u64 + 1, "x")));
    }
    assert_eq!(ids(&store), vec![2, 3, 4]);
}

#[test]
fn echo_reconciliation_leaves_one_item() {
    // A local echo with nonce 7 followed by the confirmed message with
    // nonce 7 and id 42 leaves exactly the confirmed message.
    let mut store = MessageStore::new(100);
    store.add_msg(WeecordMessage::LocalEcho {
        guild_id: None,
        content: "hi".to_string(),
        markup: Vec::new(),
        timestamp: 0,
        nonce: 7,
    });
    let mut confirmed = msg(42, "hi");
    confirmed.nonce = Some(7);
    store.add_msg(WeecordMessage::new(confirmed));
    assert_eq!(ids(&store), vec![42]);
    for m in store.messages().iter() {
        match m {
            WeecordMessage::LocalEcho { .. } => panic!("echo must be reconciled away"),
            _ => {}
        }
    }
}

#[test]
fn evicted_echo_confirmation_is_plain_append() {
    // The echo fell out of the window; the confirmation simply appends.
    let mut store = MessageStore::new(2);
    store.add_msg(WeecordMessage::LocalEcho {
        guild_id: None,
        content: "hi".to_string(),
        markup: Vec::new(),
        timestamp: 0,
        nonce: 7,
    });
    store.add_msg(WeecordMessage::new(msg(1, "a")));
    store.add_msg(WeecordMessage::new(msg(2, "b")));
    let mut confirmed = msg(42, "hi");
    confirmed.nonce = Some(7);
    store.add_msg(WeecordMessage::new(confirmed));
    assert_eq!(ids(&store), vec![2, 42]);
}

#[test]
fn remove_missing_id_is_noop() {
    let mut store = MessageStore::new(10);
    store.add_msg(WeecordMessage::new(msg(1, "a")));
    store.add_msg(WeecordMessage::new(msg(2, "b")));
    store.remove_msg(99);
    assert_eq!(ids(&store), vec![1, 2]);
}

#[test]
fn patch_missing_id_is_noop() {
    let mut store = MessageStore::new(10);
    store.add_msg(WeecordMessage::new(msg(1, "a")));
    let update = MessageUpdate {
        id: 99,
        channel_id: 10,
        guild_id: None,
        content: Some("changed".to_string()),
        markup: None,
        edited: true,
        kind: None,
        timestamp: None,
        mention_ids: None,
        attachments: None,
        embeds: None,
    };
    store.apply_message_update(update);
    assert_eq!(ids(&store), vec![1]);
    match &store.messages()[0] {
        WeecordMessage::Text(d) => assert_eq!(d.content, "a"),
        _ => panic!("expected a confirmed message"),
    }
}

#[test]
fn patch_applies_present_fields() {
    let mut store = MessageStore::new(10);
    store.add_msg(WeecordMessage::new(msg(1, "a")));
    let update = MessageUpdate {
        id: 1,
        channel_id: 10,
        guild_id: None,
        content: Some("edited text".to_string()),
        markup: None,
        edited: true,
        kind: None,
        timestamp: None,
        mention_ids: None,
        attachments: None,
        embeds: None,
    };
    store.apply_message_update(update);
    match &store.messages()[0] {
        WeecordMessage::Text(d) => {
            assert_eq!(d.content, "edited text");
            assert!(d.edited);
            assert_eq!(d.id, 1);
        }
        _ => panic!("expected a confirmed message"),
    }
}

#[test]
fn remove_by_id_removes_only_first_match() {
    let mut store = MessageStore::new(10);
    store.add_msg(WeecordMessage::new(msg(1, "a")));
    store.add_msg(WeecordMessage::new(msg(2, "b")));
    store.remove_msg(1);
    assert_eq!(ids(&store), vec![2]);
}

#[test]
fn notifications_cleared_on_append() {
    // Transient notices leave whenever a confirmed message or an echo is
    // about to be appended.
    let mut store = MessageStore::new(10);
    store.add_msg(WeecordMessage::Notification { mention: false, private: false, id: 900 });
    store.add_msg(WeecordMessage::Notification { mention: true, private: false, id: 901 });
    assert_eq!(store.len(), 2);
    store.add_msg(WeecordMessage::new(msg(1, "a")));
    assert_eq!(ids(&store), vec![1]);
}

#[test]
fn bulk_append_evicts_in_order() {
    let mut store = MessageStore::new(2);
    store.add_msg(WeecordMessage::Notification { mention: false, private: false, id: 900 });
    let batch = vec![
        WeecordMessage::new(msg(1, "a")),
        WeecordMessage::new(msg(2, "b")),
        WeecordMessage::new(msg(3, "c")),
    ];
    store.add_bulk_msgs(batch);
    assert_eq!(ids(&store), vec![2, 3]);
}

#[test]
fn nth_accessors_count_from_each_end() {
    let mut store = MessageStore::new(10);
    store.add_msg(WeecordMessage::new(msg(1, "a")));
    store.add_msg(WeecordMessage::new(msg(2, "b")));
    store.add_msg(WeecordMessage::new(msg(3, "c")));
    assert_eq!(store.get_nth_message(0).unwrap().id(), 3);
    assert_eq!(store.get_nth_message(2).unwrap().id(), 1);
    assert!(store.get_nth_message(3).is_none());
    assert_eq!(store.nth_oldest_message(0).unwrap().id(), 1);
    assert!(store.nth_oldest_message(3).is_none());
}

#[test]
fn reactions_aggregate_and_shrink() {
    let mut store = MessageStore::new(10);
    store.add_msg(WeecordMessage::new(msg(1, "a")));
    let heart = || ReactionEmoji::Unicode("heart".to_string());
    store.add_reaction(1, heart());
    store.add_reaction(1, heart());
    match &store.messages()[0] {
        WeecordMessage::Text(d) => {
            assert_eq!(d.reactions.len(), 1);
            assert_eq!(d.reactions[0].count, 2);
        }
        _ => panic!("expected a confirmed message"),
    }
    store.remove_reaction(1, heart());
    store.remove_reaction(1, heart());
    match &store.messages()[0] {
        WeecordMessage::Text(d) => assert_eq!(d.reactions.len(), 0),
        _ => panic!("expected a confirmed message"),
    }
}

#[test]
fn fresh_ids_for_notifications_stay_in_range() {
    for _ in 0..8 {
        match WeecordMessage::new_notification(false, true) {
            WeecordMessage::Notification { id, private, mention } => {
                assert!(id <= i64::MAX as u64);
                assert!(private);
                assert!(!mention);
            }
            _ => panic!("expected a notification"),
        }
    }
}

#[test]
fn new_echo_keeps_its_nonce() {
    match WeecordMessage::new_echo(Some(3), "hello".to_string(), Vec::new(), 1234) {
        WeecordMessage::LocalEcho { nonce, guild_id, content, timestamp, .. } => {
            assert_eq!(nonce, 1234);
            assert_eq!(guild_id, Some(3));
            assert_eq!(content, "hello");
            // The clock stamp is a live reading; it is at least positive.
            assert!(timestamp > 0);
        }
        _ => panic!("expected an echo"),
    }
}
