//! The event dispatcher: routing, drops, typing bookkeeping and
//! subscriptions.
use weecord::cache::{CacheView, ChannelEntry, GuildEntry, UserEntry};
use weecord::config::InnerConfig;
use weecord::dispatch::{GatewayEvent, Instance, PluginMessage, UiAction, handle_gateway_event};
use weecord::message::{MessageData, MessageKind, UserInfo};
use weecord::subs::Subscriptions;

fn user(id: u64, name: &str) -> UserInfo {
    UserInfo { id, name: name.to_string(), discriminator: 1 }
}

fn msg(id: u64, channel: u64, guild: Option<u64>) -> MessageData {
    MessageData {
        id,
        channel_id: channel,
        guild_id: guild,
        author: user(1, "alice"),
        kind: MessageKind::Regular,
        content: "hi".to_string(),
        markup: Vec::new(),
        timestamp: 0,
        edited: false,
        nonce: None,
        mention_ids: Vec::new(),
        attachments: Vec::new(),
        embeds: Vec::new(),
        reactions: Vec::new(),
        referenced_message: None,
        reference_guild_id: None,
    }
}

#[test]
fn bulk_delete_becomes_single_deletes() {
    let out = handle_gateway_event(GatewayEvent::MessageDeleteBulk {
        channel_id: 9,
        guild_id: Some(1),
        ids: vec![4, 5, 6],
    });
    assert_eq!(out.len(), 3);
    for (k, m) in out.iter().enumerate() {
        match m {
            PluginMessage::MessageDelete { channel_id, guild_id, id } => {
                assert_eq!(*channel_id, 9);
                assert_eq!(*guild_id, Some(1));
                assert_eq!(*id, 4 + k as u64);
            }
            _ => panic!("expected a delete"),
        }
    }
}

#[test]
fn reconnect_produces_nothing() {
    assert_eq!(handle_gateway_event(GatewayEvent::Reconnect).len(), 0);
    assert_eq!(handle_gateway_event(GatewayEvent::Other).len(), 0);
}

#[test]
fn create_routes_to_the_matching_conversation() {
    let cache = CacheView::new();
    let config = InnerConfig::default();
    let mut instance = Instance::new(100);
    instance.open_conversation(None, 10);
    let actions = instance.dispatch(
        &cache,
        &config,
        PluginMessage::MessageCreate { message: Box::new(msg(1, 10, None)) },
    );
    assert_eq!(actions.len(), 0);
    assert_eq!(instance.conversations()[0].store.len(), 1);
}

#[test]
fn create_for_unknown_conversation_is_dropped() {
    let cache = CacheView::new();
    let config = InnerConfig::default();
    let mut instance = Instance::new(100);
    let actions = instance.dispatch(
        &cache,
        &config,
        PluginMessage::MessageCreate { message: Box::new(msg(1, 10, None)) },
    );
    assert_eq!(actions.len(), 0);
    assert_eq!(instance.conversations().len(), 0);
}

#[test]
fn create_opens_a_watched_private_channel() {
    let mut cache = CacheView::new();
    cache.channels.push(ChannelEntry {
        id: 10,
        name: "pal".to_string(),
        guild_id: None,
        last_message_id: None,
    });
    let mut config = InnerConfig::default();
    config.watched_private.push(10);
    let mut instance = Instance::new(100);
    let actions = instance.dispatch(
        &cache,
        &config,
        PluginMessage::MessageCreate { message: Box::new(msg(1, 10, None)) },
    );
    assert_eq!(actions.len(), 1);
    match &actions[0] {
        UiAction::OpenPrivateChannel { channel_id } => assert_eq!(*channel_id, 10),
        _ => panic!("expected the channel to open"),
    }
    assert_eq!(instance.conversations().len(), 1);
    assert_eq!(instance.conversations()[0].store.len(), 1);
}

#[test]
fn delete_removes_from_the_right_store() {
    let cache = CacheView::new();
    let config = InnerConfig::default();
    let mut instance = Instance::new(100);
    instance.open_conversation(Some(1), 10);
    instance.dispatch(
        &cache,
        &config,
        PluginMessage::MessageCreate { message: Box::new(msg(7, 10, Some(1))) },
    );
    instance.dispatch(
        &cache,
        &config,
        PluginMessage::MessageDelete { channel_id: 10, guild_id: Some(1), id: 7 },
    );
    assert_eq!(instance.conversations()[0].store.len(), 0);
}

#[test]
fn reconciliation_requests_a_redraw() {
    let cache = CacheView::new();
    let config = InnerConfig::default();
    let mut instance = Instance::new(100);
    instance.open_conversation(None, 10);
    let echo = weecord::message::WeecordMessage::LocalEcho {
        guild_id: None,
        content: "hi".to_string(),
        markup: Vec::new(),
        timestamp: 0,
        nonce: 7,
    };
    assert!(instance.add_item(None, 10, echo));
    let mut confirmed = msg(42, 10, None);
    confirmed.nonce = Some(7);
    let actions = instance.dispatch(
        &cache,
        &config,
        PluginMessage::MessageCreate { message: Box::new(confirmed) },
    );
    assert_eq!(actions.len(), 1);
    match &actions[0] {
        UiAction::Redraw { channel_id, .. } => assert_eq!(*channel_id, 10),
        _ => panic!("expected a full redraw after reconciliation"),
    }
    let store = &instance.conversations()[0].store;
    assert_eq!(store.len(), 1);
    assert_eq!(store.messages()[0].id(), 42);
}

#[test]
fn typing_event_tracks_and_expires() {
    let mut cache = CacheView::new();
    cache.current_user = Some(UserEntry { id: 1, name: "me".to_string(), color: None });
    cache.users.push(UserEntry { id: 2, name: "bob".to_string(), color: None });
    let config = InnerConfig::default();
    let mut instance = Instance::new(100);
    let actions = instance.dispatch(
        &cache,
        &config,
        PluginMessage::TypingStart {
            channel_id: 10,
            guild_id: None,
            user_id: 2,
            member_name: None,
            timestamp: 0,
        },
    );
    assert_eq!(actions.len(), 1);
    assert_eq!(instance.typing_entries().len(), 1);
    assert_eq!(instance.typing_entries()[0].user_name, "bob");
    let sweep_actions = instance.sweep_typing(10100);
    assert_eq!(sweep_actions.len(), 1);
    assert_eq!(instance.typing_entries().len(), 0);
}

#[test]
fn own_typing_is_ignored() {
    let mut cache = CacheView::new();
    cache.current_user = Some(UserEntry { id: 1, name: "me".to_string(), color: None });
    let config = InnerConfig::default();
    let mut instance = Instance::new(100);
    let actions = instance.dispatch(
        &cache,
        &config,
        PluginMessage::TypingStart {
            channel_id: 10,
            guild_id: None,
            user_id: 1,
            member_name: Some("me".to_string()),
            timestamp: 0,
        },
    );
    assert_eq!(actions.len(), 0);
    assert_eq!(instance.typing_entries().len(), 0);
}

#[test]
fn ready_opens_configured_guilds() {
    let mut cache = CacheView::new();
    cache.guilds.push(GuildEntry { id: 1, name: "guild-one".to_string() });
    let mut config = InnerConfig::default();
    config.guilds.push(1);
    config.guilds.push(2);
    let mut instance = Instance::new(100);
    let actions = instance.dispatch(
        &cache,
        &config,
        PluginMessage::Ready { user: user(1, "me") },
    );
    assert_eq!(actions.len(), 2);
    match &actions[0] {
        UiAction::OpenGuild { guild_id } => assert_eq!(*guild_id, 1),
        _ => panic!("expected the cached guild to open"),
    }
    match &actions[1] {
        UiAction::WarnUnknownGuild { guild_id } => assert_eq!(*guild_id, 2),
        _ => panic!("expected a warning for the unknown guild"),
    }
}

#[test]
fn subscriptions_window_and_full_form() {
    let mut subs = Subscriptions::new();
    let first = subs.subscribe(1, 100).expect("first join sends");
    assert!(first.full);
    assert_eq!(first.channels, vec![100]);
    let second = subs.subscribe(1, 101).expect("new channel sends");
    assert!(!second.full);
    assert_eq!(second.channels, vec![101, 100]);
    assert!(subs.subscribe(1, 100).is_none());
    for ch in [102, 103, 104, 105].iter() {
        let _ = subs.subscribe(1, *ch);
    }
    // Only the five most recent stay subscribed.
    assert_eq!(subs.entries()[0].channels, vec![105, 104, 103, 102, 100]);
}
