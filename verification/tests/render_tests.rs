//! Whole-item rendering: replies, tags, event templates and timestamps.
use weecord::cache::{CacheView, UserEntry};
use weecord::config::{ColorConfig, LookConfig};
use weecord::message::{MessageData, MessageKind, UserInfo, UserExt, WeecordMessage};
use weecord::render::{EventPrefix, bold, format_event_message, format_join_message, render_msg};
use weecord::timefmt::{TimeContext, fmt_timestamp, humanize_duration};

fn tc() -> TimeContext {
    TimeContext { utc_offset: 0, now: 0 }
}

fn user(id: u64, name: &str) -> UserInfo {
    UserInfo { id, name: name.to_string(), discriminator: 1 }
}

fn msg(id: u64, content: &str) -> MessageData {
    MessageData {
        id,
        channel_id: 10,
        guild_id: None,
        author: user(1, "alice"),
        kind: MessageKind::Regular,
        content: content.to_string(),
        markup: vec![weecord::format::MarkdownNode::Text(content.to_string())],
        timestamp: 0,
        edited: false,
        nonce: None,
        mention_ids: Vec::new(),
        attachments: Vec::new(),
        embeds: Vec::new(),
        reactions: Vec::new(),
        referenced_message: None,
        reference_guild_id: None,
    }
}

#[test]
fn regular_message_renders_prefix_and_body() {
    let cache = CacheView::new();
    let look = LookConfig::default();
    let colors = ColorConfig::default();
    let mut unknown = Vec::new();
    let m = msg(1, "hello there");
    let (prefix, body) = render_msg(&cache, &look, &colors, &m, false, &tc(), &mut unknown);
    assert_eq!(prefix, "alice");
    assert_eq!(body, "hello there");
}

#[test]
fn reply_quotes_its_referenced_message() {
    let cache = CacheView::new();
    let look = LookConfig::default();
    let colors = ColorConfig::default();
    let mut unknown = Vec::new();
    let mut reply = msg(2, "the answer");
    reply.kind = MessageKind::Reply;
    reply.referenced_message = Some(Box::new(msg(1, "the question")));
    let (_, body) = render_msg(&cache, &look, &colors, &reply, false, &tc(), &mut unknown);
    assert_eq!(body, "alice:\n\u{258e}the question\nthe answer");
}

#[test]
fn nested_reply_renders_fixed_placeholder() {
    // A reply whose referenced message is itself a reply: the inner
    // reference renders as the placeholder, not a second recursion.
    let cache = CacheView::new();
    let look = LookConfig::default();
    let colors = ColorConfig::default();
    let mut unknown = Vec::new();
    let mut inner = msg(1, "first");
    inner.kind = MessageKind::Reply;
    inner.referenced_message = Some(Box::new(msg(0, "zeroth")));
    let mut outer = msg(2, "second");
    outer.kind = MessageKind::Reply;
    outer.referenced_message = Some(Box::new(inner));
    let (_, body) = render_msg(&cache, &look, &colors, &outer, false, &tc(), &mut unknown);
    assert_eq!(
        body,
        "alice:\n\u{258e}<nested reply>\n\u{258e}first\nsecond"
    );
}

#[test]
fn edited_marker_and_attachments() {
    let cache = CacheView::new();
    let look = LookConfig::default();
    let colors = ColorConfig::default();
    let mut unknown = Vec::new();
    let mut m = msg(1, "text");
    m.edited = true;
    m.attachments.push("https://example.invalid/file.png".to_string());
    let (_, body) = render_msg(&cache, &look, &colors, &m, false, &tc(), &mut unknown);
    assert_eq!(body, "text8 (edited)reset\nhttps://example.invalid/file.png");
}

#[test]
fn tags_for_own_and_foreign_messages() {
    let mut cache = CacheView::new();
    cache.current_user = Some(UserEntry { id: 1, name: "alice".to_string(), color: None });
    let own = WeecordMessage::new(msg(5, "mine"));
    assert_eq!(own.tags(&cache), vec!["self_msg".to_string(), "notify_none".to_string()]);
    let mut other = msg(6, "hi");
    other.author = user(2, "bob");
    other.mention_ids.push(1);
    let mentioned = WeecordMessage::new(other);
    assert_eq!(mentioned.tags(&cache), vec!["notify_highlight".to_string()]);
    let mut plain = msg(7, "hi");
    plain.author = user(2, "bob");
    let ordinary = WeecordMessage::new(plain);
    assert_eq!(ordinary.tags(&cache), vec!["notify_message".to_string()]);
}

#[test]
fn tags_for_echo_and_notification() {
    let cache = CacheView::new();
    let echo = WeecordMessage::LocalEcho {
        guild_id: None,
        content: "x".to_string(),
        markup: Vec::new(),
        timestamp: 0,
        nonce: 1,
    };
    assert_eq!(
        echo.tags(&cache),
        vec!["no_log".to_string(), "local_echo".to_string(), "notify_none".to_string()]
    );
    let notice = WeecordMessage::Notification { mention: true, private: false, id: 1 };
    assert_eq!(notice.tags(&cache), vec!["notify_highlight".to_string()]);
}

#[test]
fn local_echo_renders_muted() {
    let mut cache = CacheView::new();
    cache.current_user = Some(UserEntry { id: 1, name: "alice".to_string(), color: None });
    let look = LookConfig::default();
    let colors = ColorConfig::default();
    let echo = WeecordMessage::LocalEcho {
        guild_id: None,
        content: "soon".to_string(),
        markup: vec![weecord::format::MarkdownNode::Text("soon".to_string())],
        timestamp: 0,
        nonce: 1,
    };
    let mut unknown = Vec::new();
    let (prefix, body) = echo.render(&cache, &look, &colors, &tc(), &mut unknown);
    assert_eq!(prefix, "alice");
    assert_eq!(body, "244soonresetcolor");
}

#[test]
fn event_templates() {
    let mut m = msg(1, "general-two");
    m.kind = MessageKind::ChannelNameChange;
    let (prefix, body) = format_event_message(&m, "alice");
    assert!(matches!(prefix, EventPrefix::Network));
    assert_eq!(body, "boldalice-bold changed the channel name to boldgeneral-two-bold.");
    let mut gone = msg(2, "");
    gone.kind = MessageKind::RecipientRemove;
    let (prefix2, body2) = format_event_message(&gone, "bob");
    assert!(matches!(prefix2, EventPrefix::Quit));
    assert_eq!(body2, "boldbob-bold left the group.");
    let mut odd = msg(3, "");
    odd.kind = MessageKind::Unknown;
    let (prefix3, body3) = format_event_message(&odd, "eve");
    assert!(matches!(prefix3, EventPrefix::Network));
    assert_eq!(body3, "[unknown event]");
}

#[test]
fn join_template_is_chosen_by_timestamp() {
    // 0 ms selects the first template; 1 second is 1000 ms, and
    // 1000 % 13 == 12 selects the last.
    assert_eq!(format_join_message(0, "x"), "x joined the party.");
    assert_eq!(format_join_message(1, "x"), "Yay you made it, x!");
}

#[test]
fn bold_wraps_in_terminal_words() {
    assert_eq!(bold("hi"), "boldhi-bold");
}

#[test]
fn timestamps_format_by_style() {
    // 2021-09-19 17:30:45 UTC.
    let t = 1632072645i64;
    let zone = tc();
    assert_eq!(fmt_timestamp(t, 't', &zone), "17:30");
    assert_eq!(fmt_timestamp(t, 'T', &zone), "17:30:45");
    assert_eq!(fmt_timestamp(t, 'd', &zone), "19/09/2021");
    assert_eq!(fmt_timestamp(t, 'D', &zone), "19 September 2021");
    assert_eq!(fmt_timestamp(t, 'f', &zone), "19 September 2021 17:30");
    assert_eq!(fmt_timestamp(t, 'F', &zone), "Sunday, 19 September 2021 17:30");
    assert_eq!(fmt_timestamp(t, '?', &zone), "<invalid timestamp>");
}

#[test]
fn timestamp_honors_the_local_offset() {
    let t = 1632072645i64;
    let zone = TimeContext { utc_offset: 3600, now: 0 };
    assert_eq!(fmt_timestamp(t, 't', &zone), "18:30");
}

#[test]
fn relative_wording() {
    let zone = TimeContext { utc_offset: 0, now: 1000 };
    assert_eq!(fmt_timestamp(999, 'R', &zone), "just now");
    assert_eq!(humanize_duration(5), "5 seconds ago");
    assert_eq!(humanize_duration(-5), "in 5 seconds");
    assert_eq!(humanize_duration(90), "about a minute ago");
    assert_eq!(humanize_duration(150), "2 minutes ago");
    assert_eq!(humanize_duration(7300), "2 hours ago");
    assert_eq!(humanize_duration(100000), "1 day ago");
    assert_eq!(humanize_duration(200000), "2 days ago");
    assert_eq!(humanize_duration(3000000), "about a month ago");
    assert_eq!(humanize_duration(6000000), "2 months ago");
    assert_eq!(humanize_duration(31000000), "a year ago");
    assert_eq!(humanize_duration(40000000), "2 years ago");
}

#[test]
fn user_tag_pads_the_discriminator() {
    let u = UserInfo { id: 1, name: "alice".to_string(), discriminator: 7 };
    assert_eq!(u.tag(), "alice#0007");
    let v = UserInfo { id: 2, name: "bob".to_string(), discriminator: 1234 };
    assert_eq!(v.tag(), "bob#1234");
}

#[test]
fn role_colors_quantize_to_the_cube() {
    assert_eq!(weecord::cache::color_as_8bit(0), 16);
    assert_eq!(weecord::cache::color_as_8bit(0xFFFFFF), 231);
}

#[test]
fn strip_leading_bracket_drops_through_the_marker() {
    let mut line = weecord::styled::StyledString::new();
    line.push_str("> quoted text");
    let stripped = weecord::format::strip_leading_bracket(line);
    assert_eq!(stripped.build(), "quoted text");
    let mut bare = weecord::styled::StyledString::new();
    bare.push_str("no marker");
    let kept = weecord::format::strip_leading_bracket(bare);
    assert_eq!(kept.build(), "no marker");
}

#[test]
fn fold_lines_prefixes_and_joins() {
    let mut a = weecord::styled::StyledString::new();
    a.push_str("one");
    let mut b = weecord::styled::StyledString::new();
    b.push_str("two");
    let folded = weecord::format::fold_lines(vec![a, b], "- ");
    assert_eq!(folded.build(), "- one\n- two");
}

#[test]
fn styled_lines_reopen_active_styles() {
    let mut s = weecord::styled::StyledString::new();
    s.push_style(weecord::styled::Style::Bold);
    s.push_str("a\nb");
    s.pop_style(weecord::styled::Style::Bold);
    let lines = s.lines();
    assert_eq!(lines.len(), 2);
    assert_eq!(lines[0].build(), "bolda-bold");
    assert_eq!(lines[1].build(), "boldb-bold");
}

#[test]
fn reactions_render_behind_the_body() {
    let cache = CacheView::new();
    let look = LookConfig::default();
    let colors = ColorConfig::default();
    let mut unknown = Vec::new();
    let mut m = msg(1, "text");
    m.reactions.push(weecord::message::ReactionData {
        emoji: weecord::message::ReactionEmoji::Unicode("heart".to_string()),
        count: 2,
    });
    m.reactions.push(weecord::message::ReactionData {
        emoji: weecord::message::ReactionEmoji::Custom(Some("pog".to_string())),
        count: 1,
    });
    let (_, body) = render_msg(&cache, &look, &colors, &m, false, &tc(), &mut unknown);
    assert_eq!(body, "text 8[heart 2] [:pog: 1]-8");
}

#[test]
fn embeds_render_behind_the_bar() {
    let cache = CacheView::new();
    let look = LookConfig::default();
    let colors = ColorConfig::default();
    let mut unknown = Vec::new();
    let mut m = msg(1, "");
    m.markup = Vec::new();
    m.embeds.push(weecord::message::EmbedData {
        provider_name: Some("site".to_string()),
        provider_url: Some("https://example.invalid".to_string()),
        author_name: None,
        author_url: None,
        title: Some("headline".to_string()),
        description: None,
        fields: vec![("k".to_string(), "v1\nv2".to_string())],
        footer_text: None,
    });
    let (_, body) = render_msg(&cache, &look, &colors, &m, false, &tc(), &mut unknown);
    assert_eq!(
        body,
        "\u{258e}site (https://example.invalid)\n\u{258e}headline\n\u{258e}k: v1:v2\n"
    );
}

#[test]
fn local_offset_stays_within_a_day() {
    let off = weecord::timefmt::local_utc_offset();
    assert!(off > -86400 && off < 86400);
}
