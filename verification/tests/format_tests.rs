//! The markup walk rendered against known cache snapshots.
use weecord::cache::{CacheView, EmojiEntry, MemberEntry, RoleEntry};
use weecord::format::{MarkdownNode, discord_to_weechat};
use weecord::timefmt::TimeContext;

fn tc() -> TimeContext {
    TimeContext { utc_offset: 0, now: 0 }
}

fn format_nodes(nodes: Vec<MarkdownNode>) -> String {
    format_nodes_with_cache(nodes, &CacheView::new(), None)
}

fn format_nodes_with_cache(
    nodes: Vec<MarkdownNode>,
    cache: &CacheView,
    guild_id: Option<u64>,
) -> String {
    let mut unknown = Vec::new();
    discord_to_weechat(&nodes, cache, guild_id, true, false, &tc(), &mut unknown).build()
}

#[test]
fn block() {
    // The parse of ">>> **foo\n bar**".
    let nodes = vec![MarkdownNode::BlockQuote(vec![MarkdownNode::Bold(vec![
        MarkdownNode::Text("foo\n bar".to_string()),
    ])])];
    assert_eq!(format_nodes(nodes), "\u{258e}bold**foo-bold\n\u{258e}bold bar**-bold");
}

#[test]
fn color_stack() {
    // The parse of "||foo ~~strikethrough~~ baz `code` spam||".
    let nodes = vec![MarkdownNode::Spoiler(vec![
        MarkdownNode::Text("foo ".to_string()),
        MarkdownNode::Strikethrough(vec![MarkdownNode::Text("strikethrough".to_string())]),
        MarkdownNode::Text(" baz ".to_string()),
        MarkdownNode::InlineCode("code".to_string()),
        MarkdownNode::Text(" spam".to_string()),
    ])];
    assert_eq!(
        format_nodes(nodes),
        "italic||foo red~~strikethrough~~resetitalic baz 8bold`code`-boldresetitalic \
         spam||-italic"
    );
}

#[test]
fn smoke_test() {
    // The parse of "**_Hi___ there__**".
    let one = vec![MarkdownNode::Bold(vec![
        MarkdownNode::Italic(vec![MarkdownNode::Text("Hi__".to_string())]),
        MarkdownNode::Text(" there__".to_string()),
    ])];
    assert_eq!(format_nodes(one), "bold**italic_Hi___-italic there__**-bold");
    // The parse of "A _b*c_d*e_".
    let two = vec![
        MarkdownNode::Text("A _b".to_string()),
        MarkdownNode::Italic(vec![MarkdownNode::Text("c_d".to_string())]),
        MarkdownNode::Text("e_".to_string()),
    ];
    assert_eq!(format_nodes(two), "A _bitalic_c_d_-italice_");
    // The parse of "__f_*o*_o__".
    let three = vec![MarkdownNode::Underline(vec![
        MarkdownNode::Text("f_".to_string()),
        MarkdownNode::Italic(vec![MarkdownNode::Text("o".to_string())]),
        MarkdownNode::Text("_o".to_string()),
    ])];
    assert_eq!(format_nodes(three), "underline__f_italic_o_-italic_o__-underline");
}

#[test]
fn roles() {
    let mut cache = CacheView::new();
    cache.roles.push(RoleEntry { id: 1, name: "foo".to_string(), color: 0 });
    // The parse of "hello <@&1>!".
    let nodes = vec![
        MarkdownNode::Text("hello ".to_string()),
        MarkdownNode::RoleMention(1),
        MarkdownNode::Text("!".to_string()),
    ];
    assert_eq!(format_nodes_with_cache(nodes, &cache, None), "hello 16@fooreset!");
}

#[test]
fn channels() {
    let mut cache = CacheView::new();
    cache.channels.push(weecord::cache::ChannelEntry {
        id: 1,
        name: "channel-one".to_string(),
        guild_id: Some(1),
        last_message_id: None,
    });
    // The parse of "hello <#1>!".
    let nodes = vec![
        MarkdownNode::Text("hello ".to_string()),
        MarkdownNode::ChannelMention(1),
        MarkdownNode::Text("!".to_string()),
    ];
    assert_eq!(format_nodes_with_cache(nodes, &cache, Some(1)), "hello #channel-one!");
}

#[test]
fn users() {
    let guild_id = 1u64;
    let mut cache = CacheView::new();
    cache.members.push(MemberEntry {
        guild_id,
        user_id: 1,
        name: "random-user".to_string(),
        color: None,
    });
    // The parse of "hello <@1>!".
    let nodes = vec![
        MarkdownNode::Text("hello ".to_string()),
        MarkdownNode::UserMention(1),
        MarkdownNode::Text("!".to_string()),
    ];
    assert_eq!(
        format_nodes_with_cache(nodes, &cache, Some(guild_id)),
        "hello @random-user!"
    );
    // The parse of "hello <@!1>!" is the same tree.
    let again = vec![
        MarkdownNode::Text("hello ".to_string()),
        MarkdownNode::UserMention(1),
        MarkdownNode::Text("!".to_string()),
    ];
    assert_eq!(
        format_nodes_with_cache(again, &cache, Some(guild_id)),
        "hello @random-user!"
    );
}

#[test]
fn emojis() {
    let mut cache = CacheView::new();
    cache.emojis.push(EmojiEntry { id: 1, name: "random-emoji".to_string() });
    cache.emojis.push(EmojiEntry { id: 2, name: "emoji-two".to_string() });
    // The parse of "hello <:random-emoji:1> <:emoji-two:2>".
    let nodes = vec![
        MarkdownNode::Text("hello ".to_string()),
        MarkdownNode::Emoji("random-emoji".to_string(), 1),
        MarkdownNode::Text(" ".to_string()),
        MarkdownNode::Emoji("emoji-two".to_string(), 2),
    ];
    assert_eq!(
        format_nodes_with_cache(nodes, &cache, None),
        "hello :random-emoji: :emoji-two:"
    );
}

#[test]
fn evil_pony() {
    let mut cache = CacheView::new();
    let names = ["one", "two", "three", "four", "five", "six"];
    for (i, n) in names.iter().enumerate() {
        cache.emojis.push(EmojiEntry { id: i as u64 + 1, name: n.to_string() });
    }
    // The parse of "<:one:1><:two:2><:one:1><:three:3><:four:4><:five:5><:one:1><:six:6><:one:1>".
    let order = [1u64, 2, 1, 3, 4, 5, 1, 6, 1];
    let mut nodes = Vec::new();
    for id in order.iter() {
        let name = names[(*id - 1) as usize].to_string();
        nodes.push(MarkdownNode::Emoji(name, *id));
    }
    let target = ":one::two::one::three::four::five::one::six::one:";
    assert_eq!(format_nodes_with_cache(nodes, &cache, None), target);
}

#[test]
fn unknown_user_mention_is_recorded() {
    // A mention of an uncached user renders the generic placeholder and
    // lands in the unresolved-ids set.
    let cache = CacheView::new();
    let nodes = vec![MarkdownNode::UserMention(5)];
    let mut unknown = Vec::new();
    let out = discord_to_weechat(
        &nodes,
        &cache,
        None,
        true,
        false,
        &TimeContext { utc_offset: 0, now: 0 },
        &mut unknown,
    )
    .build();
    assert_eq!(out, "@unknown-user");
    assert_eq!(unknown, vec![5]);
}

#[test]
fn unknown_user_mention_with_ids_shown() {
    let cache = CacheView::new();
    let nodes = vec![MarkdownNode::UserMention(77)];
    let mut unknown = Vec::new();
    let out = discord_to_weechat(
        &nodes,
        &cache,
        None,
        true,
        true,
        &TimeContext { utc_offset: 0, now: 0 },
        &mut unknown,
    )
    .build();
    assert_eq!(out, "@77");
    assert_eq!(unknown, vec![77]);
}

#[test]
fn single_block_quote_strips_brackets() {
    // The parse of "> quoted".
    let nodes = vec![MarkdownNode::SingleBlockQuote(vec![MarkdownNode::Text(
        "> quoted".to_string(),
    )])];
    assert_eq!(format_nodes(nodes), "\u{258e}quoted");
}

#[test]
fn code_block_plain() {
    let nodes = vec![MarkdownNode::Code("rust".to_string(), "let x;".to_string())];
    assert_eq!(format_nodes(nodes), "reset```rust\n8boldlet x;-boldresetreset\n```reset");
}

#[test]
fn timestamp_node_renders_formatted() {
    // 2021-09-19 17:30:45 UTC, short time style, zero offset.
    let nodes = vec![MarkdownNode::Timestamp(1632072645, Some('t'))];
    assert_eq!(format_nodes(nodes), "<17:30>");
}
