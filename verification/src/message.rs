//! The renderable items a conversation holds: service messages, local
//! echoes awaiting confirmation, and transient notifications.  Each item
//! has exactly one stable identity used for update and removal.
use crate::format::MarkdownNode;
use vstd::prelude::*;

verus! {

/// The author data the renderer reads.
pub struct UserInfo {
    pub id: u64,
    pub name: String,
    pub discriminator: u16,
}

/// A user's tag: name, `#`, and the four-digit discriminator.
pub trait UserExt {
    /// The spec of the tag text.
    spec fn spec_tag(&self) -> Seq<char>;

    /// The user's tag.
    fn tag(&self) -> (r: String)
        ensures
            r@ == self.spec_tag(),
    ;
}

impl UserExt for UserInfo {
    open spec fn spec_tag(&self) -> Seq<char> {
        self.name@ + "#"@ + crate::util::dec_str_pad(self.discriminator as nat, 4)
    }

    fn tag(&self) -> (r: String) {
        let mut out = String::new();
        out.append(self.name.as_str());
        out.append("#");
        crate::util::push_u64_pad4(&mut out, self.discriminator as u64);
        proof {
            assert(out@ =~= self.spec_tag());
        }
        out
    }
}

/// The emoji of a reaction: a custom one, named where the name is cached,
/// or a plain unicode emoji.
pub enum ReactionEmoji {
    Custom(Option<String>),
    Unicode(String),
}

/// Whether two reaction emoji are the same.
pub open spec fn spec_emoji_eq(a: ReactionEmoji, b: ReactionEmoji) -> bool {
    match (a, b) {
        (ReactionEmoji::Custom(x), ReactionEmoji::Custom(y)) => match (x, y) {
            (Option::Some(xs), Option::Some(ys)) => xs@ == ys@,
            (Option::None, Option::None) => true,
            _ => false,
        },
        (ReactionEmoji::Unicode(x), ReactionEmoji::Unicode(y)) => x@ == y@,
        _ => false,
    }
}

/// Compare two reaction emoji.
pub fn emoji_eq(a: &ReactionEmoji, b: &ReactionEmoji) -> (r: bool)
    ensures
        r == spec_emoji_eq(*a, *b),
{
    match (a, b) {
        (ReactionEmoji::Custom(x), ReactionEmoji::Custom(y)) => match (x, y) {
            (Option::Some(xs), Option::Some(ys)) => xs.eq(ys),
            (Option::None, Option::None) => true,
            _ => false,
        },
        (ReactionEmoji::Unicode(x), ReactionEmoji::Unicode(y)) => x.eq(y),
        _ => false,
    }
}

/// One reaction aggregate on a message.
pub struct ReactionData {
    pub emoji: ReactionEmoji,
    pub count: u64,
}

/// One embed, reduced to the fields the renderer prints.
pub struct EmbedData {
    pub provider_name: Option<String>,
    pub provider_url: Option<String>,
    pub author_name: Option<String>,
    pub author_url: Option<String>,
    pub title: Option<String>,
    pub description: Option<String>,
    pub fields: Vec<(String, String)>,
    pub footer_text: Option<String>,
}

/// The message subtypes the service sends.  `Unknown` stands for any
/// subtype this core does not recognize; it renders a readable placeholder.
pub enum MessageKind {
    Regular,
    Reply,
    ChatInputCommand,
    RecipientAdd,
    RecipientRemove,
    ChannelNameChange,
    Call,
    ChannelIconChange,
    ChannelMessagePinned,
    GuildMemberJoin,
    UserPremiumSub,
    UserPremiumSubTier1,
    UserPremiumSubTier2,
    UserPremiumSubTier3,
    GuildDiscoveryDisqualified,
    GuildDiscoveryRequalified,
    ChannelFollowAdd,
    GuildDiscoveryGracePeriodInitialWarning,
    GuildDiscoveryGracePeriodFinalWarning,
    GuildInviteReminder,
    ThreadCreated,
    ThreadStarterMessage,
    ContextMenuCommand,
    Unknown,
}

/// A message received from the service, reduced to what the core reads.
/// The markup tree is the external tokenizer's parse of `content`.
pub struct MessageData {
    pub id: u64,
    pub channel_id: u64,
    pub guild_id: Option<u64>,
    pub author: UserInfo,
    pub kind: MessageKind,
    pub content: String,
    pub markup: Vec<MarkdownNode>,
    pub timestamp: i64,
    pub edited: bool,
    pub nonce: Option<u64>,
    pub mention_ids: Vec<u64>,
    pub attachments: Vec<String>,
    pub embeds: Vec<EmbedData>,
    pub reactions: Vec<ReactionData>,
    pub referenced_message: Option<Box<MessageData>>,
    pub reference_guild_id: Option<u64>,
}

/// One renderable item of a conversation's history.
pub enum WeecordMessage {
    /// A transient system notice that never survives a redraw.
    Notification { mention: bool, private: bool, id: u64 },
    /// A client-predicted rendering of an outbound message, keyed by nonce.
    LocalEcho {
        guild_id: Option<u64>,
        content: String,
        markup: Vec<MarkdownNode>,
        timestamp: i64,
        nonce: u64,
    },
    /// A service-confirmed message.
    Text(Box<MessageData>),
}

/// The one stable identity of an item: remote id, nonce, or ephemeral id.
pub open spec fn spec_msg_id(m: WeecordMessage) -> u64 {
    match m {
        WeecordMessage::Notification { id, .. } => id,
        WeecordMessage::LocalEcho { nonce, .. } => nonce,
        WeecordMessage::Text(d) => d.id,
    }
}

pub open spec fn is_notification(m: WeecordMessage) -> bool {
    m matches WeecordMessage::Notification { .. }
}

pub open spec fn is_echo_with_nonce(m: WeecordMessage, n: u64) -> bool {
    match m {
        WeecordMessage::LocalEcho { nonce, .. } => nonce == n,
        _ => false,
    }
}

/// The sort timestamp of an item.
pub open spec fn spec_msg_timestamp(m: WeecordMessage) -> i64 {
    match m {
        WeecordMessage::Notification { .. } => 0,
        WeecordMessage::LocalEcho { timestamp, .. } => timestamp,
        WeecordMessage::Text(d) => d.timestamp,
    }
}

/// Relies on rand::Rng::gen_range on the thread rng: the drawn value lies
/// within the given bounds.
#[verifier::external_body]
fn random_notification_id() -> (r: u64)
    ensures
        r <= i64::MAX as u64,
{
    rand::Rng::gen_range(&mut rand::thread_rng(), 0..=i64::MAX as u64)
}

impl WeecordMessage {
    /// A confirmed service message.
    pub fn new(msg: MessageData) -> (r: WeecordMessage)
        ensures
            (r matches WeecordMessage::Text(b) && *b == msg),
    {
        WeecordMessage::Text(Box::new(msg))
    }

    /// A transient notification under a fresh ephemeral id.
    pub fn new_notification(mention: bool, private: bool) -> (r: WeecordMessage)
        ensures
            match r {
                WeecordMessage::Notification { mention: m, private: p, id } => m == mention && p
                    == private && id <= i64::MAX as u64,
                _ => false,
            },
    {
        WeecordMessage::Notification { mention, private, id: random_notification_id() }
    }

    /// A local echo of an outbound message, stamped with the clock.
    pub fn new_echo(
        guild_id: Option<u64>,
        content: String,
        markup: Vec<MarkdownNode>,
        nonce: u64,
    ) -> (r: WeecordMessage)
        ensures
            match r {
                WeecordMessage::LocalEcho { guild_id: g, content: c, markup: mk, nonce: n, .. } => g
                    == guild_id && c@ == content@ && mk@ == markup@ && n == nonce,
                _ => false,
            },
    {
        WeecordMessage::LocalEcho {
            guild_id,
            content,
            markup,
            timestamp: crate::timefmt::unix_now(),
            nonce,
        }
    }

    /// The item's stable identity.
    pub fn id(&self) -> (r: u64)
        ensures
            r == spec_msg_id(*self),
    {
        match self {
            WeecordMessage::Notification { id, .. } => *id,
            WeecordMessage::LocalEcho { nonce, .. } => *nonce,
            WeecordMessage::Text(d) => d.id,
        }
    }

    /// The item's sort timestamp.
    pub fn timestamp(&self) -> (r: i64)
        ensures
            r == spec_msg_timestamp(*self),
    {
        match self {
            WeecordMessage::Notification { .. } => 0,
            WeecordMessage::LocalEcho { timestamp, .. } => *timestamp,
            WeecordMessage::Text(d) => d.timestamp,
        }
    }
}

} // verus!
