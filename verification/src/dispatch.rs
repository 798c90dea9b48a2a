//! The event dispatcher: inbound protocol events, serialized into one
//! queue, become operations on the right conversation's message store,
//! typing-tracker updates, and display actions for the UI sink.  An event
//! for a conversation that is not materialized is dropped; a malformed
//! event never aborts the loop.
use crate::cache::{CacheView, find_channel, find_guild, find_read_state, find_user};
use crate::config::InnerConfig;
use crate::render::contains_id;
use crate::message::{MessageData, ReactionEmoji, UserInfo, WeecordMessage};
use crate::store::{
    MessageStore, MessageUpdate, patched, reaction_applied, remove_by_id, spec_add_remote,
    first_echo_idx, drop_notifications,
};
use crate::typing::{TypingEntry, TypingTracker, drop_user};
use vstd::prelude::*;

verus! {

/// One event as the gateway hands it over.
pub enum GatewayEvent {
    Reconnect,
    Ready { user: UserInfo },
    MessageCreate(Box<MessageData>),
    MessageDelete { channel_id: u64, guild_id: Option<u64>, id: u64 },
    MessageDeleteBulk { channel_id: u64, guild_id: Option<u64>, ids: Vec<u64> },
    MessageUpdate(Box<MessageUpdate>),
    MemberChunk { guild_id: u64, nonce: Option<u64>, not_found: Vec<u64> },
    TypingStart {
        channel_id: u64,
        guild_id: Option<u64>,
        user_id: u64,
        member_name: Option<String>,
        timestamp: u64,
    },
    ChannelUpdate { channel_id: u64 },
    ReactionAdd { channel_id: u64, guild_id: Option<u64>, message_id: u64, emoji: ReactionEmoji },
    ReactionRemove {
        channel_id: u64,
        guild_id: Option<u64>,
        message_id: u64,
        emoji: ReactionEmoji,
    },
    MemberListUpdate { guild_id: u64 },
    Other,
}

/// One message of the display context's queue.
pub enum PluginMessage {
    Ready { user: UserInfo },
    MessageCreate { message: Box<MessageData> },
    MessageDelete { channel_id: u64, guild_id: Option<u64>, id: u64 },
    MessageUpdate { message: Box<MessageUpdate> },
    MemberChunk { guild_id: u64, nonce: Option<u64>, not_found: Vec<u64> },
    TypingStart {
        channel_id: u64,
        guild_id: Option<u64>,
        user_id: u64,
        member_name: Option<String>,
        timestamp: u64,
    },
    ChannelUpdate { channel_id: u64 },
    ReactionAdd { channel_id: u64, guild_id: Option<u64>, message_id: u64, emoji: ReactionEmoji },
    ReactionRemove {
        channel_id: u64,
        guild_id: Option<u64>,
        message_id: u64,
        emoji: ReactionEmoji,
    },
    MemberListUpdate { guild_id: u64 },
}

/// Turn one gateway event into queue messages: a bulk delete becomes one
/// delete per id in order; connection chatter becomes nothing.
pub fn handle_gateway_event(event: GatewayEvent) -> (r: Vec<PluginMessage>)
    ensures
        match event {
            GatewayEvent::Reconnect => r@.len() == 0,
            GatewayEvent::Other => r@.len() == 0,
            GatewayEvent::Ready { user } => r@.len() == 1 && (r@[0] matches PluginMessage::Ready {
                user: u2,
            } && u2 == user),
            GatewayEvent::MessageCreate(b) => r@.len() == 1 && (
            r@[0] matches PluginMessage::MessageCreate { message } && message == b),
            GatewayEvent::MessageDelete { channel_id, guild_id, id } => r@.len() == 1 && r@[0]
                == (PluginMessage::MessageDelete { channel_id, guild_id, id }),
            GatewayEvent::MessageDeleteBulk { channel_id, guild_id, ids } => {
                &&& r@.len() == ids@.len()
                &&& (forall|i: int|
                    0 <= i < ids@.len() ==> r@[i] == (PluginMessage::MessageDelete {
                        channel_id,
                        guild_id,
                        id: ids@[i],
                    }))
            },
            GatewayEvent::MessageUpdate(b) => r@.len() == 1 && (
            r@[0] matches PluginMessage::MessageUpdate { message } && message == b),
            GatewayEvent::MemberChunk { guild_id, nonce, not_found } => r@.len() == 1 && (
            r@[0] matches PluginMessage::MemberChunk { guild_id: g2, nonce: n2, not_found: nf2 }
                && g2 == guild_id && n2 == nonce && nf2 == not_found),
            GatewayEvent::TypingStart { channel_id, guild_id, user_id, member_name, timestamp } => r@.len()
                == 1 && (r@[0] matches PluginMessage::TypingStart {
                channel_id: c2,
                guild_id: g2,
                user_id: u2,
                member_name: m2,
                timestamp: t2,
            } && c2 == channel_id && g2 == guild_id && u2 == user_id && m2 == member_name && t2
                == timestamp),
            GatewayEvent::ChannelUpdate { channel_id } => r@.len() == 1 && r@[0]
                == (PluginMessage::ChannelUpdate { channel_id }),
            GatewayEvent::ReactionAdd { channel_id, guild_id, message_id, emoji } => r@.len() == 1
                && (r@[0] matches PluginMessage::ReactionAdd {
                channel_id: c2,
                guild_id: g2,
                message_id: m2,
                emoji: e2,
            } && c2 == channel_id && g2 == guild_id && m2 == message_id && e2 == emoji),
            GatewayEvent::ReactionRemove { channel_id, guild_id, message_id, emoji } => r@.len()
                == 1 && (r@[0] matches PluginMessage::ReactionRemove {
                channel_id: c2,
                guild_id: g2,
                message_id: m2,
                emoji: e2,
            } && c2 == channel_id && g2 == guild_id && m2 == message_id && e2 == emoji),
            GatewayEvent::MemberListUpdate { guild_id } => r@.len() == 1 && r@[0]
                == (PluginMessage::MemberListUpdate { guild_id }),
        },
{
    let mut out: Vec<PluginMessage> = Vec::new();
    match event {
        GatewayEvent::Reconnect => {},
        GatewayEvent::Other => {},
        GatewayEvent::Ready { user } => {
            out.push(PluginMessage::Ready { user });
        },
        GatewayEvent::MessageCreate(b) => {
            out.push(PluginMessage::MessageCreate { message: b });
        },
        GatewayEvent::MessageDelete { channel_id, guild_id, id } => {
            out.push(PluginMessage::MessageDelete { channel_id, guild_id, id });
        },
        GatewayEvent::MessageDeleteBulk { channel_id, guild_id, ids } => {
            let n = ids.len();
            let mut i: usize = 0;
            while i < n
                invariant
                    n == ids@.len(),
                    i <= n,
                    out@.len() == i,
                    forall|q: int|
                        0 <= q < i ==> out@[q] == (PluginMessage::MessageDelete {
                            channel_id,
                            guild_id,
                            id: ids@[q],
                        }),
                decreases n - i,
            {
                out.push(PluginMessage::MessageDelete { channel_id, guild_id, id: ids[i] });
                i = i + 1;
            }
        },
        GatewayEvent::MessageUpdate(b) => {
            out.push(PluginMessage::MessageUpdate { message: b });
        },
        GatewayEvent::MemberChunk { guild_id, nonce, not_found } => {
            out.push(PluginMessage::MemberChunk { guild_id, nonce, not_found });
        },
        GatewayEvent::TypingStart { channel_id, guild_id, user_id, member_name, timestamp } => {
            out.push(
                PluginMessage::TypingStart {
                    channel_id,
                    guild_id,
                    user_id,
                    member_name,
                    timestamp,
                },
            );
        },
        GatewayEvent::ChannelUpdate { channel_id } => {
            out.push(PluginMessage::ChannelUpdate { channel_id });
        },
        GatewayEvent::ReactionAdd { channel_id, guild_id, message_id, emoji } => {
            out.push(PluginMessage::ReactionAdd { channel_id, guild_id, message_id, emoji });
        },
        GatewayEvent::ReactionRemove { channel_id, guild_id, message_id, emoji } => {
            out.push(PluginMessage::ReactionRemove { channel_id, guild_id, message_id, emoji });
        },
        GatewayEvent::MemberListUpdate { guild_id } => {
            out.push(PluginMessage::MemberListUpdate { guild_id });
        },
    }
    out
}

/// One display instruction for the UI sink.
pub enum UiAction {
    OpenGuild { guild_id: u64 },
    OpenPrivateChannel { channel_id: u64 },
    WarnUnknownGuild { guild_id: u64 },
    WarnUnknownChannel { channel_id: u64 },
    Redraw { guild_id: Option<u64>, channel_id: u64 },
    RedrawIgnoring { guild_id: u64, channel_id: u64, ignore_users: Vec<u64> },
    UpdateTypingBar,
    UpdateSlowmodeBar { channel_id: u64 },
    MemberListChanged { guild_id: u64 },
}

/// One materialized conversation: its partition key and its history.
pub struct Conversation {
    pub guild_id: Option<u64>,
    pub channel_id: u64,
    pub store: MessageStore,
}

/// The position of the conversation bearing this key.
pub open spec fn find_conv(s: Seq<Conversation>, gid: Option<u64>, ch: u64) -> Option<int>
    decreases s.len(),
{
    if s.len() == 0 {
        None
    } else if s.first().guild_id == gid && s.first().channel_id == ch {
        Some(0int)
    } else {
        match find_conv(s.drop_first(), gid, ch) {
            Option::None => None,
            Option::Some(i) => Some(i + 1),
        }
    }
}

pub proof fn lemma_find_conv_prefix(s: Seq<Conversation>, gid: Option<u64>, ch: u64, k: int)
    requires
        0 <= k,
        forall|q: int|
            0 <= q < k && q < s.len() ==> !(s[q].guild_id == gid && s[q].channel_id == ch),
    ensures
        k < s.len() && s[k].guild_id == gid && s[k].channel_id == ch ==> find_conv(s, gid, ch)
            == Some(k),
        k >= s.len() ==> find_conv(s, gid, ch) == Option::<int>::None,
    decreases k,
{
    if k == 0 || s.len() == 0 {
    } else {
        let s2 = s.drop_first();
        assert(s2 =~= s.subrange(1, s.len() as int));
        assert forall|q: int|
            0 <= q < k - 1 && q < s2.len() implies !(s2[q].guild_id == gid && s2[q].channel_id
            == ch) by {
            assert(s2[q] == s.subrange(1, s.len() as int)[q]);
            assert(!(s[q + 1].guild_id == gid && s[q + 1].channel_id == ch));
        }
        lemma_find_conv_prefix(s2, gid, ch, k - 1);
        if k < s.len() && s[k].guild_id == gid && s[k].channel_id == ch {
            assert(s2[k - 1] == s[k]);
        }
    }
}

/// Where the first match lies, nothing before it matches; where none
/// lies, nothing matches at all.
pub proof fn lemma_find_conv_char(s: Seq<Conversation>, gid: Option<u64>, ch: u64)
    ensures
        match find_conv(s, gid, ch) {
            Option::Some(i) => 0 <= i < s.len() && s[i].guild_id == gid && s[i].channel_id == ch
                && (forall|q: int|
                0 <= q < i ==> !((#[trigger] s[q]).guild_id == gid && s[q].channel_id == ch)),
            Option::None => forall|q: int|
                0 <= q < s.len() ==> !((#[trigger] s[q]).guild_id == gid && s[q].channel_id == ch),
        },
    decreases s.len(),
{
    if s.len() == 0 {
    } else {
        lemma_find_conv_char(s.drop_first(), gid, ch);
        let s2 = s.drop_first();
        assert(s2 =~= s.subrange(1, s.len() as int));
        match find_conv(s, gid, ch) {
            Option::Some(i) => {
                assert forall|q: int|
                    0 <= q < i implies !((#[trigger] s[q]).guild_id == gid && s[q].channel_id
                    == ch) by {
                    if q > 0 {
                        assert(s2[q - 1] == s[q]);
                    }
                }
            },
            Option::None => {
                assert forall|q: int|
                    0 <= q < s.len() implies !((#[trigger] s[q]).guild_id == gid && s[q].channel_id
                    == ch) by {
                    if q > 0 {
                        assert(s2[q - 1] == s[q]);
                    }
                }
            },
        }
    }
}

/// The display context's whole state: the materialized conversations and
/// the typing tracker.  All mutation happens here, one event at a time.
pub struct Instance {
    convs: Vec<Conversation>,
    typing: TypingTracker,
    max_messages: usize,
}

impl Instance {
    pub closed spec fn view_convs(&self) -> Seq<Conversation> {
        self.convs@
    }

    pub closed spec fn view_typing(&self) -> Seq<TypingEntry> {
        self.typing.view_entries()
    }

    pub closed spec fn max_cap(&self) -> int {
        self.max_messages as int
    }

    /// Every conversation's store is within its capacity.
    pub open spec fn inv(&self) -> bool {
        forall|i: int|
            0 <= i < self.view_convs().len() ==> (#[trigger] self.view_convs()[i]).store.inv()
    }

    /// An empty instance whose stores will hold at most `max_messages`.
    pub fn new(max_messages: usize) -> (r: Instance)
        ensures
            r.view_convs() =~= Seq::<Conversation>::empty(),
            r.view_typing() =~= Seq::<TypingEntry>::empty(),
            r.max_cap() == max_messages as int,
            r.inv(),
    {
        Instance { convs: Vec::new(), typing: TypingTracker::new(), max_messages }
    }

    /// The materialized conversations.
    pub fn conversations(&self) -> (r: &Vec<Conversation>)
        ensures
            r@ == self.view_convs(),
    {
        &self.convs
    }

    /// The typing tracker's entries.
    pub fn typing_entries(&self) -> (r: &Vec<TypingEntry>)
        ensures
            r@ == self.view_typing(),
    {
        self.typing.entries()
    }

    /// Find a conversation by its key.
    fn conv_index(&self, gid: Option<u64>, ch: u64) -> (r: Option<usize>)
        ensures
            match r {
                Option::Some(i) => find_conv(self.view_convs(), gid, ch) == Some(i as int) && (
                i as int) < self.view_convs().len(),
                Option::None => find_conv(self.view_convs(), gid, ch) is None,
            },
    {
        let n = self.convs.len();
        let mut i: usize = 0;
        while i < n
            invariant
                n == self.convs@.len(),
                i <= n,
                forall|q: int|
                    0 <= q < i ==> !((#[trigger] self.convs@[q]).guild_id == gid
                        && self.convs@[q].channel_id == ch),
            decreases n - i,
        {
            let same_guild = match (&self.convs[i].guild_id, &gid) {
                (Option::Some(a), Option::Some(b)) => *a == *b,
                (Option::None, Option::None) => true,
                _ => false,
            };
            if same_guild && self.convs[i].channel_id == ch {
                proof {
                    lemma_find_conv_prefix(self.convs@, gid, ch, i as int);
                }
                return Some(i);
            }
            i = i + 1;
        }
        proof {
            lemma_find_conv_prefix(self.convs@, gid, ch, n as int);
        }
        None
    }

    /// The conversation bearing the key, where one is materialized.
    pub fn search_buffer(&self, guild_id: Option<u64>, channel_id: u64) -> (r: Option<
        &Conversation,
    >)
        ensures
            match r {
                Option::Some(c) => match find_conv(self.view_convs(), guild_id, channel_id) {
                    Option::Some(i) => *c == self.view_convs()[i],
                    Option::None => false,
                },
                Option::None => find_conv(self.view_convs(), guild_id, channel_id) is None,
            },
    {
        match self.conv_index(guild_id, channel_id) {
            Option::Some(i) => Some(&self.convs[i]),
            Option::None => None,
        }
    }

    /// Materialize a conversation; a no-op where the key already exists.
    pub fn open_conversation(&mut self, guild_id: Option<u64>, channel_id: u64)
        requires
            old(self).inv(),
        ensures
            final(self).inv(),
            final(self).max_cap() == old(self).max_cap(),
            final(self).view_typing() == old(self).view_typing(),
            match find_conv(old(self).view_convs(), guild_id, channel_id) {
                Option::Some(i) => final(self).view_convs() == old(self).view_convs(),
                Option::None => {
                    &&& final(self).view_convs().len() == old(self).view_convs().len() + 1
                    &&& final(self).view_convs().drop_last() == old(self).view_convs()
                    &&& final(self).view_convs().last().guild_id == guild_id
                    &&& final(self).view_convs().last().channel_id == channel_id
                    &&& final(self).view_convs().last().store.view_items() == Seq::<
                        WeecordMessage,
                    >::empty()
                    &&& final(self).view_convs().last().store.capacity() == old(self).max_cap()
                },
            },
    {
        match self.conv_index(guild_id, channel_id) {
            Option::Some(_) => {},
            Option::None => {
                let store = MessageStore::new(self.max_messages);
                let ghost pre = self.convs@;
                self.convs.push(Conversation { guild_id, channel_id, store });
                proof {
                    assert(self.convs@.drop_last() =~= pre);
                    assert(forall|i: int|
                        0 <= i < pre.len() ==> (#[trigger] self.convs@[i]) == pre[i]);
                }
            },
        }
    }
}


/// Everything but the keyed conversation agrees, and that one keeps its
/// key and capacity.
pub open spec fn convs_unchanged_except(
    old_c: Seq<Conversation>,
    new_c: Seq<Conversation>,
    i: int,
) -> bool {
    &&& new_c.len() == old_c.len()
    &&& (forall|j: int| 0 <= j < old_c.len() && j != i ==> new_c[j] == old_c[j])
    &&& 0 <= i < old_c.len()
    &&& new_c[i].guild_id == old_c[i].guild_id
    &&& new_c[i].channel_id == old_c[i].channel_id
    &&& new_c[i].store.capacity() == old_c[i].store.capacity()
}

/// The actions the ready event produces for a list of configured guilds.
pub open spec fn ready_guild_actions(gids: Seq<u64>, cache: CacheView) -> Seq<UiAction>
    decreases gids.len(),
{
    if gids.len() == 0 {
        Seq::<UiAction>::empty()
    } else {
        (if find_guild(cache.guilds@, gids.first()) is Some {
            seq![UiAction::OpenGuild { guild_id: gids.first() }]
        } else {
            seq![UiAction::WarnUnknownGuild { guild_id: gids.first() }]
        }) + ready_guild_actions(gids.drop_first(), cache)
    }
}

/// The actions the ready event produces for the autojoined private
/// channels.
pub open spec fn ready_private_actions(chs: Seq<u64>, cache: CacheView) -> Seq<UiAction>
    decreases chs.len(),
{
    if chs.len() == 0 {
        Seq::<UiAction>::empty()
    } else {
        (if find_channel(cache.channels@, chs.first()) is Some {
            seq![UiAction::OpenPrivateChannel { channel_id: chs.first() }]
        } else {
            seq![UiAction::WarnUnknownChannel { channel_id: chs.first() }]
        }) + ready_private_actions(chs.drop_first(), cache)
    }
}

/// Whether a watched channel holds nothing unread: its last message is
/// exactly the one its read state records.
pub open spec fn watched_caught_up(cache: CacheView, ch: u64) -> bool {
    match find_channel(cache.channels@, ch) {
        Option::Some(c) => match find_read_state(cache.read_states@, ch) {
            Option::Some(rs) => c.last_message_id == Some(rs.last_message_id),
            Option::None => c.last_message_id is None,
        },
        Option::None => false,
    }
}

/// The actions the ready event produces for the watched private channels:
/// only those with unread traffic open.
pub open spec fn ready_watched_actions(chs: Seq<u64>, cache: CacheView) -> Seq<UiAction>
    decreases chs.len(),
{
    if chs.len() == 0 {
        Seq::<UiAction>::empty()
    } else {
        (match find_channel(cache.channels@, chs.first()) {
            Option::None => seq![UiAction::WarnUnknownChannel { channel_id: chs.first() }],
            Option::Some(c) => if watched_caught_up(cache, chs.first()) {
                Seq::<UiAction>::empty()
            } else {
                seq![UiAction::OpenPrivateChannel { channel_id: chs.first() }]
            },
        }) + ready_watched_actions(chs.drop_first(), cache)
    }
}

/// The guild ids of every cached guild, in cache order.
pub open spec fn all_guild_ids(cache: CacheView) -> Seq<u64> {
    Seq::new(cache.guilds@.len(), |i: int| cache.guilds@[i].id)
}

/// The whole action list of the ready event.
pub open spec fn ready_actions(cache: CacheView, config: InnerConfig) -> Seq<UiAction> {
    (if config.join_all {
        ready_guild_actions(all_guild_ids(cache), cache)
    } else {
        ready_guild_actions(config.guilds@, cache)
    }) + ready_private_actions(config.autojoin_private@, cache) + ready_watched_actions(
        config.watched_private@,
        cache,
    )
}

/// The typing window start in milliseconds, saturating.
pub open spec fn typing_time_ms(timestamp: u64) -> u64 {
    if timestamp as int * 1000 > u64::MAX as int {
        u64::MAX
    } else {
        (timestamp * 1000) as u64
    }
}

impl Instance {
    /// Append ready actions for a list of guild ids.
    fn push_guild_actions(cache: &CacheView, gids: &Vec<u64>, out: &mut Vec<UiAction>)
        ensures
            final(out)@ == old(out)@ + ready_guild_actions(gids@, *cache),
    {
        let n = gids.len();
        let mut i: usize = 0;
        proof {
            assert(gids@.skip(0) =~= gids@);
        }
        while i < n
            invariant
                n == gids@.len(),
                i <= n,
                old(out)@ + ready_guild_actions(gids@, *cache) == out@ + ready_guild_actions(
                    gids@.skip(i as int),
                    *cache,
                ),
            decreases n - i,
        {
            let ghost pre = out@;
            proof {
                assert(gids@.skip(i as int).first() == gids@[i as int]);
                assert(gids@.skip(i as int).drop_first() =~= gids@.skip(i as int + 1));
            }
            match cache.guild(gids[i]) {
                Option::Some(_) => {
                    out.push(UiAction::OpenGuild { guild_id: gids[i] });
                },
                Option::None => {
                    out.push(UiAction::WarnUnknownGuild { guild_id: gids[i] });
                },
            }
            proof {
                assert(pre + ready_guild_actions(gids@.skip(i as int), *cache) =~= out@
                    + ready_guild_actions(gids@.skip(i as int + 1), *cache));
            }
            i = i + 1;
        }
        proof {
            assert(ready_guild_actions(gids@.skip(n as int), *cache) =~= Seq::<UiAction>::empty());
            assert(out@ + ready_guild_actions(gids@.skip(n as int), *cache) =~= out@);
        }
    }

    /// Apply one queued event to the state, producing display actions.
    /// Unknown conversations drop the event; nothing here ever panics, so
    /// the loop around this runs indefinitely.
    #[verifier::rlimit(100)]
    pub fn dispatch(
        &mut self,
        cache: &CacheView,
        config: &InnerConfig,
        event: PluginMessage,
    ) -> (r: Vec<UiAction>)
        requires
            old(self).inv(),
        ensures
            final(self).inv(),
            final(self).max_cap() == old(self).max_cap(),
            match event {
                PluginMessage::Ready { user } => {
                    &&& final(self).view_convs() == old(self).view_convs()
                    &&& final(self).view_typing() == old(self).view_typing()
                    &&& r@ == ready_actions(*cache, *config)
                },
                PluginMessage::MessageCreate { message: b } => {
                    let ch = b.channel_id;
                    let base = old(self).view_convs();
                    let should_open = contains_id(config.watched_private@, ch) && find_conv(
                        base,
                        None,
                        ch,
                    ) is None && find_channel(cache.channels@, ch) is Some;
                    let open_acts: Seq<UiAction> = if should_open {
                        seq![UiAction::OpenPrivateChannel { channel_id: ch }]
                    } else {
                        Seq::<UiAction>::empty()
                    };
                    let fin = final(self).view_convs();
                    &&& final(self).view_typing() == old(self).view_typing()
                    &&& (if should_open {
                        &&& fin.len() == base.len() + 1
                        &&& fin.last().guild_id is None
                        &&& fin.last().channel_id == ch
                        &&& fin.last().store.capacity() == old(self).max_cap()
                    } else {
                        fin.len() == base.len()
                    })
                    &&& match find_conv(base, b.guild_id, ch) {
                        Option::Some(i) => {
                            let old_items = base[i].store.view_items();
                            let reconciled = match b.nonce {
                                Option::Some(n) => !(first_echo_idx(
                                    drop_notifications(old_items),
                                    n,
                                ) is None),
                                Option::None => false,
                            };
                            &&& (forall|j: int|
                                0 <= j < base.len() && j != i ==> fin[j] == base[j])
                            &&& (should_open ==> fin.last().store.view_items() == Seq::<
                                WeecordMessage,
                            >::empty())
                            &&& fin[i].guild_id == base[i].guild_id
                            &&& fin[i].channel_id == base[i].channel_id
                            &&& fin[i].store.capacity() == base[i].store.capacity()
                            &&& (exists|m: WeecordMessage|
                                (m matches WeecordMessage::Text(b2) && b2 == b)
                                    && fin[i].store.view_items() == #[trigger] spec_add_remote(
                                    old_items,
                                    m,
                                    b.nonce,
                                    base[i].store.capacity(),
                                ))
                            &&& r@ == open_acts + (if reconciled {
                                seq![
                                    UiAction::Redraw { guild_id: b.guild_id, channel_id: ch },
                                ]
                            } else {
                                Seq::<UiAction>::empty()
                            })
                        },
                        Option::None => {
                            &&& (forall|j: int| 0 <= j < base.len() ==> fin[j] == base[j])
                            &&& r@ == open_acts
                            &&& (if should_open && b.guild_id is None {
                                exists|m: WeecordMessage|
                                    (m matches WeecordMessage::Text(b2) && b2 == b)
                                        && fin.last().store.view_items()
                                        == #[trigger] spec_add_remote(
                                        Seq::<WeecordMessage>::empty(),
                                        m,
                                        b.nonce,
                                        old(self).max_cap(),
                                    )
                            } else if should_open {
                                fin.last().store.view_items() == Seq::<WeecordMessage>::empty()
                            } else {
                                true
                            })
                        },
                    }
                },
                PluginMessage::MessageDelete { channel_id, guild_id, id } => {
                    &&& final(self).view_typing() == old(self).view_typing()
                    &&& r@ == Seq::<UiAction>::empty()
                    &&& match find_conv(old(self).view_convs(), guild_id, channel_id) {
                        Option::None => final(self).view_convs() == old(self).view_convs(),
                        Option::Some(i) => {
                            &&& convs_unchanged_except(
                                old(self).view_convs(),
                                final(self).view_convs(),
                                i,
                            )
                            &&& final(self).view_convs()[i].store.view_items() == remove_by_id(
                                old(self).view_convs()[i].store.view_items(),
                                id,
                            )
                        },
                    }
                },
                PluginMessage::MessageUpdate { message: u } => {
                    &&& final(self).view_typing() == old(self).view_typing()
                    &&& r@ == Seq::<UiAction>::empty()
                    &&& match find_conv(old(self).view_convs(), u.guild_id, u.channel_id) {
                        Option::None => final(self).view_convs() == old(self).view_convs(),
                        Option::Some(i) => {
                            &&& convs_unchanged_except(
                                old(self).view_convs(),
                                final(self).view_convs(),
                                i,
                            )
                            &&& patched(
                                old(self).view_convs()[i].store.view_items(),
                                final(self).view_convs()[i].store.view_items(),
                                *u,
                            )
                        },
                    }
                },
                PluginMessage::MemberChunk { guild_id, nonce, not_found } => {
                    &&& final(self).view_convs() == old(self).view_convs()
                    &&& final(self).view_typing() == old(self).view_typing()
                    &&& match nonce {
                        Option::Some(ch) => {
                            if find_conv(old(self).view_convs(), Some(guild_id), ch) is Some {
                                r@.len() == 1 && (r@[0] matches UiAction::RedrawIgnoring {
                                    guild_id: g2,
                                    channel_id: c2,
                                    ignore_users: nf2,
                                } && g2 == guild_id && c2 == ch && nf2@ == not_found@)
                            } else {
                                r@.len() == 0
                            }
                        },
                        Option::None => r@.len() == 0,
                    }
                },
                PluginMessage::TypingStart {
                    channel_id,
                    guild_id,
                    user_id,
                    member_name,
                    timestamp,
                } => {
                    let own = match cache.current_user {
                        Option::Some(u) => u.id == user_id,
                        Option::None => true,
                    };
                    let name_view = match member_name {
                        Option::Some(n) => Some(n@),
                        Option::None => match find_user(cache.users@, user_id) {
                            Option::Some(u) => Some(u.name@),
                            Option::None => None,
                        },
                    };
                    &&& final(self).view_convs() == old(self).view_convs()
                    &&& if own || name_view is None {
                        final(self).view_typing() == old(self).view_typing() && r@.len() == 0
                    } else {
                        let tv = final(self).view_typing();
                        &&& tv.len() == drop_user(
                            old(self).view_typing(),
                            channel_id,
                            user_id,
                        ).len() + 1
                        &&& tv.drop_last() == drop_user(
                            old(self).view_typing(),
                            channel_id,
                            user_id,
                        )
                        &&& tv.last().channel_id == channel_id
                        &&& tv.last().guild_id == guild_id
                        &&& tv.last().user == user_id
                        &&& Some(tv.last().user_name@) == name_view
                        &&& tv.last().time == typing_time_ms(timestamp)
                        &&& r@ == seq![UiAction::UpdateTypingBar]
                    }
                },
                PluginMessage::ChannelUpdate { channel_id } => {
                    &&& final(self).view_convs() == old(self).view_convs()
                    &&& final(self).view_typing() == old(self).view_typing()
                    &&& r@ == seq![UiAction::UpdateSlowmodeBar { channel_id }]
                },
                PluginMessage::ReactionAdd { channel_id, guild_id, message_id, emoji } => {
                    &&& final(self).view_typing() == old(self).view_typing()
                    &&& r@ == Seq::<UiAction>::empty()
                    &&& match find_conv(old(self).view_convs(), guild_id, channel_id) {
                        Option::None => final(self).view_convs() == old(self).view_convs(),
                        Option::Some(i) => {
                            &&& convs_unchanged_except(
                                old(self).view_convs(),
                                final(self).view_convs(),
                                i,
                            )
                            &&& reaction_applied(
                                old(self).view_convs()[i].store.view_items(),
                                final(self).view_convs()[i].store.view_items(),
                                message_id,
                                emoji,
                                true,
                            )
                        },
                    }
                },
                PluginMessage::ReactionRemove { channel_id, guild_id, message_id, emoji } => {
                    &&& final(self).view_typing() == old(self).view_typing()
                    &&& r@ == Seq::<UiAction>::empty()
                    &&& match find_conv(old(self).view_convs(), guild_id, channel_id) {
                        Option::None => final(self).view_convs() == old(self).view_convs(),
                        Option::Some(i) => {
                            &&& convs_unchanged_except(
                                old(self).view_convs(),
                                final(self).view_convs(),
                                i,
                            )
                            &&& reaction_applied(
                                old(self).view_convs()[i].store.view_items(),
                                final(self).view_convs()[i].store.view_items(),
                                message_id,
                                emoji,
                                false,
                            )
                        },
                    }
                },
                PluginMessage::MemberListUpdate { guild_id } => {
                    &&& final(self).view_convs() == old(self).view_convs()
                    &&& final(self).view_typing() == old(self).view_typing()
                    &&& r@ == seq![UiAction::MemberListChanged { guild_id }]
                },
            },
    {
        let mut actions: Vec<UiAction> = Vec::new();
        proof {
            assert(actions@ =~= Seq::<UiAction>::empty());
        }
        match event {
            PluginMessage::Ready { user: _ } => {
                if config.join_all {
                    let mut gids: Vec<u64> = Vec::new();
                    let gn = cache.guilds.len();
                    let mut gi: usize = 0;
                    while gi < gn
                        invariant
                            gn == cache.guilds@.len(),
                            gi <= gn,
                            gids@ =~= all_guild_ids(*cache).take(gi as int),
                        decreases gn - gi,
                    {
                        gids.push(cache.guilds[gi].id);
                        proof {
                            assert(gids@ =~= all_guild_ids(*cache).take(gi as int + 1));
                        }
                        gi = gi + 1;
                    }
                    proof {
                        assert(gids@ =~= all_guild_ids(*cache));
                    }
                    Self::push_guild_actions(cache, &gids, &mut actions);
                    proof {
                        assert(actions@ =~= ready_guild_actions(all_guild_ids(*cache), *cache));
                    }
                } else {
                    Self::push_guild_actions(cache, &config.guilds, &mut actions);
                }
                let ghost after_guilds = actions@;
                let an = config.autojoin_private.len();
                let mut ai: usize = 0;
                proof {
                    assert(config.autojoin_private@.skip(0) =~= config.autojoin_private@);
                }
                while ai < an
                    invariant
                        an == config.autojoin_private@.len(),
                        ai <= an,
                        after_guilds + ready_private_actions(config.autojoin_private@, *cache)
                            == actions@ + ready_private_actions(
                            config.autojoin_private@.skip(ai as int),
                            *cache,
                        ),
                    decreases an - ai,
                {
                    let ghost pre = actions@;
                    proof {
                        assert(config.autojoin_private@.skip(ai as int).first()
                            == config.autojoin_private@[ai as int]);
                        assert(config.autojoin_private@.skip(ai as int).drop_first()
                            =~= config.autojoin_private@.skip(ai as int + 1));
                    }
                    let ch = config.autojoin_private[ai];
                    match cache.channel(ch) {
                        Option::Some(_) => {
                            actions.push(UiAction::OpenPrivateChannel { channel_id: ch });
                        },
                        Option::None => {
                            actions.push(UiAction::WarnUnknownChannel { channel_id: ch });
                        },
                    }
                    proof {
                        assert(pre + ready_private_actions(
                            config.autojoin_private@.skip(ai as int),
                            *cache,
                        ) =~= actions@ + ready_private_actions(
                            config.autojoin_private@.skip(ai as int + 1),
                            *cache,
                        ));
                    }
                    ai = ai + 1;
                }
                proof {
                    assert(ready_private_actions(
                        config.autojoin_private@.skip(an as int),
                        *cache,
                    ) =~= Seq::<UiAction>::empty());
                    assert(actions@ + ready_private_actions(
                        config.autojoin_private@.skip(an as int),
                        *cache,
                    ) =~= actions@);
                }
                let ghost after_private = actions@;
                let wn = config.watched_private.len();
                let mut wi: usize = 0;
                proof {
                    assert(config.watched_private@.skip(0) =~= config.watched_private@);
                }
                while wi < wn
                    invariant
                        wn == config.watched_private@.len(),
                        wi <= wn,
                        after_private + ready_watched_actions(config.watched_private@, *cache)
                            == actions@ + ready_watched_actions(
                            config.watched_private@.skip(wi as int),
                            *cache,
                        ),
                    decreases wn - wi,
                {
                    let ghost pre = actions@;
                    proof {
                        assert(config.watched_private@.skip(wi as int).first()
                            == config.watched_private@[wi as int]);
                        assert(config.watched_private@.skip(wi as int).drop_first()
                            =~= config.watched_private@.skip(wi as int + 1));
                    }
                    let ch = config.watched_private[wi];
                    match cache.channel(ch) {
                        Option::None => {
                            actions.push(UiAction::WarnUnknownChannel { channel_id: ch });
                        },
                        Option::Some(c) => {
                            let caught_up = match (&c.last_message_id, cache.read_state(ch)) {
                                (Option::Some(lm), Option::Some(rs)) => *lm == rs.last_message_id,
                                (Option::None, Option::None) => true,
                                _ => false,
                            };
                            if !caught_up {
                                actions.push(UiAction::OpenPrivateChannel { channel_id: ch });
                            }
                        },
                    }
                    proof {
                        assert(pre + ready_watched_actions(
                            config.watched_private@.skip(wi as int),
                            *cache,
                        ) =~= actions@ + ready_watched_actions(
                            config.watched_private@.skip(wi as int + 1),
                            *cache,
                        ));
                    }
                    wi = wi + 1;
                }
                proof {
                    assert(ready_watched_actions(
                        config.watched_private@.skip(wn as int),
                        *cache,
                    ) =~= Seq::<UiAction>::empty());
                    assert(actions@ + ready_watched_actions(
                        config.watched_private@.skip(wn as int),
                        *cache,
                    ) =~= actions@);
                    assert(actions@ =~= ready_actions(*cache, *config));
                }
                actions
            },
            PluginMessage::MessageCreate { message: b } => {
                let ch = b.channel_id;
                let mut should_open = false;
                if crate::render::find_id(&config.watched_private, ch) {
                    match self.conv_index(None, ch) {
                        Option::None => {
                            match cache.channel(ch) {
                                Option::Some(_) => {
                                    should_open = true;
                                },
                                Option::None => {},
                            }
                        },
                        Option::Some(_) => {},
                    }
                }
                let ghost base = self.convs@;
                if should_open {
                    self.open_conversation(None, ch);
                    actions.push(UiAction::OpenPrivateChannel { channel_id: ch });
                }
                let ghost convs1 = self.convs@;
                let ghost open_acts = actions@;
                proof {
                    if should_open {
                        assert(convs1.drop_last() == base);
                        assert(forall|j: int|
                            0 <= j < base.len() ==> #[trigger] convs1[j] == base[j]);
                        assert(actions@ =~= seq![UiAction::OpenPrivateChannel { channel_id: ch }]);
                    }
                }
                let gid = b.guild_id;
                let nonce = b.nonce;
                match self.conv_index(gid, ch) {
                    Option::None => {
                        proof {
                            lemma_find_conv_char(convs1, gid, ch);
                            lemma_find_conv_prefix(base, gid, ch, base.len() as int);
                        }
                        actions
                    },
                    Option::Some(i) => {
                        proof {
                            lemma_find_conv_char(convs1, gid, ch);
                            if should_open && (i as int) < base.len() {
                                lemma_find_conv_prefix(base, gid, ch, i as int);
                            } else if should_open {
                                lemma_find_conv_prefix(base, gid, ch, base.len() as int);
                            }
                        }
                        let mut conv = self.convs.remove(i);
                        let ghost conv_pre = conv;
                        let ghost old_items = conv.store.view_items();
                        let reconciled: bool = match nonce {
                            Option::Some(n) => {
                                let cleared_probe = first_buffered_echo(&conv.store, n);
                                cleared_probe
                            },
                            Option::None => false,
                        };
                        let wm = WeecordMessage::Text(b);
                        let ghost wmg = wm;
                        conv.store.add_msg(wm);
                        let ghost conv2 = conv;
                        self.convs.insert(i, conv);
                        if reconciled {
                            actions.push(
                                UiAction::Redraw { guild_id: gid, channel_id: ch },
                            );
                        }
                        proof {
                            assert(conv_pre == convs1[i as int]);
                            assert(self.convs@[i as int] == conv2);
                            assert(conv2.guild_id == conv_pre.guild_id);
                            assert(conv2.channel_id == conv_pre.channel_id);
                            assert(conv2.store.capacity() == conv_pre.store.capacity());
                            assert(self.convs@ == convs1.remove(i as int).insert(
                                i as int,
                                self.convs@[i as int],
                            ));
                            assert(forall|j: int|
                                0 <= j < convs1.len() && j != i as int ==> self.convs@[j]
                                    == convs1[j]);
                            assert(self.convs@.len() == convs1.len());
                            assert(conv2.store.view_items() == spec_add_remote(
                                old_items,
                                wmg,
                                nonce,
                                conv_pre.store.capacity(),
                            ));
                            if reconciled {
                                assert(actions@ =~= open_acts + seq![
                                    UiAction::Redraw { guild_id: gid, channel_id: ch },
                                ]);
                            } else {
                                assert(actions@ =~= open_acts + Seq::<UiAction>::empty());
                            }
                            if should_open && (i as int) == base.len() {
                                assert(old_items =~= Seq::<WeecordMessage>::empty());
                                assert(self.convs@.last() == conv2);
                            }
                            if should_open && (i as int) < base.len() {
                                assert(self.convs@.last() == convs1.last());
                            }
                        }
                        actions
                    },
                }
            },
            PluginMessage::MessageDelete { channel_id, guild_id, id } => {
                match self.conv_index(guild_id, channel_id) {
                    Option::None => actions,
                    Option::Some(i) => {
                        let ghost convs1 = self.convs@;
                        let mut conv = self.convs.remove(i);
                        conv.store.remove_msg(id);
                        let ghost conv2 = conv;
                        self.convs.insert(i, conv);
                        proof {
                            assert(self.convs@[i as int] == conv2);
                            assert(self.convs@ == convs1.remove(i as int).insert(
                                i as int,
                                self.convs@[i as int],
                            ));
                            assert(forall|j: int|
                                0 <= j < convs1.len() && j != i as int ==> self.convs@[j]
                                    == convs1[j]);
                        }
                        actions
                    },
                }
            },
            PluginMessage::MessageUpdate { message: u } => {
                let gid = u.guild_id;
                let ch = u.channel_id;
                match self.conv_index(gid, ch) {
                    Option::None => actions,
                    Option::Some(i) => {
                        let ghost convs1 = self.convs@;
                        let mut conv = self.convs.remove(i);
                        conv.store.apply_message_update(*u);
                        let ghost conv2 = conv;
                        self.convs.insert(i, conv);
                        proof {
                            assert(self.convs@[i as int] == conv2);
                            assert(self.convs@ == convs1.remove(i as int).insert(
                                i as int,
                                self.convs@[i as int],
                            ));
                            assert(forall|j: int|
                                0 <= j < convs1.len() && j != i as int ==> self.convs@[j]
                                    == convs1[j]);
                        }
                        actions
                    },
                }
            },
            PluginMessage::MemberChunk { guild_id, nonce, not_found } => {
                match nonce {
                    Option::Some(ch) => {
                        match self.conv_index(Some(guild_id), ch) {
                            Option::Some(_) => {
                                actions.push(
                                    UiAction::RedrawIgnoring {
                                        guild_id,
                                        channel_id: ch,
                                        ignore_users: not_found,
                                    },
                                );
                                actions
                            },
                            Option::None => actions,
                        }
                    },
                    Option::None => actions,
                }
            },
            PluginMessage::TypingStart { channel_id, guild_id, user_id, member_name, timestamp } => {
                let own = match &cache.current_user {
                    Option::Some(u) => u.id == user_id,
                    Option::None => true,
                };
                if own {
                    return actions;
                }
                let name: Option<String> = match member_name {
                    Option::Some(n) => Some(n),
                    Option::None => {
                        match cache.user(user_id) {
                            Option::Some(u) => Some(u.name.clone()),
                            Option::None => None,
                        }
                    },
                };
                match name {
                    Option::None => actions,
                    Option::Some(user_name) => {
                        let time = if timestamp > u64::MAX / 1000 {
                            u64::MAX
                        } else {
                            timestamp * 1000
                        };
                        proof {
                            assert(time == typing_time_ms(timestamp));
                        }
                        self.typing.add(
                            TypingEntry { channel_id, guild_id, user: user_id, user_name, time },
                        );
                        actions.push(UiAction::UpdateTypingBar);
                        actions
                    },
                }
            },
            PluginMessage::ChannelUpdate { channel_id } => {
                actions.push(UiAction::UpdateSlowmodeBar { channel_id });
                actions
            },
            PluginMessage::ReactionAdd { channel_id, guild_id, message_id, emoji } => {
                match self.conv_index(guild_id, channel_id) {
                    Option::None => actions,
                    Option::Some(i) => {
                        let ghost convs1 = self.convs@;
                        let mut conv = self.convs.remove(i);
                        conv.store.add_reaction(message_id, emoji);
                        let ghost conv2 = conv;
                        self.convs.insert(i, conv);
                        proof {
                            assert(self.convs@[i as int] == conv2);
                            assert(self.convs@ == convs1.remove(i as int).insert(
                                i as int,
                                self.convs@[i as int],
                            ));
                            assert(forall|j: int|
                                0 <= j < convs1.len() && j != i as int ==> self.convs@[j]
                                    == convs1[j]);
                        }
                        actions
                    },
                }
            },
            PluginMessage::ReactionRemove { channel_id, guild_id, message_id, emoji } => {
                match self.conv_index(guild_id, channel_id) {
                    Option::None => actions,
                    Option::Some(i) => {
                        let ghost convs1 = self.convs@;
                        let mut conv = self.convs.remove(i);
                        conv.store.remove_reaction(message_id, emoji);
                        let ghost conv2 = conv;
                        self.convs.insert(i, conv);
                        proof {
                            assert(self.convs@[i as int] == conv2);
                            assert(self.convs@ == convs1.remove(i as int).insert(
                                i as int,
                                self.convs@[i as int],
                            ));
                            assert(forall|j: int|
                                0 <= j < convs1.len() && j != i as int ==> self.convs@[j]
                                    == convs1[j]);
                        }
                        actions
                    },
                }
            },
            PluginMessage::MemberListUpdate { guild_id } => {
                actions.push(UiAction::MemberListChanged { guild_id });
                actions
            },
        }
    }

    /// Append one locally-built item (a local echo of an outbound send,
    /// or a transient notification) to the keyed conversation; reports
    /// whether the conversation was materialized.
    pub fn add_item(&mut self, guild_id: Option<u64>, channel_id: u64, msg: WeecordMessage) -> (r:
        bool)
        requires
            old(self).inv(),
        ensures
            final(self).inv(),
            final(self).max_cap() == old(self).max_cap(),
            final(self).view_typing() == old(self).view_typing(),
            match find_conv(old(self).view_convs(), guild_id, channel_id) {
                Option::None => !r && final(self).view_convs() == old(self).view_convs(),
                Option::Some(i) => {
                    &&& r
                    &&& final(self).view_convs().len() == old(self).view_convs().len()
                    &&& (forall|j: int|
                        0 <= j < old(self).view_convs().len() && j != i ==> final(self).view_convs()[j] == old(self).view_convs()[j])
                    &&& final(self).view_convs()[i].guild_id == old(self).view_convs()[i].guild_id
                    &&& final(self).view_convs()[i].channel_id == old(self).view_convs()[i].channel_id
                    &&& final(self).view_convs()[i].store.capacity() == old(self).view_convs()[i].store.capacity()
                    &&& match msg {
                        WeecordMessage::Notification { .. } => final(self).view_convs()[i].store.view_items() == crate::store::evict(
                            old(self).view_convs()[i].store.view_items().push(msg),
                            old(self).view_convs()[i].store.capacity(),
                        ),
                        WeecordMessage::LocalEcho { .. } => final(self).view_convs()[i].store.view_items() == crate::store::evict(
                            drop_notifications(old(self).view_convs()[i].store.view_items()).push(
                                msg,
                            ),
                            old(self).view_convs()[i].store.capacity(),
                        ),
                        WeecordMessage::Text(d) => final(self).view_convs()[i].store.view_items() == spec_add_remote(
                            old(self).view_convs()[i].store.view_items(),
                            msg,
                            d.nonce,
                            old(self).view_convs()[i].store.capacity(),
                        ),
                    }
                },
            },
    {
        match self.conv_index(guild_id, channel_id) {
            Option::None => false,
            Option::Some(i) => {
                let ghost convs1 = self.convs@;
                let mut conv = self.convs.remove(i);
                let ghost conv_pre = conv;
                conv.store.add_msg(msg);
                let ghost conv2 = conv;
                self.convs.insert(i, conv);
                proof {
                    assert(conv_pre == convs1[i as int]);
                    assert(self.convs@[i as int] == conv2);
                    assert(self.convs@ == convs1.remove(i as int).insert(
                        i as int,
                        self.convs@[i as int],
                    ));
                    assert(forall|j: int|
                        0 <= j < convs1.len() && j != i as int ==> self.convs@[j] == convs1[j]);
                }
                true
            },
        }
    }

    /// Sweep the typing tracker; reports a bar refresh only on change.
    pub fn sweep_typing(&mut self, now_ms: u64) -> (r: Vec<UiAction>)
        requires
            old(self).inv(),
        ensures
            final(self).inv(),
            final(self).max_cap() == old(self).max_cap(),
            final(self).view_convs() == old(self).view_convs(),
            final(self).view_typing() == crate::typing::keep_live(old(self).view_typing(), now_ms),
            r@ == (if final(self).view_typing().len() != old(self).view_typing().len() {
                seq![UiAction::UpdateTypingBar]
            } else {
                Seq::<UiAction>::empty()
            }),
    {
        let mut actions: Vec<UiAction> = Vec::new();
        let changed = self.typing.sweep(now_ms);
        if changed {
            actions.push(UiAction::UpdateTypingBar);
        }
        actions
    }
}

/// Whether a local echo of this nonce is currently buffered once the
/// notifications are cleared, deciding the full redraw on reconciliation.
fn first_buffered_echo(store: &MessageStore, nonce: u64) -> (r: bool)
    ensures
        r == !(first_echo_idx(drop_notifications(store.view_items()), nonce) is None),
{
    let items = store.messages();
    let n = items.len();
    let mut i: usize = 0;
    while i < n
        invariant
            n == items@.len(),
            items@ == store.view_items(),
            i <= n,
            forall|q: int| 0 <= q < i ==> !crate::message::is_echo_with_nonce(items@[q], nonce),
        decreases n - i,
    {
        let hit = match &items[i] {
            WeecordMessage::LocalEcho { nonce: en, .. } => *en == nonce,
            _ => false,
        };
        if hit {
            proof {
                crate::store::lemma_first_echo_prefix(items@, nonce, i as int);
                lemma_echo_drop_notifications(items@, nonce);
            }
            return true;
        }
        i = i + 1;
    }
    proof {
        crate::store::lemma_first_echo_prefix(items@, nonce, n as int);
        lemma_echo_drop_notifications(items@, nonce);
    }
    false
}

/// Clearing notifications does not change whether an echo is buffered.
proof fn lemma_echo_drop_notifications(s: Seq<WeecordMessage>, nonce: u64)
    ensures
        (first_echo_idx(drop_notifications(s), nonce) is None) == (first_echo_idx(s, nonce)
            is None),
    decreases s.len(),
{
    if s.len() == 0 {
    } else {
        lemma_echo_drop_notifications(s.drop_first(), nonce);
        if crate::message::is_notification(s.first()) {
            assert(!crate::message::is_echo_with_nonce(s.first(), nonce));
        } else {
            let r = seq![s.first()] + drop_notifications(s.drop_first());
            assert(r.first() == s.first());
            assert(r.drop_first() =~= drop_notifications(s.drop_first()));
        }
    }
}

} // verus!
