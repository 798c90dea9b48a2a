//! The per-conversation bounded ordered message store: append with
//! front-first eviction, local-echo reconciliation, patch and removal by
//! stable id, and clearing of transient notifications.
use crate::format::MarkdownNode;
use crate::message::{
    EmbedData, MessageData, MessageKind, ReactionData, ReactionEmoji, WeecordMessage, emoji_eq,
    is_echo_with_nonce, is_notification, spec_emoji_eq, spec_msg_id,
};
use vstd::prelude::*;

verus! {

/// The sequence with its transient notifications removed.
pub open spec fn drop_notifications(s: Seq<WeecordMessage>) -> Seq<WeecordMessage>
    decreases s.len(),
{
    if s.len() == 0 {
        s
    } else if is_notification(s.first()) {
        drop_notifications(s.drop_first())
    } else {
        seq![s.first()] + drop_notifications(s.drop_first())
    }
}

/// Oldest items removed from the front until at most `max` remain.
pub open spec fn evict(s: Seq<WeecordMessage>, max: int) -> Seq<WeecordMessage> {
    if s.len() <= max {
        s
    } else {
        s.skip(s.len() - max)
    }
}

/// The position of the first item bearing this stable id.
pub open spec fn first_idx(s: Seq<WeecordMessage>, id: u64) -> Option<int>
    decreases s.len(),
{
    if s.len() == 0 {
        None
    } else if spec_msg_id(s.first()) == id {
        Some(0int)
    } else {
        match first_idx(s.drop_first(), id) {
            Option::None => None,
            Option::Some(i) => Some(i + 1),
        }
    }
}

/// The position of the first local echo bearing this nonce.
pub open spec fn first_echo_idx(s: Seq<WeecordMessage>, nonce: u64) -> Option<int>
    decreases s.len(),
{
    if s.len() == 0 {
        None
    } else if is_echo_with_nonce(s.first(), nonce) {
        Some(0int)
    } else {
        match first_echo_idx(s.drop_first(), nonce) {
            Option::None => None,
            Option::Some(i) => Some(i + 1),
        }
    }
}

/// The sequence with the first item of this id removed; unchanged when no
/// item bears it.
pub open spec fn remove_by_id(s: Seq<WeecordMessage>, id: u64) -> Seq<WeecordMessage> {
    match first_idx(s, id) {
        Option::None => s,
        Option::Some(i) => s.remove(i),
    }
}

/// The reconciliation step: the first local echo bearing the nonce leaves;
/// nothing else changes, also when the echo already fell out of the window.
pub open spec fn reconcile(s: Seq<WeecordMessage>, nonce: Option<u64>) -> Seq<WeecordMessage> {
    match nonce {
        Option::None => s,
        Option::Some(n) => match first_echo_idx(s, n) {
            Option::None => s,
            Option::Some(i) => s.remove(i),
        },
    }
}

/// What appending one confirmed message does to the sequence: transient
/// notifications leave, the matching local echo is reconciled away, the
/// message is appended, and the front is evicted down to the capacity.
pub open spec fn spec_add_remote(
    s: Seq<WeecordMessage>,
    msg: WeecordMessage,
    nonce: Option<u64>,
    max: int,
) -> Seq<WeecordMessage> {
    evict(reconcile(drop_notifications(s), nonce).push(msg), max)
}

/// What a bulk append does: each item is appended in turn, evicting after
/// every append, with no reconciliation.
pub open spec fn spec_add_bulk(
    s: Seq<WeecordMessage>,
    msgs: Seq<WeecordMessage>,
    max: int,
) -> Seq<WeecordMessage>
    decreases msgs.len(),
{
    if msgs.len() == 0 {
        s
    } else {
        spec_add_bulk(evict(s.push(msgs.first()), max), msgs.drop_first(), max)
    }
}

/// A message update: fields that are present replace the message's.
pub struct MessageUpdate {
    pub id: u64,
    pub channel_id: u64,
    pub guild_id: Option<u64>,
    pub content: Option<String>,
    pub markup: Option<Vec<MarkdownNode>>,
    pub edited: bool,
    pub kind: Option<MessageKind>,
    pub timestamp: Option<i64>,
    pub mention_ids: Option<Vec<u64>>,
    pub attachments: Option<Vec<String>>,
    pub embeds: Option<Vec<EmbedData>>,
}

/// The message with the update's present fields applied.
pub open spec fn apply_update(d: MessageData, u: MessageUpdate) -> MessageData {
    MessageData {
        content: match u.content {
            Option::Some(c) => c,
            Option::None => d.content,
        },
        markup: match u.markup {
            Option::Some(m) => m,
            Option::None => d.markup,
        },
        edited: d.edited || u.edited,
        kind: match u.kind {
            Option::Some(k) => k,
            Option::None => d.kind,
        },
        timestamp: match u.timestamp {
            Option::Some(t) => t,
            Option::None => d.timestamp,
        },
        mention_ids: match u.mention_ids {
            Option::Some(m) => m,
            Option::None => d.mention_ids,
        },
        attachments: match u.attachments {
            Option::Some(a) => a,
            Option::None => d.attachments,
        },
        embeds: match u.embeds {
            Option::Some(e) => e,
            Option::None => d.embeds,
        },
        ..d
    }
}

/// Whether patching with this update turns the old sequence into the new
/// one: a silent no-op where the id is absent or names no confirmed
/// message, else the one item is rewritten in place.
pub open spec fn patched(
    old_s: Seq<WeecordMessage>,
    new_s: Seq<WeecordMessage>,
    u: MessageUpdate,
) -> bool {
    match first_idx(old_s, u.id) {
        Option::None => new_s == old_s,
        Option::Some(i) => match old_s[i] {
            WeecordMessage::Text(d) => {
                &&& new_s.len() == old_s.len()
                &&& (forall|j: int| 0 <= j < old_s.len() && j != i ==> new_s[j] == old_s[j])
                &&& (new_s[i] matches WeecordMessage::Text(d2) && *d2 == apply_update(*d, u))
            },
            _ => new_s == old_s,
        },
    }
}

/// One reaction added on a message's reaction list: an existing aggregate
/// for the emoji grows by one, else a fresh aggregate of one arrives.
pub open spec fn reaction_added(
    old_r: Seq<ReactionData>,
    new_r: Seq<ReactionData>,
    emoji: ReactionEmoji,
) -> bool {
    match first_reaction_idx(old_r, emoji) {
        Option::None => {
            &&& new_r.len() == old_r.len() + 1
            &&& new_r.take(old_r.len() as int) == old_r
            &&& spec_emoji_eq(new_r.last().emoji, emoji)
            &&& new_r.last().count == 1
        },
        Option::Some(i) => {
            &&& new_r.len() == old_r.len()
            &&& (forall|j: int| 0 <= j < old_r.len() && j != i ==> new_r[j] == old_r[j])
            &&& new_r[i].emoji == old_r[i].emoji
            &&& new_r[i].count as int == if old_r[i].count < u64::MAX {
                old_r[i].count + 1
            } else {
                old_r[i].count as int
            }
        },
    }
}

/// One reaction removed: an aggregate of one leaves, a larger one shrinks.
pub open spec fn reaction_removed(
    old_r: Seq<ReactionData>,
    new_r: Seq<ReactionData>,
    emoji: ReactionEmoji,
) -> bool {
    match first_reaction_idx(old_r, emoji) {
        Option::None => new_r == old_r,
        Option::Some(i) => if old_r[i].count <= 1 {
            &&& new_r == old_r.remove(i)
        } else {
            &&& new_r.len() == old_r.len()
            &&& (forall|j: int| 0 <= j < old_r.len() && j != i ==> new_r[j] == old_r[j])
            &&& new_r[i].emoji == old_r[i].emoji
            &&& new_r[i].count == old_r[i].count - 1
        },
    }
}

pub open spec fn first_reaction_idx(s: Seq<ReactionData>, emoji: ReactionEmoji) -> Option<int>
    decreases s.len(),
{
    if s.len() == 0 {
        None
    } else if spec_emoji_eq(s.first().emoji, emoji) {
        Some(0int)
    } else {
        match first_reaction_idx(s.drop_first(), emoji) {
            Option::None => None,
            Option::Some(i) => Some(i + 1),
        }
    }
}

/// The bounded ordered message store of one conversation.
pub struct MessageStore {
    items: Vec<WeecordMessage>,
    max: usize,
}

impl MessageStore {
    /// The items, oldest first.
    pub closed spec fn view_items(&self) -> Seq<WeecordMessage> {
        self.items@
    }

    /// The configured capacity.
    pub closed spec fn capacity(&self) -> int {
        self.max as int
    }

    /// The store's invariant: never more items than the capacity.
    pub open spec fn inv(&self) -> bool {
        self.view_items().len() <= self.capacity()
    }

    /// An empty store of the given capacity.
    pub fn new(max: usize) -> (r: MessageStore)
        ensures
            r.view_items() =~= Seq::<WeecordMessage>::empty(),
            r.capacity() == max as int,
            r.inv(),
    {
        MessageStore { items: Vec::new(), max }
    }

    /// The items, oldest first.
    pub fn messages(&self) -> (r: &Vec<WeecordMessage>)
        ensures
            r@ == self.view_items(),
    {
        &self.items
    }

    /// How many items are held.
    pub fn len(&self) -> (r: usize)
        ensures
            r as int == self.view_items().len(),
    {
        self.items.len()
    }

    /// Remove oldest items from the front until the capacity holds.
    fn evict_front(&mut self)
        ensures
            final(self).view_items() == evict(old(self).view_items(), old(self).capacity()),
            final(self).capacity() == old(self).capacity(),
            final(self).inv(),
    {
        while self.items.len() > self.max
            invariant
                self.max == old(self).max,
                evict(self.items@, self.max as int) == evict(
                    old(self).view_items(),
                    old(self).capacity(),
                ),
            decreases self.items@.len(),
        {
            let ghost pre = self.items@;
            let _ = self.items.remove(0);
            proof {
                assert(self.items@ =~= pre.drop_first());
                assert(pre.skip(pre.len() - self.max) =~= pre.drop_first().skip(
                    pre.drop_first().len() - self.max,
                ));
            }
        }
    }

    /// Append one already-built item, evicting the front on overflow.
    fn push_evict(&mut self, msg: WeecordMessage)
        ensures
            final(self).view_items() == evict(
                old(self).view_items().push(msg),
                old(self).capacity(),
            ),
            final(self).capacity() == old(self).capacity(),
            final(self).inv(),
    {
        self.items.push(msg);
        self.evict_front();
    }

    /// Remove every transient notification.
    fn clear_notifications(&mut self)
        ensures
            final(self).view_items() == drop_notifications(old(self).view_items()),
            final(self).capacity() == old(self).capacity(),
    {
        let ghost whole = self.items@;
        let mut kept: Vec<WeecordMessage> = Vec::new();
        while self.items.len() > 0
            invariant
                self.max == old(self).max,
                drop_notifications(whole) == kept@ + drop_notifications(self.items@),
            decreases self.items@.len(),
        {
            let ghost pre = self.items@;
            let ghost pre_kept = kept@;
            let item = self.items.remove(0);
            proof {
                assert(item == pre.first());
                assert(self.items@ =~= pre.drop_first());
            }
            match item {
                WeecordMessage::Notification { .. } => {},
                other => {
                    kept.push(other);
                    proof {
                        assert(kept@ =~= pre_kept + seq![pre.first()]);
                        assert(pre_kept + (seq![pre.first()] + drop_notifications(
                            pre.drop_first(),
                        )) =~= kept@ + drop_notifications(pre.drop_first()));
                    }
                },
            }
        }
        proof {
            assert(drop_notifications(self.items@) =~= Seq::<WeecordMessage>::empty());
            assert(kept@ + drop_notifications(self.items@) =~= kept@);
        }
        self.items = kept;
    }

    /// Remove the first local echo bearing the nonce; a no-op when none is
    /// buffered (the echo already fell out of the window).
    fn reconcile_echo(&mut self, nonce: u64)
        ensures
            final(self).view_items() == reconcile(old(self).view_items(), Some(nonce)),
            final(self).capacity() == old(self).capacity(),
    {
        let n = self.items.len();
        let mut i: usize = 0;
        while i < n
            invariant
                n == self.items@.len(),
                i <= n,
                self.max == old(self).max,
                self.items@ == old(self).view_items(),
                forall|q: int| 0 <= q < i ==> !is_echo_with_nonce(self.items@[q], nonce),
            decreases n - i,
        {
            let hit = match &self.items[i] {
                WeecordMessage::LocalEcho { nonce: en, .. } => *en == nonce,
                _ => false,
            };
            if hit {
                proof {
                    lemma_first_echo_prefix(self.items@, nonce, i as int);
                }
                let _ = self.items.remove(i);
                return ;
            }
            i = i + 1;
        }
        proof {
            lemma_first_echo_prefix(self.items@, nonce, n as int);
        }
    }

    /// Append one item.  A confirmed message first clears notifications and
    /// reconciles its local echo; a local echo clears notifications; then
    /// the item goes to the back and the front is evicted to the capacity.
    pub fn add_msg(&mut self, msg: WeecordMessage)
        requires
            old(self).inv(),
        ensures
            final(self).capacity() == old(self).capacity(),
            final(self).inv(),
            match msg {
                WeecordMessage::Notification { .. } => final(self).view_items() == evict(
                    old(self).view_items().push(msg),
                    old(self).capacity(),
                ),
                WeecordMessage::LocalEcho { .. } => final(self).view_items() == evict(
                    drop_notifications(old(self).view_items()).push(msg),
                    old(self).capacity(),
                ),
                WeecordMessage::Text(d) => final(self).view_items() == spec_add_remote(
                    old(self).view_items(),
                    msg,
                    d.nonce,
                    old(self).capacity(),
                ),
            },
    {
        match &msg {
            WeecordMessage::Notification { .. } => {
                self.push_evict(msg);
            },
            WeecordMessage::LocalEcho { .. } => {
                self.clear_notifications();
                self.push_evict(msg);
            },
            WeecordMessage::Text(d) => {
                let nonce: Option<u64> = d.nonce;
                self.clear_notifications();
                match nonce {
                    Option::Some(n) => {
                        self.reconcile_echo(n);
                    },
                    Option::None => {},
                }
                self.push_evict(msg);
            },
        }
    }

    /// Append a batch of already-fetched history items in order, clearing
    /// notifications once; each append evicts the front on overflow.
    pub fn add_bulk_msgs(&mut self, msgs: Vec<WeecordMessage>)
        requires
            old(self).inv(),
        ensures
            final(self).capacity() == old(self).capacity(),
            final(self).inv(),
            final(self).view_items() == spec_add_bulk(
                drop_notifications(old(self).view_items()),
                msgs@,
                old(self).capacity(),
            ),
    {
        self.clear_notifications();
        proof {
            lemma_drop_notifications_len(old(self).view_items());
        }
        let mut msgs = msgs;
        let ghost whole = msgs@;
        proof {
            assert(msgs@ =~= whole.skip(0));
        }
        while msgs.len() > 0
            invariant
                self.max == old(self).max,
                self.view_items().len() <= self.capacity(),
                spec_add_bulk(self.items@, msgs@, self.max as int) == spec_add_bulk(
                    drop_notifications(old(self).view_items()),
                    whole,
                    old(self).capacity(),
                ),
            decreases msgs@.len(),
        {
            let ghost pre = msgs@;
            let m = msgs.remove(0);
            proof {
                assert(m == pre.first());
                assert(msgs@ =~= pre.drop_first());
            }
            self.push_evict(m);
        }
        proof {
            assert(spec_add_bulk(self.items@, msgs@, self.max as int) == self.items@);
        }
    }

    /// Remove the item bearing the id; a silent no-op when none does.
    pub fn remove_msg(&mut self, id: u64)
        requires
            old(self).inv(),
        ensures
            final(self).capacity() == old(self).capacity(),
            final(self).inv(),
            final(self).view_items() == remove_by_id(old(self).view_items(), id),
    {
        let n = self.items.len();
        let mut i: usize = 0;
        while i < n
            invariant
                n == self.items@.len(),
                i <= n,
                self.max == old(self).max,
                self.items@.len() <= self.max as int,
                self.items@ == old(self).view_items(),
                forall|q: int| 0 <= q < i ==> spec_msg_id(self.items@[q]) != id,
            decreases n - i,
        {
            if self.items[i].id() == id {
                proof {
                    lemma_first_idx_prefix(self.items@, id, i as int);
                }
                let _ = self.items.remove(i);
                return ;
            }
            i = i + 1;
        }
        proof {
            lemma_first_idx_prefix(self.items@, id, n as int);
        }
    }

    /// The item at the given position counted from the newest.
    pub fn get_nth_message(&self, index: usize) -> (r: Option<&WeecordMessage>)
        ensures
            match r {
                Option::Some(m) => index < self.view_items().len() && *m == self.view_items()[
                    self.view_items().len() - 1 - index as int
                ],
                Option::None => index >= self.view_items().len(),
            },
    {
        let n = self.items.len();
        if index < n {
            Some(&self.items[n - 1 - index])
        } else {
            None
        }
    }

    /// The item at the given position counted from the oldest.
    pub fn nth_oldest_message(&self, index: usize) -> (r: Option<&WeecordMessage>)
        ensures
            match r {
                Option::Some(m) => index < self.view_items().len() && *m == self.view_items()[
                    index as int
                ],
                Option::None => index >= self.view_items().len(),
            },
    {
        if index < self.items.len() {
            Some(&self.items[index])
        } else {
            None
        }
    }

    /// Patch the confirmed message bearing the update's id in place; a
    /// silent no-op when it is no longer buffered.
    pub fn apply_message_update(&mut self, update: MessageUpdate)
        requires
            old(self).inv(),
        ensures
            final(self).capacity() == old(self).capacity(),
            final(self).inv(),
            patched(old(self).view_items(), final(self).view_items(), update),
    {
        let n = self.items.len();
        let mut i: usize = 0;
        while i < n
            invariant
                n == self.items@.len(),
                i <= n,
                self.max == old(self).max,
                self.items@.len() <= self.max as int,
                self.items@ == old(self).view_items(),
                forall|q: int| 0 <= q < i ==> spec_msg_id(self.items@[q]) != update.id,
            decreases n - i,
        {
            if self.items[i].id() == update.id {
                let ghost pre = self.items@;
                proof {
                    lemma_first_idx_prefix(self.items@, update.id, i as int);
                }
                let item = self.items.remove(i);
                let ghost u0 = update;
                match item {
                    WeecordMessage::Text(b) => {
                        let ghost old_d = *b;
                        let mut d = *b;
                        let MessageUpdate {
                            id: _,
                            channel_id: _,
                            guild_id: _,
                            content,
                            markup,
                            edited,
                            kind,
                            timestamp,
                            mention_ids,
                            attachments,
                            embeds,
                        } = update;
                        match content {
                            Option::Some(c) => {
                                d.content = c;
                            },
                            Option::None => {},
                        }
                        match markup {
                            Option::Some(m) => {
                                d.markup = m;
                            },
                            Option::None => {},
                        }
                        if edited {
                            d.edited = true;
                        }
                        match kind {
                            Option::Some(k) => {
                                d.kind = k;
                            },
                            Option::None => {},
                        }
                        match timestamp {
                            Option::Some(t) => {
                                d.timestamp = t;
                            },
                            Option::None => {},
                        }
                        match mention_ids {
                            Option::Some(m) => {
                                d.mention_ids = m;
                            },
                            Option::None => {},
                        }
                        match attachments {
                            Option::Some(a) => {
                                d.attachments = a;
                            },
                            Option::None => {},
                        }
                        match embeds {
                            Option::Some(e) => {
                                d.embeds = e;
                            },
                            Option::None => {},
                        }
                        proof {
                            assert(d == apply_update(old_d, u0));
                        }
                        self.items.insert(i, WeecordMessage::Text(Box::new(d)));
                        proof {
                            assert(i < pre.len());
                            assert(self.items@ == pre.remove(i as int).insert(
                                i as int,
                                self.items@[i as int],
                            ));
                            assert(self.items@ =~= pre.update(i as int, self.items@[i as int]));
                        }
                    },
                    other => {
                        self.items.insert(i, other);
                        proof {
                            assert(i < pre.len());
                            assert(self.items@ == pre.remove(i as int).insert(i as int, pre[
                                i as int
                            ]));
                            assert(self.items@ =~= pre);
                        }
                    },
                }
                return ;
            }
            i = i + 1;
        }
        proof {
            lemma_first_idx_prefix(self.items@, update.id, n as int);
        }
    }
}

/// How many local echoes bear the nonce.
pub open spec fn count_echoes(s: Seq<WeecordMessage>, nonce: u64) -> int
    decreases s.len(),
{
    if s.len() == 0 {
        0
    } else {
        (if is_echo_with_nonce(s.first(), nonce) {
            1int
        } else {
            0int
        }) + count_echoes(s.drop_first(), nonce)
    }
}

pub proof fn lemma_count_nonneg(s: Seq<WeecordMessage>, nonce: u64)
    ensures
        count_echoes(s, nonce) >= 0,
    decreases s.len(),
{
    if s.len() > 0 {
        lemma_count_nonneg(s.drop_first(), nonce);
    }
}

/// Dropping notifications does not touch local echoes.
pub proof fn lemma_count_drop_notifications(s: Seq<WeecordMessage>, nonce: u64)
    ensures
        count_echoes(drop_notifications(s), nonce) == count_echoes(s, nonce),
    decreases s.len(),
{
    if s.len() == 0 {
    } else {
        lemma_count_drop_notifications(s.drop_first(), nonce);
        if !is_notification(s.first()) {
            let r = seq![s.first()] + drop_notifications(s.drop_first());
            assert(r.first() == s.first());
            assert(r.drop_first() =~= drop_notifications(s.drop_first()));
        }
    }
}

/// Removing the first matching echo lowers the count by one; where none
/// matches the count is zero.
pub proof fn lemma_count_remove_first(s: Seq<WeecordMessage>, nonce: u64)
    ensures
        match first_echo_idx(s, nonce) {
            Option::Some(i) => 0 <= i < s.len() && count_echoes(s.remove(i), nonce) == count_echoes(
                s,
                nonce,
            ) - 1,
            Option::None => count_echoes(s, nonce) == 0,
        },
    decreases s.len(),
{
    if s.len() == 0 {
    } else {
        lemma_count_remove_first(s.drop_first(), nonce);
        if is_echo_with_nonce(s.first(), nonce) {
            assert(s.remove(0) =~= s.drop_first());
        } else {
            match first_echo_idx(s.drop_first(), nonce) {
                Option::None => {},
                Option::Some(i) => {
                    let r = s.remove(i + 1);
                    assert(r.first() == s.first());
                    assert(r.drop_first() =~= s.drop_first().remove(i));
                },
            }
        }
    }
}

/// Appending a non-echo item does not change the count.
pub proof fn lemma_count_push(s: Seq<WeecordMessage>, m: WeecordMessage, nonce: u64)
    requires
        !is_echo_with_nonce(m, nonce),
    ensures
        count_echoes(s.push(m), nonce) == count_echoes(s, nonce),
    decreases s.len(),
{
    if s.len() == 0 {
        assert(s.push(m).first() == m);
        assert(s.push(m).drop_first() =~= Seq::<WeecordMessage>::empty());
        assert(count_echoes(Seq::<WeecordMessage>::empty(), nonce) == 0);
    } else {
        lemma_count_push(s.drop_first(), m, nonce);
        assert(s.push(m).first() == s.first());
        assert(s.push(m).drop_first() =~= s.drop_first().push(m));
    }
}

/// Evicting from the front cannot raise the count.
pub proof fn lemma_count_skip(s: Seq<WeecordMessage>, k: int, nonce: u64)
    requires
        0 <= k <= s.len(),
    ensures
        count_echoes(s.skip(k), nonce) <= count_echoes(s, nonce),
    decreases k,
{
    lemma_count_nonneg(s, nonce);
    if k > 0 {
        assert(s.skip(k) =~= s.drop_first().skip(k - 1));
        lemma_count_skip(s.drop_first(), k - 1, nonce);
        lemma_count_nonneg(s.drop_first(), nonce);
    } else {
        assert(s.skip(0) =~= s);
    }
}

/// Law: after a local echo with nonce `k` is followed by the confirmed
/// message carrying nonce `k`, exactly one item with that logical identity
/// remains — the confirmed message, appended at the tail.  The store never
/// holds two echoes of one nonce, since nonces are unique within the
/// process lifetime.
pub proof fn lemma_echo_reconciled(
    s: Seq<WeecordMessage>,
    msg: WeecordMessage,
    n: u64,
    max: int,
)
    requires
        max >= 1,
        count_echoes(s, n) <= 1,
        !is_echo_with_nonce(msg, n),
    ensures
        ({
            let r = spec_add_remote(s, msg, Some(n), max);
            &&& count_echoes(r, n) == 0
            &&& r.len() >= 1
            &&& r.last() == msg
        }),
{
    let cleared = drop_notifications(s);
    lemma_count_drop_notifications(s, n);
    let reconciled = reconcile(cleared, Some(n));
    lemma_count_remove_first(cleared, n);
    lemma_count_nonneg(reconciled, n);
    assert(count_echoes(reconciled, n) == 0);
    let pushed = reconciled.push(msg);
    lemma_count_push(reconciled, msg, n);
    let r = evict(pushed, max);
    if pushed.len() <= max {
        assert(r == pushed);
    } else {
        let k = pushed.len() - max;
        lemma_count_skip(pushed, k, n);
        lemma_count_nonneg(r, n);
        assert(r.last() == pushed[pushed.len() - 1]);
    }
    lemma_count_nonneg(r, n);
}

/// Law: removing an id that no buffered item bears, or patching with an
/// update whose id no item bears, leaves the sequence unchanged.
pub proof fn lemma_missing_id_noop(s: Seq<WeecordMessage>, u: MessageUpdate)
    requires
        forall|j: int| 0 <= j < s.len() ==> spec_msg_id(s[j]) != u.id,
    ensures
        remove_by_id(s, u.id) == s,
        first_idx(s, u.id) is None,
        forall|new_s: Seq<WeecordMessage>| patched(s, new_s, u) ==> new_s == s,
{
    lemma_first_idx_prefix(s, u.id, s.len() as int);
}

/// Law: a run of appends keeps only the most recently appended items, at
/// most the capacity many, oldest evicted first.
pub proof fn lemma_fifo_retention(msgs: Seq<WeecordMessage>, max: int)
    requires
        max >= 0,
    ensures
        spec_add_bulk(Seq::<WeecordMessage>::empty(), msgs, max) == evict(msgs, max),
        evict(msgs, max).len() <= max,
        msgs.len() >= max ==> evict(msgs, max) == msgs.skip(msgs.len() - max),
        msgs.len() <= max ==> evict(msgs, max) == msgs,
{
    lemma_add_bulk_evict(Seq::<WeecordMessage>::empty(), msgs, max);
    assert(Seq::<WeecordMessage>::empty() + msgs =~= msgs);
    if msgs.len() == max {
        assert(msgs.skip(0) =~= msgs);
    }
}

/// Appending one at a time with eviction equals appending all and evicting
/// once.
pub proof fn lemma_add_bulk_evict(s: Seq<WeecordMessage>, msgs: Seq<WeecordMessage>, max: int)
    requires
        max >= 0,
        s.len() <= max,
    ensures
        spec_add_bulk(s, msgs, max) == evict(s + msgs, max),
    decreases msgs.len(),
{
    if msgs.len() == 0 {
        assert(s + msgs =~= s);
    } else {
        let m0 = msgs.first();
        let s1 = evict(s.push(m0), max);
        lemma_add_bulk_evict(s1, msgs.drop_first(), max);
        lemma_evict_concat(s.push(m0), msgs.drop_first(), max);
        assert(s.push(m0) + msgs.drop_first() =~= s + msgs);
    }
}

/// Evicting before appending more changes nothing about the final window.
pub proof fn lemma_evict_concat(a: Seq<WeecordMessage>, b: Seq<WeecordMessage>, max: int)
    requires
        max >= 0,
    ensures
        evict(evict(a, max) + b, max) == evict(a + b, max),
{
    let ea = evict(a, max);
    if a.len() <= max {
    } else {
        let k = a.len() - max;
        assert(ea == a.skip(k));
        assert(ea.len() == max);
        if ea.len() + b.len() <= max {
            assert(b.len() == 0);
            assert(ea + b =~= ea);
            assert(a + b =~= a);
        } else {
            assert(evict(ea + b, max) == (ea + b).skip(ea.len() + b.len() - max));
            assert((a + b).len() > max);
            assert(evict(a + b, max) == (a + b).skip(a.len() + b.len() - max));
            assert((ea + b).skip(ea.len() + b.len() - max) =~= (a + b).skip(
                a.len() + b.len() - max,
            )) by {
                let lhs = (ea + b).skip(ea.len() + b.len() - max);
                let rhs = (a + b).skip(a.len() + b.len() - max);
                assert(lhs.len() == rhs.len());
                assert forall|q: int| 0 <= q < lhs.len() implies lhs[q] == rhs[q] by {
                    assert(lhs[q] == (ea + b)[ea.len() + b.len() - max + q]);
                    assert(rhs[q] == (a + b)[a.len() + b.len() - max + q]);
                    if ea.len() + b.len() - max + q < ea.len() {
                        assert(lhs[q] == ea[ea.len() + b.len() - max + q]);
                        assert(ea[ea.len() + b.len() - max + q] == a[k + ea.len() + b.len() - max
                            + q]);
                        assert(rhs[q] == a[a.len() + b.len() - max + q]);
                    } else {
                        assert(lhs[q] == b[b.len() - max + q]);
                        assert(rhs[q] == b[b.len() - max + q]);
                    }
                }
            }
        }
    }
}

/// Dropping notifications never grows the sequence.
pub proof fn lemma_drop_notifications_len(s: Seq<WeecordMessage>)
    ensures
        drop_notifications(s).len() <= s.len(),
    decreases s.len(),
{
    if s.len() > 0 {
        lemma_drop_notifications_len(s.drop_first());
    }
}

/// Where no item before `k` bears the id, the first match is at `k` or
/// later.
pub proof fn lemma_first_idx_prefix(s: Seq<WeecordMessage>, id: u64, k: int)
    requires
        0 <= k,
        forall|q: int| 0 <= q < k && q < s.len() ==> spec_msg_id(s[q]) != id,
    ensures
        k < s.len() && spec_msg_id(s[k]) == id ==> first_idx(s, id) == Some(k),
        k >= s.len() ==> first_idx(s, id) == Option::<int>::None,
    decreases k,
{
    if k == 0 || s.len() == 0 {
    } else {
        let s2 = s.drop_first();
        assert(s2 =~= s.subrange(1, s.len() as int));
        assert forall|q: int| 0 <= q < k - 1 && q < s2.len() implies spec_msg_id(s2[q]) != id by {
            assert(s2[q] == s.subrange(1, s.len() as int)[q]);
            assert(spec_msg_id(s[q + 1]) != id);
        }
        lemma_first_idx_prefix(s2, id, k - 1);
        if k < s.len() && spec_msg_id(s[k]) == id {
            assert(s2[k - 1] == s[k]);
        }
    }
}

/// Where no echo before `k` bears the nonce, the first match is at `k` or
/// later.
pub proof fn lemma_first_echo_prefix(s: Seq<WeecordMessage>, nonce: u64, k: int)
    requires
        0 <= k,
        forall|q: int| 0 <= q < k && q < s.len() ==> !is_echo_with_nonce(s[q], nonce),
    ensures
        k < s.len() && is_echo_with_nonce(s[k], nonce) ==> first_echo_idx(s, nonce) == Some(k),
        k >= s.len() ==> first_echo_idx(s, nonce) == Option::<int>::None,
    decreases k,
{
    if k == 0 || s.len() == 0 {
    } else {
        let s2 = s.drop_first();
        assert(s2 =~= s.subrange(1, s.len() as int));
        assert forall|q: int|
            0 <= q < k - 1 && q < s2.len() implies !is_echo_with_nonce(s2[q], nonce) by {
            assert(s2[q] == s.subrange(1, s.len() as int)[q]);
            assert(!is_echo_with_nonce(s[q + 1], nonce));
        }
        lemma_first_echo_prefix(s2, nonce, k - 1);
        if k < s.len() && is_echo_with_nonce(s[k], nonce) {
            assert(s2[k - 1] == s[k]);
        }
    }
}


/// Where no aggregate before `k` bears the emoji, the first match is at
/// `k` or later.
pub proof fn lemma_first_reaction_prefix(s: Seq<ReactionData>, emoji: ReactionEmoji, k: int)
    requires
        0 <= k,
        forall|q: int| 0 <= q < k && q < s.len() ==> !spec_emoji_eq(s[q].emoji, emoji),
    ensures
        k < s.len() && spec_emoji_eq(s[k].emoji, emoji) ==> first_reaction_idx(s, emoji) == Some(
            k,
        ),
        k >= s.len() ==> first_reaction_idx(s, emoji) == Option::<int>::None,
    decreases k,
{
    if k == 0 || s.len() == 0 {
    } else {
        let s2 = s.drop_first();
        assert(s2 =~= s.subrange(1, s.len() as int));
        assert forall|q: int|
            0 <= q < k - 1 && q < s2.len() implies !spec_emoji_eq(s2[q].emoji, emoji) by {
            assert(s2[q] == s.subrange(1, s.len() as int)[q]);
            assert(!spec_emoji_eq(s[q + 1].emoji, emoji));
        }
        lemma_first_reaction_prefix(s2, emoji, k - 1);
        if k < s.len() && spec_emoji_eq(s[k].emoji, emoji) {
            assert(s2[k - 1] == s[k]);
        }
    }
}

/// Edit a reaction list in place: grow or add an aggregate.
fn reactions_add(rs: &mut Vec<ReactionData>, emoji: ReactionEmoji)
    ensures
        reaction_added(old(rs)@, final(rs)@, emoji),
{
    let n = rs.len();
    let mut i: usize = 0;
    while i < n
        invariant
            n == rs@.len(),
            i <= n,
            rs@ == old(rs)@,
            forall|q: int| 0 <= q < i ==> !spec_emoji_eq(rs@[q].emoji, emoji),
        decreases n - i,
    {
        if emoji_eq(&rs[i].emoji, &emoji) {
            proof {
                lemma_first_reaction_prefix(rs@, emoji, i as int);
            }
            let ghost pre = rs@;
            let item = rs.remove(i);
            let bumped = if item.count < u64::MAX {
                item.count + 1
            } else {
                item.count
            };
            rs.insert(i, ReactionData { emoji: item.emoji, count: bumped });
            proof {
                assert(rs@ == pre.remove(i as int).insert(i as int, rs@[i as int]));
                assert(rs@[i as int].emoji == pre[i as int].emoji);
                assert(forall|j: int|
                    0 <= j < pre.len() && j != i as int ==> rs@[j] == pre[j]);
            }
            return ;
        }
        i = i + 1;
    }
    proof {
        lemma_first_reaction_prefix(rs@, emoji, n as int);
    }
    let ghost pre = rs@;
    rs.push(ReactionData { emoji, count: 1 });
    proof {
        assert(rs@.take(pre.len() as int) =~= pre);
    }
}

/// Edit a reaction list in place: shrink or drop an aggregate.
fn reactions_remove(rs: &mut Vec<ReactionData>, emoji: ReactionEmoji)
    ensures
        reaction_removed(old(rs)@, final(rs)@, emoji),
{
    let n = rs.len();
    let mut i: usize = 0;
    while i < n
        invariant
            n == rs@.len(),
            i <= n,
            rs@ == old(rs)@,
            forall|q: int| 0 <= q < i ==> !spec_emoji_eq(rs@[q].emoji, emoji),
        decreases n - i,
    {
        if emoji_eq(&rs[i].emoji, &emoji) {
            proof {
                lemma_first_reaction_prefix(rs@, emoji, i as int);
            }
            let ghost pre = rs@;
            let item = rs.remove(i);
            if item.count <= 1 {
            } else {
                rs.insert(i, ReactionData { emoji: item.emoji, count: item.count - 1 });
                proof {
                    assert(rs@ == pre.remove(i as int).insert(i as int, rs@[i as int]));
                    assert(rs@[i as int].emoji == pre[i as int].emoji);
                    assert(forall|j: int|
                        0 <= j < pre.len() && j != i as int ==> rs@[j] == pre[j]);
                }
            }
            return ;
        }
        i = i + 1;
    }
    proof {
        lemma_first_reaction_prefix(rs@, emoji, n as int);
    }
}

/// Whether adding one reaction on the message bearing the id turns the old
/// sequence into the new one; a silent no-op where the id names nothing
/// confirmed.
pub open spec fn reaction_applied(
    old_s: Seq<WeecordMessage>,
    new_s: Seq<WeecordMessage>,
    id: u64,
    emoji: ReactionEmoji,
    add: bool,
) -> bool {
    match first_idx(old_s, id) {
        Option::None => new_s == old_s,
        Option::Some(i) => match old_s[i] {
            WeecordMessage::Text(d) => {
                &&& new_s.len() == old_s.len()
                &&& (forall|j: int| 0 <= j < old_s.len() && j != i ==> new_s[j] == old_s[j])
                &&& (new_s[i] matches WeecordMessage::Text(d2) && {
                    &&& *d2 == (MessageData { reactions: d2.reactions, ..*d })
                    &&& (if add {
                        reaction_added(d.reactions@, d2.reactions@, emoji)
                    } else {
                        reaction_removed(d.reactions@, d2.reactions@, emoji)
                    })
                })
            },
            _ => new_s == old_s,
        },
    }
}

impl MessageStore {
    /// Add one reaction on the message bearing the id; a silent no-op when
    /// it is no longer buffered.
    pub fn add_reaction(&mut self, id: u64, emoji: ReactionEmoji)
        requires
            old(self).inv(),
        ensures
            final(self).capacity() == old(self).capacity(),
            final(self).inv(),
            reaction_applied(old(self).view_items(), final(self).view_items(), id, emoji, true),
    {
        self.edit_reaction(id, emoji, true);
    }

    /// Remove one reaction from the message bearing the id; a silent no-op
    /// when it is no longer buffered.
    pub fn remove_reaction(&mut self, id: u64, emoji: ReactionEmoji)
        requires
            old(self).inv(),
        ensures
            final(self).capacity() == old(self).capacity(),
            final(self).inv(),
            reaction_applied(old(self).view_items(), final(self).view_items(), id, emoji, false),
    {
        self.edit_reaction(id, emoji, false);
    }

    fn edit_reaction(&mut self, id: u64, emoji: ReactionEmoji, add: bool)
        requires
            old(self).inv(),
        ensures
            final(self).capacity() == old(self).capacity(),
            final(self).inv(),
            reaction_applied(old(self).view_items(), final(self).view_items(), id, emoji, add),
    {
        let n = self.items.len();
        let mut i: usize = 0;
        while i < n
            invariant
                n == self.items@.len(),
                i <= n,
                self.max == old(self).max,
                self.items@.len() <= self.max as int,
                self.items@ == old(self).view_items(),
                forall|q: int| 0 <= q < i ==> spec_msg_id(self.items@[q]) != id,
            decreases n - i,
        {
            if self.items[i].id() == id {
                let ghost pre = self.items@;
                proof {
                    lemma_first_idx_prefix(self.items@, id, i as int);
                }
                let item = self.items.remove(i);
                match item {
                    WeecordMessage::Text(b) => {
                        let ghost old_d = *b;
                        let mut d = *b;
                        if add {
                            reactions_add(&mut d.reactions, emoji);
                        } else {
                            reactions_remove(&mut d.reactions, emoji);
                        }
                        proof {
                            assert(d == (MessageData { reactions: d.reactions, ..old_d }));
                        }
                        self.items.insert(i, WeecordMessage::Text(Box::new(d)));
                        proof {
                            assert(self.items@ == pre.remove(i as int).insert(
                                i as int,
                                self.items@[i as int],
                            ));
                            assert(self.items@ =~= pre.update(i as int, self.items@[i as int]));
                        }
                    },
                    other => {
                        self.items.insert(i, other);
                        proof {
                            assert(self.items@ == pre.remove(i as int).insert(i as int, pre[
                                i as int
                            ]));
                            assert(self.items@ =~= pre);
                        }
                    },
                }
                return ;
            }
            i = i + 1;
        }
        proof {
            lemma_first_idx_prefix(self.items@, id, n as int);
        }
    }
}

} // verus!
