//! The time-windowed typing tracker: who is typing in which conversation,
//! refreshed on every notice and swept after a fixed window.
use vstd::prelude::*;

verus! {

/// How long a typing notice stays visible, in milliseconds.
pub const TYPING_WINDOW_MS: u64 = 10000;

/// One "user is typing in channel" observation.
pub struct TypingEntry {
    pub channel_id: u64,
    pub guild_id: Option<u64>,
    pub user: u64,
    pub user_name: String,
    /// When the notice was observed, in milliseconds.
    pub time: u64,
}

/// Whether the entry is still within its window at the given instant.
pub open spec fn entry_live(e: TypingEntry, now: u64) -> bool {
    (now as int) < e.time as int + TYPING_WINDOW_MS as int
}

/// The entries with every observation of this (channel, user) removed.
pub open spec fn drop_user(s: Seq<TypingEntry>, channel_id: u64, user: u64) -> Seq<TypingEntry>
    decreases s.len(),
{
    if s.len() == 0 {
        s
    } else if s.first().channel_id == channel_id && s.first().user == user {
        drop_user(s.drop_first(), channel_id, user)
    } else {
        seq![s.first()] + drop_user(s.drop_first(), channel_id, user)
    }
}

/// The entries still live at the given instant.
pub open spec fn keep_live(s: Seq<TypingEntry>, now: u64) -> Seq<TypingEntry>
    decreases s.len(),
{
    if s.len() == 0 {
        s
    } else if entry_live(s.first(), now) {
        seq![s.first()] + keep_live(s.drop_first(), now)
    } else {
        keep_live(s.drop_first(), now)
    }
}

/// The sweep is idempotent: sweeping what a sweep left changes nothing,
/// and in particular extends no entry's lifetime.
pub proof fn lemma_sweep_idempotent(s: Seq<TypingEntry>, now: u64)
    ensures
        keep_live(keep_live(s, now), now) == keep_live(s, now),
    decreases s.len(),
{
    if s.len() == 0 {
    } else {
        lemma_sweep_idempotent(s.drop_first(), now);
        if entry_live(s.first(), now) {
            let r = seq![s.first()] + keep_live(s.drop_first(), now);
            assert(r.first() == s.first());
            assert(r.drop_first() =~= keep_live(s.drop_first(), now));
            assert(keep_live(r, now) =~= seq![s.first()] + keep_live(
                keep_live(s.drop_first(), now),
                now,
            ));
        }
    }
}

/// The time-windowed set of typing users, keyed by (conversation, user).
pub struct TypingTracker {
    entries: Vec<TypingEntry>,
}

impl TypingTracker {
    /// The current observations.
    pub closed spec fn view_entries(&self) -> Seq<TypingEntry> {
        self.entries@
    }

    /// An empty tracker.
    pub fn new() -> (r: TypingTracker)
        ensures
            r.view_entries() =~= Seq::<TypingEntry>::empty(),
    {
        TypingTracker { entries: Vec::new() }
    }

    /// The current observations.
    pub fn entries(&self) -> (r: &Vec<TypingEntry>)
        ensures
            r@ == self.view_entries(),
    {
        &self.entries
    }

    /// Record or refresh an observation: any earlier observation of the
    /// same (conversation, user) leaves, and the new one goes to the back.
    pub fn add(&mut self, entry: TypingEntry)
        ensures
            final(self).view_entries() == drop_user(
                old(self).view_entries(),
                entry.channel_id,
                entry.user,
            ).push(entry),
    {
        let ghost whole = self.entries@;
        let ghost ch = entry.channel_id;
        let ghost us = entry.user;
        let mut kept: Vec<TypingEntry> = Vec::new();
        while self.entries.len() > 0
            invariant
                ch == entry.channel_id,
                us == entry.user,
                drop_user(whole, ch, us) == kept@ + drop_user(self.entries@, ch, us),
            decreases self.entries@.len(),
        {
            let ghost pre = self.entries@;
            let ghost pre_kept = kept@;
            let e = self.entries.remove(0);
            proof {
                assert(e == pre.first());
                assert(self.entries@ =~= pre.drop_first());
            }
            if e.channel_id == entry.channel_id && e.user == entry.user {
            } else {
                kept.push(e);
                proof {
                    assert(kept@ =~= pre_kept + seq![pre.first()]);
                    assert(pre_kept + (seq![pre.first()] + drop_user(pre.drop_first(), ch, us))
                        =~= kept@ + drop_user(pre.drop_first(), ch, us));
                }
            }
        }
        proof {
            assert(drop_user(self.entries@, ch, us) =~= Seq::<TypingEntry>::empty());
            assert(kept@ + drop_user(self.entries@, ch, us) =~= kept@);
        }
        kept.push(entry);
        self.entries = kept;
    }

    /// Sweep out every expired entry; reports whether anything changed, so
    /// the display refreshes only then.  The sweep never extends a window.
    pub fn sweep(&mut self, now: u64) -> (changed: bool)
        ensures
            final(self).view_entries() == keep_live(old(self).view_entries(), now),
            changed == (final(self).view_entries().len() != old(self).view_entries().len()),
    {
        let ghost whole = self.entries@;
        let before = self.entries.len();
        let mut kept: Vec<TypingEntry> = Vec::new();
        while self.entries.len() > 0
            invariant
                keep_live(whole, now) == kept@ + keep_live(self.entries@, now),
            decreases self.entries@.len(),
        {
            let ghost pre = self.entries@;
            let ghost pre_kept = kept@;
            let e = self.entries.remove(0);
            proof {
                assert(e == pre.first());
                assert(self.entries@ =~= pre.drop_first());
            }
            let live = (now as u128) < (e.time as u128) + (TYPING_WINDOW_MS as u128);
            if live {
                kept.push(e);
                proof {
                    assert(kept@ =~= pre_kept + seq![pre.first()]);
                    assert(pre_kept + (seq![pre.first()] + keep_live(pre.drop_first(), now)) =~=
                    kept@ + keep_live(pre.drop_first(), now));
                }
            }
        }
        proof {
            assert(keep_live(self.entries@, now) =~= Seq::<TypingEntry>::empty());
            assert(kept@ + keep_live(self.entries@, now) =~= kept@);
        }
        let after = kept.len();
        self.entries = kept;
        after != before
    }
}

} // verus!
