//! Guild subscription bookkeeping: which channels of each guild the
//! client has asked the service to stream events for.  Each guild keeps
//! its five most recently joined channels, most recent first; a request
//! goes out only when a channel is newly subscribed, and the first
//! subscription of a guild is a full one.
use vstd::prelude::*;

verus! {

/// How many channels stay subscribed per guild.
pub const SUBSCRIPTION_KEEP: usize = 5;

/// One guild's subscribed channels, most recently joined first.
pub struct GuildSubscription {
    pub guild_id: u64,
    pub channels: Vec<u64>,
}

/// What to send over the wire after a subscribe decision: the guild, its
/// current channel window, and whether the full form is due.
pub struct SubscriptionRequest {
    pub guild_id: u64,
    pub full: bool,
    pub channels: Vec<u64>,
}

pub open spec fn find_sub(s: Seq<GuildSubscription>, gid: u64) -> Option<int>
    decreases s.len(),
{
    if s.len() == 0 {
        None
    } else if s.first().guild_id == gid {
        Some(0int)
    } else {
        match find_sub(s.drop_first(), gid) {
            Option::None => None,
            Option::Some(i) => Some(i + 1),
        }
    }
}

pub proof fn lemma_find_sub_prefix(s: Seq<GuildSubscription>, gid: u64, k: int)
    requires
        0 <= k,
        forall|q: int| 0 <= q < k && q < s.len() ==> (#[trigger] s[q]).guild_id != gid,
    ensures
        k < s.len() && s[k].guild_id == gid ==> find_sub(s, gid) == Some(k),
        k >= s.len() ==> find_sub(s, gid) == Option::<int>::None,
    decreases k,
{
    if k == 0 || s.len() == 0 {
    } else {
        let s2 = s.drop_first();
        assert(s2 =~= s.subrange(1, s.len() as int));
        assert forall|q: int|
            0 <= q < k - 1 && q < s2.len() implies (#[trigger] s2[q]).guild_id != gid by {
            assert(s2[q] == s.subrange(1, s.len() as int)[q]);
            assert(s[q + 1].guild_id != gid);
        }
        lemma_find_sub_prefix(s2, gid, k - 1);
        if k < s.len() && s[k].guild_id == gid {
            assert(s2[k - 1] == s[k]);
        }
    }
}

/// A channel window after one join: the channel at the front, the rest
/// shifted, the overflow dropped.
pub open spec fn joined_window(old_w: Seq<u64>, ch: u64) -> Seq<u64> {
    let pushed = seq![ch] + old_w;
    if pushed.len() > SUBSCRIPTION_KEEP as int {
        pushed.drop_last()
    } else {
        pushed
    }
}

/// The subscription table of one connection.
pub struct Subscriptions {
    entries: Vec<GuildSubscription>,
}

impl Subscriptions {
    pub closed spec fn view_entries(&self) -> Seq<GuildSubscription> {
        self.entries@
    }

    /// An empty table.
    pub fn new() -> (r: Subscriptions)
        ensures
            r.view_entries() =~= Seq::<GuildSubscription>::empty(),
    {
        Subscriptions { entries: Vec::new() }
    }

    /// The table.
    pub fn entries(&self) -> (r: &Vec<GuildSubscription>)
        ensures
            r@ == self.view_entries(),
    {
        &self.entries
    }

    /// Record a joined channel.  The channel moves to the front of its
    /// guild's window and the overflow leaves; a request goes out only if
    /// the channel was not already subscribed, and it is the full form
    /// exactly when the window holds this one channel.
    pub fn subscribe(&mut self, guild_id: u64, channel_id: u64) -> (r: Option<
        SubscriptionRequest,
    >)
        ensures
            ({
                let old_w: Seq<u64> = match find_sub(old(self).view_entries(), guild_id) {
                    Option::Some(i) => old(self).view_entries()[i].channels@,
                    Option::None => Seq::<u64>::empty(),
                };
                let new_w = joined_window(old_w, channel_id);
                let was_there = crate::render::contains_id(old_w, channel_id);
                let fin = final(self).view_entries();
                &&& match find_sub(old(self).view_entries(), guild_id) {
                    Option::Some(i) => {
                        &&& fin.len() == old(self).view_entries().len()
                        &&& (forall|j: int|
                            0 <= j < fin.len() && j != i ==> fin[j] == old(self).view_entries()[j])
                        &&& fin[i].guild_id == guild_id
                        &&& fin[i].channels@ == new_w
                    },
                    Option::None => {
                        &&& fin.len() == old(self).view_entries().len() + 1
                        &&& fin.drop_last() == old(self).view_entries()
                        &&& fin.last().guild_id == guild_id
                        &&& fin.last().channels@ == new_w
                    },
                }
                &&& match r {
                    Option::Some(req) => {
                        &&& !was_there
                        &&& req.guild_id == guild_id
                        &&& req.full == (new_w.len() == 1)
                        &&& req.channels@ == new_w
                    },
                    Option::None => was_there,
                }
            }),
    {
        let n = self.entries.len();
        let mut idx: Option<usize> = None;
        let mut i: usize = 0;
        while i < n && idx.is_none()
            invariant
                n == self.entries@.len(),
                i <= n,
                self.entries@ == old(self).view_entries(),
                match idx {
                    Option::None => forall|q: int|
                        0 <= q < i ==> (#[trigger] self.entries@[q]).guild_id != guild_id,
                    Option::Some(j) => find_sub(self.entries@, guild_id) == Some(j as int) && (
                    j as int) < self.entries@.len() && self.entries@[j as int].guild_id
                        == guild_id,
                },
            decreases n - i,
        {
            if self.entries[i].guild_id == guild_id {
                proof {
                    lemma_find_sub_prefix(self.entries@, guild_id, i as int);
                }
                idx = Some(i);
            }
            i = i + 1;
        }
        proof {
            if idx is None {
                lemma_find_sub_prefix(self.entries@, guild_id, n as int);
            }
        }
        let ghost pre = self.entries@;
        let mut entry: GuildSubscription = match idx {
            Option::Some(j) => self.entries.remove(j),
            Option::None => GuildSubscription { guild_id, channels: Vec::new() },
        };
        let ghost old_w = entry.channels@;
        let was_there = crate::render::find_id(&entry.channels, channel_id);
        entry.channels.insert(0, channel_id);
        if entry.channels.len() > SUBSCRIPTION_KEEP {
            let _ = entry.channels.pop();
        }
        proof {
            assert(entry.channels@ =~= joined_window(old_w, channel_id));
        }
        let full = entry.channels.len() == 1;
        let req: Option<SubscriptionRequest> = if was_there {
            None
        } else {
            let mut copy: Vec<u64> = Vec::new();
            let m = entry.channels.len();
            let mut k: usize = 0;
            while k < m
                invariant
                    m == entry.channels@.len(),
                    k <= m,
                    copy@ =~= entry.channels@.take(k as int),
                decreases m - k,
            {
                copy.push(entry.channels[k]);
                proof {
                    assert(copy@ =~= entry.channels@.take(k as int + 1));
                }
                k = k + 1;
            }
            proof {
                assert(copy@ =~= entry.channels@);
            }
            Some(SubscriptionRequest { guild_id, full, channels: copy })
        };
        let ghost entry2 = entry;
        match idx {
            Option::Some(j) => {
                self.entries.insert(j, entry);
                proof {
                    assert(self.entries@[j as int] == entry2);
                    assert(self.entries@ == pre.remove(j as int).insert(
                        j as int,
                        self.entries@[j as int],
                    ));
                    assert(forall|q: int|
                        0 <= q < pre.len() && q != j as int ==> self.entries@[q] == pre[q]);
                    assert(self.entries@.len() == pre.len());
                }
            },
            Option::None => {
                self.entries.push(entry);
                proof {
                    assert(self.entries@.drop_last() =~= pre);
                    assert(self.entries@.last() == entry2);
                }
            },
        }
        req
    }
}

} // verus!
