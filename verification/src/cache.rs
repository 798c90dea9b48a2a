//! A read-only snapshot of the remote entities the renderer consults:
//! users, guild members, channels, roles, emoji, guilds and read states,
//! each keyed by its numeric id, with the display data the core reads.
//! Lookups answer "not present" rather than blocking or erroring.
use crate::styled::{AtomV, Style, StyleV, StyledString};
use vstd::prelude::*;

verus! {

pub struct UserEntry {
    pub id: u64,
    pub name: String,
    /// Terminal color word chosen for this user's nick, where one is known.
    pub color: Option<String>,
}

pub struct MemberEntry {
    pub guild_id: u64,
    pub user_id: u64,
    /// Guild-scoped display name (nick where set, else the user name).
    pub name: String,
    pub color: Option<String>,
}

pub struct ChannelEntry {
    pub id: u64,
    pub name: String,
    pub guild_id: Option<u64>,
    pub last_message_id: Option<u64>,
}

pub struct RoleEntry {
    pub id: u64,
    pub name: String,
    /// Packed 24-bit red-green-blue color.
    pub color: u32,
}

pub struct EmojiEntry {
    pub id: u64,
    pub name: String,
}

pub struct GuildEntry {
    pub id: u64,
    pub name: String,
}

pub struct ReadStateEntry {
    pub channel_id: u64,
    pub last_message_id: u64,
    pub mention_count: Option<u64>,
}

/// The snapshot itself.  The first entry with a matching key answers a
/// lookup, so duplicate keys are harmless.
pub struct CacheView {
    pub current_user: Option<UserEntry>,
    pub users: Vec<UserEntry>,
    pub members: Vec<MemberEntry>,
    pub channels: Vec<ChannelEntry>,
    pub roles: Vec<RoleEntry>,
    pub emojis: Vec<EmojiEntry>,
    pub guilds: Vec<GuildEntry>,
    pub read_states: Vec<ReadStateEntry>,
}

pub open spec fn find_user(s: Seq<UserEntry>, id: u64) -> Option<UserEntry>
    decreases s.len(),
{
    if s.len() == 0 {
        None
    } else if s.first().id == id {
        Some(s.first())
    } else {
        find_user(s.drop_first(), id)
    }
}

pub open spec fn find_member(s: Seq<MemberEntry>, guild_id: u64, user_id: u64) -> Option<
    MemberEntry,
>
    decreases s.len(),
{
    if s.len() == 0 {
        None
    } else if s.first().guild_id == guild_id && s.first().user_id == user_id {
        Some(s.first())
    } else {
        find_member(s.drop_first(), guild_id, user_id)
    }
}

pub open spec fn find_channel(s: Seq<ChannelEntry>, id: u64) -> Option<ChannelEntry>
    decreases s.len(),
{
    if s.len() == 0 {
        None
    } else if s.first().id == id {
        Some(s.first())
    } else {
        find_channel(s.drop_first(), id)
    }
}

pub open spec fn find_role(s: Seq<RoleEntry>, id: u64) -> Option<RoleEntry>
    decreases s.len(),
{
    if s.len() == 0 {
        None
    } else if s.first().id == id {
        Some(s.first())
    } else {
        find_role(s.drop_first(), id)
    }
}

pub open spec fn find_emoji(s: Seq<EmojiEntry>, id: u64) -> Option<EmojiEntry>
    decreases s.len(),
{
    if s.len() == 0 {
        None
    } else if s.first().id == id {
        Some(s.first())
    } else {
        find_emoji(s.drop_first(), id)
    }
}

pub open spec fn find_guild(s: Seq<GuildEntry>, id: u64) -> Option<GuildEntry>
    decreases s.len(),
{
    if s.len() == 0 {
        None
    } else if s.first().id == id {
        Some(s.first())
    } else {
        find_guild(s.drop_first(), id)
    }
}

pub open spec fn find_read_state(s: Seq<ReadStateEntry>, id: u64) -> Option<ReadStateEntry>
    decreases s.len(),
{
    if s.len() == 0 {
        None
    } else if s.first().channel_id == id {
        Some(s.first())
    } else {
        find_read_state(s.drop_first(), id)
    }
}

impl CacheView {
    /// An empty snapshot: every lookup misses.
    pub fn new() -> (r: CacheView)
        ensures
            r.current_user is None,
            r.users@ =~= Seq::<UserEntry>::empty(),
            r.members@ =~= Seq::<MemberEntry>::empty(),
            r.channels@ =~= Seq::<ChannelEntry>::empty(),
            r.roles@ =~= Seq::<RoleEntry>::empty(),
            r.emojis@ =~= Seq::<EmojiEntry>::empty(),
            r.guilds@ =~= Seq::<GuildEntry>::empty(),
            r.read_states@ =~= Seq::<ReadStateEntry>::empty(),
    {
        CacheView {
            current_user: None,
            users: Vec::new(),
            members: Vec::new(),
            channels: Vec::new(),
            roles: Vec::new(),
            emojis: Vec::new(),
            guilds: Vec::new(),
            read_states: Vec::new(),
        }
    }

    pub fn user(&self, id: u64) -> (r: Option<&UserEntry>)
        ensures
            match r {
                Option::Some(e) => find_user(self.users@, id) == Some(*e),
                Option::None => find_user(self.users@, id) is None,
            },
    {
        let n = self.users.len();
        let mut i: usize = 0;
        proof {
            assert(self.users@.skip(0) =~= self.users@);
        }
        while i < n
            invariant
                n == self.users@.len(),
                i <= n,
                find_user(self.users@, id) == find_user(self.users@.skip(i as int), id),
            decreases n - i,
        {
            proof {
                assert(self.users@.skip(i as int).first() == self.users@[i as int]);
                assert(self.users@.skip(i as int).drop_first() =~= self.users@.skip(i as int + 1));
            }
            if self.users[i].id == id {
                return Some(&self.users[i]);
            }
            i = i + 1;
        }
        proof {
            assert(self.users@.skip(n as int) =~= Seq::<UserEntry>::empty());
        }
        None
    }

    pub fn member(&self, guild_id: u64, user_id: u64) -> (r: Option<&MemberEntry>)
        ensures
            match r {
                Option::Some(e) => find_member(self.members@, guild_id, user_id) == Some(*e),
                Option::None => find_member(self.members@, guild_id, user_id) is None,
            },
    {
        let n = self.members.len();
        let mut i: usize = 0;
        proof {
            assert(self.members@.skip(0) =~= self.members@);
        }
        while i < n
            invariant
                n == self.members@.len(),
                i <= n,
                find_member(self.members@, guild_id, user_id) == find_member(
                    self.members@.skip(i as int),
                    guild_id,
                    user_id,
                ),
            decreases n - i,
        {
            proof {
                assert(self.members@.skip(i as int).first() == self.members@[i as int]);
                assert(self.members@.skip(i as int).drop_first() =~= self.members@.skip(
                    i as int + 1,
                ));
            }
            if self.members[i].guild_id == guild_id && self.members[i].user_id == user_id {
                return Some(&self.members[i]);
            }
            i = i + 1;
        }
        proof {
            assert(self.members@.skip(n as int) =~= Seq::<MemberEntry>::empty());
        }
        None
    }

    pub fn channel(&self, id: u64) -> (r: Option<&ChannelEntry>)
        ensures
            match r {
                Option::Some(e) => find_channel(self.channels@, id) == Some(*e),
                Option::None => find_channel(self.channels@, id) is None,
            },
    {
        let n = self.channels.len();
        let mut i: usize = 0;
        proof {
            assert(self.channels@.skip(0) =~= self.channels@);
        }
        while i < n
            invariant
                n == self.channels@.len(),
                i <= n,
                find_channel(self.channels@, id) == find_channel(self.channels@.skip(i as int), id),
            decreases n - i,
        {
            proof {
                assert(self.channels@.skip(i as int).first() == self.channels@[i as int]);
                assert(self.channels@.skip(i as int).drop_first() =~= self.channels@.skip(
                    i as int + 1,
                ));
            }
            if self.channels[i].id == id {
                return Some(&self.channels[i]);
            }
            i = i + 1;
        }
        proof {
            assert(self.channels@.skip(n as int) =~= Seq::<ChannelEntry>::empty());
        }
        None
    }

    pub fn role(&self, id: u64) -> (r: Option<&RoleEntry>)
        ensures
            match r {
                Option::Some(e) => find_role(self.roles@, id) == Some(*e),
                Option::None => find_role(self.roles@, id) is None,
            },
    {
        let n = self.roles.len();
        let mut i: usize = 0;
        proof {
            assert(self.roles@.skip(0) =~= self.roles@);
        }
        while i < n
            invariant
                n == self.roles@.len(),
                i <= n,
                find_role(self.roles@, id) == find_role(self.roles@.skip(i as int), id),
            decreases n - i,
        {
            proof {
                assert(self.roles@.skip(i as int).first() == self.roles@[i as int]);
                assert(self.roles@.skip(i as int).drop_first() =~= self.roles@.skip(i as int + 1));
            }
            if self.roles[i].id == id {
                return Some(&self.roles[i]);
            }
            i = i + 1;
        }
        proof {
            assert(self.roles@.skip(n as int) =~= Seq::<RoleEntry>::empty());
        }
        None
    }

    pub fn emoji(&self, id: u64) -> (r: Option<&EmojiEntry>)
        ensures
            match r {
                Option::Some(e) => find_emoji(self.emojis@, id) == Some(*e),
                Option::None => find_emoji(self.emojis@, id) is None,
            },
    {
        let n = self.emojis.len();
        let mut i: usize = 0;
        proof {
            assert(self.emojis@.skip(0) =~= self.emojis@);
        }
        while i < n
            invariant
                n == self.emojis@.len(),
                i <= n,
                find_emoji(self.emojis@, id) == find_emoji(self.emojis@.skip(i as int), id),
            decreases n - i,
        {
            proof {
                assert(self.emojis@.skip(i as int).first() == self.emojis@[i as int]);
                assert(self.emojis@.skip(i as int).drop_first() =~= self.emojis@.skip(i as int + 1));
            }
            if self.emojis[i].id == id {
                return Some(&self.emojis[i]);
            }
            i = i + 1;
        }
        proof {
            assert(self.emojis@.skip(n as int) =~= Seq::<EmojiEntry>::empty());
        }
        None
    }

    pub fn guild(&self, id: u64) -> (r: Option<&GuildEntry>)
        ensures
            match r {
                Option::Some(e) => find_guild(self.guilds@, id) == Some(*e),
                Option::None => find_guild(self.guilds@, id) is None,
            },
    {
        let n = self.guilds.len();
        let mut i: usize = 0;
        proof {
            assert(self.guilds@.skip(0) =~= self.guilds@);
        }
        while i < n
            invariant
                n == self.guilds@.len(),
                i <= n,
                find_guild(self.guilds@, id) == find_guild(self.guilds@.skip(i as int), id),
            decreases n - i,
        {
            proof {
                assert(self.guilds@.skip(i as int).first() == self.guilds@[i as int]);
                assert(self.guilds@.skip(i as int).drop_first() =~= self.guilds@.skip(i as int + 1));
            }
            if self.guilds[i].id == id {
                return Some(&self.guilds[i]);
            }
            i = i + 1;
        }
        proof {
            assert(self.guilds@.skip(n as int) =~= Seq::<GuildEntry>::empty());
        }
        None
    }

    pub fn read_state(&self, id: u64) -> (r: Option<&ReadStateEntry>)
        ensures
            match r {
                Option::Some(e) => find_read_state(self.read_states@, id) == Some(*e),
                Option::None => find_read_state(self.read_states@, id) is None,
            },
    {
        let n = self.read_states.len();
        let mut i: usize = 0;
        proof {
            assert(self.read_states@.skip(0) =~= self.read_states@);
        }
        while i < n
            invariant
                n == self.read_states@.len(),
                i <= n,
                find_read_state(self.read_states@, id) == find_read_state(
                    self.read_states@.skip(i as int),
                    id,
                ),
            decreases n - i,
        {
            proof {
                assert(self.read_states@.skip(i as int).first() == self.read_states@[i as int]);
                assert(self.read_states@.skip(i as int).drop_first() =~= self.read_states@.skip(
                    i as int + 1,
                ));
            }
            if self.read_states[i].channel_id == id {
                return Some(&self.read_states[i]);
            }
            i = i + 1;
        }
        proof {
            assert(self.read_states@.skip(n as int) =~= Seq::<ReadStateEntry>::empty());
        }
        None
    }
}

/// Mathematical image of an optional color word.
pub open spec fn opt_color_view(c: Option<String>) -> Option<Seq<char>> {
    match c {
        Option::Some(s) => Some(s@),
        Option::None => None,
    }
}

/// A name rendered with an optional color and an optional leading `@`.
pub open spec fn colorize_atoms(
    name: Seq<char>,
    color: Option<Seq<char>>,
    include_at: bool,
) -> Seq<AtomV> {
    let txt = if include_at {
        "@"@ + name
    } else {
        name
    };
    match color {
        Option::Some(c) => seq![
            AtomV::Push(StyleV::Color(c)),
            AtomV::Text(txt),
            AtomV::Pop(StyleV::Color(c)),
        ],
        Option::None => seq![AtomV::Text(txt)],
    }
}

/// Render a name with its color, as member and user mentions are shown.
pub fn colorize_name(name: &String, color: &Option<String>, include_at: bool) -> (r: StyledString)
    ensures
        r@ == colorize_atoms(name@, opt_color_view(*color), include_at),
{
    let mut txt = String::new();
    if include_at {
        txt.append("@");
    }
    txt.append(name.as_str());
    proof {
        if include_at {
            assert(txt@ =~= "@"@ + name@);
        } else {
            assert(txt@ =~= name@);
        }
    }
    let mut out = StyledString::new();
    match color {
        Option::Some(c) => {
            out.push_styled_str(Style::Color(c.clone()), txt.as_str());
            proof {
                assert(out@ =~= colorize_atoms(name@, opt_color_view(*color), include_at));
            }
        },
        Option::None => {
            out.push_str(txt.as_str());
            proof {
                assert(out@ =~= colorize_atoms(name@, opt_color_view(*color), include_at));
            }
        },
    }
    out
}

/// A string wrapped in a color word, or bare where the color is empty.
pub open spec fn colorize_string_atoms(s: Seq<char>, color: Seq<char>) -> Seq<AtomV> {
    if s.len() == 0 || color.len() == 0 {
        seq![AtomV::Text(s)]
    } else {
        seq![
            AtomV::Push(StyleV::Color(color)),
            AtomV::Text(s),
            AtomV::Pop(StyleV::Color(color)),
        ]
    }
}

/// Wrap a configured string in its configured color.
pub fn colorize_string(s: &String, color: &String) -> (r: StyledString)
    ensures
        r@ == colorize_string_atoms(s@, color@),
{
    let mut out = StyledString::new();
    if s.as_str().unicode_len() == 0 || color.as_str().unicode_len() == 0 {
        out.push_str(s.as_str());
        proof {
            assert(out@ =~= colorize_string_atoms(s@, color@));
        }
    } else {
        out.push_styled_str(Style::Color(color.clone()), s.as_str());
        proof {
            assert(out@ =~= colorize_string_atoms(s@, color@));
        }
    }
    out
}

/// The 256-color cube index nearest a packed 24-bit color.
pub open spec fn spec_color_8bit(c: u32) -> int {
    16 + 36 * ((c / 65536 % 256) * 6 / 256) + 6 * ((c / 256 % 256) * 6 / 256) + ((c % 256) * 6
        / 256)
}

/// Quantize a packed 24-bit role color onto the terminal's 6x6x6 color cube.
pub fn color_as_8bit(c: u32) -> (r: u64)
    ensures
        r as int == spec_color_8bit(c),
        16 <= r <= 231,
{
    let red: u32 = c / 65536 % 256;
    let green: u32 = c / 256 % 256;
    let blue: u32 = c % 256;
    let r6: u32 = red * 6 / 256;
    let g6: u32 = green * 6 / 256;
    let b6: u32 = blue * 6 / 256;
    (16 + 36 * r6 + 6 * g6 + b6) as u64
}

} // verus!
