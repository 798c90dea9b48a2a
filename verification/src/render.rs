//! Rendering one history item into a (prefix, body) pair of display text:
//! markup-walked content with edit marker, attachments, embeds and
//! reactions, author decoration, quoted replies bounded to one level, and
//! fixed templates for the non-conversational event subtypes.
use crate::cache::{
    CacheView, colorize_atoms, colorize_name, colorize_string, colorize_string_atoms, find_member,
    opt_color_view,
};
use crate::config::{ColorConfig, LookConfig};
use crate::format::{WalkCtx, discord_to_weechat, mk_ctx, unk_list, walk_list};
use crate::message::{
    EmbedData, MessageData, MessageKind, ReactionData, ReactionEmoji, UserInfo, WeecordMessage,
};
use crate::styled::{AtomV, Style, StyleV, StyledString, spec_render};
use crate::timefmt::TimeContext;
use crate::util::dec_str;
use vstd::prelude::*;

verus! {

/// Whether an id stands in the list.
pub open spec fn contains_id(ids: Seq<u64>, id: u64) -> bool {
    exists|i: int| 0 <= i < ids.len() && ids[i] == id
}

/// Find an id in a list.
pub fn find_id(ids: &Vec<u64>, id: u64) -> (r: bool)
    ensures
        r == contains_id(ids@, id),
{
    let n = ids.len();
    let mut i: usize = 0;
    while i < n
        invariant
            n == ids@.len(),
            i <= n,
            forall|q: int| 0 <= q < i ==> ids@[q] != id,
        decreases n - i,
    {
        if ids[i] == id {
            return true;
        }
        i = i + 1;
    }
    false
}

/// The edit marker appended to edited messages.
pub open spec fn edited_atoms() -> Seq<AtomV> {
    seq![
        AtomV::Push(StyleV::Color("8"@)),
        AtomV::Text(" (edited)"@),
        AtomV::Pop(StyleV::Color("8"@)),
    ]
}

/// Attachment links, each on its own line once content exists.
pub open spec fn attach_fold(cur: Seq<AtomV>, atts: Seq<String>) -> Seq<AtomV>
    decreases atts.len(),
{
    if atts.len() == 0 {
        cur
    } else {
        let cur1 = if cur.len() == 0 {
            cur
        } else {
            cur + seq![AtomV::Text("\n"@)]
        };
        attach_fold(cur1 + seq![AtomV::Text(atts.first()@)], atts.drop_first())
    }
}

/// The lines of a text joined with colons, as embed field values are shown.
pub open spec fn colon_joined(t: Seq<char>) -> Seq<char> {
    let base = if t.len() > 0 && t.last() == '\n' {
        t.drop_last()
    } else {
        t
    };
    Seq::new(
        base.len(),
        |i: int|
            if base[i] == '\n' {
                ':'
            } else {
                base[i]
            },
    )
}

/// Join the lines of a field value with colons.
pub fn join_colon(t: &str) -> (r: String)
    ensures
        r@ == colon_joined(t@),
{
    let n = t.unicode_len();
    let last_is_nl = n > 0 && t.get_char(n - 1) == '\n';
    let m = if last_is_nl {
        n - 1
    } else {
        n
    };
    let mut out = String::new();
    let mut i: usize = 0;
    while i < m
        invariant
            m <= n,
            n == t@.len(),
            i <= m,
            m == colon_joined(t@).len(),
            forall|q: int| 0 <= q < m ==> colon_joined(t@)[q] == (if t@[q] == '\n' {
                ':'
            } else {
                t@[q]
            }),
            out@ =~= colon_joined(t@).take(i as int),
        decreases m - i,
    {
        let c = t.get_char(i);
        if c == '\n' {
            out.append(":");
            proof {
                reveal_strlit(":");
                assert(":"@ =~= seq![':']);
                assert(out@ =~= colon_joined(t@).take(i as int + 1));
            }
        } else {
            let piece = t.substring_char(i, i + 1);
            out.append(piece);
            proof {
                assert(piece@ =~= seq![t@[i as int]]);
                assert(out@ =~= colon_joined(t@).take(i as int + 1));
            }
        }
        i = i + 1;
    }
    proof {
        assert(colon_joined(t@).take(m as int) =~= colon_joined(t@));
    }
    out
}

/// A parenthesized trailing link.
pub open spec fn url_paren_atoms(url: Option<String>) -> Seq<AtomV> {
    match url {
        Option::Some(u) => seq![AtomV::Text(" ("@ + u@ + ")"@)],
        Option::None => Seq::<AtomV>::empty(),
    }
}

/// The provider line of an embed.
pub open spec fn provider_atoms(e: EmbedData) -> Seq<AtomV> {
    match e.provider_name {
        Option::Some(name) => seq![AtomV::Text("\u{258e}"@), AtomV::Text(name@)] + url_paren_atoms(
            e.provider_url,
        ) + seq![AtomV::Text("\n"@)],
        Option::None => Seq::<AtomV>::empty(),
    }
}

/// The author line of an embed.
pub open spec fn embed_author_atoms(e: EmbedData) -> Seq<AtomV> {
    match e.author_name {
        Option::Some(name) => seq![
            AtomV::Text("\u{258e}"@),
            AtomV::Push(StyleV::Color("bold"@)),
            AtomV::Text(name@),
            AtomV::Pop(StyleV::Color("bold"@)),
        ] + url_paren_atoms(e.author_url) + seq![AtomV::Text("\n"@)],
        Option::None => Seq::<AtomV>::empty(),
    }
}

/// An optional text section folded behind the quote bar.
pub open spec fn quoted_opt_atoms(t: Option<String>) -> Seq<AtomV> {
    match t {
        Option::Some(x) => crate::format::spec_fold_lines(
            crate::styled::spec_lines(seq![AtomV::Text(x@)]),
            "\u{258e}"@,
        ) + seq![AtomV::Text("\n"@)],
        Option::None => Seq::<AtomV>::empty(),
    }
}

/// One embed's atoms.
pub open spec fn embed_atoms(e: EmbedData, leading_newline: bool) -> Seq<AtomV> {
    (if leading_newline {
        seq![AtomV::Text("\n"@)]
    } else {
        Seq::<AtomV>::empty()
    }) + provider_atoms(e) + embed_author_atoms(e) + quoted_opt_atoms(e.title) + quoted_opt_atoms(
        e.description,
    ) + fields_atoms(e.fields@) + quoted_opt_atoms(e.footer_text)
}

/// The atoms of an embed's name/value fields.
pub open spec fn fields_atoms(fields: Seq<(String, String)>) -> Seq<AtomV>
    decreases fields.len(),
{
    if fields.len() == 0 {
        Seq::<AtomV>::empty()
    } else {
        seq![
            AtomV::Text("\u{258e}"@),
            AtomV::Text(fields.first().0@),
            AtomV::Text(": "@),
            AtomV::Text(colon_joined(fields.first().1@)),
            AtomV::Text("\n"@),
        ] + fields_atoms(fields.drop_first())
    }
}

/// All embeds' atoms.
pub open spec fn embeds_atoms(embeds: Seq<EmbedData>, leading_newline: bool) -> Seq<AtomV>
    decreases embeds.len(),
{
    if embeds.len() == 0 {
        Seq::<AtomV>::empty()
    } else {
        embed_atoms(embeds.first(), leading_newline) + embeds_atoms(
            embeds.drop_first(),
            leading_newline,
        )
    }
}

/// One reaction shown as `[emoji count]`; custom emoji show their
/// shortcode, nameless ones vanish.
pub open spec fn reaction_text(r: ReactionData) -> Seq<Seq<char>> {
    match r.emoji {
        ReactionEmoji::Custom(name) => match name {
            Option::Some(n) => seq!["["@ + ":"@ + n@ + ":"@ + " "@ + dec_str(r.count as nat) + "]"@],
            Option::None => Seq::<Seq<char>>::empty(),
        },
        ReactionEmoji::Unicode(n) => seq!["["@ + n@ + " "@ + dec_str(r.count as nat) + "]"@],
    }
}

pub open spec fn reactions_texts(rs: Seq<ReactionData>) -> Seq<Seq<char>>
    decreases rs.len(),
{
    if rs.len() == 0 {
        Seq::<Seq<char>>::empty()
    } else {
        reaction_text(rs.first()) + reactions_texts(rs.drop_first())
    }
}

/// Texts joined with single spaces.
pub open spec fn space_joined(ts: Seq<Seq<char>>) -> Seq<char>
    decreases ts.len(),
{
    if ts.len() == 0 {
        Seq::<char>::empty()
    } else if ts.len() == 1 {
        ts.first()
    } else {
        ts.first() + " "@ + space_joined(ts.drop_first())
    }
}

/// The reaction trailer of a message.
pub open spec fn reactions_atoms(rs: Seq<ReactionData>) -> Seq<AtomV> {
    if rs.len() == 0 {
        seq![AtomV::Text(space_joined(reactions_texts(rs)))]
    } else {
        seq![
            AtomV::Text(" "@),
            AtomV::Push(StyleV::Color("8"@)),
            AtomV::Text(space_joined(reactions_texts(rs))),
            AtomV::Push(StyleV::Color("-8"@)),
        ]
    }
}

/// The author's name, colored from the guild member record where one is
/// cached, else the bare user name.
pub open spec fn author_atoms(
    cache: CacheView,
    author: UserInfo,
    gid: Option<u64>,
    include_at: bool,
) -> Seq<AtomV> {
    match gid {
        Option::Some(g) => match find_member(cache.members@, g, author.id) {
            Option::Some(m) => colorize_atoms(m.name@, opt_color_view(m.color), include_at),
            Option::None => seq![AtomV::Text(author.name@)],
        },
        Option::None => seq![AtomV::Text(author.name@)],
    }
}

/// Render the author's name.
pub fn format_author(
    cache: &CacheView,
    author: &UserInfo,
    guild_id: Option<u64>,
    include_at: bool,
) -> (r: StyledString)
    ensures
        r@ == author_atoms(*cache, *author, guild_id, include_at),
{
    match guild_id {
        Option::Some(g) => {
            match cache.member(g, author.id) {
                Option::Some(m) => colorize_name(&m.name, &m.color, include_at),
                Option::None => {
                    let mut out = StyledString::new();
                    out.push_str(author.name.as_str());
                    proof {
                        assert(out@ =~= author_atoms(*cache, *author, guild_id, include_at));
                    }
                    out
                },
            }
        },
        Option::None => {
            let mut out = StyledString::new();
            out.push_str(author.name.as_str());
            proof {
                assert(out@ =~= author_atoms(*cache, *author, guild_id, include_at));
            }
            out
        },
    }
}

/// The whole nick column: configured prefix, author, configured suffix.
pub open spec fn author_prefix_atoms(
    cache: CacheView,
    look: LookConfig,
    colors: ColorConfig,
    author: UserInfo,
    gid: Option<u64>,
    include_at: bool,
) -> Seq<AtomV> {
    colorize_string_atoms(look.nick_prefix@, colors.nick_prefix_color@) + author_atoms(
        cache,
        author,
        gid,
        include_at,
    ) + colorize_string_atoms(look.nick_suffix@, colors.nick_suffix_color@)
}

/// Render the nick column; also hands back the bare author for the event
/// templates.
pub fn format_author_prefix(
    cache: &CacheView,
    look: &LookConfig,
    colors: &ColorConfig,
    author: &UserInfo,
    guild_id: Option<u64>,
    include_at: bool,
) -> (r: (StyledString, StyledString))
    ensures
        r.0@ == author_prefix_atoms(*cache, *look, *colors, *author, guild_id, include_at),
        r.1@ == author_atoms(*cache, *author, guild_id, include_at),
{
    let mut prefix = StyledString::new();
    prefix.append(colorize_string(&look.nick_prefix, &colors.nick_prefix_color));
    let author_one = format_author(cache, author, guild_id, include_at);
    let author_two = format_author(cache, author, guild_id, include_at);
    prefix.append(author_one);
    prefix.append(colorize_string(&look.nick_suffix, &colors.nick_suffix_color));
    proof {
        assert(prefix@ =~= author_prefix_atoms(
            *cache,
            *look,
            *colors,
            *author,
            guild_id,
            include_at,
        ));
    }
    (prefix, author_two)
}

/// Text wrapped in the terminal's bold words.
pub open spec fn spec_bold(s: Seq<char>) -> Seq<char> {
    "bold"@ + s + "-bold"@
}

/// Wrap text in bold.
pub fn bold(body: &str) -> (r: String)
    ensures
        r@ == spec_bold(body@),
{
    let mut out = String::new();
    out.append("bold");
    out.append(body);
    out.append("-bold");
    proof {
        assert(out@ =~= spec_bold(body@));
    }
    out
}

/// Render the embeds of a message.
#[verifier::rlimit(100)]
pub fn format_embeds(msg: &MessageData, leading_newline: bool) -> (r: StyledString)
    ensures
        r@ == embeds_atoms(msg.embeds@, leading_newline),
{
    let mut out = StyledString::new();
    let n = msg.embeds.len();
    let mut i: usize = 0;
    proof {
        assert(msg.embeds@.skip(0) =~= msg.embeds@);
    }
    while i < n
        invariant
            n == msg.embeds@.len(),
            i <= n,
            embeds_atoms(msg.embeds@, leading_newline) == out@ + embeds_atoms(
                msg.embeds@.skip(i as int),
                leading_newline,
            ),
        decreases n - i,
    {
        let ghost pre = out@;
        proof {
            assert(msg.embeds@.skip(i as int).first() == msg.embeds@[i as int]);
            assert(msg.embeds@.skip(i as int).drop_first() =~= msg.embeds@.skip(i as int + 1));
        }
        let embed = &msg.embeds[i];
        if leading_newline {
            out.push_str("\n");
        }
        push_provider(&mut out, embed);
        push_embed_author(&mut out, embed);
        push_quoted_opt(&mut out, &embed.title);
        push_quoted_opt(&mut out, &embed.description);
        push_fields(&mut out, &embed.fields);
        push_quoted_opt(&mut out, &embed.footer_text);
        proof {
            assert(out@ =~= pre + embed_atoms(msg.embeds@[i as int], leading_newline));
            assert(pre + (embed_atoms(msg.embeds@[i as int], leading_newline) + embeds_atoms(
                msg.embeds@.skip(i as int + 1),
                leading_newline,
            )) =~= out@ + embeds_atoms(msg.embeds@.skip(i as int + 1), leading_newline));
        }
        i = i + 1;
    }
    proof {
        assert(embeds_atoms(msg.embeds@.skip(n as int), leading_newline) =~= Seq::<AtomV>::empty());
        assert(out@ + embeds_atoms(msg.embeds@.skip(n as int), leading_newline) =~= out@);
    }
    out
}

/// Append a parenthesized trailing link.
fn push_url_paren(out: &mut StyledString, url: &Option<String>)
    ensures
        final(out)@ == old(out)@ + url_paren_atoms(*url),
{
    match url {
        Option::Some(u) => {
            let mut t = String::new();
            t.append(" (");
            t.append(u.as_str());
            t.append(")");
            out.push_str(t.as_str());
            proof {
                assert(t@ =~= " ("@ + u@ + ")"@);
                assert(old(out)@ + seq![AtomV::Text(t@)] =~= old(out)@ + url_paren_atoms(*url));
            }
        },
        Option::None => {
            proof {
                assert(out@ =~= out@ + url_paren_atoms(*url));
            }
        },
    }
}

/// Append the provider line of an embed.
fn push_provider(out: &mut StyledString, e: &EmbedData)
    ensures
        final(out)@ == old(out)@ + provider_atoms(*e),
{
    match &e.provider_name {
        Option::Some(name) => {
            out.push_str("\u{258e}");
            out.push_str(name.as_str());
            push_url_paren(out, &e.provider_url);
            out.push_str("\n");
            proof {
                assert(out@ =~= old(out)@ + provider_atoms(*e));
            }
        },
        Option::None => {
            proof {
                assert(out@ =~= out@ + provider_atoms(*e));
            }
        },
    }
}

/// Append the author line of an embed.
fn push_embed_author(out: &mut StyledString, e: &EmbedData)
    ensures
        final(out)@ == old(out)@ + embed_author_atoms(*e),
{
    match &e.author_name {
        Option::Some(name) => {
            out.push_str("\u{258e}");
            out.push_style(Style::color("bold"));
            out.push_str(name.as_str());
            out.pop_style(Style::color("bold"));
            push_url_paren(out, &e.author_url);
            out.push_str("\n");
            proof {
                assert(out@ =~= old(out)@ + embed_author_atoms(*e));
            }
        },
        Option::None => {
            proof {
                assert(out@ =~= out@ + embed_author_atoms(*e));
            }
        },
    }
}

/// Append an optional text section folded behind the quote bar.
fn push_quoted_opt(out: &mut StyledString, t: &Option<String>)
    ensures
        final(out)@ == old(out)@ + quoted_opt_atoms(*t),
{
    match t {
        Option::Some(x) => {
            let mut one = StyledString::new();
            one.push_str(x.as_str());
            proof {
                assert(one@ =~= seq![AtomV::Text(x@)]);
            }
            out.append(crate::format::format_block_quote(one.lines()));
            out.push_str("\n");
            proof {
                assert(out@ =~= old(out)@ + quoted_opt_atoms(*t));
            }
        },
        Option::None => {
            proof {
                assert(out@ =~= out@ + quoted_opt_atoms(*t));
            }
        },
    }
}

/// Append the name/value fields of an embed.
fn push_fields(out: &mut StyledString, fields: &Vec<(String, String)>)
    ensures
        final(out)@ == old(out)@ + fields_atoms(fields@),
{
    let n = fields.len();
    let mut f: usize = 0;
    proof {
        assert(fields@.skip(0) =~= fields@);
        assert(out@ + fields_atoms(fields@.skip(0)) =~= old(out)@ + fields_atoms(fields@));
    }
    while f < n
        invariant
            n == fields@.len(),
            f <= n,
            old(out)@ + fields_atoms(fields@) == out@ + fields_atoms(fields@.skip(f as int)),
        decreases n - f,
    {
        let ghost pre_f = out@;
        proof {
            assert(fields@.skip(f as int).first() == fields@[f as int]);
            assert(fields@.skip(f as int).drop_first() =~= fields@.skip(f as int + 1));
        }
        out.push_str("\u{258e}");
        out.push_str(fields[f].0.as_str());
        out.push_str(": ");
        let joined = join_colon(fields[f].1.as_str());
        out.push_str(joined.as_str());
        out.push_str("\n");
        proof {
            assert(pre_f + fields_atoms(fields@.skip(f as int)) =~= out@ + fields_atoms(
                fields@.skip(f as int + 1),
            ));
        }
        f = f + 1;
    }
    proof {
        assert(fields_atoms(fields@.skip(n as int)) =~= Seq::<AtomV>::empty());
        assert(out@ + fields_atoms(fields@.skip(n as int)) =~= out@);
    }
}

/// Render the reaction trailer of a message.
pub fn format_reactions(msg: &MessageData) -> (r: StyledString)
    ensures
        r@ == reactions_atoms(msg.reactions@),
{
    let mut out = StyledString::new();
    let mut joined = String::new();
    let mut first = true;
    let n = msg.reactions.len();
    let mut i: usize = 0;
    proof {
        assert(msg.reactions@.skip(0) =~= msg.reactions@);
        assert(reactions_texts(msg.reactions@.skip(0)) == reactions_texts(msg.reactions@));
    }
    while i < n
        invariant
            n == msg.reactions@.len(),
            i <= n,
            first == (reactions_texts(msg.reactions@.take(i as int)).len() == 0),
            (joined@.len() == 0) == first,
            space_joined(reactions_texts(msg.reactions@)) == joined@ + (if reactions_texts(
                msg.reactions@.take(i as int),
            ).len() == 0 {
                space_joined(reactions_texts(msg.reactions@.skip(i as int)))
            } else if reactions_texts(msg.reactions@.skip(i as int)).len() == 0 {
                Seq::<char>::empty()
            } else {
                " "@ + space_joined(reactions_texts(msg.reactions@.skip(i as int)))
            }),
        decreases n - i,
    {
        proof {
            assert(msg.reactions@.skip(i as int).first() == msg.reactions@[i as int]);
            assert(msg.reactions@.skip(i as int).drop_first() =~= msg.reactions@.skip(i as int + 1));
            assert(msg.reactions@.take(i as int + 1).drop_last() =~= msg.reactions@.take(i as int));
            assert(msg.reactions@.take(i as int + 1).last() == msg.reactions@[i as int]);
            lemma_reactions_texts_snoc(msg.reactions@.take(i as int + 1));
        }
        let ghost pre = joined@;
        let re = &msg.reactions[i];
        let text: Option<String> = match &re.emoji {
            ReactionEmoji::Custom(name) => match name {
                Option::Some(nm) => {
                    let mut t = String::new();
                    t.append("[");
                    t.append(":");
                    t.append(nm.as_str());
                    t.append(":");
                    t.append(" ");
                    crate::util::push_u64_dec(&mut t, re.count);
                    t.append("]");
                    Some(t)
                },
                Option::None => None,
            },
            ReactionEmoji::Unicode(nm) => {
                let mut t = String::new();
                t.append("[");
                t.append(nm.as_str());
                t.append(" ");
                crate::util::push_u64_dec(&mut t, re.count);
                t.append("]");
                Some(t)
            },
        };
        match text {
            Option::Some(t) => {
                if !first {
                    joined.append(" ");
                }
                joined.append(t.as_str());
                first = false;
                proof {
                    assert(reaction_text(msg.reactions@[i as int]) =~~= seq![t@]);
                }
            },
            Option::None => {
                proof {
                    assert(reaction_text(msg.reactions@[i as int]) =~~= Seq::<Seq<char>>::empty());
                }
            },
        }
        proof {
            lemma_space_joined_step(
                msg.reactions@,
                i as int,
                pre,
                joined@,
            );
        }
        i = i + 1;
    }
    proof {
        assert(msg.reactions@.take(n as int) =~= msg.reactions@);
        assert(reactions_texts(msg.reactions@.skip(n as int)) =~~= Seq::<Seq<char>>::empty());
    }
    if n == 0 {
        out.push_str(joined.as_str());
        proof {
            assert(out@ =~= reactions_atoms(msg.reactions@));
        }
    } else {
        out.push_str(" ");
        out.push_style(Style::color("8"));
        out.push_str(joined.as_str());
        out.push_style(Style::color("-8"));
        proof {
            assert(out@ =~= reactions_atoms(msg.reactions@));
        }
    }
    out
}

/// The texts of one more reaction arrive at the tail.
proof fn lemma_reactions_texts_snoc(rs: Seq<ReactionData>)
    requires
        rs.len() >= 1,
    ensures
        reactions_texts(rs) == reactions_texts(rs.drop_last()) + reaction_text(rs.last()),
    decreases rs.len(),
{
    if rs.len() == 1 {
        assert(rs.drop_first() =~= Seq::<ReactionData>::empty());
        assert(rs.drop_last() =~= Seq::<ReactionData>::empty());
        assert(reactions_texts(rs) =~~= reactions_texts(rs.drop_last()) + reaction_text(rs.last()));
    } else {
        lemma_reactions_texts_snoc(rs.drop_first());
        assert(rs.drop_first().drop_last() =~= rs.drop_last().drop_first());
        assert(rs.drop_first().last() == rs.last());
        assert(rs.drop_last().first() == rs.first());
        assert(reactions_texts(rs) =~~= reactions_texts(rs.drop_last()) + reaction_text(rs.last()));
    }
}

/// One loop step of the space-joined reaction list.
proof fn lemma_space_joined_step(
    rs: Seq<ReactionData>,
    i: int,
    pre: Seq<char>,
    cur: Seq<char>,
)
    requires
        0 <= i < rs.len(),
        (pre.len() == 0) == (reactions_texts(rs.take(i)).len() == 0),
        reactions_texts(rs.take(i + 1)) == reactions_texts(rs.take(i)) + reaction_text(rs[i]),
        cur == (if reaction_text(rs[i]).len() == 0 {
            pre
        } else if pre.len() == 0 {
            reaction_text(rs[i])[0]
        } else {
            pre + " "@ + reaction_text(rs[i])[0]
        }),
        space_joined(reactions_texts(rs)) == pre + (if reactions_texts(rs.take(i)).len() == 0 {
            space_joined(reactions_texts(rs.skip(i)))
        } else if reactions_texts(rs.skip(i)).len() == 0 {
            Seq::<char>::empty()
        } else {
            " "@ + space_joined(reactions_texts(rs.skip(i)))
        }),
        reactions_texts(rs.skip(i)) == reaction_text(rs[i]) + reactions_texts(rs.skip(i + 1)),
    ensures
        space_joined(reactions_texts(rs)) == cur + (if reactions_texts(rs.take(i + 1)).len() == 0 {
            space_joined(reactions_texts(rs.skip(i + 1)))
        } else if reactions_texts(rs.skip(i + 1)).len() == 0 {
            Seq::<char>::empty()
        } else {
            " "@ + space_joined(reactions_texts(rs.skip(i + 1)))
        }),
        (cur.len() == 0) == (reactions_texts(rs.take(i + 1)).len() == 0),
{
    reveal_strlit("[");
    let t = reaction_text(rs[i]);
    let before = reactions_texts(rs.take(i));
    let after = reactions_texts(rs.skip(i + 1));
    if t.len() == 0 {
        assert(t + after =~~= after);
        assert(reactions_texts(rs.take(i + 1)) =~~= before);
    } else {
        assert(t.len() == 1);
        let piece = t[0];
        assert(piece.len() > 0);
        assert(t + after =~~= seq![piece] + after);
        assert((seq![piece] + after).first() == piece);
        assert((seq![piece] + after).drop_first() =~~= after);
        if after.len() == 0 {
            assert(space_joined(seq![piece] + after) == piece);
        } else {
            assert(space_joined(seq![piece] + after) == piece + " "@ + space_joined(after));
        }
        if pre.len() == 0 {
            if after.len() == 0 {
                assert(space_joined(reactions_texts(rs)) =~= cur);
            } else {
                assert(space_joined(reactions_texts(rs)) =~= cur + (" "@ + space_joined(after)));
            }
        } else {
            if after.len() == 0 {
                assert(pre + (" "@ + piece) =~= cur);
                assert(space_joined(reactions_texts(rs)) =~= cur);
            } else {
                assert(pre + (" "@ + (piece + " "@ + space_joined(after))) =~= cur + (" "@
                    + space_joined(after)));
                assert(space_joined(reactions_texts(rs)) =~= cur + (" "@ + space_joined(after)));
            }
        }
        assert(reactions_texts(rs.take(i + 1)).len() >= 1);
    }
}

/// Which of the thirteen join templates a timestamp selects, as the
/// service varies them by creation time in milliseconds.
pub open spec fn join_idx(ts: i64) -> int {
    ((ts as u64) as int * 1000) % 0x10000000000000000 % 13
}

/// The join banner for a member, template chosen by timestamp.
pub open spec fn spec_join_message(ts: i64, author: Seq<char>) -> Seq<char> {
    let idx = join_idx(ts);
    if idx == 0 {
        author + " joined the party."@
    } else if idx == 1 {
        author + " is here."@
    } else if idx == 2 {
        "Welcome, "@ + author + ". We hope you brought pizza."@
    } else if idx == 3 {
        "A wild "@ + author + " appeared."@
    } else if idx == 4 {
        author + " just landed."@
    } else if idx == 5 {
        author + " just slid into the server."@
    } else if idx == 6 {
        author + " just showed up!"@
    } else if idx == 7 {
        "Welcome "@ + author + ". Say hi!"@
    } else if idx == 8 {
        author + " hopped into the server."@
    } else if idx == 9 {
        "Everyone welcome "@ + author + "!"@
    } else if idx == 10 {
        "Glad you're here, "@ + author + "."@
    } else if idx == 11 {
        "Good to see you, "@ + author + "."@
    } else {
        "Yay you made it, "@ + author + "!"@
    }
}

/// Render the join banner.
pub fn format_join_message(timestamp: i64, author: &str) -> (r: String)
    ensures
        r@ == spec_join_message(timestamp, author@),
{
    let ms_wide: u128 = (timestamp as u64 as u128) * 1000;
    let ms: u64 = (ms_wide % 18446744073709551616u128) as u64;
    let idx: u64 = ms % 13;
    proof {
        assert(idx as int == join_idx(timestamp));
    }
    let mut out = String::new();
    if idx == 0 {
        out.append(author);
        out.append(" joined the party.");
    } else if idx == 1 {
        out.append(author);
        out.append(" is here.");
    } else if idx == 2 {
        out.append("Welcome, ");
        out.append(author);
        out.append(". We hope you brought pizza.");
    } else if idx == 3 {
        out.append("A wild ");
        out.append(author);
        out.append(" appeared.");
    } else if idx == 4 {
        out.append(author);
        out.append(" just landed.");
    } else if idx == 5 {
        out.append(author);
        out.append(" just slid into the server.");
    } else if idx == 6 {
        out.append(author);
        out.append(" just showed up!");
    } else if idx == 7 {
        out.append("Welcome ");
        out.append(author);
        out.append(". Say hi!");
    } else if idx == 8 {
        out.append(author);
        out.append(" hopped into the server.");
    } else if idx == 9 {
        out.append("Everyone welcome ");
        out.append(author);
        out.append("!");
    } else if idx == 10 {
        out.append("Glad you're here, ");
        out.append(author);
        out.append(".");
    } else if idx == 11 {
        out.append("Good to see you, ");
        out.append(author);
        out.append(".");
    } else {
        out.append("Yay you made it, ");
        out.append(author);
        out.append("!");
    }
    proof {
        assert(out@ =~= spec_join_message(timestamp, author@));
    }
    out
}

/// The display prefix class of a non-conversational event; the UI sink
/// maps each class to its configured glyph.
#[derive(Debug, Clone, Copy, PartialEq, Eq, Structural)]
pub enum EventPrefix {
    Join,
    Quit,
    Network,
}

/// Whether a subtype is one of the non-conversational events.
pub open spec fn is_event_kind(k: MessageKind) -> bool {
    !(k matches MessageKind::Regular) && !(k matches MessageKind::Reply) && !(
    k matches MessageKind::ChatInputCommand)
}

/// The template of one non-conversational event.
pub open spec fn spec_event_message(
    kind: MessageKind,
    ts: i64,
    content: Seq<char>,
    author: Seq<char>,
) -> (EventPrefix, Seq<char>) {
    match kind {
        MessageKind::RecipientAdd => (
            EventPrefix::Join,
            spec_join_message(ts, spec_bold(author)),
        ),
        MessageKind::GuildMemberJoin => (
            EventPrefix::Join,
            spec_join_message(ts, spec_bold(author)),
        ),
        MessageKind::RecipientRemove => (
            EventPrefix::Quit,
            spec_bold(author) + " left the group."@,
        ),
        MessageKind::ChannelNameChange => (
            EventPrefix::Network,
            spec_bold(author) + " changed the channel name to "@ + spec_bold(content) + "."@,
        ),
        MessageKind::Call => (EventPrefix::Network, spec_bold(author) + " started a call."@),
        MessageKind::ChannelIconChange => (
            EventPrefix::Network,
            spec_bold(author) + " changed the channel icon."@,
        ),
        MessageKind::ChannelMessagePinned => (
            EventPrefix::Network,
            spec_bold(author) + " pinned a message to this channel"@,
        ),
        MessageKind::UserPremiumSub => (
            EventPrefix::Network,
            spec_bold(author) + " boosted this channel with nitro"@,
        ),
        MessageKind::UserPremiumSubTier1 => (
            EventPrefix::Network,
            "This channel has achieved nitro level 1"@,
        ),
        MessageKind::UserPremiumSubTier2 => (
            EventPrefix::Network,
            "This channel has achieved nitro level 2"@,
        ),
        MessageKind::UserPremiumSubTier3 => (
            EventPrefix::Network,
            "This channel has achieved nitro level 3"@,
        ),
        MessageKind::GuildDiscoveryDisqualified => (
            EventPrefix::Network,
            "This server has been disqualified from Discovery"@,
        ),
        MessageKind::GuildDiscoveryRequalified => (
            EventPrefix::Network,
            "This server has been requalified for Discovery"@,
        ),
        MessageKind::ChannelFollowAdd => (
            EventPrefix::Network,
            "This channel is now following "@ + spec_bold(content),
        ),
        MessageKind::GuildDiscoveryGracePeriodInitialWarning => (
            EventPrefix::Network,
            "This is the server discovery initial grace period warning"@,
        ),
        MessageKind::GuildDiscoveryGracePeriodFinalWarning => (
            EventPrefix::Network,
            "This is the server discovery final grace period warning"@,
        ),
        MessageKind::GuildInviteReminder => (EventPrefix::Network, "Invite reminder"@),
        MessageKind::ThreadCreated => (
            EventPrefix::Network,
            spec_bold(author) + " started a thread: "@ + spec_bold(content),
        ),
        MessageKind::ThreadStarterMessage => (
            EventPrefix::Network,
            "[Thread starter - Threads are not implemented]"@,
        ),
        MessageKind::ContextMenuCommand => (
            EventPrefix::Network,
            "[Context Menu Command - not yet implemented]"@,
        ),
        _ => (EventPrefix::Network, "[unknown event]"@),
    }
}

/// Render one non-conversational event; unrecognized subtypes get a
/// readable placeholder, never a panic.
pub fn format_event_message(msg: &MessageData, author: &str) -> (r: (EventPrefix, String))
    requires
        is_event_kind(msg.kind),
    ensures
        r.0 == spec_event_message(msg.kind, msg.timestamp, msg.content@, author@).0,
        r.1@ == spec_event_message(msg.kind, msg.timestamp, msg.content@, author@).1,
{
    let mut body = String::new();
    let prefix: EventPrefix;
    match msg.kind {
        MessageKind::RecipientAdd => {
            prefix = EventPrefix::Join;
            let b = bold(author);
            body = format_join_message(msg.timestamp, b.as_str());
        },
        MessageKind::GuildMemberJoin => {
            prefix = EventPrefix::Join;
            let b = bold(author);
            body = format_join_message(msg.timestamp, b.as_str());
        },
        MessageKind::RecipientRemove => {
            prefix = EventPrefix::Quit;
            let b = bold(author);
            body.append(b.as_str());
            body.append(" left the group.");
        },
        MessageKind::ChannelNameChange => {
            prefix = EventPrefix::Network;
            let b = bold(author);
            let c = bold(msg.content.as_str());
            body.append(b.as_str());
            body.append(" changed the channel name to ");
            body.append(c.as_str());
            body.append(".");
        },
        MessageKind::Call => {
            prefix = EventPrefix::Network;
            let b = bold(author);
            body.append(b.as_str());
            body.append(" started a call.");
        },
        MessageKind::ChannelIconChange => {
            prefix = EventPrefix::Network;
            let b = bold(author);
            body.append(b.as_str());
            body.append(" changed the channel icon.");
        },
        MessageKind::ChannelMessagePinned => {
            prefix = EventPrefix::Network;
            let b = bold(author);
            body.append(b.as_str());
            body.append(" pinned a message to this channel");
        },
        MessageKind::UserPremiumSub => {
            prefix = EventPrefix::Network;
            let b = bold(author);
            body.append(b.as_str());
            body.append(" boosted this channel with nitro");
        },
        MessageKind::UserPremiumSubTier1 => {
            prefix = EventPrefix::Network;
            body.append("This channel has achieved nitro level 1");
        },
        MessageKind::UserPremiumSubTier2 => {
            prefix = EventPrefix::Network;
            body.append("This channel has achieved nitro level 2");
        },
        MessageKind::UserPremiumSubTier3 => {
            prefix = EventPrefix::Network;
            body.append("This channel has achieved nitro level 3");
        },
        MessageKind::GuildDiscoveryDisqualified => {
            prefix = EventPrefix::Network;
            body.append("This server has been disqualified from Discovery");
        },
        MessageKind::GuildDiscoveryRequalified => {
            prefix = EventPrefix::Network;
            body.append("This server has been requalified for Discovery");
        },
        MessageKind::ChannelFollowAdd => {
            prefix = EventPrefix::Network;
            let c = bold(msg.content.as_str());
            body.append("This channel is now following ");
            body.append(c.as_str());
        },
        MessageKind::GuildDiscoveryGracePeriodInitialWarning => {
            prefix = EventPrefix::Network;
            body.append("This is the server discovery initial grace period warning");
        },
        MessageKind::GuildDiscoveryGracePeriodFinalWarning => {
            prefix = EventPrefix::Network;
            body.append("This is the server discovery final grace period warning");
        },
        MessageKind::GuildInviteReminder => {
            prefix = EventPrefix::Network;
            body.append("Invite reminder");
        },
        MessageKind::ThreadCreated => {
            prefix = EventPrefix::Network;
            let b = bold(author);
            let c = bold(msg.content.as_str());
            body.append(b.as_str());
            body.append(" started a thread: ");
            body.append(c.as_str());
        },
        MessageKind::ThreadStarterMessage => {
            prefix = EventPrefix::Network;
            body.append("[Thread starter - Threads are not implemented]");
        },
        MessageKind::ContextMenuCommand => {
            prefix = EventPrefix::Network;
            body.append("[Context Menu Command - not yet implemented]");
        },
        _ => {
            prefix = EventPrefix::Network;
            body.append("[unknown event]");
        },
    }
    proof {
        assert(body@ =~= spec_event_message(msg.kind, msg.timestamp, msg.content@, author@).1);
    }
    (prefix, body)
}

/// The body lines of a string, as the line iterator of plain text yields
/// them: no line for empty text, and no empty final line after a trailing
/// newline.
pub open spec fn str_lines(t: Seq<char>) -> Seq<Seq<char>> {
    if t.len() == 0 {
        Seq::<Seq<char>>::empty()
    } else if t.last() == '\n' {
        crate::styled::split_nl(t.drop_last())
    } else {
        crate::styled::split_nl(t)
    }
}

/// Lines joined behind the quote bar.
pub open spec fn quote_join(ls: Seq<Seq<char>>) -> Seq<char>
    decreases ls.len(),
{
    if ls.len() == 0 {
        Seq::<char>::empty()
    } else if ls.len() == 1 {
        "\u{258e}"@ + ls.first()
    } else {
        "\u{258e}"@ + ls.first() + "\n"@ + quote_join(ls.drop_first())
    }
}

/// A rendered body quoted behind the bar, line by line.
pub open spec fn quoted_text(t: Seq<char>) -> Seq<char> {
    quote_join(str_lines(t))
}

/// Quote a rendered body line by line behind the bar.
fn quote_fold(t: &str) -> (r: String)
    ensures
        r@ == quoted_text(t@),
{
    let n = t.unicode_len();
    let mut out = String::new();
    if n == 0 {
        proof {
            assert(out@ =~= quoted_text(t@));
        }
        return out;
    }
    let m = if t.get_char(n - 1) == '\n' {
        n - 1
    } else {
        n
    };
    let ghost eff = if t@.last() == '\n' {
        t@.drop_last()
    } else {
        t@
    };
    proof {
        assert(eff =~= t@.subrange(0, m as int));
        assert(eff.skip(0) =~= eff);
    }
    let mut start: usize = 0;
    let mut j: usize = 0;
    while j < m
        invariant
            m <= n,
            n == t@.len(),
            m == eff.len(),
            eff == t@.subrange(0, m as int),
            start <= j <= m,
            forall|q: int| start <= q < j ==> t@[q] != '\n',
            quoted_text(t@) == out@ + quote_join(crate::styled::split_nl(eff.skip(start as int))),
        decreases m - j,
    {
        let c = t.get_char(j);
        if c == '\n' {
            let ghost tail = eff.skip(start as int);
            proof {
                assert(forall|q: int|
                    0 <= q < j - start ==> #[trigger] tail[q] == eff[q + start as int]);
                assert(forall|q: int|
                    0 <= q < j - start ==> #[trigger] eff[q + start as int] == t@[q
                        + start as int]);
                assert(tail[j - start as int] == t@[j as int]);
                crate::styled::lemma_split_nl_prefix(tail, j - start as int);
                crate::styled::lemma_split_nl_len(eff.skip(j as int + 1));
            }
            let piece = t.substring_char(start, j);
            out.append("\u{258e}");
            out.append(piece);
            out.append("\n");
            proof {
                let pieces = crate::styled::split_nl(tail);
                assert(tail.take(j - start as int) =~= eff.subrange(start as int, j as int));
                assert(tail.skip(j - start as int + 1) =~= eff.skip(j as int + 1));
                let cc = seq![tail.take(j - start as int)] + crate::styled::split_nl(
                    eff.skip(j as int + 1),
                );
                assert(cc[0] == tail.take(j - start as int));
                assert(pieces.first() == eff.subrange(start as int, j as int));
                assert(pieces.drop_first() =~~= crate::styled::split_nl(eff.skip(j as int + 1)));
                assert(pieces.len() >= 2);
                assert(piece@ =~= eff.subrange(start as int, j as int));
                assert(quote_join(pieces) == "\u{258e}"@ + pieces.first() + "\n"@ + quote_join(
                    pieces.drop_first(),
                ));
                assert(quoted_text(t@) == out@ + quote_join(
                    crate::styled::split_nl(eff.skip(j as int + 1)),
                ));
            }
            start = j + 1;
        }
        j = j + 1;
    }
    let ghost tail = eff.skip(start as int);
    proof {
        assert(forall|q: int|
            0 <= q < m - start ==> #[trigger] tail[q] == eff[q + start as int]);
        assert(forall|q: int|
            0 <= q < m - start ==> #[trigger] eff[q + start as int] == t@[q + start as int]);
        crate::styled::lemma_split_nl_prefix(tail, m - start as int);
        assert(crate::styled::split_nl(tail) == seq![tail]);
    }
    let piece = t.substring_char(start, m);
    out.append("\u{258e}");
    out.append(piece);
    proof {
        assert(piece@ =~= tail);
        assert(seq![tail].first() == tail);
        assert(quote_join(seq![tail]) == "\u{258e}"@ + tail);
        assert(out@ =~= quoted_text(t@));
    }
    out
}

/// What one rendered message is: the nick column and the body, with
/// replies quoting their referenced message one level deep.  The guild
/// scope is passed beside the message, since a quoted message inherits
/// the scope of the reply's reference.
pub open spec fn spec_render_msg(
    cache: CacheView,
    look: LookConfig,
    colors: ColorConfig,
    msg: MessageData,
    gid: Option<u64>,
    include_at: bool,
    tc: TimeContext,
    nested: bool,
) -> (Seq<char>, Seq<char>)
    decreases msg,
{
    let ctx = mk_ctx(cache, gid, look.show_formatting_chars, look.show_unknown_user_ids, tc);
    let prefix = spec_render(
        author_prefix_atoms(cache, look, colors, msg.author, gid, include_at),
        Seq::<StyleV>::empty(),
    );
    let author = spec_render(
        author_atoms(cache, msg.author, gid, include_at),
        Seq::<StyleV>::empty(),
    );
    let body = spec_render(content_atoms_scoped(msg, ctx), Seq::<StyleV>::empty());
    match msg.kind {
        MessageKind::Regular => (prefix, body),
        MessageKind::ChatInputCommand => (prefix, body),
        MessageKind::Reply => {
            match msg.referenced_message {
                Option::Some(b) => {
                    if nested {
                        (prefix, "<nested reply>\n"@ + body)
                    } else {
                        let at = contains_id(msg.mention_ids@, b.author.id);
                        let rr = spec_render_msg(
                            cache,
                            look,
                            colors,
                            *b,
                            msg.reference_guild_id,
                            at,
                            tc,
                            true,
                        );
                        (prefix, rr.0 + ":\n"@ + quoted_text(rr.1) + "\n"@ + body)
                    }
                },
                Option::None => (prefix, "<nested reply>\n"@ + body),
            }
        },
        _ => {
            let ev = spec_event_message(msg.kind, msg.timestamp, msg.content@, author);
            (event_prefix_text(ev.0), ev.1)
        },
    }
}

/// The body atoms under an explicit guild scope.
pub open spec fn content_atoms_scoped(msg: MessageData, ctx: WalkCtx) -> Seq<AtomV> {
    let base = walk_list(msg.markup@, 0, ctx);
    let with_edit = if msg.edited {
        base + edited_atoms()
    } else {
        base
    };
    let with_attach = attach_fold(with_edit, msg.attachments@);
    let with_embeds = with_attach + embeds_atoms(msg.embeds@, with_attach.len() != 0);
    with_embeds + reactions_atoms(msg.reactions@)
}

/// The display text a prefix class renders as, for sinks that take plain
/// words; a real UI maps the class to its own glyph instead.
pub open spec fn event_prefix_text(p: EventPrefix) -> Seq<char> {
    match p {
        EventPrefix::Join => "join"@,
        EventPrefix::Quit => "quit"@,
        EventPrefix::Network => "network"@,
    }
}

fn render_msg_depth(
    cache: &CacheView,
    look: &LookConfig,
    colors: &ColorConfig,
    msg: &MessageData,
    gid: Option<u64>,
    include_at: bool,
    tc: &TimeContext,
    nested: bool,
    unknown_members: &mut Vec<u64>,
) -> (r: (String, String))
    ensures
        ({
            let rr = spec_render_msg(*cache, *look, *colors, *msg, gid, include_at, *tc, nested);
            &&& r.0@ == rr.0
            &&& r.1@ == rr.1
            &&& final(unknown_members)@ == old(unknown_members)@ + unk_list(
                msg.markup@,
                0,
                mk_ctx(*cache, gid, look.show_formatting_chars, look.show_unknown_user_ids, *tc),
            )
        }),
    decreases *msg,
{
    let content = format_msg_content_scoped(cache, look, msg, gid, tc, unknown_members);
    let (prefix_styled, author_styled) = format_author_prefix(
        cache,
        look,
        colors,
        &msg.author,
        gid,
        include_at,
    );
    let prefix = prefix_styled.build();
    let body = content.build();
    match msg.kind {
        MessageKind::Regular => (prefix, body),
        MessageKind::ChatInputCommand => (prefix, body),
        MessageKind::Reply => {
            match &msg.referenced_message {
                Option::Some(b) => {
                    if nested {
                        let mut out = String::new();
                        out.append("<nested reply>\n");
                        out.append(body.as_str());
                        proof {
                            assert(out@ =~= "<nested reply>\n"@ + body@);
                        }
                        (prefix, out)
                    } else {
                        let at = find_id(&msg.mention_ids, b.author.id);
                        let mut discard: Vec<u64> = Vec::new();
                        let rr = render_msg_depth(
                            cache,
                            look,
                            colors,
                            b,
                            msg.reference_guild_id,
                            at,
                            tc,
                            true,
                            &mut discard,
                        );
                        let folded = quote_fold(rr.1.as_str());
                        let mut out = String::new();
                        out.append(rr.0.as_str());
                        out.append(":\n");
                        out.append(folded.as_str());
                        out.append("\n");
                        out.append(body.as_str());
                        proof {
                            assert(out@ =~= spec_render_msg(
                                *cache,
                                *look,
                                *colors,
                                *msg,
                                gid,
                                include_at,
                                *tc,
                                nested,
                            ).1);
                        }
                        (prefix, out)
                    }
                },
                Option::None => {
                    let mut out = String::new();
                    out.append("<nested reply>\n");
                    out.append(body.as_str());
                    proof {
                        assert(out@ =~= "<nested reply>\n"@ + body@);
                    }
                    (prefix, out)
                },
            }
        },
        _ => {
            let author = author_styled.build();
            let ev = format_event_message(msg, author.as_str());
            let word: &str = match ev.0 {
                EventPrefix::Join => "join",
                EventPrefix::Quit => "quit",
                EventPrefix::Network => "network",
            };
            let mut p = String::new();
            p.append(word);
            proof {
                assert(p@ =~= event_prefix_text(
                    spec_event_message(msg.kind, msg.timestamp, msg.content@, author@).0,
                ));
            }
            (p, ev.1)
        },
    }
}

/// Render the body content under an explicit guild scope.
fn format_msg_content_scoped(
    cache: &CacheView,
    look: &LookConfig,
    msg: &MessageData,
    gid: Option<u64>,
    tc: &TimeContext,
    unknown_members: &mut Vec<u64>,
) -> (r: StyledString)
    ensures
        ({
            let ctx = mk_ctx(
                *cache,
                gid,
                look.show_formatting_chars,
                look.show_unknown_user_ids,
                *tc,
            );
            &&& r@ == content_atoms_scoped(*msg, ctx)
            &&& final(unknown_members)@ == old(unknown_members)@ + unk_list(msg.markup@, 0, ctx)
        }),
{
    let mut out = discord_to_weechat(
        &msg.markup,
        cache,
        gid,
        look.show_formatting_chars,
        look.show_unknown_user_ids,
        tc,
        unknown_members,
    );
    if msg.edited {
        out.push_styled_str(Style::color("8"), " (edited)");
    }
    let ghost ctx = mk_ctx(*cache, gid, look.show_formatting_chars, look.show_unknown_user_ids, *tc);
    let ghost with_edit = if msg.edited {
        walk_list(msg.markup@, 0, ctx) + edited_atoms()
    } else {
        walk_list(msg.markup@, 0, ctx)
    };
    proof {
        assert(out@ =~= with_edit);
        assert(msg.attachments@.skip(0) =~= msg.attachments@);
    }
    let n = msg.attachments.len();
    let mut i: usize = 0;
    while i < n
        invariant
            n == msg.attachments@.len(),
            i <= n,
            attach_fold(with_edit, msg.attachments@) == attach_fold(
                out@,
                msg.attachments@.skip(i as int),
            ),
        decreases n - i,
    {
        let ghost pre = out@;
        proof {
            assert(msg.attachments@.skip(i as int).first() == msg.attachments@[i as int]);
            assert(msg.attachments@.skip(i as int).drop_first() =~= msg.attachments@.skip(
                i as int + 1,
            ));
        }
        if !out.is_empty() {
            out.push_str("\n");
        }
        out.push_str(msg.attachments[i].as_str());
        proof {
            if pre.len() == 0 {
                assert(out@ =~= pre + seq![AtomV::Text(msg.attachments@[i as int]@)]);
            } else {
                assert(out@ =~= pre + seq![AtomV::Text("\n"@)] + seq![
                    AtomV::Text(msg.attachments@[i as int]@),
                ]);
                assert(pre + seq![AtomV::Text("\n"@)] + seq![
                    AtomV::Text(msg.attachments@[i as int]@),
                ] =~= (pre + seq![AtomV::Text("\n"@)]) + seq![
                    AtomV::Text(msg.attachments@[i as int]@),
                ]);
            }
            assert(attach_fold(pre, msg.attachments@.skip(i as int)) == attach_fold(
                out@,
                msg.attachments@.skip(i as int + 1),
            ));
        }
        i = i + 1;
    }
    proof {
        assert(attach_fold(out@, msg.attachments@.skip(n as int)) == out@);
        assert(attach_fold(with_edit, msg.attachments@) == out@);
    }
    let lead = !out.is_empty();
    let embeds = format_embeds(msg, lead);
    out.append(embeds);
    let reacts = format_reactions(msg);
    out.append(reacts);
    proof {
        assert(out@ =~= content_atoms_scoped(*msg, ctx));
    }
    out
}

/// Render one message to its (prefix, body) display pair.  The reply, if
/// any, renders quoted one level deep; its own unresolved mentions are
/// not queued for re-fetch.
pub fn render_msg(
    cache: &CacheView,
    look: &LookConfig,
    colors: &ColorConfig,
    msg: &MessageData,
    include_at: bool,
    tc: &TimeContext,
    unknown_members: &mut Vec<u64>,
) -> (r: (String, String))
    ensures
        ({
            let rr = spec_render_msg(
                *cache,
                *look,
                *colors,
                *msg,
                msg.guild_id,
                include_at,
                *tc,
                false,
            );
            &&& r.0@ == rr.0
            &&& r.1@ == rr.1
            &&& final(unknown_members)@ == old(unknown_members)@ + unk_list(
                msg.markup@,
                0,
                mk_ctx(
                    *cache,
                    msg.guild_id,
                    look.show_formatting_chars,
                    look.show_unknown_user_ids,
                    *tc,
                ),
            )
        }),
{
    render_msg_depth(
        cache,
        look,
        colors,
        msg,
        msg.guild_id,
        include_at,
        tc,
        false,
        unknown_members,
    )
}


/// The nick column of a local echo: the current user, resolved like any
/// author.  Meaningful only while a current user is known.
pub open spec fn echo_prefix_atoms(cache: CacheView, gid: Option<u64>) -> Seq<AtomV> {
    match cache.current_user {
        Option::Some(u) => match gid {
            Option::Some(g) => match find_member(cache.members@, g, u.id) {
                Option::Some(m) => colorize_atoms(m.name@, opt_color_view(m.color), false),
                Option::None => seq![AtomV::Text(u.name@)],
            },
            Option::None => seq![AtomV::Text(u.name@)],
        },
        Option::None => Seq::<AtomV>::empty(),
    }
}

/// The display tags of one item: self/highlight/private/ordinary notify
/// classes, and suppression flags for transient and echoed items.
pub open spec fn spec_tags(m: WeecordMessage, cache: CacheView) -> Seq<Seq<char>> {
    match m {
        WeecordMessage::Text(d) => {
            let private = !(crate::cache::find_channel(cache.channels@, d.channel_id) is None);
            let mentioned = match cache.current_user {
                Option::Some(u) => contains_id(d.mention_ids@, u.id),
                Option::None => false,
            };
            let own = match cache.current_user {
                Option::Some(u) => d.author.id == u.id,
                Option::None => false,
            };
            if own {
                seq!["self_msg"@, "notify_none"@]
            } else {
                (if mentioned {
                    seq!["notify_highlight"@]
                } else {
                    Seq::<Seq<char>>::empty()
                }) + (if private {
                    seq!["notify_private"@]
                } else {
                    Seq::<Seq<char>>::empty()
                }) + (if !mentioned && !private {
                    seq!["notify_message"@]
                } else {
                    Seq::<Seq<char>>::empty()
                })
            }
        },
        WeecordMessage::LocalEcho { .. } => seq!["no_log"@, "local_echo"@, "notify_none"@],
        WeecordMessage::Notification { mention, private, .. } => {
            if private {
                seq!["notify_private"@]
            } else if mention {
                seq!["notify_highlight"@]
            } else {
                seq!["notify_message"@]
            }
        },
    }
}

impl WeecordMessage {
    /// Render this item to its (prefix, body) display pair.  A local echo
    /// renders under the current user's name and a muted color; a
    /// transient notification renders as nothing.
    pub fn render(
        &self,
        cache: &CacheView,
        look: &LookConfig,
        colors: &ColorConfig,
        tc: &TimeContext,
        unknown_members: &mut Vec<u64>,
    ) -> (r: (String, String))
        requires
            (*self matches WeecordMessage::LocalEcho { .. }) ==> !(cache.current_user is None),
        ensures
            match *self {
                WeecordMessage::Notification { .. } => r.0@ == Seq::<char>::empty() && r.1@
                    == Seq::<char>::empty() && final(unknown_members)@ == old(unknown_members)@,
                WeecordMessage::LocalEcho { guild_id, markup, .. } => {
                    &&& r.0@ == spec_render(
                        echo_prefix_atoms(*cache, guild_id),
                        Seq::<StyleV>::empty(),
                    )
                    &&& r.1@ == "244"@ + spec_render(
                        walk_list(
                            markup@,
                            0,
                            mk_ctx(
                                *cache,
                                guild_id,
                                look.show_formatting_chars,
                                look.show_unknown_user_ids,
                                *tc,
                            ),
                        ),
                        Seq::<StyleV>::empty(),
                    ) + "resetcolor"@
                    &&& final(unknown_members)@ == old(unknown_members)@
                },
                WeecordMessage::Text(d) => {
                    let rr = spec_render_msg(
                        *cache,
                        *look,
                        *colors,
                        *d,
                        d.guild_id,
                        false,
                        *tc,
                        false,
                    );
                    &&& r.0@ == rr.0
                    &&& r.1@ == rr.1
                    &&& final(unknown_members)@ == old(unknown_members)@ + unk_list(
                        d.markup@,
                        0,
                        mk_ctx(
                            *cache,
                            d.guild_id,
                            look.show_formatting_chars,
                            look.show_unknown_user_ids,
                            *tc,
                        ),
                    )
                },
            },
    {
        match self {
            WeecordMessage::Notification { .. } => (String::new(), String::new()),
            WeecordMessage::LocalEcho { guild_id, markup, .. } => {
                let mut discard: Vec<u64> = Vec::new();
                let content = discord_to_weechat(
                    markup,
                    cache,
                    *guild_id,
                    look.show_formatting_chars,
                    look.show_unknown_user_ids,
                    tc,
                    &mut discard,
                );
                let mut prefix_styled = StyledString::new();
                match &cache.current_user {
                    Option::Some(u) => {
                        match guild_id {
                            Option::Some(g) => {
                                match cache.member(*g, u.id) {
                                    Option::Some(m) => {
                                        prefix_styled.append(
                                            colorize_name(&m.name, &m.color, false),
                                        );
                                    },
                                    Option::None => {
                                        prefix_styled.push_str(u.name.as_str());
                                    },
                                }
                            },
                            Option::None => {
                                prefix_styled.push_str(u.name.as_str());
                            },
                        }
                    },
                    Option::None => {},
                }
                proof {
                    assert(prefix_styled@ =~= echo_prefix_atoms(*cache, *guild_id));
                }
                let prefix = prefix_styled.build();
                let mut body = String::new();
                body.append("244");
                let built = content.build();
                body.append(built.as_str());
                body.append("resetcolor");
                proof {
                    assert(body@ =~= "244"@ + built@ + "resetcolor"@);
                }
                (prefix, body)
            },
            WeecordMessage::Text(d) => {
                render_msg(cache, look, colors, d, false, tc, unknown_members)
            },
        }
    }

    /// The display tags of this item.
    pub fn tags(&self, cache: &CacheView) -> (r: Vec<String>)
        ensures
            r.deep_view() == spec_tags(*self, *cache),
    {
        let mut out: Vec<String> = Vec::new();
        match self {
            WeecordMessage::Text(d) => {
                let private = match cache.channel(d.channel_id) {
                    Option::Some(_) => true,
                    Option::None => false,
                };
                let mentioned = match &cache.current_user {
                    Option::Some(u) => find_id(&d.mention_ids, u.id),
                    Option::None => false,
                };
                let own = match &cache.current_user {
                    Option::Some(u) => d.author.id == u.id,
                    Option::None => false,
                };
                if own {
                    out.push(String::from_str("self_msg"));
                    out.push(String::from_str("notify_none"));
                } else {
                    if mentioned {
                        out.push(String::from_str("notify_highlight"));
                    }
                    if private {
                        out.push(String::from_str("notify_private"));
                    }
                    if !(mentioned || private) {
                        out.push(String::from_str("notify_message"));
                    }
                }
            },
            WeecordMessage::LocalEcho { .. } => {
                out.push(String::from_str("no_log"));
                out.push(String::from_str("local_echo"));
                out.push(String::from_str("notify_none"));
            },
            WeecordMessage::Notification { mention, private, .. } => {
                if *private {
                    out.push(String::from_str("notify_private"));
                } else if *mention {
                    out.push(String::from_str("notify_highlight"));
                } else {
                    out.push(String::from_str("notify_message"));
                }
            },
        }
        proof {
            assert(out.deep_view() =~~= spec_tags(*self, *cache));
        }
        out
    }
}

} // verus!
