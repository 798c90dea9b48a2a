//! The markup walk: service markup trees folded into styled text, with
//! mention resolution against the entity cache and balanced styles by
//! construction.
use crate::cache::{
    CacheView, colorize_atoms, colorize_name, color_as_8bit, find_channel, find_emoji, find_member,
    find_role, find_user, opt_color_view, spec_color_8bit,
};
use crate::styled::{
    AtomV, Style, StyleV, StyledString, drop_text_atoms, is_balanced,
    line_views, quote_at, spec_lines, strip_count, text_of,
};
use crate::timefmt::{TimeContext, fmt_timestamp, spec_fmt_timestamp};
use crate::util::dec_str;
use vstd::prelude::*;

verus! {

/// One node of the parsed message markup.  The tokenizer that turns raw
/// text into this tree is an external collaborator; this core owns only
/// the walk of the tree into styled output.
pub enum MarkdownNode {
    Bold(Vec<MarkdownNode>),
    Italic(Vec<MarkdownNode>),
    Underline(Vec<MarkdownNode>),
    Strikethrough(Vec<MarkdownNode>),
    Spoiler(Vec<MarkdownNode>),
    Text(String),
    InlineCode(String),
    Code(String, String),
    BlockQuote(Vec<MarkdownNode>),
    SingleBlockQuote(Vec<MarkdownNode>),
    UserMention(u64),
    ChannelMention(u64),
    RoleMention(u64),
    Emoji(String, u64),
    Timestamp(i64, Option<char>),
}

/// The lines of a block quote, folded behind the quote bar.
pub open spec fn spec_fold_lines(ls: Seq<Seq<AtomV>>, sep: Seq<char>) -> Seq<AtomV>
    decreases ls.len(),
{
    if ls.len() == 0 {
        Seq::<AtomV>::empty()
    } else if ls.len() == 1 {
        seq![AtomV::Text(sep)] + ls.first()
    } else {
        seq![AtomV::Text(sep)] + ls.first() + seq![AtomV::Text("\n"@)] + spec_fold_lines(
            ls.drop_first(),
            sep,
        )
    }
}

/// Fold lines into one styled string: each line is prefixed with the
/// separator, and lines are joined with newlines.
pub fn fold_lines(lines: Vec<StyledString>, sep: &str) -> (r: StyledString)
    ensures
        r@ == spec_fold_lines(line_views(lines@), sep@),
{
    let mut lines = lines;
    let mut out = StyledString::new();
    let ghost whole = line_views(lines@);
    proof {
        assert(out@ + spec_fold_lines(line_views(lines@), sep@) =~= spec_fold_lines(whole, sep@));
    }
    while lines.len() > 0
        invariant
            spec_fold_lines(whole, sep@) == out@ + spec_fold_lines(line_views(lines@), sep@),
        decreases lines.len(),
    {
        let ghost pre = line_views(lines@);
        let ghost pre_out = out@;
        let line = lines.remove(0);
        proof {
            assert(line@ == pre.first());
            assert(line_views(lines@) =~~= pre.drop_first());
        }
        out.push_str(sep);
        out.append(line);
        if lines.len() > 0 {
            out.push_str("\n");
            proof {
                assert(pre.len() >= 2);
                assert(pre_out + spec_fold_lines(pre, sep@) =~= out@ + spec_fold_lines(
                    pre.drop_first(),
                    sep@,
                ));
            }
        } else {
            proof {
                assert(pre.len() == 1);
                assert(spec_fold_lines(pre.drop_first(), sep@) =~= Seq::<AtomV>::empty());
                assert(pre_out + spec_fold_lines(pre, sep@) =~= out@);
                assert(out@ + spec_fold_lines(line_views(lines@), sep@) =~= out@);
            }
        }
    }
    proof {
        assert(line_views(lines@).len() == 0);
        assert(spec_fold_lines(line_views(lines@), sep@) =~= Seq::<AtomV>::empty());
        assert(out@ + Seq::<AtomV>::empty() =~= out@);
    }
    out
}

/// Fold lines behind the block-quote bar.
pub fn format_block_quote(lines: Vec<StyledString>) -> (r: StyledString)
    ensures
        r@ == spec_fold_lines(line_views(lines@), "\u{258e}"@),
{
    fold_lines(lines, "\u{258e}")
}

/// The quote stripper: everything through the first `"> "` of the literal
/// text is removed, styles are kept as they stand.
pub open spec fn spec_strip_bracket(atoms: Seq<AtomV>) -> Seq<AtomV> {
    drop_text_atoms(atoms, strip_count(text_of(atoms)))
}

/// Remove the leading quote bracket of one quoted line, keeping its styles.
pub fn strip_leading_bracket(line: StyledString) -> (r: StyledString)
    ensures
        r@ == spec_strip_bracket(line@),
{
    let t = line.text();
    let ts = t.as_str();
    let n = ts.unicode_len();
    let mut j: usize = 0;
    while n >= 1 && j < n - 1
        invariant
            n == t@.len(),
            ts@ == t@,
            j <= n,
            t@ == text_of(line@),
            forall|q: int| 0 <= q < j ==> !quote_at(t@, q),
        decreases n - j,
    {
        if ts.get_char(j) == '>' && ts.get_char(j + 1) == ' ' {
            proof {
                assert(quote_at(t@, j as int));
                crate::styled::lemma_find_quote_prefix(t@, j as int);
                assert(strip_count(text_of(line@)) == j + 2);
            }
            return line.skip_chars(j + 2);
        }
        proof {
            assert(!quote_at(t@, j as int));
        }
        j = j + 1;
    }
    proof {
        assert(forall|q: int| 0 <= q < j ==> !quote_at(t@, q));
        assert(j as int + 2 > t@.len());
        crate::styled::lemma_find_quote_prefix(t@, j as int);
        assert(strip_count(text_of(line@)) == 0);
    }
    line.skip_chars(0)
}

/// Everything the walk consults besides the tree itself: the cache
/// snapshot, the guild scope, the two display flags and the clock readings.
pub struct WalkCtx {
    pub cache: CacheView,
    pub gid: Option<u64>,
    pub show_fmt: bool,
    pub show_unknown: bool,
    pub tc: TimeContext,
}

/// The delimiter text, only when formatting characters are shown.
pub open spec fn opt_text(cond: bool, s: Seq<char>) -> Seq<AtomV> {
    if cond {
        seq![AtomV::Text(s)]
    } else {
        Seq::<AtomV>::empty()
    }
}

/// A span: push a style, the optional delimiters and the children, pop it.
pub open spec fn wrap_style(sv: StyleV, delim: Seq<char>, show: bool, inner: Seq<AtomV>) -> Seq<
    AtomV,
> {
    seq![AtomV::Push(sv)] + opt_text(show, delim) + inner + opt_text(show, delim) + seq![
        AtomV::Pop(sv),
    ]
}

pub open spec fn inline_code_atoms(s: Seq<char>, show: bool) -> Seq<AtomV> {
    seq![AtomV::Push(StyleV::Color("8"@)), AtomV::Push(StyleV::Bold)] + opt_text(show, "`"@)
        + seq![AtomV::Text(s)] + opt_text(show, "`"@) + seq![
        AtomV::Pop(StyleV::Bold),
        AtomV::Pop(StyleV::Color("8"@)),
    ]
}

pub open spec fn code_atoms(lang: Seq<char>, txt: Seq<char>, show: bool) -> Seq<AtomV> {
    seq![AtomV::Push(StyleV::Reset)] + (if show {
        seq![AtomV::Text("```"@), AtomV::Text(lang)]
    } else {
        Seq::<AtomV>::empty()
    }) + seq![
        AtomV::Text("\n"@),
        AtomV::Push(StyleV::Color("8"@)),
        AtomV::Push(StyleV::Bold),
        AtomV::Text(txt),
        AtomV::Pop(StyleV::Bold),
        AtomV::Pop(StyleV::Color("8"@)),
    ] + opt_text(show, "\n```"@) + seq![AtomV::Pop(StyleV::Reset)]
}

/// Each line of a single block quote with its leading bracket stripped.
pub open spec fn stripped_lines(atoms: Seq<AtomV>) -> Seq<Seq<AtomV>> {
    let ls = spec_lines(atoms);
    Seq::new(ls.len(), |i: int| spec_strip_bracket(ls[i]))
}

/// How a user mention resolves: the guild member where a guild scope is
/// known, else the global user record, else nothing.
pub open spec fn user_resolution(ctx: WalkCtx, id: u64) -> Option<(Seq<char>, Option<Seq<char>>)> {
    match ctx.gid {
        Option::Some(g) => match find_member(ctx.cache.members@, g, id) {
            Option::Some(m) => Some((m.name@, opt_color_view(m.color))),
            Option::None => None,
        },
        Option::None => match find_user(ctx.cache.users@, id) {
            Option::Some(u) => Some((u.name@, opt_color_view(u.color))),
            Option::None => None,
        },
    }
}

pub open spec fn user_mention_atoms(ctx: WalkCtx, id: u64) -> Seq<AtomV> {
    match user_resolution(ctx, id) {
        Option::Some(r) => colorize_atoms(r.0, r.1, true),
        Option::None => if ctx.show_unknown {
            seq![AtomV::Text("@"@ + dec_str(id as nat))]
        } else {
            seq![AtomV::Text("@unknown-user"@)]
        },
    }
}

pub open spec fn channel_mention_atoms(ctx: WalkCtx, id: u64) -> Seq<AtomV> {
    match find_channel(ctx.cache.channels@, id) {
        Option::Some(c) => seq![AtomV::Text("#"@ + c.name@)],
        Option::None => seq![AtomV::Text("#unknown-channel"@)],
    }
}

pub open spec fn role_mention_atoms(ctx: WalkCtx, id: u64) -> Seq<AtomV> {
    match find_role(ctx.cache.roles@, id) {
        Option::Some(role) => {
            let color = dec_str(spec_color_8bit(role.color) as nat);
            seq![
                AtomV::Push(StyleV::Color(color)),
                AtomV::Text("@"@ + role.name@),
                AtomV::Pop(StyleV::Color(color)),
            ]
        },
        Option::None => seq![AtomV::Text("@unknown-role"@)],
    }
}

pub open spec fn emoji_atoms(ctx: WalkCtx, id: u64) -> Seq<AtomV> {
    match find_emoji(ctx.cache.emojis@, id) {
        Option::Some(e) => seq![AtomV::Text(":"@ + e.name@ + ":"@)],
        Option::None => seq![AtomV::Text(":unknown-emoji:"@)],
    }
}

pub open spec fn timestamp_atoms(ts: i64, style: Option<char>, ctx: WalkCtx) -> Seq<AtomV> {
    let st = match style {
        Option::Some(c) => c,
        Option::None => 'f',
    };
    opt_text(ctx.show_fmt, "<"@) + seq![AtomV::Text(spec_fmt_timestamp(ts, st, ctx.tc))]
        + opt_text(ctx.show_fmt, ">"@)
}

/// The styled atoms of one markup node.
pub open spec fn walk_node(node: MarkdownNode, ctx: WalkCtx) -> Seq<AtomV>
    decreases node,
{
    match node {
        MarkdownNode::Bold(ch) => wrap_style(StyleV::Bold, "**"@, ctx.show_fmt, walk_list(ch@, 0, ctx)),
        MarkdownNode::Italic(ch) => wrap_style(StyleV::Italic, "_"@, ctx.show_fmt, walk_list(ch@, 0, ctx)),
        MarkdownNode::Underline(ch) => wrap_style(
            StyleV::Underline,
            "__"@,
            ctx.show_fmt,
            walk_list(ch@, 0, ctx),
        ),
        MarkdownNode::Strikethrough(ch) => wrap_style(
            StyleV::Color("red"@),
            "~~"@,
            ctx.show_fmt,
            walk_list(ch@, 0, ctx),
        ),
        MarkdownNode::Spoiler(ch) => wrap_style(StyleV::Italic, "||"@, true, walk_list(ch@, 0, ctx)),
        MarkdownNode::Text(s) => seq![AtomV::Text(s@)],
        MarkdownNode::InlineCode(s) => inline_code_atoms(s@, ctx.show_fmt),
        MarkdownNode::Code(lang, txt) => code_atoms(lang@, txt@, ctx.show_fmt),
        MarkdownNode::BlockQuote(ch) => spec_fold_lines(
            spec_lines(walk_list(ch@, 0, ctx)),
            "\u{258e}"@,
        ),
        MarkdownNode::SingleBlockQuote(ch) => spec_fold_lines(
            stripped_lines(walk_list(ch@, 0, ctx)),
            "\u{258e}"@,
        ),
        MarkdownNode::UserMention(id) => user_mention_atoms(ctx, id),
        MarkdownNode::ChannelMention(id) => channel_mention_atoms(ctx, id),
        MarkdownNode::RoleMention(id) => role_mention_atoms(ctx, id),
        MarkdownNode::Emoji(name, id) => emoji_atoms(ctx, id),
        MarkdownNode::Timestamp(ts, style) => timestamp_atoms(ts, style, ctx),
    }
}

/// The styled atoms of the nodes from index `i` on.
pub open spec fn walk_list(nodes: Seq<MarkdownNode>, i: int, ctx: WalkCtx) -> Seq<AtomV>
    decreases nodes, nodes.len() - i,
{
    if i < 0 || i >= nodes.len() {
        Seq::<AtomV>::empty()
    } else {
        walk_node(nodes[i], ctx) + walk_list(nodes, i + 1, ctx)
    }
}

/// The user ids of the mentions one node fails to resolve, in walk order.
pub open spec fn unk_node(node: MarkdownNode, ctx: WalkCtx) -> Seq<u64>
    decreases node,
{
    match node {
        MarkdownNode::Bold(ch) => unk_list(ch@, 0, ctx),
        MarkdownNode::Italic(ch) => unk_list(ch@, 0, ctx),
        MarkdownNode::Underline(ch) => unk_list(ch@, 0, ctx),
        MarkdownNode::Strikethrough(ch) => unk_list(ch@, 0, ctx),
        MarkdownNode::Spoiler(ch) => unk_list(ch@, 0, ctx),
        MarkdownNode::BlockQuote(ch) => unk_list(ch@, 0, ctx),
        MarkdownNode::SingleBlockQuote(ch) => unk_list(ch@, 0, ctx),
        MarkdownNode::UserMention(id) => if user_resolution(ctx, id) is Some {
            Seq::<u64>::empty()
        } else {
            seq![id]
        },
        _ => Seq::<u64>::empty(),
    }
}

pub open spec fn unk_list(nodes: Seq<MarkdownNode>, i: int, ctx: WalkCtx) -> Seq<u64>
    decreases nodes, nodes.len() - i,
{
    if i < 0 || i >= nodes.len() {
        Seq::<u64>::empty()
    } else {
        unk_node(nodes[i], ctx) + unk_list(nodes, i + 1, ctx)
    }
}

/// A lone literal is balanced.
pub proof fn lemma_balanced_text(t: Seq<char>)
    ensures
        is_balanced(seq![AtomV::Text(t)]),
{
    crate::styled::lemma_atom_one(AtomV::Text(t), Seq::<StyleV>::empty());
}

pub proof fn lemma_balanced_opt(cond: bool, t: Seq<char>)
    ensures
        is_balanced(opt_text(cond, t)),
{
    if cond {
        lemma_balanced_text(t);
    }
}

/// A span around balanced children is balanced.
pub proof fn lemma_wrap_style_balanced(sv: StyleV, delim: Seq<char>, show: bool, inner: Seq<AtomV>)
    requires
        is_balanced(inner),
    ensures
        is_balanced(wrap_style(sv, delim, show, inner)),
{
    lemma_balanced_opt(show, delim);
    crate::styled::lemma_balanced_concat(opt_text(show, delim), inner);
    crate::styled::lemma_balanced_concat(opt_text(show, delim) + inner, opt_text(show, delim));
    let mid = opt_text(show, delim) + inner + opt_text(show, delim);
    crate::styled::lemma_balanced_wrap(sv, mid);
    assert(wrap_style(sv, delim, show, inner) =~= seq![AtomV::Push(sv)] + mid + seq![
        AtomV::Pop(sv),
    ]);
}

pub proof fn lemma_inline_code_balanced(s: Seq<char>, show: bool)
    ensures
        is_balanced(inline_code_atoms(s, show)),
{
    let mid = opt_text(show, "`"@) + seq![AtomV::Text(s)] + opt_text(show, "`"@);
    lemma_balanced_opt(show, "`"@);
    lemma_balanced_text(s);
    crate::styled::lemma_balanced_concat(opt_text(show, "`"@), seq![AtomV::Text(s)]);
    crate::styled::lemma_balanced_concat(
        opt_text(show, "`"@) + seq![AtomV::Text(s)],
        opt_text(show, "`"@),
    );
    crate::styled::lemma_balanced_wrap(StyleV::Bold, mid);
    let bolded = seq![AtomV::Push(StyleV::Bold)] + mid + seq![AtomV::Pop(StyleV::Bold)];
    crate::styled::lemma_balanced_wrap(StyleV::Color("8"@), bolded);
    assert(inline_code_atoms(s, show) =~= seq![AtomV::Push(StyleV::Color("8"@))] + bolded + seq![
        AtomV::Pop(StyleV::Color("8"@)),
    ]);
}

pub proof fn lemma_code_balanced(lang: Seq<char>, txt: Seq<char>, show: bool)
    ensures
        is_balanced(code_atoms(lang, txt, show)),
{
    lemma_balanced_text(txt);
    crate::styled::lemma_balanced_wrap(StyleV::Bold, seq![AtomV::Text(txt)]);
    let bolded = seq![AtomV::Push(StyleV::Bold)] + seq![AtomV::Text(txt)] + seq![
        AtomV::Pop(StyleV::Bold),
    ];
    crate::styled::lemma_balanced_wrap(StyleV::Color("8"@), bolded);
    let colored = seq![AtomV::Push(StyleV::Color("8"@))] + bolded + seq![
        AtomV::Pop(StyleV::Color("8"@)),
    ];
    let head = if show {
        seq![AtomV::Text("```"@), AtomV::Text(lang)]
    } else {
        Seq::<AtomV>::empty()
    };
    assert(is_balanced(head)) by {
        if show {
            lemma_balanced_text("```"@);
            lemma_balanced_text(lang);
            crate::styled::lemma_balanced_concat(seq![AtomV::Text("```"@)], seq![AtomV::Text(lang)]);
            assert(head =~= seq![AtomV::Text("```"@)] + seq![AtomV::Text(lang)]);
        }
    }
    lemma_balanced_text("\n"@);
    lemma_balanced_opt(show, "\n```"@);
    crate::styled::lemma_balanced_concat(head, seq![AtomV::Text("\n"@)]);
    crate::styled::lemma_balanced_concat(head + seq![AtomV::Text("\n"@)], colored);
    crate::styled::lemma_balanced_concat(
        head + seq![AtomV::Text("\n"@)] + colored,
        opt_text(show, "\n```"@),
    );
    let mid = head + seq![AtomV::Text("\n"@)] + colored + opt_text(show, "\n```"@);
    crate::styled::lemma_balanced_wrap(StyleV::Reset, mid);
    assert(code_atoms(lang, txt, show) =~= seq![AtomV::Push(StyleV::Reset)] + mid + seq![
        AtomV::Pop(StyleV::Reset),
    ]);
}

pub proof fn lemma_colorize_balanced(name: Seq<char>, color: Option<Seq<char>>, at: bool)
    ensures
        is_balanced(colorize_atoms(name, color, at)),
{
    let txt = if at {
        "@"@ + name
    } else {
        name
    };
    lemma_balanced_text(txt);
    match color {
        Option::Some(c) => {
            crate::styled::lemma_balanced_wrap(StyleV::Color(c), seq![AtomV::Text(txt)]);
            assert(colorize_atoms(name, color, at) =~= seq![AtomV::Push(StyleV::Color(c))] + seq![
                AtomV::Text(txt),
            ] + seq![AtomV::Pop(StyleV::Color(c))]);
        },
        Option::None => {},
    }
}

/// Folded lines are balanced when every line is.
pub proof fn lemma_fold_lines_balanced(ls: Seq<Seq<AtomV>>, sep: Seq<char>)
    requires
        forall|i: int| 0 <= i < ls.len() ==> is_balanced(#[trigger] ls[i]),
    ensures
        is_balanced(spec_fold_lines(ls, sep)),
    decreases ls.len(),
{
    lemma_balanced_text(sep);
    if ls.len() == 0 {
    } else if ls.len() == 1 {
        crate::styled::lemma_balanced_concat(seq![AtomV::Text(sep)], ls.first());
    } else {
        lemma_fold_lines_balanced(ls.drop_first(), sep);
        lemma_balanced_text("\n"@);
        crate::styled::lemma_balanced_concat(seq![AtomV::Text(sep)], ls.first());
        crate::styled::lemma_balanced_concat(
            seq![AtomV::Text(sep)] + ls.first(),
            seq![AtomV::Text("\n"@)],
        );
        crate::styled::lemma_balanced_concat(
            seq![AtomV::Text(sep)] + ls.first() + seq![AtomV::Text("\n"@)],
            spec_fold_lines(ls.drop_first(), sep),
        );
    }
}

/// The atoms of one node are balanced.
pub proof fn lemma_walk_node_balanced(node: MarkdownNode, ctx: WalkCtx)
    ensures
        is_balanced(walk_node(node, ctx)),
    decreases node,
{
    match node {
        MarkdownNode::Bold(ch) => {
            lemma_walk_list_balanced(ch@, 0, ctx);
            lemma_wrap_style_balanced(StyleV::Bold, "**"@, ctx.show_fmt, walk_list(ch@, 0, ctx));
        },
        MarkdownNode::Italic(ch) => {
            lemma_walk_list_balanced(ch@, 0, ctx);
            lemma_wrap_style_balanced(StyleV::Italic, "_"@, ctx.show_fmt, walk_list(ch@, 0, ctx));
        },
        MarkdownNode::Underline(ch) => {
            lemma_walk_list_balanced(ch@, 0, ctx);
            lemma_wrap_style_balanced(
                StyleV::Underline,
                "__"@,
                ctx.show_fmt,
                walk_list(ch@, 0, ctx),
            );
        },
        MarkdownNode::Strikethrough(ch) => {
            lemma_walk_list_balanced(ch@, 0, ctx);
            lemma_wrap_style_balanced(
                StyleV::Color("red"@),
                "~~"@,
                ctx.show_fmt,
                walk_list(ch@, 0, ctx),
            );
        },
        MarkdownNode::Spoiler(ch) => {
            lemma_walk_list_balanced(ch@, 0, ctx);
            lemma_wrap_style_balanced(StyleV::Italic, "||"@, true, walk_list(ch@, 0, ctx));
        },
        MarkdownNode::Text(s) => {
            lemma_balanced_text(s@);
        },
        MarkdownNode::InlineCode(s) => {
            lemma_inline_code_balanced(s@, ctx.show_fmt);
        },
        MarkdownNode::Code(lang, txt) => {
            lemma_code_balanced(lang@, txt@, ctx.show_fmt);
        },
        MarkdownNode::BlockQuote(ch) => {
            lemma_walk_list_balanced(ch@, 0, ctx);
            crate::styled::lemma_spec_lines_balanced(walk_list(ch@, 0, ctx));
            lemma_fold_lines_balanced(spec_lines(walk_list(ch@, 0, ctx)), "\u{258e}"@);
        },
        MarkdownNode::SingleBlockQuote(ch) => {
            lemma_walk_list_balanced(ch@, 0, ctx);
            let inner = walk_list(ch@, 0, ctx);
            crate::styled::lemma_spec_lines_balanced(inner);
            let ls = stripped_lines(inner);
            assert forall|i: int| 0 <= i < ls.len() implies is_balanced(#[trigger] ls[i]) by {
                let orig = spec_lines(inner)[i];
                crate::styled::lemma_drop_text_nest(
                    orig,
                    strip_count(text_of(orig)),
                    Seq::<StyleV>::empty(),
                );
            }
            lemma_fold_lines_balanced(ls, "\u{258e}"@);
        },
        MarkdownNode::UserMention(id) => {
            match user_resolution(ctx, id) {
                Option::Some(r) => {
                    lemma_colorize_balanced(r.0, r.1, true);
                },
                Option::None => {
                    if ctx.show_unknown {
                        lemma_balanced_text("@"@ + dec_str(id as nat));
                    } else {
                        lemma_balanced_text("@unknown-user"@);
                    }
                },
            }
        },
        MarkdownNode::ChannelMention(id) => {
            match find_channel(ctx.cache.channels@, id) {
                Option::Some(c) => {
                    lemma_balanced_text("#"@ + c.name@);
                },
                Option::None => {
                    lemma_balanced_text("#unknown-channel"@);
                },
            }
        },
        MarkdownNode::RoleMention(id) => {
            match find_role(ctx.cache.roles@, id) {
                Option::Some(role) => {
                    let color = dec_str(spec_color_8bit(role.color) as nat);
                    lemma_balanced_text("@"@ + role.name@);
                    crate::styled::lemma_balanced_wrap(
                        StyleV::Color(color),
                        seq![AtomV::Text("@"@ + role.name@)],
                    );
                    assert(role_mention_atoms(ctx, id) =~= seq![AtomV::Push(StyleV::Color(color))]
                        + seq![AtomV::Text("@"@ + role.name@)] + seq![
                        AtomV::Pop(StyleV::Color(color)),
                    ]);
                },
                Option::None => {
                    lemma_balanced_text("@unknown-role"@);
                },
            }
        },
        MarkdownNode::Emoji(name, id) => {
            match find_emoji(ctx.cache.emojis@, id) {
                Option::Some(e) => {
                    lemma_balanced_text(":"@ + e.name@ + ":"@);
                },
                Option::None => {
                    lemma_balanced_text(":unknown-emoji:"@);
                },
            }
        },
        MarkdownNode::Timestamp(ts, style) => {
            let st = match style {
                Option::Some(c) => c,
                Option::None => 'f',
            };
            lemma_balanced_opt(ctx.show_fmt, "<"@);
            lemma_balanced_text(spec_fmt_timestamp(ts, st, ctx.tc));
            lemma_balanced_opt(ctx.show_fmt, ">"@);
            crate::styled::lemma_balanced_concat(
                opt_text(ctx.show_fmt, "<"@),
                seq![AtomV::Text(spec_fmt_timestamp(ts, st, ctx.tc))],
            );
            crate::styled::lemma_balanced_concat(
                opt_text(ctx.show_fmt, "<"@) + seq![
                    AtomV::Text(spec_fmt_timestamp(ts, st, ctx.tc)),
                ],
                opt_text(ctx.show_fmt, ">"@),
            );
        },
    }
}

/// The atoms of a node list are balanced.
pub proof fn lemma_walk_list_balanced(nodes: Seq<MarkdownNode>, i: int, ctx: WalkCtx)
    ensures
        is_balanced(walk_list(nodes, i, ctx)),
    decreases nodes, nodes.len() - i,
{
    if i < 0 || i >= nodes.len() {
    } else {
        lemma_walk_node_balanced(nodes[i], ctx);
        lemma_walk_list_balanced(nodes, i + 1, ctx);
        crate::styled::lemma_balanced_concat(walk_node(nodes[i], ctx), walk_list(nodes, i + 1, ctx));
    }
}

/// Bundle the walk's parameters.
pub open spec fn mk_ctx(
    cache: CacheView,
    gid: Option<u64>,
    show_fmt: bool,
    show_unknown: bool,
    tc: TimeContext,
) -> WalkCtx {
    WalkCtx { cache, gid, show_fmt, show_unknown, tc }
}

/// A style span around already-rendered children.
fn wrap_styled(style: Style, delim: &str, show: bool, inner: StyledString) -> (r: StyledString)
    ensures
        r@ == wrap_style(style@, delim@, show, inner@),
{
    let mut out = StyledString::new();
    let s2 = style.clone();
    out.push_style(style);
    if show {
        out.push_str(delim);
    }
    out.absorb(inner);
    if show {
        out.push_str(delim);
    }
    out.pop_style(s2);
    proof {
        assert(out@ =~= wrap_style(s2@, delim@, show, inner@));
    }
    out
}

/// Render one markup node.
fn discord_to_weechat_reducer(
    node: &MarkdownNode,
    cache: &CacheView,
    guild_id: Option<u64>,
    show_fmt: bool,
    show_unknown: bool,
    tc: &TimeContext,
    unknown_members: &mut Vec<u64>,
) -> (r: StyledString)
    ensures
        r@ == walk_node(*node, mk_ctx(*cache, guild_id, show_fmt, show_unknown, *tc)),
        final(unknown_members)@ == old(unknown_members)@ + unk_node(
            *node,
            mk_ctx(*cache, guild_id, show_fmt, show_unknown, *tc),
        ),
    decreases node,
{
    let ghost ctx = mk_ctx(*cache, guild_id, show_fmt, show_unknown, *tc);
    let mut out = StyledString::new();
    match node {
        MarkdownNode::Bold(children) => {
            let inner = collect_children(
                children,
                cache,
                guild_id,
                show_fmt,
                show_unknown,
                tc,
                unknown_members,
            );
            return wrap_styled(Style::Bold, "**", show_fmt, inner);
        },
        MarkdownNode::Italic(children) => {
            let inner = collect_children(
                children,
                cache,
                guild_id,
                show_fmt,
                show_unknown,
                tc,
                unknown_members,
            );
            return wrap_styled(Style::Italic, "_", show_fmt, inner);
        },
        MarkdownNode::Underline(children) => {
            let inner = collect_children(
                children,
                cache,
                guild_id,
                show_fmt,
                show_unknown,
                tc,
                unknown_members,
            );
            return wrap_styled(Style::Underline, "__", show_fmt, inner);
        },
        MarkdownNode::Strikethrough(children) => {
            let inner = collect_children(
                children,
                cache,
                guild_id,
                show_fmt,
                show_unknown,
                tc,
                unknown_members,
            );
            return wrap_styled(Style::color("red"), "~~", show_fmt, inner);
        },
        MarkdownNode::Spoiler(children) => {
            let inner = collect_children(
                children,
                cache,
                guild_id,
                show_fmt,
                show_unknown,
                tc,
                unknown_members,
            );
            return wrap_styled(Style::Italic, "||", true, inner);
        },
        MarkdownNode::Text(s) => {
            out.push_str(s.as_str());
            proof {
                assert(out@ =~= walk_node(*node, ctx));
                assert(unknown_members@ =~= unknown_members@ + unk_node(*node, ctx));
            }
        },
        MarkdownNode::InlineCode(s) => {
            out.push_style(Style::color("8"));
            out.push_style(Style::Bold);
            if show_fmt {
                out.push_str("`");
            }
            out.push_str(s.as_str());
            if show_fmt {
                out.push_str("`");
            }
            out.pop_style(Style::Bold);
            out.pop_style(Style::color("8"));
            proof {
                assert(out@ =~= inline_code_atoms(s@, show_fmt));
                assert(unknown_members@ =~= unknown_members@ + unk_node(*node, ctx));
            }
        },
        MarkdownNode::Code(lang, text) => {
            out.push_style(Style::Reset);
            if show_fmt {
                out.push_str("```");
                out.push_str(lang.as_str());
            }
            out.push_str("\n");
            out.push_style(Style::color("8"));
            out.push_style(Style::Bold);
            out.push_str(text.as_str());
            out.pop_style(Style::Bold);
            out.pop_style(Style::color("8"));
            if show_fmt {
                out.push_str("\n```");
            }
            out.pop_style(Style::Reset);
            proof {
                assert(out@ =~= code_atoms(lang@, text@, show_fmt));
                assert(unknown_members@ =~= unknown_members@ + unk_node(*node, ctx));
            }
        },
        MarkdownNode::BlockQuote(children) => {
            let inner = collect_children(
                children,
                cache,
                guild_id,
                show_fmt,
                show_unknown,
                tc,
                unknown_members,
            );
            let ls = inner.lines();
            return format_block_quote(ls);
        },
        MarkdownNode::SingleBlockQuote(children) => {
            let inner = collect_children(
                children,
                cache,
                guild_id,
                show_fmt,
                show_unknown,
                tc,
                unknown_members,
            );
            let mut ls = inner.lines();
            let ghost orig = line_views(ls@);
            let total = ls.len();
            proof {
                assert(orig.len() == total as int);
            }
            let mut stripped: Vec<StyledString> = Vec::new();
            let mut k: usize = 0;
            while ls.len() > 0
                invariant
                    k as int + ls@.len() == orig.len(),
                    orig.len() <= usize::MAX,
                    stripped@.len() == k,
                    forall|q: int|
                        0 <= q < k ==> line_views(stripped@)[q] == spec_strip_bracket(orig[q]),
                    forall|q: int| 0 <= q < ls@.len() ==> line_views(ls@)[q] == orig[k + q],
                decreases ls@.len(),
            {
                let ghost pre_ls = ls@;
                let ghost pre_stripped = stripped@;
                let line = ls.remove(0);
                let piece = strip_leading_bracket(line);
                stripped.push(piece);
                proof {
                    assert(line_views(pre_ls)[0] == orig[k as int + 0]);
                    assert(line_views(pre_ls)[0] == pre_ls[0]@);
                    assert(line@ == orig[k as int]);
                    let ghost k1 = k as int + 1;
                    assert forall|q: int|
                        0 <= q < ls@.len() implies line_views(ls@)[q] == orig[k1 + q] by {
                        assert(ls@ =~= pre_ls.subrange(1, pre_ls.len() as int));
                        assert(ls@[q] == pre_ls[q + 1]);
                        assert(line_views(pre_ls)[q + 1] == pre_ls[q + 1]@);
                        assert(line_views(ls@)[q] == ls@[q]@);
                    }
                    assert forall|q: int|
                        0 <= q < k as int + 1 implies line_views(stripped@)[q]
                            == spec_strip_bracket(orig[q]) by {
                        if q < k as int {
                            assert(stripped@[q] == pre_stripped[q]);
                            assert(line_views(pre_stripped)[q] == pre_stripped[q]@);
                        } else {
                            assert(stripped@[q] == piece);
                        }
                        assert(line_views(stripped@)[q] == stripped@[q]@);
                    }
                }
                k = k + 1;
            }
            proof {
                assert(line_views(stripped@) =~~= stripped_lines(inner@));
            }
            return format_block_quote(stripped);
        },
        MarkdownNode::UserMention(id) => {
            let mut resolved: Option<StyledString> = None;
            match guild_id {
                Option::Some(g) => {
                    match cache.member(g, *id) {
                        Option::Some(m) => {
                            resolved = Some(colorize_name(&m.name, &m.color, true));
                        },
                        Option::None => {},
                    }
                },
                Option::None => {
                    match cache.user(*id) {
                        Option::Some(u) => {
                            resolved = Some(colorize_name(&u.name, &u.color, true));
                        },
                        Option::None => {},
                    }
                },
            }
            match resolved {
                Option::Some(ss) => {
                    proof {
                        assert(unknown_members@ =~= unknown_members@ + unk_node(*node, ctx));
                    }
                    return ss;
                },
                Option::None => {
                    unknown_members.push(*id);
                    proof {
                        assert(unknown_members@ =~= old(unknown_members)@ + seq![*id]);
                    }
                    if show_unknown {
                        let mut t = String::new();
                        t.append("@");
                        crate::util::push_u64_dec(&mut t, *id);
                        out.push_str(t.as_str());
                        proof {
                            assert(t@ =~= "@"@ + dec_str(*id as nat));
                            assert(out@ =~= user_mention_atoms(ctx, *id));
                        }
                    } else {
                        out.push_str("@unknown-user");
                        proof {
                            assert(out@ =~= user_mention_atoms(ctx, *id));
                        }
                    }
                },
            }
        },
        MarkdownNode::ChannelMention(id) => {
            match cache.channel(*id) {
                Option::Some(c) => {
                    let mut t = String::new();
                    t.append("#");
                    t.append(c.name.as_str());
                    out.push_str(t.as_str());
                    proof {
                        assert(t@ =~= "#"@ + c.name@);
                    }
                },
                Option::None => {
                    out.push_str("#unknown-channel");
                },
            }
            proof {
                assert(out@ =~= channel_mention_atoms(ctx, *id));
                assert(unknown_members@ =~= unknown_members@ + unk_node(*node, ctx));
            }
        },
        MarkdownNode::RoleMention(id) => {
            match cache.role(*id) {
                Option::Some(role) => {
                    let c8 = color_as_8bit(role.color);
                    let color_word = crate::util::u64_dec(c8);
                    let style = Style::Color(color_word);
                    let mut t = String::new();
                    t.append("@");
                    t.append(role.name.as_str());
                    let style2 = style.clone();
                    out.push_style(style);
                    out.push_str(t.as_str());
                    out.pop_style(style2);
                    proof {
                        assert(t@ =~= "@"@ + role.name@);
                        assert(out@ =~= role_mention_atoms(ctx, *id));
                    }
                },
                Option::None => {
                    out.push_str("@unknown-role");
                    proof {
                        assert(out@ =~= role_mention_atoms(ctx, *id));
                    }
                },
            }
            proof {
                assert(unknown_members@ =~= unknown_members@ + unk_node(*node, ctx));
            }
        },
        MarkdownNode::Emoji(name, id) => {
            match cache.emoji(*id) {
                Option::Some(e) => {
                    let mut t = String::new();
                    t.append(":");
                    t.append(e.name.as_str());
                    t.append(":");
                    out.push_str(t.as_str());
                    proof {
                        assert(t@ =~= ":"@ + e.name@ + ":"@);
                    }
                },
                Option::None => {
                    out.push_str(":unknown-emoji:");
                },
            }
            proof {
                assert(out@ =~= emoji_atoms(ctx, *id));
                assert(unknown_members@ =~= unknown_members@ + unk_node(*node, ctx));
            }
        },
        MarkdownNode::Timestamp(ts, style) => {
            let st: char = match style {
                Option::Some(c) => *c,
                Option::None => 'f',
            };
            let body = fmt_timestamp(*ts, st, tc);
            if show_fmt {
                out.push_str("<");
            }
            out.push_str(body.as_str());
            if show_fmt {
                out.push_str(">");
            }
            proof {
                assert(out@ =~= timestamp_atoms(*ts, *style, ctx));
                assert(unknown_members@ =~= unknown_members@ + unk_node(*node, ctx));
            }
        },
    }
    out
}

/// Render a list of markup nodes in order.
fn collect_children(
    nodes: &Vec<MarkdownNode>,
    cache: &CacheView,
    guild_id: Option<u64>,
    show_fmt: bool,
    show_unknown: bool,
    tc: &TimeContext,
    unknown_members: &mut Vec<u64>,
) -> (r: StyledString)
    ensures
        r@ == walk_list(nodes@, 0, mk_ctx(*cache, guild_id, show_fmt, show_unknown, *tc)),
        final(unknown_members)@ == old(unknown_members)@ + unk_list(
            nodes@,
            0,
            mk_ctx(*cache, guild_id, show_fmt, show_unknown, *tc),
        ),
    decreases nodes@,
{
    let ghost ctx = mk_ctx(*cache, guild_id, show_fmt, show_unknown, *tc);
    let mut out = StyledString::new();
    let n = nodes.len();
    let mut i: usize = 0;
    while i < n
        invariant
            n == nodes@.len(),
            i <= n,
            ctx == mk_ctx(*cache, guild_id, show_fmt, show_unknown, *tc),
            walk_list(nodes@, 0, ctx) == out@ + walk_list(nodes@, i as int, ctx),
            old(unknown_members)@ + unk_list(nodes@, 0, ctx) == unknown_members@ + unk_list(
                nodes@,
                i as int,
                ctx,
            ),
        decreases n - i,
    {
        let ghost pre_out = out@;
        let ghost pre_um = unknown_members@;
        let piece = discord_to_weechat_reducer(
            &nodes[i],
            cache,
            guild_id,
            show_fmt,
            show_unknown,
            tc,
            unknown_members,
        );
        out.append(piece);
        proof {
            assert(pre_out + walk_list(nodes@, i as int, ctx) =~= out@ + walk_list(
                nodes@,
                i as int + 1,
                ctx,
            ));
            assert(pre_um + unk_list(nodes@, i as int, ctx) =~= unknown_members@ + unk_list(
                nodes@,
                i as int + 1,
                ctx,
            ));
        }
        i = i + 1;
    }
    proof {
        assert(walk_list(nodes@, n as int, ctx) =~= Seq::<AtomV>::empty());
        assert(out@ + walk_list(nodes@, n as int, ctx) =~= out@);
        assert(unk_list(nodes@, n as int, ctx) =~= Seq::<u64>::empty());
        assert(unknown_members@ + unk_list(nodes@, n as int, ctx) =~= unknown_members@);
    }
    out
}

/// Render a parsed message into styled text, resolving mentions against
/// the cache snapshot and collecting the user ids that failed to resolve.
/// The result's styles are balanced.
pub fn discord_to_weechat(
    nodes: &Vec<MarkdownNode>,
    cache: &CacheView,
    guild_id: Option<u64>,
    show_formatting_chars: bool,
    show_unknown_ids: bool,
    tc: &TimeContext,
    unknown_members: &mut Vec<u64>,
) -> (r: StyledString)
    ensures
        r@ == walk_list(
            nodes@,
            0,
            mk_ctx(*cache, guild_id, show_formatting_chars, show_unknown_ids, *tc),
        ),
        final(unknown_members)@ == old(unknown_members)@ + unk_list(
            nodes@,
            0,
            mk_ctx(*cache, guild_id, show_formatting_chars, show_unknown_ids, *tc),
        ),
        is_balanced(r@),
{
    let r = collect_children(
        nodes,
        cache,
        guild_id,
        show_formatting_chars,
        show_unknown_ids,
        tc,
        unknown_members,
    );
    proof {
        lemma_walk_list_balanced(
            nodes@,
            0,
            mk_ctx(*cache, guild_id, show_formatting_chars, show_unknown_ids, *tc),
        );
    }
    r
}

} // verus!
