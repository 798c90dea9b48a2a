//! Styled text with a stack-discipline style overlay.
//!
//! A `StyledString` is a sequence of atoms: literal text, style pushes and
//! style pops.  Styles must be well nested (every pop closes the most recent
//! open push); the rendering engine builds its output so that this holds by
//! construction.  `build` flattens the atoms into the terminal escape string:
//! named styles open as `bold`/`italic`/`underline` and close as the same
//! word prefixed with `-`; colors open as their color word and close by
//! emitting `reset` followed by the open tokens of every style still active.
use vstd::prelude::*;

verus! {

/// One formatting attribute carried by a span of text.
pub enum Style {
    Bold,
    Italic,
    Underline,
    Reset,
    Color(String),
}

/// Mathematical image of a `Style`: the color name becomes a char sequence.
pub enum StyleV {
    Bold,
    Italic,
    Underline,
    Reset,
    Color(Seq<char>),
}

impl View for Style {
    type V = StyleV;

    open spec fn view(&self) -> StyleV {
        match self {
            Style::Bold => StyleV::Bold,
            Style::Italic => StyleV::Italic,
            Style::Underline => StyleV::Underline,
            Style::Reset => StyleV::Reset,
            Style::Color(c) => StyleV::Color(c@),
        }
    }
}

impl Clone for Style {
    fn clone(&self) -> (r: Self)
        ensures
            r@ == self@,
    {
        match self {
            Style::Bold => Style::Bold,
            Style::Italic => Style::Italic,
            Style::Underline => Style::Underline,
            Style::Reset => Style::Reset,
            Style::Color(c) => Style::Color(c.clone()),
        }
    }
}

impl Style {
    /// A color style from its terminal color word.
    pub fn color(s: &str) -> (r: Style)
        ensures
            r@ == StyleV::Color(s@),
    {
        Style::Color(s.to_owned())
    }
}

/// One element of a styled string.
pub enum Atom {
    Push(Style),
    Pop(Style),
    Text(String),
}

/// Mathematical image of an `Atom`.
pub enum AtomV {
    Push(StyleV),
    Pop(StyleV),
    Text(Seq<char>),
}

impl Clone for Atom {
    fn clone(&self) -> (r: Self)
        ensures
            r@ == self@,
    {
        match self {
            Atom::Push(s) => Atom::Push(s.clone()),
            Atom::Pop(s) => Atom::Pop(s.clone()),
            Atom::Text(t) => Atom::Text(t.clone()),
        }
    }
}

impl View for Atom {
    type V = AtomV;

    open spec fn view(&self) -> AtomV {
        match self {
            Atom::Push(s) => AtomV::Push(s@),
            Atom::Pop(s) => AtomV::Pop(s@),
            Atom::Text(t) => AtomV::Text(t@),
        }
    }
}

/// Token emitted when a style opens.
pub open spec fn on_token(s: StyleV) -> Seq<char> {
    match s {
        StyleV::Bold => "bold"@,
        StyleV::Italic => "italic"@,
        StyleV::Underline => "underline"@,
        StyleV::Reset => "reset"@,
        StyleV::Color(c) => c,
    }
}

/// Open tokens of a whole style stack, bottom to top.
pub open spec fn stack_tokens(stack: Seq<StyleV>) -> Seq<char>
    decreases stack.len(),
{
    if stack.len() == 0 {
        Seq::<char>::empty()
    } else {
        stack_tokens(stack.drop_last()) + on_token(stack.last())
    }
}

/// Token emitted when a style closes, given the styles still open below it.
/// Named styles close with their `-` form; colors (and reset) close by
/// resetting and re-opening what remains.
pub open spec fn off_token(s: StyleV, below: Seq<StyleV>) -> Seq<char> {
    match s {
        StyleV::Bold => "-bold"@,
        StyleV::Italic => "-italic"@,
        StyleV::Underline => "-underline"@,
        _ => "reset"@ + stack_tokens(below),
    }
}

/// The flattened terminal string of a sequence of atoms, starting from the
/// given stack of already-open styles.
pub open spec fn spec_render(atoms: Seq<AtomV>, stack: Seq<StyleV>) -> Seq<char>
    decreases atoms.len(),
{
    if atoms.len() == 0 {
        Seq::<char>::empty()
    } else {
        let rest = atoms.drop_first();
        match atoms.first() {
            AtomV::Text(t) => t + spec_render(rest, stack),
            AtomV::Push(s) => on_token(s) + spec_render(rest, stack.push(s)),
            AtomV::Pop(s) => {
                let below = if stack.len() > 0 {
                    stack.drop_last()
                } else {
                    stack
                };
                off_token(s, below) + spec_render(rest, below)
            },
        }
    }
}

/// Does processing `atoms` from `stack` only ever pop the matching top?
pub open spec fn nest_ok(atoms: Seq<AtomV>, stack: Seq<StyleV>) -> bool
    decreases atoms.len(),
{
    if atoms.len() == 0 {
        true
    } else {
        let rest = atoms.drop_first();
        match atoms.first() {
            AtomV::Text(t) => nest_ok(rest, stack),
            AtomV::Push(s) => nest_ok(rest, stack.push(s)),
            AtomV::Pop(s) => stack.len() > 0 && stack.last() == s && nest_ok(
                rest,
                stack.drop_last(),
            ),
        }
    }
}

/// The style stack left open after processing `atoms` from `stack`.
pub open spec fn end_stack(atoms: Seq<AtomV>, stack: Seq<StyleV>) -> Seq<StyleV>
    decreases atoms.len(),
{
    if atoms.len() == 0 {
        stack
    } else {
        let rest = atoms.drop_first();
        match atoms.first() {
            AtomV::Text(t) => end_stack(rest, stack),
            AtomV::Push(s) => end_stack(rest, stack.push(s)),
            AtomV::Pop(s) => end_stack(
                rest,
                if stack.len() > 0 {
                    stack.drop_last()
                } else {
                    stack
                },
            ),
        }
    }
}

/// A sequence of atoms is balanced when every pop closes the matching most
/// recent push and nothing stays open at the end.
pub open spec fn is_balanced(atoms: Seq<AtomV>) -> bool {
    nest_ok(atoms, Seq::<StyleV>::empty()) && end_stack(atoms, Seq::<StyleV>::empty())
        == Seq::<StyleV>::empty()
}

/// The literal text of a sequence of atoms, with style tokens ignored.
pub open spec fn text_of(atoms: Seq<AtomV>) -> Seq<char>
    decreases atoms.len(),
{
    if atoms.len() == 0 {
        Seq::<char>::empty()
    } else {
        match atoms.first() {
            AtomV::Text(t) => t + text_of(atoms.drop_first()),
            _ => text_of(atoms.drop_first()),
        }
    }
}

/// Processing a concatenation is processing the parts in turn.
pub proof fn lemma_nest_concat(a: Seq<AtomV>, b: Seq<AtomV>, stack: Seq<StyleV>)
    ensures
        end_stack(a + b, stack) == end_stack(b, end_stack(a, stack)),
        nest_ok(a + b, stack) == (nest_ok(a, stack) && nest_ok(b, end_stack(a, stack))),
    decreases a.len(),
{
    if a.len() == 0 {
        assert(a + b =~= b);
    } else {
        assert((a + b).drop_first() =~= a.drop_first() + b);
        match a.first() {
            AtomV::Text(t) => {
                lemma_nest_concat(a.drop_first(), b, stack);
            },
            AtomV::Push(s) => {
                lemma_nest_concat(a.drop_first(), b, stack.push(s));
            },
            AtomV::Pop(s) => {
                let below = if stack.len() > 0 {
                    stack.drop_last()
                } else {
                    stack
                };
                lemma_nest_concat(a.drop_first(), b, below);
            },
        }
    }
}

/// A fragment that is balanced on its own neither reads nor disturbs whatever
/// stack it is processed on.
pub proof fn lemma_nest_frame(a: Seq<AtomV>, stack: Seq<StyleV>, pre: Seq<StyleV>)
    requires
        nest_ok(a, stack),
    ensures
        nest_ok(a, pre + stack),
        end_stack(a, pre + stack) == pre + end_stack(a, stack),
    decreases a.len(),
{
    if a.len() == 0 {
    } else {
        match a.first() {
            AtomV::Text(t) => {
                lemma_nest_frame(a.drop_first(), stack, pre);
            },
            AtomV::Push(s) => {
                assert((pre + stack).push(s) =~= pre + stack.push(s));
                lemma_nest_frame(a.drop_first(), stack.push(s), pre);
            },
            AtomV::Pop(s) => {
                assert((pre + stack).drop_last() =~= pre + stack.drop_last());
                lemma_nest_frame(a.drop_first(), stack.drop_last(), pre);
            },
        }
    }
}

/// Two balanced fragments concatenate to a balanced fragment.
pub proof fn lemma_balanced_concat(a: Seq<AtomV>, b: Seq<AtomV>)
    requires
        is_balanced(a),
        is_balanced(b),
    ensures
        is_balanced(a + b),
{
    lemma_nest_concat(a, b, Seq::<StyleV>::empty());
}

/// A balanced fragment wrapped in a matching push/pop pair stays balanced.
pub proof fn lemma_balanced_wrap(s: StyleV, inner: Seq<AtomV>)
    requires
        is_balanced(inner),
    ensures
        is_balanced(seq![AtomV::Push(s)] + inner + seq![AtomV::Pop(s)]),
{
    let empty = Seq::<StyleV>::empty();
    let one = empty.push(s);
    let whole = seq![AtomV::Push(s)] + inner + seq![AtomV::Pop(s)];
    lemma_nest_frame(inner, empty, one);
    assert(one + empty =~= one);
    assert(nest_ok(inner, one));
    assert(end_stack(inner, one) == one);
    let tail = inner + seq![AtomV::Pop(s)];
    lemma_nest_concat(inner, seq![AtomV::Pop(s)], one);
    let pop_one = seq![AtomV::Pop(s)];
    assert(pop_one.first() == AtomV::Pop(s));
    assert(pop_one.drop_first() =~= Seq::<AtomV>::empty());
    assert(one.drop_last() =~= empty);
    assert(one.last() == s);
    assert(nest_ok(pop_one.drop_first(), one.drop_last()));
    assert(nest_ok(pop_one, one));
    assert(nest_ok(tail, one));
    assert(end_stack(pop_one.drop_first(), one.drop_last()) == empty);
    assert(end_stack(pop_one, one) =~= empty);
    assert(end_stack(tail, one) == empty);
    assert(whole.drop_first() =~= tail);
    assert(whole.first() == AtomV::Push(s));
    assert(nest_ok(whole, empty));
    assert(end_stack(whole, empty) == empty);
}

/// What one atom does to the nesting check and to the stack.
pub proof fn lemma_atom_one(a: AtomV, stack: Seq<StyleV>)
    ensures
        seq![a].first() == a,
        nest_ok(seq![a], stack) == match a {
            AtomV::Push(s) => true,
            AtomV::Pop(s) => stack.len() > 0 && stack.last() == s,
            AtomV::Text(t) => true,
        },
        end_stack(seq![a], stack) == match a {
            AtomV::Push(s) => stack.push(s),
            AtomV::Pop(s) => if stack.len() > 0 {
                stack.drop_last()
            } else {
                stack
            },
            AtomV::Text(t) => stack,
        },
{
    let unit = seq![a];
    assert(unit.first() == a);
    assert(unit.drop_first() =~= Seq::<AtomV>::empty());
    match a {
        AtomV::Push(s) => {
            assert(nest_ok(unit.drop_first(), stack.push(s)));
            assert(end_stack(unit.drop_first(), stack.push(s)) == stack.push(s));
        },
        AtomV::Pop(s) => {
            let below = if stack.len() > 0 {
                stack.drop_last()
            } else {
                stack
            };
            assert(nest_ok(unit.drop_first(), below));
            assert(end_stack(unit.drop_first(), below) == below);
        },
        AtomV::Text(t) => {
            assert(nest_ok(unit.drop_first(), stack));
            assert(end_stack(unit.drop_first(), stack) == stack);
        },
    }
}

/// Text distributes over concatenation of atom sequences.
pub proof fn lemma_text_concat(a: Seq<AtomV>, b: Seq<AtomV>)
    ensures
        text_of(a + b) == text_of(a) + text_of(b),
    decreases a.len(),
{
    if a.len() == 0 {
        assert(a + b =~= b);
        assert(text_of(a) + text_of(b) =~= text_of(b));
    } else {
        assert((a + b).drop_first() =~= a.drop_first() + b);
        lemma_text_concat(a.drop_first(), b);
        match a.first() {
            AtomV::Text(t) => {
                assert(t + (text_of(a.drop_first()) + text_of(b)) =~= (t + text_of(a.drop_first()))
                    + text_of(b));
            },
            _ => {},
        }
    }
}

/// A text buffer with a parallel stack of styles: pushing a style opens a
/// span, popping the matching style closes it.
pub struct StyledString {
    atoms: Vec<Atom>,
}

impl View for StyledString {
    type V = Seq<AtomV>;

    closed spec fn view(&self) -> Seq<AtomV> {
        Seq::new(self.atoms@.len(), |i: int| self.atoms@[i]@)
    }
}

impl StyledString {
    /// An empty styled string.
    pub fn new() -> (r: StyledString)
        ensures
            r@ =~= Seq::<AtomV>::empty(),
    {
        StyledString { atoms: Vec::new() }
    }

    /// Whether no atom has been recorded yet.
    pub fn is_empty(&self) -> (r: bool)
        ensures
            r == (self@.len() == 0),
    {
        self.atoms.len() == 0
    }

    /// Append literal text.
    pub fn push_str(&mut self, t: &str)
        ensures
            final(self)@ =~= old(self)@ + seq![AtomV::Text(t@)],
    {
        self.atoms.push(Atom::Text(t.to_owned()));
    }

    /// Open a style span.
    pub fn push_style(&mut self, s: Style)
        ensures
            final(self)@ =~= old(self)@ + seq![AtomV::Push(s@)],
    {
        self.atoms.push(Atom::Push(s));
    }

    /// Close a style span; the caller closes the most recently opened one.
    pub fn pop_style(&mut self, s: Style)
        ensures
            final(self)@ =~= old(self)@ + seq![AtomV::Pop(s@)],
    {
        self.atoms.push(Atom::Pop(s));
    }

    /// Append text carrying one style of its own.
    pub fn push_styled_str(&mut self, s: Style, t: &str)
        ensures
            final(self)@ =~= old(self)@ + seq![
                AtomV::Push(s@),
                AtomV::Text(t@),
                AtomV::Pop(s@),
            ],
    {
        let s2 = s.clone();
        self.atoms.push(Atom::Push(s));
        self.atoms.push(Atom::Text(t.to_owned()));
        self.atoms.push(Atom::Pop(s2));
    }

    /// Append every atom of another styled string.
    pub fn append(&mut self, other: StyledString)
        ensures
            final(self)@ =~= old(self)@ + other@,
    {
        let mut o = other;
        self.atoms.append(&mut o.atoms);
    }

    /// Synonym of `append` used by the renderer when folding children.
    pub fn absorb(&mut self, other: StyledString)
        ensures
            final(self)@ =~= old(self)@ + other@,
    {
        self.append(other);
    }

    /// The literal text carried by the atoms, with style tokens ignored.
    pub fn text(&self) -> (r: String)
        ensures
            r@ == text_of(self@),
    {
        let mut out = String::new();
        let n = self.atoms.len();
        let mut i: usize = 0;
        proof {
            assert(self@.take(0) =~= Seq::<AtomV>::empty());
        }
        while i < n
            invariant
                n == self.atoms@.len(),
                i <= n,
                out@ == text_of(self@.take(i as int)),
            decreases n - i,
        {
            proof {
                assert(self@.take(i as int + 1) =~= self@.take(i as int) + seq![self@[i as int]]);
                lemma_text_concat(self@.take(i as int), seq![self@[i as int]]);
                lemma_text_one(self@[i as int]);
            }
            match &self.atoms[i] {
                Atom::Text(t) => {
                    out.append(t.as_str());
                    proof {
                        assert(out@ =~= text_of(self@.take(i as int + 1)));
                    }
                },
                _ => {
                    proof {
                        assert(out@ =~= text_of(self@.take(i as int + 1)));
                    }
                },
            }
            i = i + 1;
        }
        proof {
            assert(self@.take(n as int) =~= self@);
        }
        out
    }

    /// The atoms with the first `k` characters of literal text removed.
    pub fn skip_chars(&self, k: usize) -> (r: StyledString)
        ensures
            r@ == drop_text_atoms(self@, k as nat),
    {
        let mut out = StyledString::new();
        let mut rem: usize = k;
        let n = self.atoms.len();
        let mut i: usize = 0;
        proof {
            assert(self@.skip(0) =~= self@);
        }
        while i < n
            invariant
                n == self.atoms@.len(),
                i <= n,
                drop_text_atoms(self@, k as nat) == out@ + drop_text_atoms(
                    self@.skip(i as int),
                    rem as nat,
                ),
            decreases n - i,
        {
            proof {
                assert(self@.skip(i as int).first() == self@[i as int]);
                assert(self@.skip(i as int).drop_first() =~= self@.skip(i as int + 1));
            }
            let ghost pre = out@;
            let ghost seg = self@.skip(i as int);
            match &self.atoms[i] {
                Atom::Text(t) => {
                    if rem == 0 {
                        out.atoms.push(Atom::Text(t.clone()));
                        proof {
                            assert(out@ =~= pre + seq![AtomV::Text(t@)]);
                            assert(drop_text_atoms(self@.skip(i as int + 1), 0) == self@.skip(
                                i as int + 1,
                            ));
                            assert(seg =~= seq![AtomV::Text(t@)] + self@.skip(i as int + 1));
                            assert(pre + seg =~= out@ + self@.skip(i as int + 1));
                        }
                    } else {
                        let tlen = t.as_str().unicode_len();
                        if tlen <= rem {
                            rem = rem - tlen;
                        } else {
                            let ghost r0 = rem as int;
                            let piece = t.as_str().substring_char(rem, tlen);
                            out.push_str(piece);
                            rem = 0;
                            proof {
                                assert(t@.subrange(r0, tlen as int) =~= t@.skip(r0));
                                assert(out@ =~= pre + seq![AtomV::Text(t@.skip(r0))]);
                                assert(pre + drop_text_atoms(seg, r0 as nat) =~= out@ + self@.skip(
                                    i as int + 1,
                                ));
                            }
                        }
                    }
                },
                Atom::Push(s) => {
                    out.atoms.push(Atom::Push(s.clone()));
                    proof {
                        assert(out@ =~= pre + seq![AtomV::Push(s@)]);
                        if rem > 0 {
                            assert(pre + seg =~= pre + (seq![AtomV::Push(s@)] + self@.skip(
                                i as int + 1,
                            )));
                        } else {
                            assert(pre + seg =~= out@ + self@.skip(i as int + 1));
                        }
                    }
                },
                Atom::Pop(s) => {
                    out.atoms.push(Atom::Pop(s.clone()));
                    proof {
                        assert(out@ =~= pre + seq![AtomV::Pop(s@)]);
                        if rem > 0 {
                            assert(pre + seg =~= pre + (seq![AtomV::Pop(s@)] + self@.skip(
                                i as int + 1,
                            )));
                        } else {
                            assert(pre + seg =~= out@ + self@.skip(i as int + 1));
                        }
                    }
                },
            }
            proof {
                assert(drop_text_atoms(self@, k as nat) == out@ + drop_text_atoms(
                    self@.skip(i as int + 1),
                    rem as nat,
                ));
            }
            i = i + 1;
        }
        proof {
            assert(self@.skip(n as int) =~= Seq::<AtomV>::empty());
            assert(out@ + drop_text_atoms(self@.skip(n as int), rem as nat) =~= out@);
        }
        out
    }

    /// Split at newline characters into one balanced styled string per line:
    /// styles open across a break are closed at the line end and reopened on
    /// the next line.
    pub fn lines(&self) -> (r: Vec<StyledString>)
        ensures
            line_views(r@) == spec_lines(self@),
    {
        let mut done: Vec<StyledString> = Vec::new();
        let mut cur = StyledString::new();
        let mut stack: Vec<Style> = Vec::new();
        let n = self.atoms.len();
        let mut i: usize = 0;
        proof {
            assert(self@.take(0) =~= Seq::<AtomV>::empty());
            assert(line_views(done@) =~= Seq::<Seq<AtomV>>::empty());
            assert(views_of(stack@) =~= Seq::<StyleV>::empty());
        }
        while i < n
            invariant
                n == self.atoms@.len(),
                i <= n,
                line_views(done@) == lines_fold(self@.take(i as int)).done,
                cur@ == lines_fold(self@.take(i as int)).cur,
                views_of(stack@) == lines_fold(self@.take(i as int)).stack,
            decreases n - i,
        {
            proof {
                assert(self@.take(i as int + 1).drop_last() =~= self@.take(i as int));
                assert(self@.take(i as int + 1).last() == self@[i as int]);
            }
            let ghost st_pre = lines_fold(self@.take(i as int));
            match &self.atoms[i] {
                Atom::Push(s) => {
                    cur.push_style(s.clone());
                    stack.push(s.clone());
                    proof {
                        assert(cur@ =~= st_pre.cur.push(AtomV::Push(s@)));
                        assert(views_of(stack@) =~= st_pre.stack.push(s@));
                    }
                },
                Atom::Pop(s) => {
                    cur.pop_style(s.clone());
                    let ghost pre_stack = views_of(stack@);
                    let popped = stack.pop();
                    proof {
                        assert(cur@ =~= st_pre.cur.push(AtomV::Pop(s@)));
                        if pre_stack.len() > 0 {
                            assert(views_of(stack@) =~= pre_stack.drop_last());
                        } else {
                            assert(views_of(stack@) =~= pre_stack);
                        }
                    }
                },
                Atom::Text(t) => {
                    let tlen = t.as_str().unicode_len();
                    let mut start: usize = 0;
                    let mut j: usize = 0;
                    proof {
                        assert(t@.skip(0) =~= t@);
                    }
                    while j < tlen
                        invariant
                            tlen == t@.len(),
                            start <= j <= tlen,
                            forall|q: int| start <= q < j ==> t@[q] != '\n',
                            views_of(stack@) == st_pre.stack,
                            feed_pieces(st_pre, split_nl(t@)) == feed_pieces(
                                LinesState {
                                    done: line_views(done@),
                                    cur: cur@,
                                    stack: st_pre.stack,
                                },
                                split_nl(t@.skip(start as int)),
                            ),
                        decreases tlen - j,
                    {
                        let c = t.as_str().get_char(j);
                        if c == '\n' {
                            let ghost d0 = line_views(done@);
                            let ghost c0 = cur@;
                            let ghost tail = t@.skip(start as int);
                            proof {
                                assert(forall|q: int|
                                    0 <= q < j - start ==> tail[q] == t@[q + start as int]);
                                lemma_split_nl_prefix(tail, j - start as int);
                                lemma_split_nl_len(t@.skip(j as int + 1));
                            }
                            let piece = t.as_str().substring_char(start, j);
                            cur.push_str(piece);
                            close_into(&mut cur, &stack);
                            done.push(cur);
                            cur = open_line(&stack);
                            proof {
                                let st1 = LinesState {
                                    done: d0,
                                    cur: c0.push(AtomV::Text(t@.subrange(start as int, j as int))),
                                    stack: st_pre.stack,
                                };
                                assert(tail.take(j - start as int) =~= t@.subrange(
                                    start as int,
                                    j as int,
                                ));
                                assert(tail.skip(j - start as int + 1) =~= t@.skip(j as int + 1));
                                let pieces = split_nl(tail);
                                assert(pieces =~~= seq![tail.take(j - start as int)] + split_nl(
                                    t@.skip(j as int + 1),
                                ));
                                assert(pieces.len() >= 2);
                                let cc = seq![tail.take(j - start as int)] + split_nl(
                                    t@.skip(j as int + 1),
                                );
                                assert(cc[0] == tail.take(j - start as int));
                                assert(pieces.first() == t@.subrange(start as int, j as int));
                                assert(pieces.drop_first() =~~= split_nl(t@.skip(j as int + 1)));
                                assert(feed_pieces(
                                    LinesState { done: d0, cur: c0, stack: st_pre.stack },
                                    pieces,
                                ) == feed_pieces(finish_line(st1), pieces.drop_first()));
                                assert(line_views(done@) =~~= d0.push(
                                    c0.push(AtomV::Text(t@.subrange(start as int, j as int)))
                                        + close_ops(st_pre.stack),
                                ));
                                assert(line_views(done@) == finish_line(st1).done);
                                assert(cur@ == finish_line(st1).cur);
                            }
                            start = j + 1;
                        }
                        j = j + 1;
                    }
                    let ghost tail = t@.skip(start as int);
                    let ghost d1 = line_views(done@);
                    let ghost c1 = cur@;
                    proof {
                        assert(forall|q: int|
                            0 <= q < tlen - start ==> tail[q] == t@[q + start as int]);
                        lemma_split_nl_prefix(tail, tlen - start as int);
                        assert(split_nl(tail) == seq![tail]);
                    }
                    let piece = t.as_str().substring_char(start, tlen);
                    cur.push_str(piece);
                    proof {
                        let st_in = LinesState { done: d1, cur: c1, stack: st_pre.stack };
                        assert(seq![tail].first() == tail);
                        assert(t@.subrange(start as int, tlen as int) =~= tail);
                        assert(feed_pieces(st_in, seq![tail]) == LinesState {
                            done: d1,
                            cur: c1.push(AtomV::Text(tail)),
                            stack: st_pre.stack,
                        });
                        assert(cur@ =~= c1.push(AtomV::Text(tail)));
                        assert(self@[i as int] == AtomV::Text(t@));
                        lemma_feed_pieces_stack(st_pre, split_nl(t@));
                        assert(line_views(done@) == lines_fold(self@.take(i as int + 1)).done);
                        assert(cur@ == lines_fold(self@.take(i as int + 1)).cur);
                        assert(views_of(stack@) == lines_fold(self@.take(i as int + 1)).stack);
                    }
                },
            }
            i = i + 1;
        }
        proof {
            assert(self@.take(n as int) =~= self@);
        }
        close_into(&mut cur, &stack);
        done.push(cur);
        proof {
            let st = lines_fold(self@);
            assert(line_views(done@) =~= st.done.push(st.cur + close_ops(st.stack)));
        }
        done
    }

    /// Flatten the atoms into the terminal escape string.
    pub fn build(&self) -> (r: String)
        ensures
            r@ == spec_render(self@, Seq::<StyleV>::empty()),
    {
        let mut out = String::new();
        let mut stack: Vec<Style> = Vec::new();
        let n = self.atoms.len();
        let mut i: usize = 0;
        proof {
            assert(views_of(stack@) =~= Seq::<StyleV>::empty());
            assert(self@.skip(0) =~= self@);
        }
        while i < n
            invariant
                n == self.atoms@.len(),
                i <= n,
                spec_render(self@, Seq::<StyleV>::empty()) == out@ + spec_render(
                    self@.skip(i as int),
                    views_of(stack@),
                ),
            decreases n - i,
        {
            proof {
                assert(self@.skip(i as int).first() == self@[i as int]);
                assert(self@.skip(i as int).drop_first() =~= self@.skip(i as int + 1));
            }
            let ghost pre_out = out@;
            match &self.atoms[i] {
                Atom::Text(t) => {
                    out.append(t.as_str());
                    proof {
                        assert(out@ + spec_render(self@.skip(i as int + 1), views_of(stack@))
                            =~= pre_out + spec_render(self@.skip(i as int), views_of(stack@)));
                    }
                },
                Atom::Push(s) => {
                    let ghost pre_stack = views_of(stack@);
                    push_on_token(&mut out, s);
                    stack.push(s.clone());
                    proof {
                        assert(views_of(stack@) =~= pre_stack.push(s@));
                        assert(out@ + spec_render(self@.skip(i as int + 1), views_of(stack@))
                            =~= pre_out + spec_render(self@.skip(i as int), pre_stack));
                    }
                },
                Atom::Pop(s) => {
                    let ghost pre_stack = views_of(stack@);
                    let s = s.clone();
                    let popped = stack.pop();
                    proof {
                        if pre_stack.len() > 0 {
                            assert(views_of(stack@) =~= pre_stack.drop_last());
                        } else {
                            assert(views_of(stack@) =~= pre_stack);
                        }
                    }
                    push_off_token(&mut out, &s, &stack);
                    proof {
                        assert(out@ + spec_render(self@.skip(i as int + 1), views_of(stack@))
                            =~= pre_out + spec_render(self@.skip(i as int), pre_stack));
                    }
                },
            }
            i = i + 1;
        }
        proof {
            assert(self@.skip(n as int) =~= Seq::<AtomV>::empty());
            assert(out@ =~= out@ + spec_render(self@.skip(n as int), views_of(stack@)));
        }
        out
    }
}

/// Mathematical image of an open-style stack.
pub open spec fn views_of(stack: Seq<Style>) -> Seq<StyleV> {
    Seq::new(stack.len(), |i: int| stack[i]@)
}

/// Pops that close a whole stack, top to bottom.
pub open spec fn close_ops(stack: Seq<StyleV>) -> Seq<AtomV>
    decreases stack.len(),
{
    if stack.len() == 0 {
        Seq::<AtomV>::empty()
    } else {
        seq![AtomV::Pop(stack.last())] + close_ops(stack.drop_last())
    }
}

/// Pushes that reopen a whole stack, bottom to top.
pub open spec fn open_ops(stack: Seq<StyleV>) -> Seq<AtomV>
    decreases stack.len(),
{
    if stack.len() == 0 {
        Seq::<AtomV>::empty()
    } else {
        open_ops(stack.drop_last()) + seq![AtomV::Push(stack.last())]
    }
}

pub proof fn lemma_close_ops_index(stack: Seq<StyleV>)
    ensures
        close_ops(stack).len() == stack.len(),
        forall|i: int|
            0 <= i < stack.len() ==> close_ops(stack)[i] == AtomV::Pop(
                stack[stack.len() - 1 - i],
            ),
    decreases stack.len(),
{
    if stack.len() > 0 {
        lemma_close_ops_index(stack.drop_last());
    }
}

pub proof fn lemma_open_ops_index(stack: Seq<StyleV>)
    ensures
        open_ops(stack).len() == stack.len(),
        forall|i: int| 0 <= i < stack.len() ==> open_ops(stack)[i] == AtomV::Push(stack[i]),
    decreases stack.len(),
{
    if stack.len() > 0 {
        lemma_open_ops_index(stack.drop_last());
    }
}

/// Closing a stack from itself leaves nothing open and never mismatches.
pub proof fn lemma_close_ops_wf(stack: Seq<StyleV>)
    ensures
        nest_ok(close_ops(stack), stack),
        end_stack(close_ops(stack), stack) == Seq::<StyleV>::empty(),
    decreases stack.len(),
{
    if stack.len() == 0 {
    } else {
        lemma_close_ops_wf(stack.drop_last());
        assert(close_ops(stack).drop_first() =~= close_ops(stack.drop_last()));
    }
}

/// Reopening a stack from nothing is well nested and restores the stack.
pub proof fn lemma_open_ops_wf(stack: Seq<StyleV>)
    ensures
        nest_ok(open_ops(stack), Seq::<StyleV>::empty()),
        end_stack(open_ops(stack), Seq::<StyleV>::empty()) == stack,
    decreases stack.len(),
{
    if stack.len() == 0 {
    } else {
        lemma_open_ops_wf(stack.drop_last());
        lemma_nest_concat(
            open_ops(stack.drop_last()),
            seq![AtomV::Push(stack.last())],
            Seq::<StyleV>::empty(),
        );
        lemma_atom_one(AtomV::Push(stack.last()), stack.drop_last());
        assert(end_stack(open_ops(stack), Seq::<StyleV>::empty()) =~= stack);
    }
}

/// Text split at newline characters; always at least one piece.
pub open spec fn split_nl(t: Seq<char>) -> Seq<Seq<char>>
    decreases t.len(),
{
    if t.len() == 0 {
        seq![Seq::<char>::empty()]
    } else if t.first() == '\n' {
        seq![Seq::<char>::empty()] + split_nl(t.drop_first())
    } else {
        let r = split_nl(t.drop_first());
        seq![seq![t.first()] + r.first()] + r.drop_first()
    }
}

pub proof fn lemma_split_nl_len(t: Seq<char>)
    ensures
        split_nl(t).len() >= 1,
    decreases t.len(),
{
    if t.len() > 0 {
        lemma_split_nl_len(t.drop_first());
    }
}

/// Where the first `k` characters hold no newline, the split starts with the
/// piece they form.
pub proof fn lemma_split_nl_prefix(t: Seq<char>, k: int)
    requires
        0 <= k <= t.len(),
        forall|i: int| 0 <= i < k ==> t[i] != '\n',
    ensures
        k < t.len() && t[k] == '\n' ==> split_nl(t) == seq![t.take(k)] + split_nl(
            t.skip(k + 1),
        ),
        k == t.len() ==> split_nl(t) == seq![t],
    decreases k,
{
    lemma_split_nl_len(t);
    if k == 0 {
        if 0 < t.len() && t[0] == '\n' {
            assert(t.drop_first() =~= t.skip(1));
            assert(split_nl(t) =~~= seq![t.take(0)] + split_nl(t.skip(1)));
        } else if t.len() == 0 {
            assert(split_nl(t) =~~= seq![t]);
        }
    } else {
        let t2 = t.drop_first();
        assert(forall|i: int| 0 <= i < k - 1 ==> t2[i] != '\n');
        lemma_split_nl_prefix(t2, k - 1);
        lemma_split_nl_len(t2);
        let r = split_nl(t2);
        if k < t.len() && t[k] == '\n' {
            assert(t2[k - 1] == '\n');
            assert(r == seq![t2.take(k - 1)] + split_nl(t2.skip(k)));
            assert(r.first() =~= t2.take(k - 1));
            assert(seq![t.first()] + t2.take(k - 1) =~= t.take(k));
            assert(r.drop_first() =~~= split_nl(t2.skip(k)));
            assert(t2.skip(k) =~= t.skip(k + 1));
            assert(split_nl(t) =~~= seq![t.take(k)] + split_nl(t.skip(k + 1)));
        } else if k == t.len() {
            assert(r == seq![t2]);
            assert(r.first() =~= t2);
            assert(seq![t.first()] + t2 =~= t);
            assert(r.drop_first() =~~= Seq::<Seq<char>>::empty());
            assert(split_nl(t) =~~= seq![t]);
        }
    }
}

/// The running state of the line splitter: finished lines, the open line,
/// and the styles active at the split point.
pub struct LinesState {
    pub done: Seq<Seq<AtomV>>,
    pub cur: Seq<AtomV>,
    pub stack: Seq<StyleV>,
}

/// Close the open line with the active styles and reopen them on a new line.
pub open spec fn finish_line(st: LinesState) -> LinesState {
    LinesState {
        done: st.done.push(st.cur + close_ops(st.stack)),
        cur: open_ops(st.stack),
        stack: st.stack,
    }
}

/// Feed the pieces of one literal, breaking a line between pieces.
pub open spec fn feed_pieces(st: LinesState, pieces: Seq<Seq<char>>) -> LinesState
    decreases pieces.len(),
{
    if pieces.len() == 0 {
        st
    } else {
        let st1 = LinesState {
            done: st.done,
            cur: st.cur.push(AtomV::Text(pieces.first())),
            stack: st.stack,
        };
        if pieces.len() == 1 {
            st1
        } else {
            feed_pieces(finish_line(st1), pieces.drop_first())
        }
    }
}

/// Feed one atom to the line splitter.
pub open spec fn lines_step(st: LinesState, a: AtomV) -> LinesState {
    match a {
        AtomV::Push(s) => LinesState {
            done: st.done,
            cur: st.cur.push(a),
            stack: st.stack.push(s),
        },
        AtomV::Pop(s) => LinesState {
            done: st.done,
            cur: st.cur.push(a),
            stack: if st.stack.len() > 0 {
                st.stack.drop_last()
            } else {
                st.stack
            },
        },
        AtomV::Text(t) => feed_pieces(st, split_nl(t)),
    }
}

pub open spec fn lines_fold(atoms: Seq<AtomV>) -> LinesState
    decreases atoms.len(),
{
    if atoms.len() == 0 {
        LinesState {
            done: Seq::<Seq<AtomV>>::empty(),
            cur: Seq::<AtomV>::empty(),
            stack: Seq::<StyleV>::empty(),
        }
    } else {
        lines_step(lines_fold(atoms.drop_last()), atoms.last())
    }
}

/// The lines of a styled string: each line carries its own balanced copy of
/// the styles that were active across the break.
pub open spec fn spec_lines(atoms: Seq<AtomV>) -> Seq<Seq<AtomV>> {
    let st = lines_fold(atoms);
    st.done.push(st.cur + close_ops(st.stack))
}

/// A splitter state every line of which is balanced, and whose open line
/// reconstructs exactly its stack.
pub open spec fn lines_wf(st: LinesState) -> bool {
    &&& forall|i: int| 0 <= i < st.done.len() ==> is_balanced(#[trigger] st.done[i])
    &&& nest_ok(st.cur, Seq::<StyleV>::empty())
    &&& end_stack(st.cur, Seq::<StyleV>::empty()) == st.stack
}

pub proof fn lemma_finish_line_wf(st: LinesState)
    requires
        lines_wf(st),
    ensures
        lines_wf(finish_line(st)),
{
    lemma_close_ops_wf(st.stack);
    lemma_nest_concat(st.cur, close_ops(st.stack), Seq::<StyleV>::empty());
    lemma_open_ops_wf(st.stack);
    assert(is_balanced(st.cur + close_ops(st.stack)));
    assert(forall|i: int|
        0 <= i < finish_line(st).done.len() ==> is_balanced(#[trigger] finish_line(st).done[i]));
}

pub proof fn lemma_push_text_wf(st: LinesState, t: Seq<char>)
    requires
        lines_wf(st),
    ensures
        lines_wf(
            LinesState { done: st.done, cur: st.cur.push(AtomV::Text(t)), stack: st.stack },
        ),
{
    let empty = Seq::<StyleV>::empty();
    let unit = seq![AtomV::Text(t)];
    lemma_nest_concat(st.cur, unit, empty);
    lemma_atom_one(AtomV::Text(t), st.stack);
    assert(st.cur.push(AtomV::Text(t)) =~= st.cur + unit);
}

/// Feeding literal pieces never touches the style stack.
pub proof fn lemma_feed_pieces_stack(st: LinesState, pieces: Seq<Seq<char>>)
    ensures
        feed_pieces(st, pieces).stack == st.stack,
    decreases pieces.len(),
{
    if pieces.len() > 1 {
        let st1 = LinesState {
            done: st.done,
            cur: st.cur.push(AtomV::Text(pieces.first())),
            stack: st.stack,
        };
        lemma_feed_pieces_stack(finish_line(st1), pieces.drop_first());
    }
}

pub proof fn lemma_feed_pieces_wf(st: LinesState, pieces: Seq<Seq<char>>)
    requires
        lines_wf(st),
    ensures
        lines_wf(feed_pieces(st, pieces)),
        feed_pieces(st, pieces).stack == st.stack,
    decreases pieces.len(),
{
    if pieces.len() == 0 {
    } else {
        lemma_push_text_wf(st, pieces.first());
        let st1 = LinesState {
            done: st.done,
            cur: st.cur.push(AtomV::Text(pieces.first())),
            stack: st.stack,
        };
        if pieces.len() > 1 {
            lemma_finish_line_wf(st1);
            lemma_feed_pieces_wf(finish_line(st1), pieces.drop_first());
        }
    }
}

/// Processing a well-nested sequence keeps the splitter well formed and
/// leaves it on the stack the sequence leaves open.
pub proof fn lemma_lines_fold_wf(atoms: Seq<AtomV>)
    requires
        nest_ok(atoms, Seq::<StyleV>::empty()),
    ensures
        lines_wf(lines_fold(atoms)),
        lines_fold(atoms).stack == end_stack(atoms, Seq::<StyleV>::empty()),
    decreases atoms.len(),
{
    let empty = Seq::<StyleV>::empty();
    if atoms.len() == 0 {
    } else {
        let pre = atoms.drop_last();
        let a = atoms.last();
        lemma_nest_concat(pre, seq![a], empty);
        assert(pre + seq![a] =~= atoms);
        lemma_lines_fold_wf(pre);
        let st = lines_fold(pre);
        lemma_atom_one(a, st.stack);
        match a {
            AtomV::Push(s) => {
                lemma_nest_concat(st.cur, seq![a], empty);
                assert(st.cur.push(a) =~= st.cur + seq![a]);
            },
            AtomV::Pop(s) => {
                assert(nest_ok(seq![a], end_stack(pre, empty)));
                assert(st.stack.len() > 0 && st.stack.last() == s);
                lemma_nest_concat(st.cur, seq![a], empty);
                assert(st.cur.push(a) =~= st.cur + seq![a]);
            },
            AtomV::Text(t) => {
                lemma_feed_pieces_wf(st, split_nl(t));
            },
        }
    }
}

/// Every line produced from a balanced styled string is itself balanced.
pub proof fn lemma_spec_lines_balanced(atoms: Seq<AtomV>)
    requires
        is_balanced(atoms),
    ensures
        forall|i: int| 0 <= i < spec_lines(atoms).len() ==> is_balanced(
            #[trigger] spec_lines(atoms)[i],
        ),
{
    lemma_lines_fold_wf(atoms);
    let st = lines_fold(atoms);
    lemma_close_ops_wf(st.stack);
    lemma_nest_concat(st.cur, close_ops(st.stack), Seq::<StyleV>::empty());
}

/// Mathematical image of a list of styled strings.
pub open spec fn line_views(d: Seq<StyledString>) -> Seq<Seq<AtomV>> {
    Seq::new(d.len(), |i: int| d[i]@)
}

/// The text of one atom.
pub proof fn lemma_text_one(a: AtomV)
    ensures
        text_of(seq![a]) == match a {
            AtomV::Text(t) => t,
            _ => Seq::<char>::empty(),
        },
{
    assert(seq![a].first() == a);
    assert(seq![a].drop_first() =~= Seq::<AtomV>::empty());
    assert(text_of(seq![a].drop_first()) == Seq::<char>::empty());
    match a {
        AtomV::Text(t) => {
            assert(text_of(seq![a]) =~= t);
        },
        _ => {},
    }
}

/// The atoms with the first `k` characters of literal text removed; style
/// pushes and pops are kept as they stand.
pub open spec fn drop_text_atoms(atoms: Seq<AtomV>, k: nat) -> Seq<AtomV>
    decreases atoms.len(),
{
    if k == 0 || atoms.len() == 0 {
        atoms
    } else {
        let rest = atoms.drop_first();
        match atoms.first() {
            AtomV::Text(t) => if t.len() <= k {
                drop_text_atoms(rest, (k - t.len()) as nat)
            } else {
                seq![AtomV::Text(t.skip(k as int))] + rest
            },
            _ => seq![atoms.first()] + drop_text_atoms(rest, k),
        }
    }
}

/// Dropping text characters does not disturb nesting.
pub proof fn lemma_drop_text_nest(atoms: Seq<AtomV>, k: nat, stack: Seq<StyleV>)
    ensures
        nest_ok(drop_text_atoms(atoms, k), stack) == nest_ok(atoms, stack),
        end_stack(drop_text_atoms(atoms, k), stack) == end_stack(atoms, stack),
    decreases atoms.len(),
{
    if k == 0 || atoms.len() == 0 {
    } else {
        let rest = atoms.drop_first();
        let a = atoms.first();
        match a {
            AtomV::Text(t) => {
                if t.len() <= k {
                    lemma_drop_text_nest(rest, (k - t.len()) as nat, stack);
                } else {
                    let r = seq![AtomV::Text(t.skip(k as int))] + rest;
                    assert(r.first() == AtomV::Text(t.skip(k as int)));
                    assert(r.drop_first() =~= rest);
                }
            },
            _ => {
                let r = seq![a] + drop_text_atoms(rest, k);
                assert(r.first() == a);
                assert(r.drop_first() =~= drop_text_atoms(rest, k));
                lemma_drop_text_nest(rest, k, stack);
                match a {
                    AtomV::Push(s) => {
                        lemma_drop_text_nest(rest, k, stack.push(s));
                    },
                    AtomV::Pop(s) => {
                        let below = if stack.len() > 0 {
                            stack.drop_last()
                        } else {
                            stack
                        };
                        lemma_drop_text_nest(rest, k, below);
                    },
                    _ => {},
                }
            },
        }
    }
}

/// The position of the first `"> "` in the text, if any.
pub open spec fn find_quote(t: Seq<char>) -> Option<int>
    decreases t.len(),
{
    if t.len() < 2 {
        None
    } else if t[0] == '>' && t[1] == ' ' {
        Some(0int)
    } else {
        match find_quote(t.drop_first()) {
            Option::None => None,
            Option::Some(i) => Some(i + 1),
        }
    }
}

/// Whether `"> "` stands at position `j` of the text.
pub open spec fn quote_at(t: Seq<char>, j: int) -> bool {
    0 <= j && j + 2 <= t.len() && t[j] == '>' && t[j + 1] == ' '
}

/// Where no `"> "` stands before `k`, the first one is at `k` or later.
pub proof fn lemma_find_quote_prefix(t: Seq<char>, k: int)
    requires
        0 <= k,
        forall|j: int| 0 <= j < k ==> !quote_at(t, j),
    ensures
        quote_at(t, k) ==> find_quote(t) == Some(k),
        k + 2 > t.len() ==> find_quote(t) == Option::<int>::None,
    decreases k,
{
    if k == 0 || t.len() == 0 {
        if t.len() < 2 {
        }
    } else {
        let t2 = t.drop_first();
        assert(!quote_at(t, 0));
        assert forall|j: int| 0 <= j < k - 1 implies !quote_at(t2, j) by {
            if j + 2 <= t2.len() {
                assert(t2 =~= t.subrange(1, t.len() as int));
                assert(t2[j] == t.subrange(1, t.len() as int)[j]);
                assert(t2[j + 1] == t.subrange(1, t.len() as int)[j + 1]);
                assert(!quote_at(t, j + 1));
            }
        }
        lemma_find_quote_prefix(t2, k - 1);
        if quote_at(t, k) {
            assert(quote_at(t2, k - 1));
        }
    }
}

/// Amount of leading text removed by the quote stripper.
pub open spec fn strip_count(t: Seq<char>) -> nat {
    match find_quote(t) {
        Option::Some(i) => (i + 2) as nat,
        Option::None => 0nat,
    }
}

/// Close every style of the stack onto the open line, top to bottom.
fn close_into(cur: &mut StyledString, stack: &Vec<Style>)
    ensures
        final(cur)@ == old(cur)@ + close_ops(views_of(stack@)),
{
    let ghost v = views_of(stack@);
    proof {
        lemma_close_ops_index(v);
    }
    let n = stack.len();
    let mut m: usize = 0;
    while m < n
        invariant
            n == stack@.len(),
            m <= n,
            v == views_of(stack@),
            close_ops(v).len() == n,
            forall|q: int| 0 <= q < n ==> close_ops(v)[q] == AtomV::Pop(v[n - 1 - q]),
            cur@ =~= old(cur)@ + close_ops(v).take(m as int),
        decreases n - m,
    {
        cur.pop_style(stack[n - 1 - m].clone());
        proof {
            assert(close_ops(v).take(m as int + 1) =~= close_ops(v).take(m as int) + seq![
                AtomV::Pop(v[n - 1 - m]),
            ]);
            assert(cur@ =~= old(cur)@ + close_ops(v).take(m as int + 1));
        }
        m = m + 1;
    }
    proof {
        assert(close_ops(v).take(n as int) =~= close_ops(v));
    }
}

/// A fresh line that reopens every style of the stack, bottom to top.
fn open_line(stack: &Vec<Style>) -> (r: StyledString)
    ensures
        r@ == open_ops(views_of(stack@)),
{
    let ghost v = views_of(stack@);
    proof {
        lemma_open_ops_index(v);
    }
    let mut r = StyledString::new();
    let n = stack.len();
    let mut m: usize = 0;
    while m < n
        invariant
            n == stack@.len(),
            m <= n,
            v == views_of(stack@),
            open_ops(v).len() == n,
            forall|q: int| 0 <= q < n ==> open_ops(v)[q] == AtomV::Push(v[q]),
            r@ =~= open_ops(v).take(m as int),
        decreases n - m,
    {
        r.push_style(stack[m].clone());
        proof {
            assert(open_ops(v).take(m as int + 1) =~= open_ops(v).take(m as int) + seq![
                AtomV::Push(v[m as int]),
            ]);
        }
        m = m + 1;
    }
    proof {
        assert(open_ops(v).take(n as int) =~= open_ops(v));
    }
    r
}

/// Append the open token of a style to the output.
fn push_on_token(out: &mut String, s: &Style)
    ensures
        final(out)@ == old(out)@ + on_token(s@),
{
    match s {
        Style::Bold => out.append("bold"),
        Style::Italic => out.append("italic"),
        Style::Underline => out.append("underline"),
        Style::Reset => out.append("reset"),
        Style::Color(c) => out.append(c.as_str()),
    }
}

/// Append the close token of a style, given the styles still open below it.
fn push_off_token(out: &mut String, s: &Style, below: &Vec<Style>)
    ensures
        final(out)@ == old(out)@ + off_token(s@, views_of(below@)),
{
    match s {
        Style::Bold => out.append("-bold"),
        Style::Italic => out.append("-italic"),
        Style::Underline => out.append("-underline"),
        _ => {
            out.append("reset");
            let n = below.len();
            let mut j: usize = 0;
            proof {
                assert(stack_tokens(views_of(below@).take(0)) =~= Seq::<char>::empty());
                assert(out@ =~= old(out)@ + "reset"@ + stack_tokens(views_of(below@).take(0)));
            }
            while j < n
                invariant
                    n == below@.len(),
                    j <= n,
                    out@ == old(out)@ + "reset"@ + stack_tokens(views_of(below@).take(j as int)),
                decreases n - j,
            {
                push_on_token(out, &below[j]);
                proof {
                    let ghost v = views_of(below@);
                    assert(v.take(j as int + 1).drop_last() =~= v.take(j as int));
                    assert(v.take(j as int + 1).last() == below@[j as int]@);
                    assert(out@ =~= old(out)@ + "reset"@ + stack_tokens(v.take(j as int + 1)));
                }
                j = j + 1;
            }
            proof {
                assert(views_of(below@).take(n as int) =~= views_of(below@));
                assert(old(out)@ + "reset"@ + stack_tokens(views_of(below@)) =~= old(out)@ + (
                "reset"@ + stack_tokens(views_of(below@))));
            }
        },
    }
}

} // verus!
