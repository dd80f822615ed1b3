//! Tokens of a command line, and the lexer that reads them from raw arguments.

use vstd::prelude::*;
use vstd::string::StringExecFns;
use crate::text::{boxed, push_char};
use crate::tr::IntoOwned;

verus! {

/// A single token of command line arguments.
///
/// - `-xyz` is read as three short options `x`, `y` and `z`, none of which takes a value.
/// - `-x -y` is read as two short options `x` and `y`.
/// - `-x -` is read as the short option `x` with the value `-`.
/// - Everything behind `--` is read as a positional argument.
#[derive(Debug, Copy, Clone, Eq, PartialEq)]
#[allow(inconsistent_fields)]
pub enum Token<'a> {
    /// Positional argument, i.e. just `something`.
    Positional(&'a str),
    /// Short option, i.e. `-k`, `-k value`.
    Short { key: char, value: Option<&'a str> },
    /// Long option, i.e. `--key`, `--key value`.
    Long { key: &'a str, value: Option<&'a str> },
    /// Double dash, i.e. `--`.
    DashDash,
}

/// A token that owns its texts.
#[derive(Debug, Clone, Eq, PartialEq)]
#[allow(inconsistent_fields)]
pub enum OwnToken {
    Positional(Box<str>),
    Short { key: char, value: Option<Box<str>> },
    Long { key: Box<str>, value: Option<Box<str>> },
    DashDash,
}

/// What a token holds, with its texts as sequences of characters.
#[allow(inconsistent_fields)]
pub enum TokenView {
    Positional(Seq<char>),
    Short { key: char, value: Option<Seq<char>> },
    Long { key: Seq<char>, value: Option<Seq<char>> },
    DashDash,
}

/// The view of a text that may be missing.
pub open spec fn opt_view(s: Option<&str>) -> Option<Seq<char>> {
    match s {
        Some(s) => Some(s@),
        None => None,
    }
}

/// The view of an owned text that may be missing.
pub open spec fn opt_box_view(s: Option<Box<str>>) -> Option<Seq<char>> {
    match s {
        Some(s) => Some(s@),
        None => None,
    }
}

impl View for Token<'_> {
    type V = TokenView;

    open spec fn view(&self) -> TokenView {
        match *self {
            Token::Positional(s) => TokenView::Positional(s@),
            Token::Short { key, value } => TokenView::Short { key, value: opt_view(value) },
            Token::Long { key, value } => TokenView::Long { key: key@, value: opt_view(value) },
            Token::DashDash => TokenView::DashDash,
        }
    }
}

impl View for OwnToken {
    type V = TokenView;

    open spec fn view(&self) -> TokenView {
        match *self {
            OwnToken::Positional(s) => TokenView::Positional(s@),
            OwnToken::Short { key, value } => TokenView::Short { key, value: opt_box_view(value) },
            OwnToken::Long { key, value } => TokenView::Long {
                key: key@,
                value: opt_box_view(value),
            },
            OwnToken::DashDash => TokenView::DashDash,
        }
    }
}

impl TokenView {
    /// A value as it is written behind its option: behind one space, or not at all.
    pub open spec fn value_text(value: Option<Seq<char>>) -> Seq<char> {
        match value {
            Some(v) => " "@ + v,
            None => Seq::<char>::empty(),
        }
    }

    /// The token as it is written on a command line.
    pub open spec fn text(self) -> Seq<char> {
        match self {
            TokenView::Positional(s) => s,
            TokenView::Short { key, value } => "-"@.push(key) + Self::value_text(value),
            TokenView::Long { key, value } => "--"@ + key + Self::value_text(value),
            TokenView::DashDash => "--"@,
        }
    }
}

/// Appends to `out` a value as it is written behind its option.
fn write_value(out: &mut String, value: Option<&str>)
    ensures
        final(out)@ == old(out)@ + TokenView::value_text(opt_view(value)),
{
    match value {
        Some(v) => {
            out.append(" ");
            out.append(v);
            assert(out@ =~= old(out)@ + (" "@ + v@));
        },
        None => {
            assert(out@ =~= old(out)@ + Seq::<char>::empty());
        },
    }
}

impl<'a> Token<'a> {
    /// Appends the token to `out` as it is written on a command line.
    pub fn write(&self, out: &mut String)
        ensures
            final(out)@ == old(out)@ + self@.text(),
    {
        match *self {
            Token::Positional(s) => {
                out.append(s);
            },
            Token::Short { key, value } => {
                out.append("-");
                push_char(out, key);
                write_value(out, value);
            },
            Token::Long { key, value } => {
                out.append("--");
                out.append(key);
                write_value(out, value);
            },
            Token::DashDash => {
                out.append("--");
            },
        }
        assert(out@ =~= old(out)@ + self@.text());
    }

    /// The token as it is written on a command line.
    pub fn to_string(&self) -> (s: String)
        ensures
            s@ == self@.text(),
    {
        let mut out = String::new();
        self.write(&mut out);
        assert(out@ =~= self@.text());
        out
    }
}

/// An owned copy of a text that may be missing.
fn own_value(value: Option<&str>) -> (r: Option<Box<str>>)
    ensures
        opt_box_view(r) == opt_view(value),
{
    match value {
        Some(v) => Some(boxed(v)),
        None => None,
    }
}

/// A text that may be missing, borrowed from its owner.
fn borrow_value<'a>(value: &'a Option<Box<str>>) -> (r: Option<&'a str>)
    ensures
        opt_view(r) == opt_box_view(*value),
{
    match value {
        Some(v) => Some(&**v),
        None => None,
    }
}

impl OwnToken {
    /// Borrow owned token as borrowed token.
    pub fn borrow(&self) -> (t: Token<'_>)
        ensures
            t@ == self@,
    {
        match self {
            OwnToken::Positional(s) => Token::Positional(&**s),
            OwnToken::Short { key, value } => Token::Short { key: *key, value: borrow_value(value) },
            OwnToken::Long { key, value } => Token::Long {
                key: &**key,
                value: borrow_value(value),
            },
            OwnToken::DashDash => Token::DashDash,
        }
    }

    /// The token as it is written on a command line.
    pub fn to_string(&self) -> (s: String)
        ensures
            s@ == self@.text(),
    {
        self.borrow().to_string()
    }
}

impl IntoOwned for Token<'_> {
    type Owned = OwnToken;

    fn into_owned(self) -> (r: OwnToken)
        ensures
            r@ == self@,
    {
        match self {
            Token::Positional(s) => OwnToken::Positional(boxed(s)),
            Token::Short { key, value } => OwnToken::Short { key, value: own_value(value) },
            Token::Long { key, value } => OwnToken::Long { key: boxed(key), value: own_value(value) },
            Token::DashDash => OwnToken::DashDash,
        }
    }
}

/// What a raw argument looks like, before the place it stands in is taken into account.
#[derive(Debug, Clone, Copy, PartialEq, Eq, Structural)]
pub enum Shape {
    /// Exactly `--`.
    Separator,
    /// `--` and more: a long option.
    Long,
    /// `-` and one more character: a short option.
    Short,
    /// `-` and more than one character that do not start with `-`: several short options.
    Cluster,
    /// Anything else, a lone `-` and the empty text among it.
    Plain,
}

/// The shape of the raw argument `arg`.
pub open spec fn shape(arg: Seq<char>) -> Shape {
    if arg.len() < 2 || arg[0] != '-' {
        Shape::Plain
    } else if arg[1] == '-' {
        if arg.len() == 2 {
            Shape::Separator
        } else {
            Shape::Long
        }
    } else if arg.len() == 2 {
        Shape::Short
    } else {
        Shape::Cluster
    }
}

/// The state of a lexer over raw arguments.
pub struct Lexer {
    /// The raw arguments.
    pub args: Seq<Seq<char>>,
    /// How many of them are read.
    pub pos: nat,
    /// The characters of a cluster that are read but not handed out yet.
    pub shorts: Seq<char>,
    /// Whether `--` was read: behind it every argument is positional.
    pub pos_only: bool,
}

impl Lexer {
    /// The state before anything of `args` is read.
    pub open spec fn start(args: Seq<Seq<char>>) -> Lexer {
        Lexer { args, pos: 0, shorts: Seq::<char>::empty(), pos_only: false }
    }

    /// No more is read than there is.
    pub open spec fn wf(self) -> bool {
        self.pos <= self.args.len()
    }

    /// Whether all tokens are handed out.
    pub open spec fn done(self) -> bool {
        self.shorts.len() == 0 && self.pos >= self.args.len()
    }

    /// The shape that decides how the next argument is read: behind `--` every argument is
    /// plain.
    pub open spec fn next_shape(self) -> Shape
        recommends
            self.pos < self.args.len(),
    {
        if self.pos_only {
            Shape::Plain
        } else {
            shape(self.args[self.pos as int])
        }
    }

    /// The value of the option that the next argument is: the argument behind it, unless that
    /// looks like an option itself. A lone `-` does not.
    pub open spec fn value(self) -> Option<Seq<char>>
        recommends
            self.pos < self.args.len(),
    {
        if self.pos + 1 < self.args.len() && shape(self.args[self.pos as int + 1]) == Shape::Plain {
            Some(self.args[self.pos as int + 1])
        } else {
            None
        }
    }

    /// The next token.
    pub open spec fn token(self) -> TokenView
        recommends
            !self.done(),
    {
        if self.shorts.len() > 0 {
            TokenView::Short { key: self.shorts[0], value: None }
        } else {
            let arg = self.args[self.pos as int];
            match self.next_shape() {
                Shape::Separator => TokenView::DashDash,
                Shape::Long => TokenView::Long { key: arg.skip(2), value: self.value() },
                Shape::Short => TokenView::Short { key: arg[1], value: self.value() },
                Shape::Cluster => TokenView::Short { key: arg[1], value: None },
                Shape::Plain => TokenView::Positional(arg),
            }
        }
    }

    /// How many raw arguments the next token is read from: none where it comes out of a cluster
    /// that was read before, two where an option takes its value.
    pub open spec fn taken(self) -> nat
        recommends
            !self.done(),
    {
        if self.shorts.len() > 0 {
            0
        } else if (self.next_shape() == Shape::Long || self.next_shape() == Shape::Short)
            && self.value() is Some {
            2
        } else {
            1
        }
    }

    /// The state behind the next token.
    pub open spec fn advance(self) -> Lexer
        recommends
            !self.done(),
    {
        if self.shorts.len() > 0 {
            Lexer { shorts: self.shorts.skip(1), ..self }
        } else {
            Lexer {
                args: self.args,
                pos: self.pos + self.taken(),
                shorts: if self.next_shape() == Shape::Cluster {
                    self.args[self.pos as int].skip(2)
                } else {
                    Seq::<char>::empty()
                },
                pos_only: self.pos_only || self.next_shape() == Shape::Separator,
            }
        }
    }

    /// All the tokens that are still to come.
    pub open spec fn tokens(self) -> Seq<TokenView>
        decreases self.args.len() - self.pos, self.shorts.len(),
    {
        if self.done() {
            Seq::<TokenView>::empty()
        } else {
            seq![self.token()] + self.advance().tokens()
        }
    }
}

/// The tokens that the raw arguments `args` are read as.
pub open spec fn lex(args: Seq<Seq<char>>) -> Seq<TokenView> {
    Lexer::start(args).tokens()
}

/// Each of `args` as a positional argument.
pub open spec fn positionals(args: Seq<Seq<char>>) -> Seq<TokenView> {
    args.map_values(|arg: Seq<char>| TokenView::Positional(arg))
}

impl Lexer {
    /// A lone `-` that is read as an argument of its own is a positional argument, before `--`
    /// and behind it.
    pub proof fn lemma_lone_dash(self)
        requires
            self.shorts.len() == 0,
            self.pos < self.args.len(),
            self.args[self.pos as int] == seq!['-'],
        ensures
            self.token() == TokenView::Positional(seq!['-']),
            self.advance() == (Lexer { pos: self.pos + 1, ..self }),
    {
        assert(self.shorts =~= Seq::<char>::empty());
    }

    /// Behind `--` every argument is a positional argument, whatever it looks like.
    pub proof fn lemma_positional_only(self)
        requires
            self.wf(),
            self.pos_only,
            self.shorts.len() == 0,
        ensures
            self.tokens() == positionals(self.args.skip(self.pos as int)),
        decreases self.args.len() - self.pos,
    {
        if self.done() {
            assert(self.tokens() =~= positionals(self.args.skip(self.pos as int)));
        } else {
            let next = self.advance();
            assert(self.shorts =~= Seq::<char>::empty());
            assert(next == (Lexer { pos: self.pos + 1, ..self }));
            next.lemma_positional_only();
            assert(self.args.skip(self.pos as int).skip(1) =~= self.args.skip(next.pos as int));
            assert(self.tokens() =~= positionals(self.args.skip(self.pos as int)));
        }
    }

    /// The lexer over the first `n` raw arguments, in the same state.
    pub open spec fn cut_at(self, n: int) -> Lexer {
        Lexer { args: self.args.take(n), ..self }
    }

    /// The first `--` among the arguments is read as the separator and never as the value of an
    /// option: the tokens are those of the arguments before it, the separator, and each
    /// argument behind it as a positional argument.
    pub proof fn lemma_separator(self, at: int)
        requires
            !self.pos_only,
            self.pos <= at < self.args.len(),
            shape(self.args[at]) == Shape::Separator,
            forall|i: int| self.pos <= i < at ==> shape(#[trigger] self.args[i]) != Shape::Separator,
        ensures
            self.tokens() == self.cut_at(at).tokens() + seq![TokenView::DashDash] + positionals(
                self.args.skip(at + 1),
            ),
        decreases self.args.len() - self.pos, self.shorts.len(),
    {
        let cut = self.cut_at(at);
        let next = self.advance();
        if self.shorts.len() > 0 {
            next.lemma_separator(at);
            assert(cut.advance() =~= next.cut_at(at));
        } else if self.pos == at {
            assert(cut.done());
            assert(self.shorts =~= Seq::<char>::empty());
            assert(next == (Lexer { pos: self.pos + 1, pos_only: true, ..self }));
            next.lemma_positional_only();
            assert(self.tokens() =~= cut.tokens() + seq![TokenView::DashDash] + positionals(
                self.args.skip(at + 1),
            ));
        } else {
            assert(cut.args[self.pos as int] == self.args[self.pos as int]);
            assert(cut.value() == self.value());
            assert(cut.token() == self.token());
            assert(cut.advance() =~= next.cut_at(at));
            next.lemma_separator(at);
        }
    }
}

/// The characters of the raw argument `arg`, and behind them the mark `None` for its end.
pub open spec fn frame(arg: Seq<char>) -> Seq<Option<char>> {
    arg.map_values(|c: char| Some(c)).push(None)
}

/// The raw text of `args`: each argument with the mark for its end, one behind the other.
pub open spec fn framed(args: Seq<Seq<char>>) -> Seq<Option<char>>
    decreases args.len(),
{
    if args.len() == 0 {
        Seq::<Option<char>>::empty()
    } else {
        frame(args[0]) + framed(args.skip(1))
    }
}

/// The raw text tells the arguments apart: two lists of arguments with the same raw text are
/// the same list.
pub proof fn lemma_framed_tells_apart(a: Seq<Seq<char>>, b: Seq<Seq<char>>)
    requires
        framed(a) == framed(b),
    ensures
        a == b,
    decreases a.len(),
{
    if a.len() == 0 {
        if b.len() > 0 {
            assert(framed(b).len() >= frame(b[0]).len());
        }
        assert(a =~= b);
    } else {
        if b.len() == 0 {
            assert(framed(a).len() >= frame(a[0]).len());
        }
        let n = a[0].len() as int;
        let m = b[0].len() as int;
        let ra = framed(a.skip(1));
        let rb = framed(b.skip(1));
        assert(framed(a) == frame(a[0]) + ra);
        assert(framed(b) == frame(b[0]) + rb);
        if n < m {
            assert(framed(a)[n] == frame(a[0])[n]);
            assert(framed(b)[n] == frame(b[0])[n]);
        }
        if m < n {
            assert(framed(a)[m] == frame(a[0])[m]);
            assert(framed(b)[m] == frame(b[0])[m]);
        }
        assert forall|i: int| 0 <= i < n implies a[0][i] == b[0][i] by {
            assert(framed(a)[i] == frame(a[0])[i]);
            assert(framed(b)[i] == frame(b[0])[i]);
        }
        assert(a[0] =~= b[0]);
        assert(ra =~= framed(a).skip(n + 1));
        assert(rb =~= framed(b).skip(n + 1));
        lemma_framed_tells_apart(a.skip(1), b.skip(1));
        assert(a =~= seq![a[0]] + a.skip(1));
        assert(b =~= seq![b[0]] + b.skip(1));
    }
}

/// The raw text of one argument.
proof fn lemma_framed_one(a: Seq<char>)
    ensures
        framed(seq![a]) == frame(a),
{
    assert(seq![a].skip(1) =~= Seq::<Seq<char>>::empty());
    assert(framed(Seq::<Seq<char>>::empty()) =~= Seq::<Option<char>>::empty());
    assert(framed(seq![a]) =~= frame(a));
}

/// The raw text of two arguments.
proof fn lemma_framed_two(a: Seq<char>, b: Seq<char>)
    ensures
        framed(seq![a, b]) == frame(a) + frame(b),
{
    assert(seq![a, b].skip(1) =~= seq![b]);
    lemma_framed_one(b);
}

impl TokenView {
    /// The raw arguments that the token is read from where it stands for whole arguments: the
    /// option, and its value where it has one.
    pub open spec fn raw(self) -> Seq<Seq<char>> {
        match self {
            TokenView::Positional(s) => seq![s],
            TokenView::Short { key, value: None } => seq![seq!['-', key]],
            TokenView::Short { key, value: Some(v) } => seq![seq!['-', key], v],
            TokenView::Long { key, value: None } => seq![seq!['-', '-'] + key],
            TokenView::Long { key, value: Some(v) } => seq![seq!['-', '-'] + key, v],
            TokenView::DashDash => seq![seq!['-', '-']],
        }
    }
}

impl Lexer {
    /// The raw text that the next token is read from. Most tokens stand for whole arguments. A
    /// cluster is read in pieces: its first token from the dash and the first key, each later
    /// one from its key, the last of them with the end of the argument.
    pub open spec fn read(self) -> Seq<Option<char>>
        recommends
            !self.done(),
    {
        if self.shorts.len() > 1 {
            seq![Some(self.shorts[0])]
        } else if self.shorts.len() == 1 {
            seq![Some(self.shorts[0]), None]
        } else if self.next_shape() == Shape::Cluster {
            seq![Some('-'), Some(self.args[self.pos as int][1])]
        } else {
            framed(self.token().raw())
        }
    }

    /// The raw text that is not read yet.
    pub open spec fn unread(self) -> Seq<Option<char>> {
        (if self.shorts.len() > 0 {
            frame(self.shorts)
        } else {
            Seq::<Option<char>>::empty()
        }) + framed(self.args.skip(self.pos as int))
    }

    /// The raw text that all the tokens still to come are read from, in their order.
    pub open spec fn reads(self) -> Seq<Option<char>>
        decreases self.args.len() - self.pos, self.shorts.len(),
    {
        if self.done() {
            Seq::<Option<char>>::empty()
        } else {
            self.read() + self.advance().reads()
        }
    }

    /// A step reads what lies directly behind what was read before.
    pub proof fn lemma_read_is_next(self)
        requires
            self.wf(),
            !self.done(),
        ensures
            self.advance().wf(),
            self.unread() == self.read() + self.advance().unread(),
    {
        let next = self.advance();
        if self.shorts.len() > 0 {
            assert(frame(self.shorts) =~= seq![Some(self.shorts[0])] + frame(self.shorts.skip(1)));
            if self.shorts.len() == 1 {
                assert(frame(self.shorts) =~= seq![Some(self.shorts[0]), None]);
            }
            assert(self.unread() =~= self.read() + next.unread());
        } else {
            let arg = self.args[self.pos as int];
            let behind = self.args.skip(self.pos as int + 1);
            let here = self.args.skip(self.pos as int);
            assert(here.skip(1) =~= behind);
            assert(framed(here) == frame(arg) + framed(behind));
            if self.next_shape() == Shape::Cluster {
                assert(frame(arg) =~= seq![Some('-'), Some(arg[1])] + frame(arg.skip(2)));
                assert(self.unread() =~= self.read() + next.unread());
            } else {
                let raw = self.token().raw();
                assert(raw[0] =~= arg);
                if self.taken() == 2 {
                    let value = self.args[self.pos as int + 1];
                    assert(raw =~= seq![arg, value]);
                    lemma_framed_two(arg, value);
                    assert(behind.skip(1) =~= self.args.skip(self.pos as int + 2));
                    assert(behind[0] == value);
                    assert(framed(behind) == frame(value) + framed(behind.skip(1)));
                    assert(self.unread() =~= self.read() + next.unread());
                } else {
                    assert(raw =~= seq![arg]);
                    lemma_framed_one(arg);
                    assert(self.unread() =~= self.read() + next.unread());
                }
            }
        }
    }

    /// Lexing reads every raw argument once, whole and in its place: what the tokens are read
    /// from, put together in their order, is the raw text that was not read before.
    pub proof fn lemma_reads_all(self)
        requires
            self.wf(),
        ensures
            self.reads() == self.unread(),
        decreases self.args.len() - self.pos, self.shorts.len(),
    {
        if self.done() {
            assert(self.args.skip(self.pos as int) =~= Seq::<Seq<char>>::empty());
            assert(self.unread() =~= Seq::<Option<char>>::empty());
        } else {
            self.lemma_read_is_next();
            self.advance().lemma_reads_all();
        }
    }
}

/// Lexing accounts for every raw argument, once and in its place: what the tokens of `args` are
/// read from, put together in their order, is the raw text of `args`.
pub proof fn lemma_lex_reads_all(args: Seq<Seq<char>>)
    ensures
        Lexer::start(args).reads() == framed(args),
{
    let start = Lexer::start(args);
    start.lemma_reads_all();
    assert(args.skip(0) =~= args);
    assert(start.unread() =~= framed(args));
}

impl Lexer {
    /// A token is read from two raw arguments at most: there are at least half as many tokens
    /// to come as arguments to read.
    pub proof fn lemma_tokens_at_least(self)
        requires
            self.wf(),
        ensures
            2 * self.tokens().len() >= self.args.len() - self.pos,
        decreases self.args.len() - self.pos, self.shorts.len(),
    {
        if !self.done() {
            self.lemma_read_is_next();
            self.advance().lemma_tokens_at_least();
        }
    }
}

/// The views of `tokens`, in their order.
pub open spec fn token_views(tokens: Seq<Token<'_>>) -> Seq<TokenView> {
    tokens.map_values(|t: Token<'_>| t@)
}

/// The shape of `arg` and, unless it is plain, the number of its characters.
fn shape_of(arg: &str) -> (r: (Shape, usize))
    ensures
        r.0 == shape(arg@),
        r.0 != Shape::Plain ==> r.1 == arg@.len(),
{
    if arg.is_empty() || arg.get_char(0) != '-' {
        return (Shape::Plain, 0);
    }
    let len: usize = arg.unicode_len();
    if len < 2 {
        (Shape::Plain, len)
    } else if arg.get_char(1) == '-' {
        if len == 2 {
            (Shape::Separator, len)
        } else {
            (Shape::Long, len)
        }
    } else if len == 2 {
        (Shape::Short, len)
    } else {
        (Shape::Cluster, len)
    }
}

/// A lexer over raw arguments: it hands out their tokens one by one.
///
/// It reads from left to right, never goes back, and never looks further than one argument
/// ahead.
#[derive(Debug)]
pub struct Parse<'a> {
    args: &'a [&'a str],
    pos: usize,
    shorts: &'a str,
    pos_only: bool,
}

impl View for Parse<'_> {
    type V = Lexer;

    closed spec fn view(&self) -> Lexer {
        Lexer {
            args: self.args.deep_view(),
            pos: self.pos as nat,
            shorts: self.shorts@,
            pos_only: self.pos_only,
        }
    }
}

impl<'a> Token<'a> {
    /// A lexer over `args`. The first of them is read like the others: leave the path of the
    /// program out.
    pub fn parse(args: &'a [&'a str]) -> (p: Parse<'a>)
        ensures
            p@ == Lexer::start(args.deep_view()),
    {
        proof {
            reveal_strlit("");
        }
        let p = Parse { args, pos: 0, shorts: "", pos_only: false };
        assert(p.shorts@ =~= Seq::<char>::empty());
        p
    }
}

impl<'a> Parse<'a> {
    #[verifier::type_invariant]
    spec fn inv(self) -> bool {
        self.pos <= self.args@.len()
    }

    /// Takes the next raw argument as the value of an option, unless it looks like an option
    /// itself. A lone `-` does not.
    fn next_value(&mut self) -> (r: Option<&'a str>)
        requires
            old(self).shorts@.len() == 0,
            old(self).pos >= 1,
        ensures
            final(self).args == old(self).args,
            final(self).shorts == old(self).shorts,
            final(self).pos_only == old(self).pos_only,
            opt_view(r) == (Lexer { pos: (old(self).pos - 1) as nat, ..old(self)@ }).value(),
            final(self).pos == old(self).pos + (if r is Some { 1int } else { 0int }),
    {
        proof {
            use_type_invariant(&*self);
        }
        if self.pos < self.args.len() {
            let item = self.args[self.pos];
            let (shape, _) = shape_of(item);
            if shape == Shape::Plain {
                self.pos = self.pos + 1;
                return Some(item);
            }
        }
        None
    }

    /// The next token, or `None` behind the last.
    pub fn next(&mut self) -> (r: Option<Token<'a>>)
        ensures
            final(self)@.wf(),
            old(self)@.done() ==> r is None && final(self)@ == old(self)@,
            !old(self)@.done() ==> final(self)@ == old(self)@.advance() && (r matches Some(t)
                && t@ == old(self)@.token()),
    {
        proof {
            use_type_invariant(&*self);
        }
        let ghost pre = self@;
        if !self.shorts.is_empty() {
            let key = self.shorts.get_char(0);
            let len: usize = self.shorts.unicode_len();
            self.shorts = self.shorts.substring_char(1, len);
            assert(self@ =~= pre.advance());
            return Some(Token::Short { key, value: None });
        }
        if self.pos >= self.args.len() {
            return None;
        }
        let item = self.args[self.pos];
        assert(item@ == pre.args[pre.pos as int]);
        assert(self.shorts@ =~= Seq::<char>::empty());
        self.pos = self.pos + 1;
        if self.pos_only {
            assert(self@ =~= pre.advance());
            return Some(Token::Positional(item));
        }
        let (shape, len) = shape_of(item);
        let token = match shape {
            Shape::Separator => {
                self.pos_only = true;
                Token::DashDash
            },
            Shape::Long => Token::Long { key: item.substring_char(2, len), value: self.next_value() },
            Shape::Short => Token::Short { key: item.get_char(1), value: self.next_value() },
            Shape::Cluster => {
                self.shorts = item.substring_char(2, len);
                Token::Short { key: item.get_char(1), value: None }
            },
            Shape::Plain => Token::Positional(item),
        };
        assert(self@ =~= pre.advance());
        Some(token)
    }

    /// Bounds on the number of tokens that are still to come: at least half as many as there
    /// are raw arguments to read, and no upper bound, since one argument may hold many short
    /// options.
    pub fn size_hint(&self) -> (r: (usize, Option<usize>))
        ensures
            r.0 == (self@.args.len() - self@.pos) / 2,
            r.0 <= self@.tokens().len(),
            r.1 is None,
    {
        proof {
            use_type_invariant(self);
            self@.lemma_tokens_at_least();
        }
        ((self.args.len() - self.pos) / 2, None)
    }

    /// All the tokens that are still to come, in their order.
    pub fn collect(self) -> (v: Vec<Token<'a>>)
        ensures
            token_views(v@) == self@.tokens(),
    {
        let mut lexer = self;
        let ghost all = lexer@.tokens();
        let mut out: Vec<Token<'a>> = Vec::new();
        proof {
            use_type_invariant(&lexer);
        }
        assert(token_views(out@) + lexer@.tokens() =~= all);
        loop
            invariant
                lexer@.wf(),
                token_views(out@) + lexer@.tokens() == all,
            ensures
                token_views(out@) == all,
            decreases lexer@.args.len() - lexer@.pos, lexer@.shorts.len(),
        {
            let ghost before = lexer@;
            let ghost sofar = out@;
            match lexer.next() {
                None => {
                    assert(token_views(out@) + Seq::<TokenView>::empty() =~= token_views(out@));
                    break ;
                },
                Some(token) => {
                    out.push(token);
                    assert(token_views(out@) =~= token_views(sofar).push(token@));
                    assert(token_views(out@) + lexer@.tokens() =~= token_views(sofar)
                        + before.tokens());
                },
            }
        }
        out
    }
}

} // verus!
