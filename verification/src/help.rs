//! The help text of a program, laid out from a description of its arguments.

use vstd::prelude::*;
use vstd::string::StringExecFns;
use crate::dumb_wrap::{columns, Item, ItemView, Wrap, WrapView};
use crate::text::{push_char, push_spaces, spaces};
use crate::width::{char_width, str_columns, str_width};

verus! {

/// A positional argument.
pub struct Pos<'a> {
    pub name: &'a str,
    pub descr: &'a str,
}

/// When an option has to be given.
pub enum Required<'a> {
    Required,
    Optional,
    If(&'a str),
}

/// What an option takes.
pub enum Kind<'a> {
    /// A value, shown under `name`, with `default` where the option is left out.
    Value { name: Option<&'a str>, default: Option<&'a str> },
    /// Nothing: the option is there or not.
    Flag,
    /// Nothing: the option is counted.
    Count,
}

/// An option.
pub struct Opt<'a> {
    pub short: Option<char>,
    pub long: Option<&'a str>,
    pub kind: Kind<'a>,
    pub descr: &'a str,
    pub required: Required<'a>,
}

impl<'a> Opt<'a> {
    /// The keys of the option as they are shown: `-k`, `--key`, or both.
    pub open spec fn keys(&self) -> Seq<char> {
        match (self.short, self.long) {
            (None, None) => Seq::<char>::empty(),
            (None, Some(l)) => "--"@ + l@,
            (Some(s), None) => "-"@.push(s),
            (Some(s), Some(l)) => "-"@.push(s) + ", --"@ + l@,
        }
    }

    /// The place of the value as it is shown behind the keys.
    pub open spec fn value(&self) -> Seq<char> {
        match self.kind {
            Kind::Value { name: Some(name), .. } => " <"@ + name@ + ">"@,
            Kind::Value { name: None, .. } => " <val>"@,
            _ => Seq::<char>::empty(),
        }
    }

    /// The option as it is shown at the start of its row.
    pub open spec fn label(&self) -> Seq<char> {
        self.keys() + self.value()
    }

    /// Columns of the keys as they are shown.
    pub open spec fn keys_columns(&self) -> nat {
        match (self.short, self.long) {
            (None, None) => 0nat,
            (None, Some(l)) => 2 + str_columns(l@) as nat,
            (Some(s), None) => 1 + columns(s),
            (Some(s), Some(l)) => 5 + columns(s) + str_columns(l@) as nat,
        }
    }

    /// Columns of the place of the value as it is shown.
    pub open spec fn value_columns(&self) -> nat {
        match self.kind {
            Kind::Value { name: Some(name), .. } => 3 + str_columns(name@) as nat,
            Kind::Value { name: None, .. } => 6,
            _ => 0,
        }
    }

    /// Columns of the label as it is shown: those of the keys and of the name of the value,
    /// each measured by itself, and one for every character that stands around them.
    pub open spec fn label_columns(&self) -> nat {
        self.keys_columns() + self.value_columns()
    }

    /// Columns of the label as it is shown, or `None` where their number is too large for a
    /// `usize`.
    fn width(&self) -> (w: Option<usize>)
        ensures
            w matches Some(n) ==> n == self.label_columns(),
            w is None <==> self.label_columns() > usize::MAX,
    {
        let short: usize = match self.short {
            Some(s) => match char_width(s) {
                Some(w) => w,
                None => 0,
            },
            None => 0,
        };
        let long: usize = match self.long {
            Some(l) => str_width(l),
            None => 0,
        };
        let around: usize = match (self.short, self.long) {
            (None, None) => 0,
            (None, Some(_)) => 2,
            (Some(_), None) => 1,
            (Some(_), Some(_)) => 5,
        };
        let (value, brackets): (usize, usize) = match self.kind {
            Kind::Value { name: Some(name), .. } => (str_width(name), 3),
            Kind::Value { name: None, .. } => (0, 6),
            _ => (0, 0),
        };
        let fixed: usize = around + brackets;
        match short.checked_add(long) {
            Some(keys) => match keys.checked_add(value) {
                Some(measured) => measured.checked_add(fixed),
                None => None,
            },
            None => None,
        }
    }

    /// Appends the label of the option to `out`.
    pub fn write(&self, out: &mut String)
        ensures
            final(out)@ == old(out)@ + self.label(),
    {
        match (self.short, self.long) {
            (None, None) => {},
            (None, Some(l)) => {
                out.append("--");
                out.append(l);
            },
            (Some(s), None) => {
                out.append("-");
                push_char(out, s);
            },
            (Some(s), Some(l)) => {
                out.append("-");
                push_char(out, s);
                out.append(", --");
                out.append(l);
            },
        }
        assert(out@ =~= old(out)@ + self.keys());
        match self.kind {
            Kind::Value { name: Some(name), .. } => {
                out.append(" <");
                out.append(name);
                out.append(">");
            },
            Kind::Value { name: None, .. } => {
                out.append(" <val>");
            },
            _ => {},
        }
        assert(out@ =~= old(out)@ + self.label());
    }
}

/// The texts of `items` one behind the other, with a line break and `pad` spaces behind each
/// item that ends a line.
pub open spec fn laid_out(items: Seq<ItemView>, pad: nat) -> Seq<char>
    decreases items.len(),
{
    if items.len() == 0 {
        Seq::<char>::empty()
    } else {
        (match items[0] {
            ItemView::Part(p) => p,
            ItemView::Break(l) => l + "\n"@ + spaces(pad),
        }) + laid_out(items.skip(1), pad)
    }
}

/// The text of `chunks`, wrapped to lines of `limit` columns, each line after the first behind
/// `pad` spaces.
pub open spec fn wrapped(limit: nat, chunks: Seq<Seq<char>>, pad: nat) -> Seq<char> {
    laid_out(WrapView::start(limit, chunks).items(), pad)
}

/// Appends to `out` what is left in `wrap`, each line after the first behind `pad` spaces.
fn write_wrapped(out: &mut String, wrap: Wrap<'_>, pad: usize)
    ensures
        final(out)@ == old(out)@ + laid_out(wrap@.items(), pad as nat),
{
    let mut wrap = wrap;
    let ghost all = laid_out(wrap@.items(), pad as nat);
    assert(out@ + all =~= old(out)@ + all);
    loop
        invariant
            out@ + laid_out(wrap@.items(), pad as nat) == old(out)@ + all,
        ensures
            out@ == old(out)@ + all,
        decreases wrap@.pending(), wrap@.spent,
    {
        let ghost before = wrap@;
        let ghost sofar = out@;
        match wrap.next() {
            None => {
                proof {
                    before.lemma_settle();
                }
                assert(out@ + Seq::<char>::empty() =~= out@);
                break ;
            },
            Some(Item::Part(p)) => {
                out.append(p);
            },
            Some(Item::Break(l)) => {
                out.append(l);
                out.append("\n");
                push_spaces(out, pad);
            },
        }
        proof {
            before.lemma_advance_decreases();
            assert(before.items().skip(1) =~= wrap@.items());
            assert(out@ + laid_out(wrap@.items(), pad as nat) =~= sofar + laid_out(
                before.items(),
                pad as nat,
            ));
        }
    }
}

/// One row of a block: the label behind `indent` spaces, then the wrapped text of `chunks`,
/// which starts in column `descr_ind` on every line.
pub open spec fn row(
    label: Seq<char>,
    label_columns: nat,
    chunks: Seq<Seq<char>>,
    limit: nat,
    indent: nat,
    descr_ind: nat,
) -> Seq<char> {
    spaces(indent) + label + spaces((descr_ind - label_columns - indent) as nat) + wrapped(
        (limit - descr_ind) as nat,
        chunks,
        descr_ind,
    )
}

impl<'a> Pos<'a> {
    /// Columns of the name.
    pub open spec fn label_columns(&self) -> nat {
        str_columns(self.name@) as nat
    }

    /// The chunks of text that describe the argument.
    pub open spec fn chunks(&self) -> Seq<Seq<char>> {
        seq![self.descr@, "\n"@]
    }

    /// The row of the argument.
    pub open spec fn row(&self, limit: nat, indent: nat, descr_ind: nat) -> Seq<char> {
        row(self.name@, self.label_columns(), self.chunks(), limit, indent, descr_ind)
    }
}

impl<'a> Opt<'a> {
    /// The chunks of text that describe the option: its description and, for a value with a
    /// default, the default.
    pub open spec fn chunks(&self) -> Seq<Seq<char>> {
        match self.kind {
            Kind::Value { default: Some(def), .. } => seq![
                self.descr@,
                " [default: "@,
                def@,
                "]\n"@,
            ],
            _ => seq![self.descr@, "\n"@],
        }
    }

    /// The row of the option.
    pub open spec fn row(&self, limit: nat, indent: nat, descr_ind: nat) -> Seq<char> {
        row(self.label(), self.label_columns(), self.chunks(), limit, indent, descr_ind)
    }
}

/// The widest name among the first `n` of `ps`, in columns.
pub open spec fn pos_columns(ps: Seq<Pos<'_>>, n: int) -> nat
    decreases n,
{
    if n <= 0 {
        0
    } else if ps[n - 1].label_columns() > pos_columns(ps, n - 1) {
        ps[n - 1].label_columns()
    } else {
        pos_columns(ps, n - 1)
    }
}

/// The widest label among the first `n` of `os`, in columns.
pub open spec fn opt_columns(os: Seq<Opt<'_>>, n: int) -> nat
    decreases n,
{
    if n <= 0 {
        0
    } else if os[n - 1].label_columns() > opt_columns(os, n - 1) {
        os[n - 1].label_columns()
    } else {
        opt_columns(os, n - 1)
    }
}

/// The rows of the first `n` of `ps`.
pub open spec fn pos_rows(ps: Seq<Pos<'_>>, n: int, limit: nat, indent: nat, descr_ind: nat) -> Seq<
    char,
>
    decreases n,
{
    if n <= 0 {
        Seq::<char>::empty()
    } else {
        pos_rows(ps, n - 1, limit, indent, descr_ind) + ps[n - 1].row(limit, indent, descr_ind)
    }
}

/// The rows of the first `n` of `os`.
pub open spec fn opt_rows(os: Seq<Opt<'_>>, n: int, limit: nat, indent: nat, descr_ind: nat) -> Seq<
    char,
>
    decreases n,
{
    if n <= 0 {
        Seq::<char>::empty()
    } else {
        opt_rows(os, n - 1, limit, indent, descr_ind) + os[n - 1].row(limit, indent, descr_ind)
    }
}

/// Column in which the descriptions of a block start: behind the indentation, the widest label
/// and the indentation once more.
pub open spec fn descr_column(indent: nat, widest: nat) -> nat {
    indent + widest + indent
}

/// The block of the positional arguments: nothing where there are none.
pub open spec fn pos_block(ps: Seq<Pos<'_>>, limit: nat, indent: nat) -> Seq<char> {
    if ps.len() == 0 {
        Seq::<char>::empty()
    } else {
        "\n\nPositional arguments:\n"@ + pos_rows(
            ps,
            ps.len() as int,
            limit,
            indent,
            descr_column(indent, pos_columns(ps, ps.len() as int)),
        )
    }
}

/// The block of the options: nothing where there are none.
pub open spec fn opt_block(os: Seq<Opt<'_>>, limit: nat, indent: nat) -> Seq<char> {
    if os.len() == 0 {
        Seq::<char>::empty()
    } else {
        "\n\nOptions:\n"@ + opt_rows(
            os,
            os.len() as int,
            limit,
            indent,
            descr_column(indent, opt_columns(os, os.len() as int)),
        )
    }
}

/// No name among the first `n` of `ps` is wider than the widest.
proof fn lemma_pos_columns(ps: Seq<Pos<'_>>, n: int, i: int)
    requires
        0 <= i < n,
    ensures
        ps[i].label_columns() <= pos_columns(ps, n),
    decreases n,
{
    if i < n - 1 {
        lemma_pos_columns(ps, n - 1, i);
    }
}

/// No label among the first `n` of `os` is wider than the widest.
proof fn lemma_opt_columns(os: Seq<Opt<'_>>, n: int, i: int)
    requires
        0 <= i < n,
    ensures
        os[i].label_columns() <= opt_columns(os, n),
    decreases n,
{
    if i < n - 1 {
        lemma_opt_columns(os, n - 1, i);
    }
}

/// The widest name among `ps`, in columns.
fn widest_pos(ps: &[Pos<'_>]) -> (w: usize)
    ensures
        w == pos_columns(ps@, ps@.len() as int),
{
    let mut widest: usize = 0;
    let mut i: usize = 0;
    while i < ps.len()
        invariant
            i <= ps@.len(),
            widest == pos_columns(ps@, i as int),
        decreases ps@.len() - i,
    {
        let w = str_width(ps[i].name);
        if w > widest {
            widest = w;
        }
        i = i + 1;
    }
    widest
}

/// The widest label among `os`, in columns, or `None` where their number is too large for a
/// `usize`.
fn widest_opt(os: &[Opt<'_>]) -> (w: Option<usize>)
    ensures
        w matches Some(n) ==> n == opt_columns(os@, os@.len() as int),
        w is None <==> opt_columns(os@, os@.len() as int) > usize::MAX,
{
    let mut widest: usize = 0;
    let mut i: usize = 0;
    while i < os.len()
        invariant
            i <= os@.len(),
            widest == opt_columns(os@, i as int),
        decreases os@.len() - i,
    {
        match os[i].width() {
            Some(w) => {
                if w > widest {
                    widest = w;
                }
            },
            None => {
                proof {
                    lemma_opt_columns(os@, os@.len() as int, i as int);
                }
                return None;
            },
        }
        i = i + 1;
    }
    Some(widest)
}

/// Appends the block of the positional arguments to `out`.
fn write_positionals(out: &mut String, ps: &[Pos<'_>], limit: usize, indent: usize)
    requires
        ps@.len() > 0 ==> descr_column(indent as nat, pos_columns(ps@, ps@.len() as int)) <= limit,
    ensures
        final(out)@ == old(out)@ + pos_block(ps@, limit as nat, indent as nat),
{
    if ps.len() == 0 {
        assert(out@ =~= old(out)@ + pos_block(ps@, limit as nat, indent as nat));
        return ;
    }
    out.append("\n\nPositional arguments:\n");
    let widest = widest_pos(ps);
    let descr_ind: usize = indent + widest + indent;
    let ghost head = out@;
    let mut i: usize = 0;
    assert(out@ =~= head + pos_rows(ps@, 0, limit as nat, indent as nat, descr_ind as nat));
    while i < ps.len()
        invariant
            i <= ps@.len(),
            widest == pos_columns(ps@, ps@.len() as int),
            descr_ind == descr_column(indent as nat, widest as nat),
            descr_ind <= limit,
            out@ == head + pos_rows(ps@, i as int, limit as nat, indent as nat, descr_ind as nat),
        decreases ps@.len() - i,
    {
        let pos = &ps[i];
        let ghost sofar = out@;
        proof {
            lemma_pos_columns(ps@, ps@.len() as int, i as int);
        }
        push_spaces(out, indent);
        out.append(pos.name);
        push_spaces(out, descr_ind - str_width(pos.name) - indent);
        let chunks = [pos.descr, "\n"];
        let chunks = chunks.as_slice();
        assert(chunks.deep_view() =~= pos.chunks());
        write_wrapped(out, Wrap::new(limit - descr_ind, chunks), descr_ind);
        i = i + 1;
        assert(out@ =~= sofar + ps@[i - 1].row(limit as nat, indent as nat, descr_ind as nat));
        assert(out@ =~= head + pos_rows(
            ps@,
            i as int,
            limit as nat,
            indent as nat,
            descr_ind as nat,
        ));
    }
    assert(out@ =~= old(out)@ + pos_block(ps@, limit as nat, indent as nat));
}

/// The chunks of text that describe `opt`.
fn opt_chunks<'a>(opt: &Opt<'a>) -> (chunks: Vec<&'a str>)
    ensures
        chunks.deep_view() == opt.chunks(),
        chunks@.len() > 0,
{
    let mut chunks: Vec<&'a str> = Vec::new();
    chunks.push(opt.descr);
    match opt.kind {
        Kind::Value { default: Some(def), .. } => {
            chunks.push(" [default: ");
            chunks.push(def);
            chunks.push("]\n");
        },
        _ => {
            chunks.push("\n");
        },
    }
    assert(chunks.deep_view() =~= opt.chunks());
    chunks
}

/// Appends the block of the options to `out`.
fn write_options(out: &mut String, os: &[Opt<'_>], limit: usize, indent: usize)
    requires
        os@.len() > 0 ==> descr_column(indent as nat, opt_columns(os@, os@.len() as int)) <= limit,
    ensures
        final(out)@ == old(out)@ + opt_block(os@, limit as nat, indent as nat),
{
    if os.len() == 0 {
        assert(out@ =~= old(out)@ + opt_block(os@, limit as nat, indent as nat));
        return ;
    }
    out.append("\n\nOptions:\n");
    let widest = match widest_opt(os) {
        Some(widest) => widest,
        None => vstd::pervasive::unreached(),
    };
    let descr_ind: usize = indent + widest + indent;
    let ghost head = out@;
    let mut i: usize = 0;
    assert(out@ =~= head + opt_rows(os@, 0, limit as nat, indent as nat, descr_ind as nat));
    while i < os.len()
        invariant
            i <= os@.len(),
            widest == opt_columns(os@, os@.len() as int),
            descr_ind == descr_column(indent as nat, widest as nat),
            descr_ind <= limit,
            out@ == head + opt_rows(os@, i as int, limit as nat, indent as nat, descr_ind as nat),
        decreases os@.len() - i,
    {
        let opt = &os[i];
        let ghost sofar = out@;
        proof {
            lemma_opt_columns(os@, os@.len() as int, i as int);
        }
        push_spaces(out, indent);
        opt.write(out);
        let width = match opt.width() {
            Some(width) => width,
            None => vstd::pervasive::unreached(),
        };
        push_spaces(out, descr_ind - width - indent);
        let chunks = opt_chunks(opt);
        write_wrapped(out, Wrap::new(limit - descr_ind, chunks.as_slice()), descr_ind);
        i = i + 1;
        assert(out@ =~= sofar + os@[i - 1].row(limit as nat, indent as nat, descr_ind as nat));
        assert(out@ =~= head + opt_rows(
            os@,
            i as int,
            limit as nat,
            indent as nat,
            descr_ind as nat,
        ));
    }
    assert(out@ =~= old(out)@ + opt_block(os@, limit as nat, indent as nat));
}

/// Tells whether the descriptions of a block, whose widest label takes `widest` columns, can
/// start in a column of a line of `limit` columns.
fn column_fits(indent: usize, widest: Option<usize>, limit: usize) -> (b: bool)
    ensures
        b <==> (widest matches Some(w) && descr_column(indent as nat, w as nat) <= limit),
{
    match widest {
        Some(w) => match indent.checked_add(w) {
            Some(label_end) => match label_end.checked_add(indent) {
                Some(column) => column <= limit,
                None => false,
            },
            None => false,
        },
        None => false,
    }
}

/// What a program says of itself and of its arguments.
pub enum Description<'a> {
    /// Nothing.
    Empty,
    /// A text that is shown as it is.
    Raw(&'a str),
    /// A text, a line on how the program is called, and the arguments one by one.
    Typed { descr: &'a str, usage: &'a str, positionals: &'a [Pos<'a>], options: &'a [Opt<'a>] },
}

/// Columns of a line: as many as a `usize` can count where no limit is set.
pub open spec fn line_columns(width_limit: Option<usize>) -> nat {
    match width_limit {
        Some(limit) => limit as nat,
        None => usize::MAX as nat,
    }
}

impl<'a> Description<'a> {
    /// Whether the help text can be laid out on lines of `width_limit` columns with `indent`
    /// spaces before and behind the labels: the line that shows how the program is called needs
    /// its two columns of indentation, and in each block the descriptions need a column to
    /// start in.
    pub open spec fn lays_out(&self, width_limit: Option<usize>, indent: usize) -> bool {
        match *self {
            Description::Typed { positionals, options, .. } => {
                let limit = line_columns(width_limit);
                &&& 2 <= limit
                &&& positionals@.len() > 0 ==> descr_column(
                    indent as nat,
                    pos_columns(positionals@, positionals@.len() as int),
                ) <= limit
                &&& options@.len() > 0 ==> descr_column(
                    indent as nat,
                    opt_columns(options@, options@.len() as int),
                ) <= limit
            },
            _ => true,
        }
    }

    /// The help text.
    pub open spec fn rendered(&self, width_limit: Option<usize>, indent: usize) -> Seq<char> {
        match *self {
            Description::Empty => Seq::<char>::empty(),
            Description::Raw(s) => s@,
            Description::Typed { descr, usage, positionals, options } => {
                let limit = line_columns(width_limit);
                wrapped(limit, seq![descr@], 0) + "\n\nUsage:\n  "@ + wrapped(
                    (limit - 2) as nat,
                    seq![usage@],
                    2,
                ) + pos_block(positionals@, limit, indent as nat) + opt_block(
                    options@,
                    limit,
                    indent as nat,
                )
            },
        }
    }

    /// Appends the help text to `out`, for lines of `width_limit` columns and with `indent` spaces
    /// before and behind the labels.
    pub fn write_i(&self, out: &mut String, width_limit: Option<usize>, indent: usize)
        requires
            self.lays_out(width_limit, indent),
        ensures
            final(out)@ == old(out)@ + self.rendered(width_limit, indent),
    {
        match *self {
            Description::Empty => {
                assert(out@ =~= old(out)@ + self.rendered(width_limit, indent));
            },
            Description::Raw(s) => {
                out.append(s);
            },
            Description::Typed { descr, usage, positionals, options } => {
                let limit: usize = match width_limit {
                    Some(limit) => limit,
                    None => usize::MAX,
                };
                let chunks = [descr];
                let chunks = chunks.as_slice();
                assert(chunks.deep_view() =~= seq![descr@]);
                write_wrapped(out, Wrap::new(limit, chunks), 0);
                out.append("\n\nUsage:\n  ");
                let chunks = [usage];
                let chunks = chunks.as_slice();
                assert(chunks.deep_view() =~= seq![usage@]);
                write_wrapped(out, Wrap::new(limit - 2, chunks), 2);
                write_positionals(out, positionals, limit, indent);
                write_options(out, options, limit, indent);
                assert(out@ =~= old(out)@ + self.rendered(width_limit, indent));
            },
        }
    }

    /// Tells whether the help text can be laid out: see [`Description::lays_out`].
    pub fn can_lay_out(&self, width_limit: Option<usize>, indent: usize) -> (b: bool)
        ensures
            b == self.lays_out(width_limit, indent),
    {
        match *self {
            Description::Typed { positionals, options, .. } => {
                let limit: usize = match width_limit {
                    Some(limit) => limit,
                    None => usize::MAX,
                };
                if limit < 2 {
                    return false;
                }
                if positionals.len() > 0 && !column_fits(indent, Some(widest_pos(positionals)), limit) {
                    return false;
                }
                if options.len() > 0 && !column_fits(indent, widest_opt(options), limit) {
                    return false;
                }
                true
            },
            _ => true,
        }
    }

    /// The help text for lines of `width_limit` columns, with `indent` spaces before and behind
    /// the labels, or `None` where it cannot be laid out so.
    pub fn render(&self, width_limit: Option<usize>, indent: usize) -> (text: Option<String>)
        ensures
            text is Some <==> self.lays_out(width_limit, indent),
            text matches Some(t) ==> t@ == self.rendered(width_limit, indent),
    {
        if self.can_lay_out(width_limit, indent) {
            let mut out = String::new();
            self.write_i(&mut out, width_limit, indent);
            assert(out@ =~= self.rendered(width_limit, indent));
            Some(out)
        } else {
            None
        }
    }
}

} // verus!
