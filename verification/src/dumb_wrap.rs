//! Greedy word wrapping over a sequence of text chunks.

use vstd::prelude::*;
use vstd::std_specs::iter::IteratorSpec;
use crate::width::{char_columns, char_width, str_columns, str_width};

verus! {

/// Columns of `c` as the line breaker counts them: a control character takes none.
pub open spec fn columns(c: char) -> nat {
    match char_columns(c) {
        Some(w) => w as nat,
        None => 0,
    }
}

/// Columns of the first `n` characters of `s`, each counted by itself.
pub open spec fn width_upto(s: Seq<char>, n: int) -> nat
    decreases n,
{
    if n <= 0 {
        0
    } else {
        width_upto(s, n - 1) + columns(s[n - 1])
    }
}

/// Whether the first `n` characters of `s` may stand on a line with `at_w` columns left. A space
/// at the end of them is not counted: the line may end before it.
pub open spec fn fits(s: Seq<char>, n: int, at_w: nat) -> bool {
    width_upto(s, n) - (if s[n - 1] == ' ' { 1int } else { 0int }) <= at_w
}

/// How many characters of `s` a line with `at_w` columns left can take, counted from `n`
/// characters that it takes already: the scan stops before the first character that does not fit.
pub open spec fn reach_from(s: Seq<char>, at_w: nat, n: int) -> int
    decreases s.len() - n,
{
    if 0 <= n < s.len() && fits(s, n + 1, at_w) {
        reach_from(s, at_w, n + 1)
    } else {
        n
    }
}

/// How many characters of `s` a line with `at_w` columns left can take.
pub open spec fn reach(s: Seq<char>, at_w: nat) -> int {
    reach_from(s, at_w, 0)
}

/// Index of the last space among the first `n` characters of `s`.
pub open spec fn last_space(s: Seq<char>, n: int) -> Option<int>
    decreases n,
{
    if n <= 0 {
        None
    } else if s[n - 1] == ' ' {
        Some(n - 1)
    } else {
        last_space(s, n - 1)
    }
}

/// The line that `s` starts with when `at_w` columns are left, and what stays for later lines.
///
/// Without a space in reach the line is cut where it is full. With one, and more text behind
/// what fits, the line ends before the last space in reach and the rest starts behind it.
pub open spec fn split_at_width(s: Seq<char>, at_w: nat) -> (Seq<char>, Seq<char>) {
    let hard = reach(s, at_w);
    match last_space(s, hard) {
        None => (s.take(hard), s.skip(hard)),
        Some(soft) => if hard == s.len() {
            (s, Seq::<char>::empty())
        } else {
            (s.take(soft), s.skip(soft + 1))
        },
    }
}

/// Where the last space among the first `n` characters lies, if there is one.
pub proof fn lemma_last_space_bounds(s: Seq<char>, n: int)
    requires
        n <= s.len(),
    ensures
        last_space(s, n) matches Some(i) ==> 0 <= i < n && s[i] == ' ',
    decreases n,
{
    if n > 0 && s[n - 1] != ' ' {
        lemma_last_space_bounds(s, n - 1);
    }
}

/// The scan for a line stops inside the text, and not before where it started.
pub proof fn lemma_reach_bounds(s: Seq<char>, at_w: nat, n: int)
    requires
        0 <= n <= s.len(),
    ensures
        n <= reach_from(s, at_w, n) <= s.len(),
    decreases s.len() - n,
{
    if n < s.len() && fits(s, n + 1, at_w) {
        lemma_reach_bounds(s, at_w, n + 1);
    }
}

/// What a line can take is the longest start of the text of which every non-empty start fits.
pub proof fn lemma_reach_is_longest_fit(s: Seq<char>, at_w: nat)
    ensures
        0 <= reach(s, at_w) <= s.len(),
        forall|j: int| 1 <= j <= reach(s, at_w) ==> fits(s, j, at_w),
        reach(s, at_w) < s.len() ==> !fits(s, reach(s, at_w) + 1, at_w),
{
    lemma_reach_bounds(s, at_w, 0);
    lemma_reach_from_fits(s, at_w, 0);
}

proof fn lemma_reach_from_fits(s: Seq<char>, at_w: nat, n: int)
    requires
        0 <= n <= s.len(),
    ensures
        forall|j: int| n < j <= reach_from(s, at_w, n) ==> fits(s, j, at_w),
        reach_from(s, at_w, n) < s.len() ==> !fits(s, reach_from(s, at_w, n) + 1, at_w),
    decreases s.len() - n,
{
    if n < s.len() && fits(s, n + 1, at_w) {
        lemma_reach_from_fits(s, at_w, n + 1);
    }
}

/// The columns of the first `n` characters depend on these characters alone.
proof fn lemma_width_of_start(s: Seq<char>, t: Seq<char>, n: int)
    requires
        0 <= n <= s.len(),
        n <= t.len(),
        forall|i: int| 0 <= i < n ==> s[i] == t[i],
    ensures
        width_upto(s, n) == width_upto(t, n),
    decreases n,
{
    if n > 0 {
        lemma_width_of_start(s, t, n - 1);
    }
}

/// The first half of a split fits on the line, and so does every non-empty start of it.
pub proof fn lemma_split_fits(s: Seq<char>, at_w: nat)
    ensures
        forall|j: int| 1 <= j <= split_at_width(s, at_w).0.len() ==> fits(
            split_at_width(s, at_w).0,
            j,
            at_w,
        ),
{
    let hard = reach(s, at_w);
    let l = split_at_width(s, at_w).0;
    lemma_reach_is_longest_fit(s, at_w);
    lemma_last_space_bounds(s, hard);
    assert forall|j: int| 1 <= j <= l.len() implies fits(l, j, at_w) by {
        assert(fits(s, j, at_w));
        lemma_width_of_start(l, s, j);
    }
}

/// The two halves of a split are the text again, but for one space that may have stood
/// between them. The second half is the whole text only where nothing fits.
pub proof fn lemma_split_covers(s: Seq<char>, at_w: nat)
    ensures
        ({
            let (l, r) = split_at_width(s, at_w);
            &&& s == l + r || s == l + seq![' '] + r
            &&& s != l + r ==> r.len() > 0
            &&& r.len() <= s.len()
            &&& r.len() == s.len() ==> reach(s, at_w) == 0
        }),
{
    let hard = reach(s, at_w);
    lemma_reach_bounds(s, at_w, 0);
    lemma_last_space_bounds(s, hard);
    let (l, r) = split_at_width(s, at_w);
    match last_space(s, hard) {
        None => {
            assert(s =~= l + r);
        },
        Some(soft) => {
            if hard == s.len() {
                assert(s =~= l + r);
            } else {
                assert(s =~= l + seq![' '] + r);
            }
        },
    }
}

/// What a scan of a text for its first line found.
struct Scan {
    /// How many characters fit.
    hard: usize,
    /// Where the last space among them lies.
    soft: Option<usize>,
    /// How many characters the text has.
    len: usize,
}

/// Walks over `s` up to the first character that does not fit in `at_w` columns.
fn scan(s: &str, at_w: usize) -> (r: Scan)
    ensures
        r.len == s@.len(),
        r.hard == reach(s@, at_w as nat),
        r.hard <= r.len,
        r.soft matches Some(i) ==> last_space(s@, r.hard as int) == Some(i as int) && i < r.hard,
        r.soft is None ==> last_space(s@, r.hard as int) is None,
{
    broadcast use vstd::string::group_string_axioms;

    let n: usize = s.unicode_len();
    let mut width: u128 = 0;
    let mut hard: usize = 0;
    let mut soft: Option<usize> = None;
    let mut it = s.chars();
    loop
        invariant_except_break
            it.remaining() == s@.skip(hard as int),
        invariant
            hard <= n,
            n == s@.len(),
            width == width_upto(s@, hard as int),
            width <= at_w + 1,
            soft matches Some(i) ==> last_space(s@, hard as int) == Some(i as int),
            soft is None ==> last_space(s@, hard as int) is None,
            reach(s@, at_w as nat) == reach_from(s@, at_w as nat, hard as int),
        ensures
            reach(s@, at_w as nat) == hard,
        decreases n - hard,
    {
        let c = match it.next() {
            Some(c) => c,
            None => {
                break ;
            },
        };
        assert(c == s@[hard as int]);
        let cw: u128 = match char_width(c) {
            Some(w) => w as u128,
            None => 0,
        };
        let allowed: u128 = if c == ' ' {
            at_w as u128 + 1
        } else {
            at_w as u128
        };
        if width + cw > allowed {
            break ;
        }
        width = width + cw;
        if c == ' ' {
            soft = Some(hard);
        }
        hard = hard + 1;
    }
    proof {
        lemma_last_space_bounds(s@, hard as int);
    }
    Scan { hard, soft, len: n }
}

/// Cuts the line that fits in `at_w` columns off the front of `s`.
pub fn split_w<'a>(s: &'a str, at_w: usize) -> (r: (&'a str, &'a str))
    ensures
        (r.0@, r.1@) == split_at_width(s@, at_w as nat),
{
    let found = scan(s, at_w);
    match found.soft {
        None => (s.substring_char(0, found.hard), s.substring_char(found.hard, found.len)),
        Some(at) => if found.hard == found.len {
            (s, s.substring_char(found.len, found.len))
        } else {
            (s.substring_char(0, at), s.substring_char(at + 1, found.len))
        },
    }
}

/// One piece of wrapped text.
#[derive(Debug, Clone, Copy, PartialEq, Eq)]
pub enum Item<'a> {
    /// Text after which the line goes on.
    Part(&'a str),
    /// Text after which the line ends.
    Break(&'a str),
}

/// An [`Item`] with its text as a sequence of characters.
pub enum ItemView {
    Part(Seq<char>),
    Break(Seq<char>),
}

impl View for Item<'_> {
    type V = ItemView;

    open spec fn view(&self) -> ItemView {
        match *self {
            Item::Part(s) => ItemView::Part(s@),
            Item::Break(s) => ItemView::Break(s@),
        }
    }
}

impl ItemView {
    /// The text of the piece.
    pub open spec fn text(self) -> Seq<char> {
        match self {
            ItemView::Part(s) => s,
            ItemView::Break(s) => s,
        }
    }
}

/// Number of characters in all of `chunks`.
pub open spec fn total_len(chunks: Seq<Seq<char>>) -> nat
    decreases chunks.len(),
{
    if chunks.len() == 0 {
        0
    } else {
        chunks[0].len() + total_len(chunks.skip(1))
    }
}

/// The state of a [`Wrap`]: a line breaker at work.
pub struct WrapView {
    /// Columns of a line.
    pub max: nat,
    /// Columns of the current line that are taken.
    pub spent: nat,
    /// What is left of the chunk being read.
    pub curr: Seq<char>,
    /// The chunks behind it.
    pub rest: Seq<Seq<char>>,
}

impl WrapView {
    /// The state before anything of `chunks` is read.
    pub open spec fn start(max: nat, chunks: Seq<Seq<char>>) -> WrapView
        recommends
            chunks.len() > 0,
    {
        WrapView { max, spent: 0, curr: chunks[0], rest: chunks.skip(1) }
    }

    /// A line never holds more than it has room for.
    pub open spec fn wf(self) -> bool {
        self.spent == 0 || self.spent < self.max
    }

    /// The state at the next chunk that holds text, or behind the last chunk: where chunks
    /// border on each other means nothing, and so a chunk without text is passed over.
    pub open spec fn settle(self) -> WrapView
        decreases self.rest.len(),
    {
        if self.curr.len() == 0 && self.rest.len() > 0 {
            (WrapView { curr: self.rest[0], rest: self.rest.skip(1), ..self }).settle()
        } else {
            self
        }
    }

    /// Whether the sequence of items has ended: no chunk holds text any more.
    pub open spec fn done(self) -> bool {
        self.settle().curr.len() == 0
    }

    /// Columns left on the current line.
    pub open spec fn room(self) -> nat {
        (self.max - self.spent) as nat
    }

    /// Whether not even the first character fits on a line of its own. It is then put on one
    /// all the same, so that every step takes something.
    pub open spec fn forced(self) -> bool {
        self.spent == 0 && reach(self.curr, self.room()) == 0
    }

    /// The text that is cut off the current chunk, and what is left of the chunk.
    pub open spec fn cut(self) -> (Seq<char>, Seq<char>) {
        if self.forced() {
            (self.curr.take(1), self.curr.skip(1))
        } else {
            split_at_width(self.curr, self.room())
        }
    }

    /// Whether the line goes on behind the text that is cut off: the text stood at the end of
    /// its chunk and left at least one column free.
    pub open spec fn stays(self) -> bool {
        let (l, r) = self.cut();
        !self.forced() && r.len() == 0 && self.max > self.spent + str_columns(l)
    }

    /// The next item: it is cut off the next chunk that holds text.
    pub open spec fn item(self) -> ItemView
        recommends
            !self.done(),
    {
        let at = self.settle();
        if at.stays() {
            ItemView::Part(at.cut().0)
        } else {
            ItemView::Break(at.cut().0)
        }
    }

    /// The state behind the next item.
    pub open spec fn advance(self) -> WrapView
        recommends
            !self.done(),
    {
        let at = self.settle();
        let (l, r) = at.cut();
        WrapView {
            max: at.max,
            spent: if at.stays() {
                at.spent + str_columns(l) as nat
            } else {
                0
            },
            curr: r,
            rest: at.rest,
        }
    }

    /// Characters that are still to be read.
    pub open spec fn pending(self) -> nat {
        self.curr.len() + total_len(self.rest)
    }
}

/// The texts of `chunks`, one behind the other.
pub open spec fn joined(chunks: Seq<Seq<char>>) -> Seq<char>
    decreases chunks.len(),
{
    if chunks.len() == 0 {
        Seq::<char>::empty()
    } else {
        chunks[0] + joined(chunks.skip(1))
    }
}

/// Whether `text` is what `items` were cut from: the texts of the items in their order, with
/// nothing between them but, behind an item that ends a line, the one space that the line
/// break may stand for.
pub open spec fn unwraps_to(items: Seq<ItemView>, text: Seq<char>) -> bool
    decreases items.len(),
{
    if items.len() == 0 {
        text.len() == 0
    } else {
        let l = items[0].text();
        let behind = text.skip(l.len() as int);
        &&& l.is_prefix_of(text)
        &&& {
            ||| unwraps_to(items.skip(1), behind)
            ||| items[0] is Break && behind.len() > 0 && behind[0] == ' ' && unwraps_to(
                items.skip(1),
                behind.skip(1),
            )
        }
    }
}

impl WrapView {
    /// All the items that are still to come.
    pub open spec fn items(self) -> Seq<ItemView>
        decreases self.pending(), self.spent,
    {
        if self.done() {
            Seq::<ItemView>::empty()
        } else {
            proof {
                self.lemma_advance_decreases();
            }
            seq![self.item()] + self.advance().items()
        }
    }

    /// The text that is still to be read: what is left of the current chunk, and every chunk
    /// behind it.
    pub open spec fn text(self) -> Seq<char> {
        self.curr + joined(self.rest)
    }

    /// Passing over chunks without text changes neither the line nor the text that is still
    /// to be read, and ends at a chunk that holds text or behind the last chunk.
    pub proof fn lemma_settle(self)
        ensures
            self.settle().max == self.max,
            self.settle().spent == self.spent,
            self.settle().pending() == self.pending(),
            self.settle().text() == self.text(),
            self.settle().settle() == self.settle(),
            self.settle().curr.len() == 0 ==> self.settle().rest.len() == 0,
        decreases self.rest.len(),
    {
        if self.curr.len() == 0 && self.rest.len() > 0 {
            let next = WrapView { curr: self.rest[0], rest: self.rest.skip(1), ..self };
            next.lemma_settle();
            assert(self.text() =~= next.text());
        }
    }

    /// Every step takes at least one character, or starts a new line on which the next step
    /// takes one: so the items come to an end.
    pub proof fn lemma_advance_decreases(self)
        requires
            !self.done(),
        ensures
            self.advance().pending() < self.pending() || (self.advance().pending()
                == self.pending() && self.advance().spent < self.spent),
    {
        self.lemma_settle();
        let at = self.settle();
        lemma_split_covers(at.curr, at.room());
    }

    /// A step keeps a line from holding more than it has room for.
    pub proof fn lemma_advance_wf(self)
        requires
            self.wf(),
        ensures
            self.advance().wf(),
    {
        self.lemma_settle();
    }

    /// Wrapping loses nothing: the items, put together again, are the text of all the chunks.
    /// Only a space at which a line was broken is left out, and only behind an item that ends
    /// a line.
    pub proof fn lemma_items_unwrap(self)
        ensures
            unwraps_to(self.items(), self.text()),
        decreases self.pending(), self.spent,
    {
        self.lemma_settle();
        let at = self.settle();
        if !self.done() {
            self.lemma_advance_decreases();
            let next = self.advance();
            next.lemma_items_unwrap();
            lemma_split_covers(at.curr, at.room());
            let (l, r) = at.cut();
            let items = self.items();
            let behind = joined(at.rest);
            assert(next.text() =~= r + behind);
            assert(items[0] == self.item());
            assert(items.skip(1) =~= next.items());
            if at.forced() {
                assert(at.curr =~= l + r);
            }
            if at.curr == l + r {
                assert(self.text() =~= l + next.text());
                assert(self.text().skip(l.len() as int) =~= next.text());
            } else {
                assert(at.curr == l + seq![' '] + r);
                assert(self.text() =~= l + seq![' '] + next.text());
                assert(self.text().skip(l.len() as int).skip(1) =~= next.text());
                assert(self.item() is Break);
            }
        } else {
            assert(joined(at.rest) =~= Seq::<char>::empty());
            assert(self.text() =~= Seq::<char>::empty());
        }
    }
}

/// The views of `items`, in their order.
pub open spec fn item_views(items: Seq<Item<'_>>) -> Seq<ItemView> {
    items.map_values(|it: Item<'_>| it@)
}

/// A greedy line breaker over a sequence of chunks of text.
///
/// The chunks are read as one text: a line may end inside a chunk or run over the border
/// between two.
pub struct Wrap<'a> {
    max: usize,
    spent: usize,
    chunks: &'a [&'a str],
    /// Index of the chunk behind the current one.
    next: usize,
    curr: &'a str,
}

impl View for Wrap<'_> {
    type V = WrapView;

    closed spec fn view(&self) -> WrapView {
        WrapView {
            max: self.max as nat,
            spent: self.spent as nat,
            curr: self.curr@,
            rest: self.chunks.deep_view().skip(self.next as int),
        }
    }
}

impl<'a> Wrap<'a> {
    #[verifier::type_invariant]
    spec fn inv(self) -> bool {
        &&& self.spent == 0 || self.spent < self.max
        &&& self.next <= self.chunks@.len()
    }

    /// A line breaker for lines of `max` columns over `chunks`, of which there is at least one.
    pub fn new(max: usize, chunks: &'a [&'a str]) -> (w: Self)
        requires
            chunks@.len() > 0,
        ensures
            w@ == WrapView::start(max as nat, chunks.deep_view()),
            w@.wf(),
    {
        Wrap { max, spent: 0, chunks, next: 1, curr: chunks[0] }
    }

    /// Goes on to the next chunk that holds text, or behind the last chunk.
    fn settle(&mut self)
        ensures
            final(self)@ == old(self)@.settle(),
    {
        proof {
            use_type_invariant(&*self);
        }
        while self.curr.is_empty() && self.next < self.chunks.len()
            invariant
                self.next <= self.chunks@.len(),
                self.spent == 0 || self.spent < self.max,
                self@.settle() == old(self)@.settle(),
            decreases self.chunks@.len() - self.next,
        {
            let ghost before = self@;
            self.curr = self.chunks[self.next];
            self.next = self.next + 1;
            assert(self@.rest == before.rest.skip(1));
            assert(self@.curr == before.rest[0]);
        }
    }

    /// The next item, or `None` behind the last.
    pub fn next(&mut self) -> (r: Option<Item<'a>>)
        ensures
            final(self)@.wf(),
            old(self)@.done() ==> r is None && final(self)@ == old(self)@.settle(),
            !old(self)@.done() ==> final(self)@ == old(self)@.advance() && (r matches Some(it)
                && it@ == old(self)@.item()),
    {
        proof {
            use_type_invariant(&*self);
        }
        self.settle();
        proof {
            use_type_invariant(&*self);
        }
        if self.curr.is_empty() {
            return None;
        }
        let ghost at = self@;
        let found = scan(self.curr, self.max - self.spent);
        if found.hard == 0 && self.spent == 0 {
            let l = self.curr.substring_char(0, 1);
            let r = self.curr.substring_char(1, found.len);
            assert(l@ == at.curr.take(1) && r@ == at.curr.skip(1));
            self.curr = r;
            return Some(Item::Break(l));
        }
        let (l, r) = match found.soft {
            None => (
                self.curr.substring_char(0, found.hard),
                self.curr.substring_char(found.hard, found.len),
            ),
            Some(soft) => if found.hard == found.len {
                (self.curr, self.curr.substring_char(found.len, found.len))
            } else {
                (self.curr.substring_char(0, soft), self.curr.substring_char(soft + 1, found.len))
            },
        };
        assert((l@, r@) == at.cut());
        let taken = str_width(l);
        if r.is_empty() && taken < self.max - self.spent {
            self.spent = self.spent + taken;
            self.curr = r;
            Some(Item::Part(l))
        } else {
            self.spent = 0;
            self.curr = r;
            Some(Item::Break(l))
        }
    }

    /// All the items that are still to come, in their order.
    pub fn collect(self) -> (v: Vec<Item<'a>>)
        ensures
            item_views(v@) == self@.items(),
    {
        let mut wrap = self;
        let ghost all = wrap@.items();
        let mut out: Vec<Item<'a>> = Vec::new();
        assert(item_views(out@) + wrap@.items() =~= all);
        loop
            invariant
                item_views(out@) + wrap@.items() == all,
            ensures
                item_views(out@) == all,
            decreases wrap@.pending(), wrap@.spent,
        {
            let ghost before = wrap@;
            let ghost sofar = out@;
            match wrap.next() {
                None => {
                    proof {
                        before.lemma_settle();
                    }
                    assert(item_views(out@) + Seq::<ItemView>::empty() =~= item_views(out@));
                    break ;
                },
                Some(it) => {
                    proof {
                        before.lemma_advance_decreases();
                    }
                    out.push(it);
                    assert(item_views(out@) =~= item_views(sofar).push(it@));
                    assert(item_views(out@) + wrap@.items() =~= item_views(sofar)
                        + before.items());
                },
            }
        }
        out
    }
}

} // verus!
