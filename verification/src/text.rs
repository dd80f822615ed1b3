//! Small steps on texts: characters appended, and texts copied into boxes of their own.

use vstd::prelude::*;

verus! {

/// `n` spaces.
pub open spec fn spaces(n: nat) -> Seq<char> {
    Seq::new(n, |i: int| ' ')
}

/// Calls `String::push`, which appends the character `c` to `out`.
#[verifier::external_body]
pub(crate) fn push_char(out: &mut String, c: char)
    ensures
        final(out)@ == old(out)@.push(c),
{
    out.push(c)
}

/// Calls `Box::<str>::from`, which copies the text `s` into a box of its own.
#[verifier::external_body]
pub(crate) fn boxed(s: &str) -> (b: Box<str>)
    ensures
        b@ == s@,
{
    Box::<str>::from(s)
}

/// `Clone::clone` of a boxed text gives a box with the same text.
pub assume_specification[ <Box<str> as Clone>::clone ](b: &Box<str>) -> (r: Box<str>)
    ensures
        r@ == b@,
;

/// Appends `n` spaces to `out`.
pub(crate) fn push_spaces(out: &mut String, n: usize)
    ensures
        final(out)@ == old(out)@ + spaces(n as nat),
{
    let mut i: usize = 0;
    assert(out@ =~= old(out)@ + spaces(0));
    while i < n
        invariant
            i <= n,
            out@ == old(out)@ + spaces(i as nat),
        decreases n - i,
    {
        push_char(out, ' ');
        i = i + 1;
        assert(out@ =~= old(out)@ + spaces(i as nat));
    }
}

} // verus!
