//! The lazy driver: errors one by one, and the value at the end.

use vstd::prelude::*;
use crate::error::{Error, ErrorView};
use crate::token::{Parse, TokenView};
use crate::{outcome_view, FromArgs, PollInit};

verus! {

/// What is left of a run: the tokens that are still to come and the initializer that takes
/// them. Behind the end of the run there is no initializer.
pub struct Feed<I> {
    pub tokens: Seq<TokenView>,
    pub init: Option<I>,
}

/// One step of a run: what it yields, and what it leaves.
pub struct Step<I, T, C> {
    pub item: Result<T, ErrorView<C>>,
    pub rest: Feed<I>,
}

/// The next step of the run of `init` over `tokens`. The initializer is given the tokens up
/// to the first that it rejects: the step yields that error and leaves the tokens behind it.
/// Where none is rejected the initializer is finished: the step yields what comes of it and
/// ends the run.
pub open spec fn step<'a, I: PollInit<'a>>(init: I, tokens: Seq<TokenView>) -> Step<
    I,
    I::Output,
    I::Err,
>
    decreases tokens.len(),
{
    if tokens.len() == 0 {
        Step { item: init.outcome(), rest: Feed { tokens, init: None } }
    } else {
        match init.rejects(tokens[0]) {
            Some(e) => Step {
                item: Err(e),
                rest: Feed { tokens: tokens.skip(1), init: Some(init.after(tokens[0])) },
            },
            None => step(init.after(tokens[0]), tokens.skip(1)),
        }
    }
}

/// Iterator over parse errors and parsed value.
///
/// Created by [`from_args_iter`](crate::from_args_iter). It yields the error of each token
/// that the initializer rejects, and at last what the initializer is finished into: at least
/// one item, whatever the arguments. Behind that it is at its end.
#[derive(Debug)]
pub struct FromArgsIter<'a, T: FromArgs<'a>> {
    parser: Parse<'a>,
    init: Option<T::Init>,
}

impl<'a, T: FromArgs<'a>> View for FromArgsIter<'a, T> {
    type V = Feed<T::Init>;

    closed spec fn view(&self) -> Feed<T::Init> {
        Feed { tokens: self.parser@.tokens(), init: self.init }
    }
}

impl<'a, T: FromArgs<'a>> FromArgsIter<'a, T> {
    /// The run of `init` over the tokens of `parser`, at its start.
    pub(crate) fn new(parser: Parse<'a>, init: T::Init) -> (iter: Self)
        ensures
            iter@ == (Feed { tokens: parser@.tokens(), init: Some(init) }),
    {
        FromArgsIter { parser, init: Some(init) }
    }

    /// The next error of a token, or what the initializer is finished into, or `None` behind
    /// that.
    pub fn next(&mut self) -> (r: Option<Result<T, Error<'a, <T::Init as PollInit<'a>>::Err>>>)
        ensures
            r is None <==> old(self)@.init is None,
            r is None ==> final(self)@ == old(self)@,
            old(self)@.init is Some ==> final(self)@.init is None || final(self)@.tokens.len()
                < old(self)@.tokens.len(),
            T::Init::obeys_model() ==> (old(self)@.init matches Some(init) ==> {
                &&& r matches Some(item)
                &&& outcome_view(item) == step(init, old(self)@.tokens).item
                &&& final(self)@ == step(init, old(self)@.tokens).rest
            }),
    {
        let mut init = match self.init.take() {
            Some(init) => init,
            None => {
                return None;
            },
        };
        let ghost whole = step(old(self)@.init->0, old(self)@.tokens);
        loop
            invariant
                old(self)@.init is Some,
                whole == step(old(self)@.init->0, old(self)@.tokens),
                self.init is None,
                self.parser@.tokens().len() <= old(self)@.tokens.len(),
                T::Init::obeys_model() ==> step(init, self.parser@.tokens()) == whole,
            decreases self.parser@.args.len() - self.parser@.pos, self.parser@.shorts.len(),
        {
            let ghost before = self.parser@;
            match self.parser.next() {
                Some(token) => {
                    assert(before.tokens().skip(1) =~= self.parser@.tokens());
                    assert(before.tokens()[0] == token@);
                    match init.poll_init(token) {
                        Err(err) => {
                            self.init = Some(init);
                            return Some(Err(err));
                        },
                        Ok(()) => (),
                    }
                },
                None => {
                    assert(before.tokens() =~= Seq::<TokenView>::empty());
                    return Some(init.finish());
                },
            }
        }
    }

    /// Bounds on the number of items that are still to come: one at least, as long as the
    /// initializer is not finished.
    pub fn size_hint(&self) -> (r: (usize, Option<usize>))
        ensures
            r == (1usize, None::<usize>),
    {
        (1, None)
    }
}

} // verus!
