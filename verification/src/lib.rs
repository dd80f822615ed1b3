//! Command line arguments, lexed into tokens and folded into typed values.

pub mod dumb_wrap;
pub mod error;
pub mod from_args;
pub mod help;
pub mod own;
pub mod text;
pub mod token;
pub mod tr;
pub mod width;

pub use error::{Error, ErrorView, OwnError, SwitchAlreadySetError, TooManyOptionsError};
pub use from_args::FromArgsIter;
pub use token::{OwnToken, Parse, Token, TokenView};

use vstd::prelude::*;
use crate::from_args::step;
use crate::token::lex;

verus! {

/// Polling initializer of type `Self::Output`: it takes the tokens of a command line one by one
/// and is then finished into the value.
///
/// The specification functions are the model of the initializer: what it answers and what it
/// becomes, as functions of its state and of the token. An initializer that keeps to its model
/// says so in [`obeys_model`](PollInit::obeys_model); what this library proves of its drivers,
/// it proves of such initializers.
pub trait PollInit<'a>: Sized {
    /// Type being initialized.
    type Output;

    /// Type of errors which may happen additionally to those of [`Error`].
    type Err;

    /// Whether `poll_init` and `finish` do what the model says.
    open spec fn obeys_model() -> bool {
        false
    }

    /// The error that `poll_init` answers `token` with, or none.
    open spec fn rejects(self, token: TokenView) -> Option<ErrorView<Self::Err>> {
        None
    }

    /// The initializer after `poll_init` was given `token`.
    open spec fn after(self, token: TokenView) -> Self {
        self
    }

    /// What `finish` makes of the initializer.
    open spec fn outcome(self) -> Result<Self::Output, ErrorView<Self::Err>> {
        vstd::pervasive::arbitrary()
    }

    /// Sink `token` to progress in initializing `Self::Output`.
    fn poll_init(&mut self, token: Token<'a>) -> (r: Result<(), Error<'a, Self::Err>>)
        ensures
            Self::obeys_model() ==> *final(self) == old(self).after(token@),
            Self::obeys_model() ==> (r is Ok <==> old(self).rejects(token@) is None),
            Self::obeys_model() ==> (r matches Err(e) ==> old(self).rejects(token@) == Some(e@)),
    ;

    /// Finish the initialization.
    ///
    /// Returns error if output type can't be created from given tokens.
    fn finish(self) -> (r: Result<Self::Output, Error<'a, Self::Err>>)
        ensures
            Self::obeys_model() ==> outcome_view(r) == self.outcome(),
    ;
}

/// Type that can be created from command line arguments.
pub trait FromArgs<'a>: Sized {
    /// Initializer of this type which holds possibly uninitialized data.
    type Init: PollInit<'a, Output = Self>;

    /// The initializer before it was given a token.
    open spec fn initial() -> Self::Init {
        vstd::pervasive::arbitrary()
    }

    /// Returns initializer of this type.
    fn initializer() -> (init: Self::Init)
        ensures
            Self::Init::obeys_model() ==> init == Self::initial(),
    ;
}

/// A result with its error as a view.
pub open spec fn outcome_view<T, C>(r: Result<T, Error<'_, C>>) -> Result<T, ErrorView<C>> {
    match r {
        Ok(v) => Ok(v),
        Err(e) => Err(e@),
    }
}

/// The views of `errors`, in their order.
pub open spec fn error_views<C>(errors: Seq<Error<'_, C>>) -> Seq<ErrorView<C>> {
    errors.map_values(|e: Error<'_, C>| e@)
}

/// The initializer `init` after it was given each of `tokens`, in their order.
pub open spec fn fed<'a, I: PollInit<'a>>(init: I, tokens: Seq<TokenView>) -> I
    decreases tokens.len(),
{
    if tokens.len() == 0 {
        init
    } else {
        fed(init.after(tokens[0]), tokens.skip(1))
    }
}

/// The errors that `init` answers with while it is given each of `tokens`, in their order.
pub open spec fn rejections<'a, I: PollInit<'a>>(init: I, tokens: Seq<TokenView>) -> Seq<
    ErrorView<I::Err>,
>
    decreases tokens.len(),
{
    if tokens.len() == 0 {
        Seq::<ErrorView<I::Err>>::empty()
    } else {
        (match init.rejects(tokens[0]) {
            Some(e) => seq![e],
            None => Seq::<ErrorView<I::Err>>::empty(),
        }) + rejections(init.after(tokens[0]), tokens.skip(1))
    }
}

/// What comes of giving `init` every one of `tokens`, whether it rejects some or not, and
/// finishing it then: the value where no token was rejected and the initializer could be
/// finished, and else every error in the order in which it came up, that of finishing last.
pub open spec fn collected<'a, I: PollInit<'a>>(init: I, tokens: Seq<TokenView>) -> Result<
    I::Output,
    Seq<ErrorView<I::Err>>,
> {
    let errors = rejections(init, tokens);
    match fed(init, tokens).outcome() {
        Ok(v) => if errors.len() == 0 {
            Ok(v)
        } else {
            Err(errors)
        },
        Err(e) => Err(errors.push(e)),
    }
}

/// What comes of giving `init` the `tokens` up to the first that it rejects: that error, or
/// where there is none, what the initializer is finished into.
pub open spec fn first_outcome<'a, I: PollInit<'a>>(init: I, tokens: Seq<TokenView>) -> Result<
    I::Output,
    ErrorView<I::Err>,
> {
    step(init, tokens).item
}

/// A step of a run yields the first of the errors that are still to be collected and leaves
/// the others, or it ends the run where no token is rejected any more.
pub proof fn lemma_step_collects<'a, I: PollInit<'a>>(init: I, tokens: Seq<TokenView>)
    ensures
        match step(init, tokens).rest.init {
            Some(next) => {
                &&& step(init, tokens).item matches Err(e)
                &&& rejections(init, tokens) == seq![e] + rejections(
                    next,
                    step(init, tokens).rest.tokens,
                )
                &&& fed(init, tokens) == fed(next, step(init, tokens).rest.tokens)
            },
            None => {
                &&& rejections(init, tokens).len() == 0
                &&& step(init, tokens).item == fed(init, tokens).outcome()
            },
        },
    decreases tokens.len(),
{
    if tokens.len() > 0 && init.rejects(tokens[0]) is None {
        lemma_step_collects(init.after(tokens[0]), tokens.skip(1));
        assert(rejections(init, tokens) =~= rejections(init.after(tokens[0]), tokens.skip(1)));
    }
}

/// The two policies agree on the first error: where a token is rejected, or no value comes of
/// finishing, the error that stops the first gives up on is the first that the second
/// collects; and the first gives a value exactly where the second does.
pub proof fn lemma_first_of_collected<'a, I: PollInit<'a>>(init: I, tokens: Seq<TokenView>)
    ensures
        match first_outcome(init, tokens) {
            Ok(v) => collected(init, tokens) == Ok::<I::Output, Seq<ErrorView<I::Err>>>(v),
            Err(e) => collected(init, tokens) matches Err(errors) && errors.len() > 0
                && errors[0] == e,
        },
{
    lemma_step_collects(init, tokens);
}

/// Creates [`FromArgsIter`] from raw arguments.
///
/// The iterator yields every error that came up, and then what the initializer of `T` is
/// finished into. The first of `args` is read like the others: leave the path of the program
/// out.
pub fn from_args_iter<'a, T: FromArgs<'a>>(args: &'a [&'a str]) -> (iter: FromArgsIter<'a, T>)
    ensures
        iter@.init is Some,
        iter@.tokens == lex(args.deep_view()),
        T::Init::obeys_model() ==> iter@.init == Some(T::initial()),
{
    FromArgsIter::new(Token::parse(args), T::initializer())
}

/// Creates `T` from raw arguments, or returns the first error that came up. Behind that error
/// no token is looked at, and the initializer is not finished.
pub fn from_args<'a, T: FromArgs<'a>>(args: &'a [&'a str]) -> (r: Result<
    T,
    Error<'a, <T::Init as PollInit<'a>>::Err>,
>)
    ensures
        T::Init::obeys_model() ==> outcome_view(r) == first_outcome(
            T::initial(),
            lex(args.deep_view()),
        ),
{
    let mut iter = from_args_iter::<T>(args);
    iter.next().unwrap()
}

/// The result of the accumulating driver, with its errors as views.
pub open spec fn collected_view<T, C>(r: Result<T, Vec<Error<'_, C>>>) -> Result<
    T,
    Seq<ErrorView<C>>,
> {
    match r {
        Ok(v) => Ok(v),
        Err(errors) => Err(error_views(errors@)),
    }
}

/// What the accumulating driver makes of the errors that the tokens met with and of what the
/// initializer was finished into: the value only where there is no error at all, and else
/// every error, that of finishing last.
pub fn sum_up<'a, T, C>(errors: Vec<Error<'a, C>>, finished: Result<T, Error<'a, C>>) -> (r: Result<
    T,
    Vec<Error<'a, C>>,
>)
    ensures
        match finished {
            Ok(v) => if errors@.len() == 0 {
                r == Ok::<T, Vec<Error<'a, C>>>(v)
            } else {
                r == Err::<T, Vec<Error<'a, C>>>(errors)
            },
            Err(e) => r matches Err(all) && all@ == errors@.push(e),
        },
{
    let mut errors = errors;
    match finished {
        Ok(v) => if errors.len() == 0 {
            Ok(v)
        } else {
            Err(errors)
        },
        Err(e) => {
            errors.push(e);
            Err(errors)
        },
    }
}

/// Creates `T` from raw arguments, or returns all the errors that came up: every token is
/// given to the initializer, whether an earlier one was rejected or not, and the initializer is
/// finished behind the last.
pub fn collect_from_args<'a, T: FromArgs<'a>>(args: &'a [&'a str]) -> (r: Result<
    T,
    Vec<Error<'a, <T::Init as PollInit<'a>>::Err>>,
>)
    ensures
        r matches Err(errors) ==> errors@.len() > 0,
        T::Init::obeys_model() ==> collected_view(r) == collected(
            T::initial(),
            lex(args.deep_view()),
        ),
{
    let mut parser = Token::parse(args);
    let mut init = T::initializer();
    let mut errors: Vec<Error<'a, <T::Init as PollInit<'a>>::Err>> = Vec::new();
    let ghost start = T::initial();
    let ghost tokens = lex(args.deep_view());
    assert(error_views(errors@) + rejections(init, parser@.tokens()) =~= rejections(
        init,
        parser@.tokens(),
    ));
    loop
        invariant
            T::Init::obeys_model() ==> error_views(errors@) + rejections(init, parser@.tokens())
                == rejections(start, tokens),
            T::Init::obeys_model() ==> fed(init, parser@.tokens()) == fed(start, tokens),
        ensures
            T::Init::obeys_model() ==> error_views(errors@) == rejections(start, tokens),
            T::Init::obeys_model() ==> init == fed(start, tokens),
        decreases parser@.args.len() - parser@.pos, parser@.shorts.len(),
    {
        let ghost before = parser@;
        let ghost sofar = errors@;
        match parser.next() {
            Some(token) => {
                assert(before.tokens().skip(1) =~= parser@.tokens());
                let ghost was = init;
                if let Err(error) = init.poll_init(token) {
                    errors.push(error);
                    assert(error_views(errors@) =~= error_views(sofar).push(error@));
                }
                assert(T::Init::obeys_model() ==> error_views(errors@) + rejections(
                    init,
                    parser@.tokens(),
                ) =~= error_views(sofar) + rejections(was, before.tokens()));
            },
            None => {
                assert(before.tokens() =~= Seq::<TokenView>::empty());
                assert(error_views(errors@) + Seq::<ErrorView<<T::Init as PollInit<'a>>::Err>>::empty()
                    =~= error_views(errors@));
                break ;
            },
        }
    }
    let ghost met = errors@;
    let r = sum_up(errors, init.finish());
    proof {
        if r is Err && r->Err_0@.len() > met.len() {
            let all = r->Err_0@;
            assert(error_views(all) =~= error_views(met).push(all[met.len() as int]@));
        }
    }
    r
}

/// Puts the value that `val` makes into `opt`, unless there is one already: then `opt` stays as
/// it is and the error that `f` makes is returned. An error of `val` is returned as it is.
pub fn try_insert<T, E>(
    opt: &mut Option<T>,
    val: impl FnOnce() -> Result<T, E>,
    f: impl FnOnce() -> E,
) -> (r: Result<(), E>)
    requires
        *old(opt) is None ==> val.requires(()),
        *old(opt) is Some ==> f.requires(()),
    ensures
        match *old(opt) {
            Some(_) => *final(opt) == *old(opt) && (r matches Err(e) && f.ensures((), e)),
            None => match r {
                Ok(()) => *final(opt) matches Some(v) && val.ensures((), Ok(v)),
                Err(e) => *final(opt) is None && val.ensures((), Err(e)),
            },
        },
{
    match opt {
        Some(_) => Err(f()),
        None => match val() {
            Ok(v) => {
                *opt = Some(v);
                Ok(())
            },
            Err(e) => Err(e),
        },
    }
}

} // verus!
