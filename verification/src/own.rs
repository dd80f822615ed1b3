//! Counterparts of the builder traits for values that borrow nothing from the arguments.

use vstd::prelude::*;
use crate::error::{ErrorView, OwnError};
use crate::token::lex;
use crate::tr::IntoOwned;
use crate::{collect_from_args, collected, error_views, FromArgs, PollInit};

verus! {

/// Counterpart to [`FromArgs`] which does not borrow from args.
///
/// A type that is created from arguments of any lifetime, always with the same initializer,
/// implements this trait by naming that initializer.
pub trait FromArgsOwned: Sized where
    for <'a>Self: FromArgs<'a, Init = <Self as FromArgsOwned>::OwnInit>,
 {
    type OwnInit: PollInitOwned<OwnOutput = Self>;
}

/// Counterpart to [`PollInit`] which produces owned values.
pub trait PollInitOwned where
    for <'a>Self: PollInit<
        'a,
        Output = <Self as PollInitOwned>::OwnOutput,
        Err = <Self as PollInitOwned>::OwnErr,
    >,
 {
    type OwnOutput;

    type OwnErr;
}

impl<T, O, E> PollInitOwned for T where for <'a>T: PollInit<'a, Output = O, Err = E> {
    type OwnOutput = O;

    type OwnErr = E;
}

/// The views of `errors`, in their order.
pub open spec fn own_error_views<C>(errors: Seq<OwnError<C>>) -> Seq<ErrorView<C>> {
    errors.map_values(|e: OwnError<C>| e@)
}

/// The result of the owning driver, with its errors as views.
pub open spec fn owned_view<T, C>(r: Result<T, Vec<OwnError<C>>>) -> Result<T, Seq<ErrorView<C>>> {
    match r {
        Ok(v) => Ok(v),
        Err(errors) => Err(own_error_views(errors@)),
    }
}

/// Creates `T` from raw arguments that need not live longer than the call, or returns all the
/// errors that came up, as [`collect_from_args`] does, each with texts of its own.
pub fn collect_owned<'a, T: FromArgsOwned>(args: &'a [&'a str]) -> (r: Result<
    T,
    Vec<OwnError<<T::OwnInit as PollInitOwned>::OwnErr>>,
>)
    ensures
        r matches Err(errors) ==> errors@.len() > 0,
        <T::OwnInit as PollInit<'a>>::obeys_model() ==> owned_view(r) == collected(
            <T as FromArgs<'a>>::initial(),
            lex(args.deep_view()),
        ),
{
    match collect_from_args::<T>(args) {
        Ok(v) => Ok(v),
        Err(errors) => {
            let ghost views = error_views(errors@);
            let mut owned: Vec<OwnError<<T::OwnInit as PollInitOwned>::OwnErr>> = Vec::new();
            for error in iter: errors
                invariant
                    error_views(iter.seq()) == views,
                    own_error_views(owned@) == views.take(iter.index() as int),
            {
                let ghost sofar = owned@;
                owned.push(error.into_owned());
                assert(own_error_views(owned@) =~= own_error_views(sofar).push(error@));
                assert(own_error_views(owned@) =~= views.take(iter.index() + 1));
            }
            assert(own_error_views(owned@) =~= views);
            Err(owned)
        },
    }
}

} // verus!
