//! What can go wrong while arguments are turned into a value.

use std::convert::Infallible;
use std::fmt::Display;
use vstd::pervasive::cloned;
use vstd::prelude::*;
use vstd::string::{to_string_from_display_ensures, StringExecFns};
use crate::token::{OwnToken, Token, TokenView};
use crate::tr::IntoOwned;

verus! {

/// Error occurred when parsing command line arguments.
#[derive(Debug)]
pub enum Error<'a, C = Infallible> {
    /// Unknown option. I.e. `-x` was provided, but not expected.
    UnknownOption(Token<'a>),
    /// Unexpected multiple options. I.e. `--opt --opt` were provided, but `opt` is a flag.
    UnexpectedMulti(Token<'a>),
    /// Expected value was not provided. I.e. `-o` was provided, but `-o` requires a value.
    ExpectedValue(Token<'a>),
    /// Value was provided but not expected. I.e. `--opt value` was provided, but `--opt` is a
    /// flag.
    UnexpectedValue(Token<'a>),
    /// Expected positional argument, but option was provided.
    ExpectedPositional(Token<'a>),
    /// Unexpected positional argument. I.e. all positional arguments are already taken.
    UnexpectedPositional(Token<'a>),
    /// Required option was not present. I.e. `-x <val>` was required but not provided.
    RequiredOption(&'static str),
    /// Too many options caused an overflow of the counter.
    TooManyOptions(Token<'a>),
    /// Custom error. Usually this represents an error of parsing a value.
    Custom(C),
}

/// An error that owns its texts.
#[derive(Debug)]
pub enum OwnError<C = Infallible> {
    /// Unknown option. I.e. `-x` was provided, but not expected.
    UnknownOption(OwnToken),
    /// Unexpected multiple options. I.e. `--opt --opt` were provided, but `opt` is a flag.
    UnexpectedMulti(OwnToken),
    /// Expected value was not provided. I.e. `-o` was provided, but `-o` requires a value.
    ExpectedValue(OwnToken),
    /// Value was provided but not expected. I.e. `--opt value` was provided, but `--opt` is a
    /// flag.
    UnexpectedValue(OwnToken),
    /// Expected positional argument, but option was provided.
    ExpectedPositional(OwnToken),
    /// Unexpected positional argument. I.e. all positional arguments are already taken.
    UnexpectedPositional(OwnToken),
    /// Required option was not present. I.e. `-x <val>` was required but not provided.
    RequiredOption(&'static str),
    /// Too many options caused an overflow of the counter.
    TooManyOptions(OwnToken),
    /// Custom error. Usually this represents an error of parsing a value.
    Custom(C),
}

/// What an error holds: the token that caused it, as a view, or the custom error as it is.
pub enum ErrorView<C> {
    UnknownOption(TokenView),
    UnexpectedMulti(TokenView),
    ExpectedValue(TokenView),
    UnexpectedValue(TokenView),
    ExpectedPositional(TokenView),
    UnexpectedPositional(TokenView),
    RequiredOption(Seq<char>),
    TooManyOptions(TokenView),
    Custom(C),
}

impl<'a, C> View for Error<'a, C> {
    type V = ErrorView<C>;

    open spec fn view(&self) -> ErrorView<C> {
        match *self {
            Error::UnknownOption(t) => ErrorView::UnknownOption(t@),
            Error::UnexpectedMulti(t) => ErrorView::UnexpectedMulti(t@),
            Error::ExpectedValue(t) => ErrorView::ExpectedValue(t@),
            Error::UnexpectedValue(t) => ErrorView::UnexpectedValue(t@),
            Error::ExpectedPositional(t) => ErrorView::ExpectedPositional(t@),
            Error::UnexpectedPositional(t) => ErrorView::UnexpectedPositional(t@),
            Error::RequiredOption(s) => ErrorView::RequiredOption(s@),
            Error::TooManyOptions(t) => ErrorView::TooManyOptions(t@),
            Error::Custom(c) => ErrorView::Custom(c),
        }
    }
}

impl<C> View for OwnError<C> {
    type V = ErrorView<C>;

    open spec fn view(&self) -> ErrorView<C> {
        match *self {
            OwnError::UnknownOption(t) => ErrorView::UnknownOption(t@),
            OwnError::UnexpectedMulti(t) => ErrorView::UnexpectedMulti(t@),
            OwnError::ExpectedValue(t) => ErrorView::ExpectedValue(t@),
            OwnError::UnexpectedValue(t) => ErrorView::UnexpectedValue(t@),
            OwnError::ExpectedPositional(t) => ErrorView::ExpectedPositional(t@),
            OwnError::UnexpectedPositional(t) => ErrorView::UnexpectedPositional(t@),
            OwnError::RequiredOption(s) => ErrorView::RequiredOption(s@),
            OwnError::TooManyOptions(t) => ErrorView::TooManyOptions(t@),
            OwnError::Custom(c) => ErrorView::Custom(c),
        }
    }
}

impl<C> ErrorView<C> {
    /// The words that say what is wrong, and the text in backticks that they are said of: the
    /// token as it is written on a command line, or the key of the option that is missing.
    pub open spec fn parts(self) -> (Seq<char>, Seq<char>)
        recommends
            !(self is Custom),
    {
        match self {
            ErrorView::UnknownOption(t) => ("Unknown option: `"@, t.text()),
            ErrorView::UnexpectedMulti(t) => ("Unexpected multiple options: `"@, t.text()),
            ErrorView::ExpectedValue(t) => ("Expected option with value: `"@, t.text()),
            ErrorView::UnexpectedValue(t) => ("Unexpected option with value: `"@, t.text()),
            ErrorView::ExpectedPositional(t) => (
                "Expected possitional argument, found: `"@,
                t.text(),
            ),
            ErrorView::UnexpectedPositional(t) => ("Unexpected possitional argument: `"@, t.text()),
            ErrorView::RequiredOption(opt) => ("Required option `"@, opt),
            ErrorView::TooManyOptions(t) => ("Too many options: `"@, t.text()),
            ErrorView::Custom(_) => (Seq::<char>::empty(), Seq::<char>::empty()),
        }
    }

    /// What stands behind the text in backticks.
    pub open spec fn tail(self) -> Seq<char> {
        match self {
            ErrorView::RequiredOption(_) => "` was not provided"@,
            _ => "`"@,
        }
    }

    /// The error as it is shown to a user, unless it is a custom error.
    pub open spec fn message(self) -> Seq<char>
        recommends
            !(self is Custom),
    {
        self.parts().0 + self.parts().1 + self.tail()
    }
}

/// Puts the message of an error together: `head`, the token, and a backtick.
fn token_message(head: &str, token: &Token<'_>) -> (s: String)
    ensures
        s@ == head@ + token@.text() + "`"@,
{
    let mut out = String::from_str(head);
    token.write(&mut out);
    out.append("`");
    out
}

impl<'a, C> Error<'a, C> {
    /// The error as it is shown to a user. A custom error is shown as it shows itself.
    pub fn to_string(&self) -> (s: String) where C: Display
        ensures
            match self {
                Error::Custom(c) => to_string_from_display_ensures::<C>(c, s),
                _ => s@ == self@.message(),
            },
    {
        match self {
            Error::UnknownOption(t) => token_message("Unknown option: `", t),
            Error::UnexpectedMulti(t) => token_message("Unexpected multiple options: `", t),
            Error::ExpectedValue(t) => token_message("Expected option with value: `", t),
            Error::UnexpectedValue(t) => token_message("Unexpected option with value: `", t),
            Error::ExpectedPositional(t) => token_message(
                "Expected possitional argument, found: `",
                t,
            ),
            Error::UnexpectedPositional(t) => token_message("Unexpected possitional argument: `", t),
            Error::RequiredOption(opt) => {
                let mut out = String::from_str("Required option `");
                out.append(opt);
                out.append("` was not provided");
                out
            },
            Error::TooManyOptions(t) => token_message("Too many options: `", t),
            Error::Custom(custom) => custom.to_string(),
        }
    }
}

impl<'a, C> IntoOwned for Error<'a, C> {
    type Owned = OwnError<C>;

    fn into_owned(self) -> (r: OwnError<C>)
        ensures
            r@ == self@,
    {
        match self {
            Error::UnknownOption(t) => OwnError::UnknownOption(t.into_owned()),
            Error::UnexpectedMulti(t) => OwnError::UnexpectedMulti(t.into_owned()),
            Error::ExpectedValue(t) => OwnError::ExpectedValue(t.into_owned()),
            Error::UnexpectedValue(t) => OwnError::UnexpectedValue(t.into_owned()),
            Error::ExpectedPositional(t) => OwnError::ExpectedPositional(t.into_owned()),
            Error::UnexpectedPositional(t) => OwnError::UnexpectedPositional(t.into_owned()),
            Error::RequiredOption(t) => OwnError::RequiredOption(t),
            Error::TooManyOptions(t) => OwnError::TooManyOptions(t.into_owned()),
            Error::Custom(t) => OwnError::Custom(t),
        }
    }
}

impl<'a, C> From<Error<'a, C>> for OwnError<C> {
    fn from(x: Error<'a, C>) -> (r: Self)
        ensures
            r@ == x@,
    {
        x.into_owned()
    }
}

impl<'a, C> vstd::std_specs::convert::FromSpecImpl<Error<'a, C>> for OwnError<C> {
    /// The result is not given as a function of the error: its texts are new ones, and `from`
    /// says of it that it holds what the error holds.
    open spec fn obeys_from_spec() -> bool {
        false
    }

    open spec fn from_spec(x: Error<'a, C>) -> Self {
        vstd::pervasive::arbitrary()
    }
}

impl<C> OwnError<C> {
    /// Borrow owned error as borrowed error. A custom error is cloned.
    pub fn borrow(&self) -> (e: Error<'_, C>) where C: Clone
        ensures
            match (self, e) {
                (OwnError::Custom(c), Error::Custom(d)) => cloned(*c, d),
                (OwnError::Custom(_), _) => false,
                _ => e@ == self@,
            },
    {
        match self {
            OwnError::Custom(custom) => Error::Custom(custom.clone()),
            _ => self.borrow_(),
        }
    }

    /// Borrow owned error as borrowed error, where it is not a custom error.
    fn borrow_(&self) -> (e: Error<'_, C>)
        requires
            !(self is Custom),
        ensures
            e@ == self@,
    {
        match self {
            OwnError::UnknownOption(token) => Error::UnknownOption(token.borrow()),
            OwnError::UnexpectedMulti(token) => Error::UnexpectedMulti(token.borrow()),
            OwnError::ExpectedValue(token) => Error::ExpectedValue(token.borrow()),
            OwnError::UnexpectedValue(token) => Error::UnexpectedValue(token.borrow()),
            OwnError::ExpectedPositional(token) => Error::ExpectedPositional(token.borrow()),
            OwnError::UnexpectedPositional(token) => Error::UnexpectedPositional(token.borrow()),
            OwnError::RequiredOption(s) => Error::RequiredOption(*s),
            OwnError::TooManyOptions(token) => Error::TooManyOptions(token.borrow()),
            OwnError::Custom(_) => vstd::pervasive::unreached(),
        }
    }

    /// The error as it is shown to a user. A custom error is shown as it shows itself.
    pub fn to_string(&self) -> (s: String) where C: Display
        ensures
            match self {
                OwnError::Custom(c) => to_string_from_display_ensures::<C>(c, s),
                _ => s@ == self@.message(),
            },
    {
        if let OwnError::Custom(custom) = self {
            return custom.to_string();
        }
        self.borrow_().to_string()
    }
}

/// Answer of [`Switch::set`](crate::tr::Switch::set) on a switch that is already set.
#[derive(Debug, Clone, Copy, PartialEq, Eq, Structural)]
pub struct SwitchAlreadySetError;

impl SwitchAlreadySetError {
    /// The text shown for this error.
    pub open spec fn spec_message() -> Seq<char> {
        "Switch was already set"@
    }

    /// Writes the error out for a reader.
    pub fn to_string(&self) -> (s: String)
        ensures
            s@ == Self::spec_message(),
    {
        String::from_str("Switch was already set")
    }
}

/// Answer of [`Counter::inc`](crate::tr::Counter::inc) on a counter that cannot count further.
#[derive(Debug, Clone, Copy, PartialEq, Eq, Structural)]
pub struct TooManyOptionsError;

impl TooManyOptionsError {
    /// The text shown for this error.
    pub open spec fn spec_message() -> Seq<char> {
        "Too many options"@
    }

    /// Writes the error out for a reader.
    pub fn to_string(&self) -> (s: String)
        ensures
            s@ == Self::spec_message(),
    {
        String::from_str("Too many options")
    }
}

} // verus!
