//! What a decoding step can end in.

use vstd::prelude::*;

verus! {

/// How many more items a decoder needs before it can decide.
#[derive(Debug, Clone, Copy, PartialEq, Eq, Structural)]
pub enum Needed {
    /// Some, the number is not known.
    Unknown,
    /// At least this many; never zero.
    Size(usize),
}

impl Needed {
    /// The need for `s` more items: unknown where `s` is zero.
    pub open spec fn of(s: usize) -> Needed {
        if s == 0 {
            Needed::Unknown
        } else {
            Needed::Size(s)
        }
    }

    /// The need for `s` more items: unknown where `s` is zero.
    pub fn new(s: usize) -> (r: Needed)
        ensures
            r == Needed::of(s),
    {
        if s == 0 {
            Needed::Unknown
        } else {
            Needed::Size(s)
        }
    }

    /// Whether the number of missing items is known.
    pub fn is_known(&self) -> (r: bool)
        ensures
            r == (*self != Needed::Unknown),
    {
        match self {
            Needed::Unknown => false,
            Needed::Size(_) => true,
        }
    }
}

/// Why a decoding step did not succeed.
#[derive(Debug, Clone, PartialEq)]
pub enum ErrMode<E> {
    /// The input ended before the decoder could decide.
    Incomplete(Needed),
    /// The input does not match; another decoder may still match it.
    Error(E),
    /// The input is invalid, and no other decoder will match it.
    Failure(E),
}

/// The rule that an input failed.
#[derive(Debug, Clone, Copy, PartialEq, Eq, Structural, Hash)]
pub enum ErrorKind {
    /// A fixed token was expected.
    Tag,
    /// A fixed number of items was expected.
    Take,
    /// At least one item for which a condition holds was expected.
    TakeWhile1,
    /// At least one item before the first for which a condition holds was
    /// expected.
    TakeTill1,
    /// The end of the input was expected.
    Eof,
    /// A value did not pass its check.
    Verify,
    /// None of several alternatives matched.
    Alt,
    /// At least one repetition was expected.
    Many1,
}

/// An error that can be made from the input at which a rule failed.
pub trait ParseError<I>: Sized {
    /// The error for `kind` at `input`.
    spec fn error_of(input: I, kind: ErrorKind) -> Self;

    /// Makes the error for `kind` at `input`.
    fn from_error_kind(input: I, kind: ErrorKind) -> (r: Self)
        ensures
            r == Self::error_of(input, kind),
    ;
}

/// The plain error: where the rule failed, and which.
#[derive(Debug, Clone, PartialEq)]
pub struct Error<I> {
    /// The input at which the rule failed.
    pub input: I,
    /// The rule.
    pub code: ErrorKind,
}

impl<I> ParseError<I> for Error<I> {
    open spec fn error_of(input: I, kind: ErrorKind) -> Error<I> {
        Error { input, code: kind }
    }

    fn from_error_kind(input: I, kind: ErrorKind) -> (r: Error<I>) {
        Error { input, code: kind }
    }
}

/// The result of a decoding step: the rest of the input and the decoded
/// value, or why there is none.
pub type PResult<I, O, E = Error<I>> = Result<(I, O), ErrMode<E>>;

/// Ends decoding on input that is known to be whole.
pub trait Finish<I, O, E> {
    /// The result is not `Incomplete`.
    spec fn decided(&self) -> bool;

    /// The result with both kinds of error taken as one.
    spec fn finished(self) -> Result<(I, O), E>;

    /// Turns the result of the last step into a plain `Result`. On whole
    /// input no step ends in `Incomplete`: to call this on such a result is
    /// a mistake of the caller, who has to gather more input and decode
    /// again.
    fn finish(self) -> (r: Result<(I, O), E>)
        requires
            self.decided(),
        ensures
            r == self.finished(),
    ;
}

impl<I, O, E> Finish<I, O, E> for Result<(I, O), ErrMode<E>> {
    open spec fn decided(&self) -> bool {
        !(*self matches Err(ErrMode::Incomplete(_)))
    }

    open spec fn finished(self) -> Result<(I, O), E> {
        match self {
            Ok(res) => Ok(res),
            Err(ErrMode::Error(e)) => Err(e),
            Err(ErrMode::Failure(e)) => Err(e),
            Err(ErrMode::Incomplete(_)) => arbitrary(),
        }
    }

    fn finish(self) -> (r: Result<(I, O), E>) {
        match self {
            Ok(res) => Ok(res),
            Err(ErrMode::Error(e)) => Err(e),
            Err(ErrMode::Failure(e)) => Err(e),
            Err(ErrMode::Incomplete(_)) => unreached(),
        }
    }
}

} // verus!
