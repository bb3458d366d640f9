//! Results that say whether to go on.

use std::ops::ControlFlow;
use vstd::prelude::*;

verus! {

/// Adds to a result whether to go on.
pub trait WithControlFlow: Sized {
    type WithErr;

    type WithOk;

    /// Stops on an error.
    fn with_break_err(self) -> Self::WithErr;

    /// Goes on after an error.
    fn with_continue_err(self) -> Self::WithErr;

    /// Stops on success.
    fn with_break(self) -> Self::WithOk;

    /// Goes on after success.
    fn with_continue(self) -> Self::WithOk;
}

impl<T, E> WithControlFlow for Result<T, E> {
    type WithErr = Result<T, ControlFlow<E, E>>;

    type WithOk = Result<ControlFlow<T, T>, E>;

    fn with_break_err(self) -> (r: Result<T, ControlFlow<E, E>>)
        ensures
            r == (match self {
                Ok(t) => Ok::<T, ControlFlow<E, E>>(t),
                Err(e) => Err(ControlFlow::Break(e)),
            }),
    {
        match self {
            Ok(t) => Ok(t),
            Err(e) => Err(ControlFlow::Break(e)),
        }
    }

    fn with_continue_err(self) -> (r: Result<T, ControlFlow<E, E>>)
        ensures
            r == (match self {
                Ok(t) => Ok::<T, ControlFlow<E, E>>(t),
                Err(e) => Err(ControlFlow::Continue(e)),
            }),
    {
        match self {
            Ok(t) => Ok(t),
            Err(e) => Err(ControlFlow::Continue(e)),
        }
    }

    fn with_break(self) -> (r: Result<ControlFlow<T, T>, E>)
        ensures
            r == (match self {
                Ok(t) => Ok::<ControlFlow<T, T>, E>(ControlFlow::Break(t)),
                Err(e) => Err(e),
            }),
    {
        match self {
            Ok(t) => Ok(ControlFlow::Break(t)),
            Err(e) => Err(e),
        }
    }

    fn with_continue(self) -> (r: Result<ControlFlow<T, T>, E>)
        ensures
            r == (match self {
                Ok(t) => Ok::<ControlFlow<T, T>, E>(ControlFlow::Continue(t)),
                Err(e) => Err(e),
            }),
    {
        match self {
            Ok(t) => Ok(ControlFlow::Continue(t)),
            Err(e) => Err(e),
        }
    }
}

} // verus!
