//! Unwrapping a value whose presence the caller has proved.

use vstd::pervasive::unreached;
use vstd::prelude::*;

verus! {

/// Takes the value out of a container that is known to hold one.
///
/// The caller proves that the value is there, so the other branch is never
/// taken and no check is left to fail at run time.
pub trait UnwrapOrAbort<T>: Sized {
    /// Whether the container holds a value.
    spec fn holds_value(self) -> bool;

    /// The value that the container holds.
    spec fn held_value(self) -> T;

    fn unwrap_or_abort(self) -> (value: T)
        requires
            self.holds_value(),
        ensures
            value == self.held_value(),
    ;
}

impl<T> UnwrapOrAbort<T> for Option<T> {
    open spec fn holds_value(self) -> bool {
        self is Some
    }

    open spec fn held_value(self) -> T {
        self->0
    }

    #[inline]
    fn unwrap_or_abort(self) -> (value: T) {
        match self {
            Some(v) => v,
            None => unreached(),
        }
    }
}

impl<T, E> UnwrapOrAbort<T> for Result<T, E> {
    open spec fn holds_value(self) -> bool {
        self is Ok
    }

    open spec fn held_value(self) -> T {
        self->Ok_0
    }

    #[inline]
    fn unwrap_or_abort(self) -> (value: T) {
        match self {
            Ok(v) => v,
            Err(_) => unreached(),
        }
    }
}

} // verus!
