//! The error raised when a key or value does not fit a map's schema.

use crate::types::{TypeSignature, TypeSignatureView, Value, ValueView};
use vstd::prelude::*;

verus! {

/// Mathematical model of an [`Error`].
pub enum ErrorView {
    TypeError(TypeSignatureView, ValueView),
}

/// A failed operation.
#[derive(Debug)]
pub enum Error {
    /// A value was not admitted by the signature it had to fit: the violated
    /// signature, then the offending value.
    TypeError(TypeSignature, Value),
}

/// What an operation of the database returns.
pub type InterpreterResult<T> = Result<T, Error>;

impl View for Error {
    type V = ErrorView;

    open spec fn view(&self) -> ErrorView {
        match self {
            Error::TypeError(expected, actual) => ErrorView::TypeError(expected@, actual@),
        }
    }
}

impl PartialEq for Error {
    /// Two errors are equal when they name the same signature and the same value.
    fn eq(&self, other: &Error) -> (r: bool) {
        match (self, other) {
            (Error::TypeError(expected, actual), Error::TypeError(other_expected, other_actual)) => {
                *expected == *other_expected && *actual == *other_actual
            },
        }
    }
}

impl vstd::std_specs::cmp::PartialEqSpecImpl for Error {
    open spec fn obeys_eq_spec() -> bool {
        true
    }

    open spec fn eq_spec(&self, other: &Error) -> bool {
        self@ == other@
    }
}

impl Eq for Error {

}

impl Clone for Error {
    fn clone(&self) -> (r: Error)
        ensures
            r@ == self@,
    {
        match self {
            Error::TypeError(expected, actual) => Error::TypeError(expected.clone(), actual.clone()),
        }
    }
}

} // verus!
