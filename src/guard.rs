//! Whether a fallible result holds a value.
use vstd::prelude::*;

verus! {

/// A value that either holds a result or does not.
pub trait Guard {
    /// The value holds a result.
    spec fn holds_value(&self) -> bool;

    fn is_valid(&self) -> (r: bool)
        ensures
            r == self.holds_value(),
    ;
}

impl<T> Guard for Option<T> {
    open spec fn holds_value(&self) -> bool {
        self is Some
    }

    fn is_valid(&self) -> (r: bool) {
        self.is_some()
    }
}

impl<T, E> Guard for Result<T, E> {
    open spec fn holds_value(&self) -> bool {
        self is Ok
    }

    fn is_valid(&self) -> (r: bool) {
        self.is_ok()
    }
}

} // verus!
