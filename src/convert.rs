//! Conversion between a value and its counterpart in another representation.
use vstd::prelude::*;

verus! {

/// Conversion of a value into its counterpart of type `T`.
pub trait Convert<T>: Sized {
    fn convert(self) -> T;
}

impl<T, U: Convert<T>> Convert<Option<T>> for Option<U> {
    /// Converts the value inside, keeping an absent value absent.
    fn convert(self) -> (r: Option<T>)
        ensures
            r is None <==> self is None,
    {
        match self {
            Some(u) => Some(u.convert()),
            None => None,
        }
    }
}

} // verus!
