//! Small extensions to std types.

use vstd::prelude::*;

verus! {

/// A `filter` for `Result`: keep an `Ok` whose value satisfies the
/// predicate, and turn any other `Ok` into the given error.
pub trait FilterableResult<T, E>: Sized {
    /// The result this value stands for, so that the contract of
    /// [`Self::filter`] can speak about it.
    spec fn as_result(self) -> Result<T, E>;

    /// `Ok(x)` stays `Ok(x)` exactly when `predicate(&x)` holds, and
    /// becomes `Err(error)` otherwise; an `Err` passes through unchanged.
    fn filter<P: FnOnce(&T) -> bool>(self, predicate: P, error: E) -> (r: Result<T, E>)
        requires
            self.as_result() matches Ok(x) ==> call_requires(predicate, (&x,)),
        ensures
            (match self.as_result() {
                Ok(x) => {
                    &&& (r == Ok::<T, E>(x) || r == Err::<T, E>(error))
                    &&& (r == Ok::<T, E>(x) ==> call_ensures(predicate, (&x,), true))
                    &&& (r == Err::<T, E>(error) ==> call_ensures(predicate, (&x,), false))
                },
                Err(e) => r == Err::<T, E>(e),
            }),
    ;
}

impl<T, E> FilterableResult<T, E> for Result<T, E> {
    open spec fn as_result(self) -> Result<T, E> {
        self
    }

    fn filter<P: FnOnce(&T) -> bool>(self, predicate: P, error: E) -> (r: Result<T, E>) {
        match self {
            Ok(x) => if predicate(&x) {
                Ok(x)
            } else {
                Err(error)
            },
            Err(e) => Err(e),
        }
    }
}

} // verus!
