//! Small helper types.
use std::marker::PhantomData;
use std::ops::{Deref, DerefMut};
use vstd::prelude::*;

verus! {

/// A value of type `U` tagged with a type `T` that decides whether it may move
/// between threads. This type moves only where `U` may move as well; a value that
/// moves by the word of its tag alone is wrapped outside this library.
pub struct MaybeSend<T, U> {
    _send: PhantomData<T>,
    inner: U,
}

impl<T, U> MaybeSend<T, U> {
    /// The value held.
    pub closed spec fn value(&self) -> U {
        self.inner
    }
}

impl<T: Send, U> MaybeSend<T, U> {
    /// Holds `inner`, for a tag that may move between threads.
    pub fn new(inner: U) -> (result: Self)
        ensures
            result.value() == inner,
    {
        MaybeSend { _send: PhantomData, inner }
    }
}

impl<T, U> MaybeSend<T, U> {
    /// Holds `inner`, whatever the tag is.
    pub fn new_unchecked(inner: U) -> (result: Self)
        ensures
            result.value() == inner,
    {
        MaybeSend { _send: PhantomData, inner }
    }
}

impl<T, U> Deref for MaybeSend<T, U> {
    type Target = U;

    fn deref(&self) -> (result: &U)
        ensures
            *result == self.value(),
    {
        &self.inner
    }
}

impl<T, U> DerefMut for MaybeSend<T, U> {
    fn deref_mut(&mut self) -> (result: &mut U)
        ensures
            *result == old(self).value(),
            final(self).value() == *final(result),
    {
        &mut self.inner
    }
}

} // verus!
