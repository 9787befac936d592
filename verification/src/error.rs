//! The error of the accessors that insist on one variant.

use std::marker::PhantomData;
use vstd::prelude::*;

verus! {

/// Says that a value was not a `T`.
#[derive(Debug)]
pub struct NotA<T> {
    marker: PhantomData<T>,
}

impl<T> NotA<T> {
    /// The one value of the type.
    pub fn new() -> (r: Self) {
        NotA { marker: PhantomData }
    }
}

impl<T> Default for NotA<T> {
    fn default() -> (r: Self) {
        NotA::new()
    }
}

} // verus!
