use vstd::prelude::*;

use crate::buffer::slice_from_ref;

verus! {

/// Data that can be copied into a buffer as a slice of elements.
pub trait IntoSlice<T> {
    /// The elements.
    spec fn elements(&self) -> Seq<T>;

    fn as_sliced(&self) -> (r: &[T])
        ensures
            r@ == self.elements(),
    ;
}

impl<T> IntoSlice<T> for T {
    /// A single value is a slice of one element.
    open spec fn elements(&self) -> Seq<T> {
        seq![*self]
    }

    fn as_sliced(&self) -> (r: &[T]) {
        slice_from_ref(self)
    }
}

impl<T> IntoSlice<T> for [T] {
    open spec fn elements(&self) -> Seq<T> {
        self@
    }

    fn as_sliced(&self) -> (r: &[T]) {
        self
    }
}

impl<T> IntoSlice<T> for Vec<T> {
    open spec fn elements(&self) -> Seq<T> {
        self@
    }

    fn as_sliced(&self) -> (r: &[T]) {
        self.as_slice()
    }
}

} // verus!
