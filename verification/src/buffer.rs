use vstd::prelude::*;

verus! {

/// `std::slice::from_ref`: the one-element slice of a value.
#[verifier::external_body]
pub(crate) fn slice_from_ref<T>(value: &T) -> (r: &[T])
    ensures
        r@ == seq![*value],
{
    std::slice::from_ref(value)
}

/// Data that can be copied into a buffer as a slice of elements.
pub trait IntoSlice<T> {
    /// The elements.
    spec fn elements(&self) -> Seq<T>;

    fn as_sliced(&self) -> (r: &[T])
        ensures
            r@ == self.elements(),
    ;
}

impl<T> IntoSlice<T> for T {
    /// A single value is a slice of one element.
    open spec fn elements(&self) -> Seq<T> {
        seq![*self]
    }

    fn as_sliced(&self) -> (r: &[T]) {
        slice_from_ref(self)
    }
}

impl<'a, T> IntoSlice<T> for &'a [T] {
    open spec fn elements(&self) -> Seq<T> {
        (*self)@
    }

    fn as_sliced(&self) -> (r: &[T]) {
        *self
    }
}

} // verus!
