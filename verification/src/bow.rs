use vstd::prelude::*;

verus! {

/// A borrowed or owned value.
/// Like a `Cow`, but without the `Clone` requirement.
pub enum Bow<'a, T> {
    Borrowed(&'a T),
    Owned(T),
}

impl<'a, T> Bow<'a, T> {
    /// The value, borrowed or owned.
    pub open spec fn value(&self) -> T {
        match self {
            Bow::Borrowed(value) => **value,
            Bow::Owned(value) => *value,
        }
    }

    pub fn as_ref(&self) -> (r: &T)
        ensures
            *r == self.value(),
    {
        match self {
            Bow::Borrowed(value) => value,
            Bow::Owned(value) => value,
        }
    }
}

impl<'a, T> From<&'a T> for Bow<'a, T> {
    fn from(value: &'a T) -> (r: Self) {
        Bow::Borrowed(value)
    }
}

impl<'a, T> vstd::std_specs::convert::FromSpecImpl<&'a T> for Bow<'a, T> {
    open spec fn obeys_from_spec() -> bool {
        true
    }

    open spec fn from_spec(v: &'a T) -> Self {
        Bow::Borrowed(v)
    }
}

impl<'a, T> From<T> for Bow<'a, T> {
    fn from(value: T) -> (r: Self) {
        Bow::Owned(value)
    }
}

impl<'a, T> vstd::std_specs::convert::FromSpecImpl<T> for Bow<'a, T> {
    open spec fn obeys_from_spec() -> bool {
        true
    }

    open spec fn from_spec(v: T) -> Self {
        Bow::Owned(v)
    }
}

} // verus!
