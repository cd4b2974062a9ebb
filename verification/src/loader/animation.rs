use vstd::prelude::*;

verus! {

/// The index of a keyframe of an animation.
#[derive(Clone, Copy, Debug, PartialEq, Eq, Structural)]
pub struct AnimationKeyframe(pub usize);

impl Default for AnimationKeyframe {
    fn default() -> (r: Self)
        ensures
            r == AnimationKeyframe(0),
    {
        AnimationKeyframe(0)
    }
}

/// The value at `index` and the one after it, wrapping around to the first value; a value
/// that is missing is made by `make_default`.
pub fn get_and_next<T: Copy, F: Fn() -> T>(values: &Vec<T>, index: usize, make_default: F) -> (r: (T, T))
    requires
        values@.len() > 0,
        index < usize::MAX,
        call_requires(make_default, ()),
    ensures
        index < values@.len() ==> r.0 == values@[index as int],
        index >= values@.len() ==> call_ensures(make_default, (), r.0),
        r.1 == values@[((index + 1) % (values@.len() as int))],
{
    let value = if index < values.len() {
        values[index]
    } else {
        make_default()
    };
    let next_index = (index + 1) % values.len();
    let next_value = values[next_index];
    (value, next_value)
}

} // verus!
