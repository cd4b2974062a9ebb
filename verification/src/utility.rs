use vstd::prelude::*;

verus! {

/// Whether `x` is a power of two.
pub open spec fn is_power_of_two(x: u32) -> bool {
    x != 0 && x & ((x - 1) as u32) == 0
}

/// Rounds `value` up to the next multiple of `alignment`, a power of two.
pub fn aligned_size(value: u32, alignment: u32) -> (r: u32)
    requires
        is_power_of_two(alignment),
        value + alignment - 1 <= u32::MAX,
    ensures
        r % alignment == 0,
        value <= r < value + alignment,
{
    let r = (value + (alignment - 1)) & !(alignment - 1);
    assert(r % alignment == 0 && value <= r && r < value + alignment) by (bit_vector)
        requires
            alignment != 0,
            alignment & ((alignment - 1) as u32) == 0,
            value + alignment - 1 <= u32::MAX,
            r == ((value + ((alignment - 1) as u32)) as u32) & !((alignment - 1) as u32),
    ;
    r
}

} // verus!
