//! Memory type selection.
use vstd::prelude::*;

verus! {

/// Memory type `i` may hold the resource (bit `i` of `memory_type_bits`) and has all of `flags`.
pub open spec fn memory_type_fits(memory_type_bits: u32, property_flags: Seq<u32>, flags: u32, i: int) -> bool {
    &&& 0 <= i < 32
    &&& memory_type_bits & (1u32 << (i as u32)) != 0
    &&& property_flags[i] & flags == flags
}

/// The first of the memory types whose property flags are `property_flags` (the device's
/// types, at most 32) that the resource's `memory_type_bits` allow and that has all of `flags`.
pub fn find_memorytype_index(memory_type_bits: u32, property_flags: &Vec<u32>, flags: u32) -> (r: Option<u32>)
    requires
        property_flags@.len() <= 32,
    ensures
        r is None <==> forall|i: int| 0 <= i < property_flags@.len() ==> !memory_type_fits(memory_type_bits, property_flags@, flags, i),
        r matches Some(i) ==> i < property_flags@.len() && memory_type_fits(memory_type_bits, property_flags@, flags, i as int)
            && forall|j: int| 0 <= j < i ==> !memory_type_fits(memory_type_bits, property_flags@, flags, j),
{
    let mut index: usize = 0;
    while index < property_flags.len()
        invariant
            0 <= index <= property_flags@.len() <= 32,
            forall|j: int| 0 <= j < index ==> !memory_type_fits(memory_type_bits, property_flags@, flags, j),
        decreases property_flags@.len() - index,
    {
        let bit: u32 = 1u32 << (index as u32);
        if (memory_type_bits & bit) != 0 && property_flags[index] & flags == flags {
            assert(memory_type_fits(memory_type_bits, property_flags@, flags, index as int));
            return Some(index as u32);
        }
        index = index + 1;
    }
    None
}


/// A memory type fits when the resource allows it and it has every asked-for property: so it
/// never fits at a type the resource's bits leave out, every flag asked for is among its
/// property flags, a type with exactly the asked-for flags, or with every flag, fits wherever
/// the resource allows it, and asking for no flag only asks that the resource allow it.
pub proof fn lemma_memory_type_fits(memory_type_bits: u32, property_flags: Seq<u32>, flags: u32, i: int, k: u32)
    requires
        0 <= i < 32,
        i < property_flags.len(),
        k < 32,
    ensures
        memory_type_fits(memory_type_bits, property_flags, flags, i) ==> (memory_type_bits >> (i as u32)) & 1 == 1,
        memory_type_fits(memory_type_bits, property_flags, flags, i) && (flags >> k) & 1 == 1 ==> (property_flags[i] >> k)
            & 1 == 1,
        (memory_type_bits >> (i as u32)) & 1 == 1 && (property_flags[i] == flags || property_flags[i] == 0xFFFF_FFFF)
            ==> memory_type_fits(memory_type_bits, property_flags, flags, i),
        (memory_type_fits(memory_type_bits, property_flags, 0, i) <==> (memory_type_bits >> (i as u32)) & 1 == 1),
{
    let b = memory_type_bits;
    let p = property_flags[i];
    let n = i as u32;
    assert((b & (1u32 << n) != 0) <==> ((b >> n) & 1 == 1)) by (bit_vector)
        requires
            n < 32,
    ;
    assert((p & flags == flags && (flags >> k) & 1 == 1) ==> (p >> k) & 1 == 1) by (bit_vector)
        requires
            k < 32,
    ;
    assert(flags & flags == flags && 0xFFFF_FFFFu32 & flags == flags && p & 0 == 0) by (bit_vector);
}

} // verus!
