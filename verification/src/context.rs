use vstd::prelude::*;

verus! {

/// Whether memory type `index`, whose properties are `flags`, is allowed by
/// `requirement_bits` and has every property in `property_flags`.
pub open spec fn memory_type_fits(index: int, flags: u32, requirement_bits: u32, property_flags: u32) -> bool {
    &&& (requirement_bits >> (index as u32)) & 1 == 1
    &&& flags & property_flags == property_flags
}

/// The first memory type, among those whose properties `type_flags` lists
/// (at most 32, as the device reports them), that `requirement_bits` allows
/// and that has every property in `property_flags`.
pub fn memory_type_index_for(type_flags: &Vec<u32>, requirement_bits: u32, property_flags: u32) -> (r:
    Option<u32>)
    requires
        type_flags.len() <= 32,
    ensures
        r matches Some(i) ==> i < type_flags.len() && memory_type_fits(
            i as int,
            type_flags[i as int],
            requirement_bits,
            property_flags,
        ) && forall|j: int|
            0 <= j < i ==> !memory_type_fits(j, #[trigger] type_flags[j], requirement_bits, property_flags),
        r is None ==> forall|j: int|
            0 <= j < type_flags.len() ==> !memory_type_fits(
                j,
                #[trigger] type_flags[j],
                requirement_bits,
                property_flags,
            ),
{
    let mut index: u32 = 0;
    while (index as usize) < type_flags.len()
        invariant
            index <= type_flags.len(),
            type_flags.len() <= 32,
            forall|j: int|
                0 <= j < index ==> !memory_type_fits(
                    j,
                    #[trigger] type_flags[j],
                    requirement_bits,
                    property_flags,
                ),
        decreases type_flags.len() - index,
    {
        let flags = type_flags[index as usize];
        let allowed = (1u32 << index) & requirement_bits != 0;
        assert(((1u32 << index) & requirement_bits != 0) == ((requirement_bits >> index) & 1 == 1))
            by (bit_vector)
            requires
                index < 32,
        ;
        if allowed && flags & property_flags == property_flags {
            return Some(index);
        }
        index = index + 1;
    }
    None
}

} // verus!
