//! Where an aligned buffer lies inside a larger one.

use vstd::prelude::*;

verus! {

/// Where the aligned part of a buffer starts, counted from the start of
/// the buffer, and how many bytes it has.
#[derive(Clone, Copy, Debug, PartialEq, Eq, Structural)]
pub struct AlignedLayout {
    pub offset: usize,
    pub size: u32,
}

/// How many bytes are to be had so that `size` of them start at an address
/// aligned to `align`.
pub fn padded_size(size: u32, align: u32) -> (r: u32)
    requires
        size + align <= u32::MAX,
    ensures
        r == size + align,
{
    size + align
}

/// Finds the aligned part of a buffer of `actual_size` bytes at
/// `physical_address`: it starts at the first address from there on that
/// has none of the bits of `align - 1` set, and reaches to the end of the
/// buffer. For an alignment that is a power of two that is the first
/// multiple of it.
pub fn aligned_layout(physical_address: u64, actual_size: u32, align: u32) -> (r: AlignedLayout)
    requires
        0 < align <= actual_size,
        physical_address + align - 1 <= u64::MAX,
    ensures
        r.offset < align,
        (physical_address + r.offset) as u64 & ((align - 1) as u64) == 0,
        physical_address + r.offset == (((physical_address + (align - 1)) as u64) & !((align
            - 1) as u64)),
        r.size == actual_size - r.offset,
{
    let big_align = align as u64;
    let mask = big_align - 1;
    let sum = physical_address + mask;
    let aligned_addr = sum & !mask;
    proof {
        assert(aligned_addr <= sum && sum - aligned_addr <= mask && aligned_addr & mask == 0)
            by (bit_vector)
            requires
                aligned_addr == sum & !mask,
        ;
    }
    let offset = aligned_addr - physical_address;
    AlignedLayout { offset: offset as usize, size: actual_size - offset as u32 }
}

} // verus!
