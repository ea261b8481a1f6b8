//! The places of the tiles of a Blackhole chip.

use crate::loader::NocGrid;
use vstd::prelude::*;

verus! {

pub const GRID_SIZE_X: u32 = 17;

pub const GRID_SIZE_Y: u32 = 12;

pub const NUM_TENSIX_ROWS: u32 = 10;

pub const NUM_TENSIX_COLS: u32 = 14;

/// The `k`-th tensix column, in rising order: 1 to 7 and 10 to 16.
pub open spec fn tensix_col(k: int) -> u32 {
    if k < 7 {
        (k + 1) as u32
    } else {
        (k + 3) as u32
    }
}

/// The place of the `i`-th tensix tile in rising order: column by column,
/// and in each column the rows 2 to 11.
pub open spec fn tensix_at(i: int) -> (u32, u32) {
    (tensix_col(i / 10), (2 + i % 10) as u32)
}

/// The places of the tiles, the tensix tiles in rising order. Harvesting
/// makes no difference to them.
pub fn get_grid(_harvest: u32) -> (r: NocGrid)
    ensures
        r.tensix@ == Seq::new(140, |i: int| tensix_at(i)),
        r.dram@.len() == 0,
        r.pci@ == seq![(2u32, 0u32), (11u32, 0u32)],
        r.arc@.len() == 0,
        r.eth@.len() == 0,
{
    let mut tensix: Vec<(u32, u32)> = Vec::new();
    let mut i: u32 = 0;
    while i < 140
        invariant
            i <= 140,
            tensix@.len() == i,
            forall|k: int| 0 <= k < i ==> #[trigger] tensix@[k] == tensix_at(k),
        decreases 140 - i,
    {
        let k = i / 10;
        let x = if k < 7 {
            k + 1
        } else {
            k + 3
        };
        tensix.push((x, 2 + i % 10));
        i += 1;
    }
    assert(tensix@ =~= Seq::new(140, |i: int| tensix_at(i)));
    let mut pci: Vec<(u32, u32)> = Vec::new();
    pci.push((2, 0));
    pci.push((11, 0));
    assert(pci@ =~= seq![(2u32, 0u32), (11u32, 0u32)]);
    NocGrid { tensix, dram: Vec::new(), pci, arc: Vec::new(), eth: Vec::new() }
}

/// How many bytes of memory a tensix tile has.
pub fn get_tensix_l1_size() -> (r: u32)
    ensures
        r == 1536 * 1024,
{
    1536 * 1024
}

} // verus!
