//! The places of the tiles of a Grayskull chip.

use crate::bits::{bit_set, test_bit};
use crate::loader::NocGrid;
use vstd::prelude::*;

verus! {

pub const GRID_SIZE_X: u32 = 13;

pub const GRID_SIZE_Y: u32 = 12;

pub const NUM_TENSIX_X: u32 = GRID_SIZE_X - 1;

pub const NUM_TENSIX_Y: u32 = GRID_SIZE_Y - 2;

/// The `k`-th tensix row, in rising order: 1 to 5 and 7 to 11.
pub open spec fn tensix_row(k: int) -> u32 {
    if k < 5 {
        (k + 1) as u32
    } else {
        (k + 2) as u32
    }
}

/// The bit of the harvesting mask that takes row `y` out of use.
pub open spec fn harvest_bit(y: u32) -> u32 {
    if y == 5 {
        0
    } else if y == 7 {
        1
    } else if y == 4 {
        2
    } else if y == 8 {
        3
    } else if y == 3 {
        4
    } else if y == 9 {
        5
    } else if y == 2 {
        6
    } else if y == 10 {
        7
    } else if y == 1 {
        8
    } else if y == 11 {
        9
    } else {
        10
    }
}

fn harvest_bit_of(y: u32) -> (r: u32)
    ensures
        r == harvest_bit(y),
        r <= 10,
{
    if y == 5 {
        0
    } else if y == 7 {
        1
    } else if y == 4 {
        2
    } else if y == 8 {
        3
    } else if y == 3 {
        4
    } else if y == 9 {
        5
    } else if y == 2 {
        6
    } else if y == 10 {
        7
    } else if y == 1 {
        8
    } else if y == 11 {
        9
    } else {
        10
    }
}

/// The place in column `1 + i / 10`, in the `i % 10`-th tensix row.
pub open spec fn tensix_at(i: int) -> (u32, u32) {
    ((1 + i / 10) as u32, tensix_row(i % 10))
}

/// The places of the tensix tiles that harvesting left, in rising order.
pub open spec fn tensix_places(harvest: u32) -> Seq<(u32, u32)> {
    Seq::new(120, |i: int| i).filter_map(
        |i: int|
            if !bit_set(harvest, harvest_bit(tensix_row(i % 10))) {
                Some(tensix_at(i))
            } else {
                None
            },
    )
}

/// Where memory channel `i` sits: four in row 6, then four in row 0, at
/// columns 1, 4, 7 and 10.
pub open spec fn dram_at(i: int) -> (u32, u32) {
    (
        (1 + 3 * (i % 4)) as u32,
        if i < 4 {
            6
        } else {
            0
        },
    )
}

/// The places of the tiles, the tensix tiles that harvesting left in
/// rising order. A mask with a bit from 11 to 30 names rows that a chip
/// does not have.
pub fn get_grid(harvest: u32) -> (r: NocGrid)
    requires
        harvest & 0x7fff_f800 == 0,
    ensures
        r.tensix@ == tensix_places(harvest),
        r.dram@ == Seq::new(8, |i: int| dram_at(i)),
        r.pci@ == seq![(0u32, 4u32)],
        r.arc@ == seq![(0u32, 2u32)],
        r.eth@.len() == 0,
{
    let ghost cells = Seq::new(120, |i: int| i);
    let ghost pick = |i: int|
        if !bit_set(harvest, harvest_bit(tensix_row(i % 10))) {
            Some(tensix_at(i))
        } else {
            None
        };
    let mut tensix: Vec<(u32, u32)> = Vec::new();
    let mut i: u32 = 0;
    while i < 120
        invariant
            i <= 120,
            cells == Seq::new(120, |i: int| i),
            tensix@ == cells.take(i as int).filter_map(pick),
            pick == |i: int|
                if !bit_set(harvest, harvest_bit(tensix_row(i % 10))) {
                    Some(tensix_at(i))
                } else {
                    None
                },
        decreases 120 - i,
    {
        proof {
            cells.lemma_filter_map_take_succ(pick, i as int);
        }
        let k = i % 10;
        let y = if k < 5 {
            k + 1
        } else {
            k + 2
        };
        if !test_bit(harvest, harvest_bit_of(y)) {
            tensix.push((1 + i / 10, y));
        }
        i += 1;
    }
    assert(cells.take(120) =~= cells);
    let mut dram: Vec<(u32, u32)> = Vec::new();
    let mut c: u32 = 0;
    while c < 8
        invariant
            c <= 8,
            dram@.len() == c,
            forall|k: int| 0 <= k < c ==> #[trigger] dram@[k] == dram_at(k),
        decreases 8 - c,
    {
        dram.push(
            (
                1 + 3 * (c % 4),
                if c < 4 {
                    6
                } else {
                    0
                },
            ),
        );
        c += 1;
    }
    assert(dram@ =~= Seq::new(8, |i: int| dram_at(i)));
    let mut pci: Vec<(u32, u32)> = Vec::new();
    pci.push((0, 4));
    assert(pci@ =~= seq![(0u32, 4u32)]);
    let mut arc: Vec<(u32, u32)> = Vec::new();
    arc.push((0, 2));
    assert(arc@ =~= seq![(0u32, 2u32)]);
    NocGrid { tensix, dram, pci, arc, eth: Vec::new() }
}

/// How many bytes of memory a tensix tile has.
pub fn get_tensix_l1_size() -> (r: u32)
    ensures
        r == 1024 * 1024,
{
    1024 * 1024
}

} // verus!
