//! The places of the tiles of a Wormhole chip.

use crate::bits::{bit_set, test_bit};
use crate::loader::NocGrid;
use vstd::prelude::*;

verus! {

pub const GRID_SIZE_X: u32 = 10;

pub const GRID_SIZE_Y: u32 = 12;

pub const NUM_TENSIX_X: u32 = GRID_SIZE_X - 2;

pub const NUM_TENSIX_Y: u32 = GRID_SIZE_Y - 2;

/// The `k`-th tensix row, in rising order: 1 to 5 and 7 to 11.
pub open spec fn tensix_row(k: int) -> u32 {
    if k < 5 {
        (k + 1) as u32
    } else {
        (k + 2) as u32
    }
}

/// The `k`-th tensix column, in rising order: 1 to 4 and 6 to 9.
pub open spec fn tensix_col(k: int) -> u32 {
    if k < 4 {
        (k + 1) as u32
    } else {
        (k + 2) as u32
    }
}

/// The bit of the harvesting mask that takes row `y` out of use.
pub open spec fn harvest_bit(y: u32) -> u32 {
    if y == 11 {
        0
    } else if y == 1 {
        1
    } else if y == 10 {
        2
    } else if y == 2 {
        3
    } else if y == 9 {
        4
    } else if y == 3 {
        5
    } else if y == 8 {
        6
    } else if y == 4 {
        7
    } else if y == 7 {
        8
    } else if y == 5 {
        9
    } else {
        10
    }
}

fn harvest_bit_of(y: u32) -> (r: u32)
    ensures
        r == harvest_bit(y),
        r <= 10,
{
    if y == 11 {
        0
    } else if y == 1 {
        1
    } else if y == 10 {
        2
    } else if y == 2 {
        3
    } else if y == 9 {
        4
    } else if y == 3 {
        5
    } else if y == 8 {
        6
    } else if y == 4 {
        7
    } else if y == 7 {
        8
    } else if y == 5 {
        9
    } else {
        10
    }
}

/// The place in the `i / 10`-th tensix column, in the `i % 10`-th tensix
/// row.
pub open spec fn tensix_at(i: int) -> (u32, u32) {
    (tensix_col(i / 10), tensix_row(i % 10))
}

/// The places of the tensix tiles that harvesting left, in rising order.
pub open spec fn tensix_places(harvest: u32) -> Seq<(u32, u32)> {
    Seq::new(80, |i: int| i).filter_map(
        |i: int|
            if !bit_set(harvest, harvest_bit(tensix_row(i % 10))) {
                Some(tensix_at(i))
            } else {
                None
            },
    )
}

/// Where the `i`-th memory tile sits.
pub open spec fn dram_at(i: int) -> (u32, u32) {
    if i == 0 {
        (0, 11)
    } else if i == 1 {
        (5, 11)
    } else if i == 2 {
        (5, 2)
    } else if i == 3 {
        (5, 8)
    } else if i == 4 {
        (5, 5)
    } else if i == 5 {
        (0, 5)
    } else if i == 6 {
        (0, 1)
    } else if i == 7 {
        (0, 0)
    } else if i == 8 {
        (5, 1)
    } else if i == 9 {
        (5, 0)
    } else if i == 10 {
        (5, 9)
    } else if i == 11 {
        (5, 10)
    } else if i == 12 {
        (5, 4)
    } else if i == 13 {
        (5, 3)
    } else if i == 14 {
        (5, 6)
    } else if i == 15 {
        (5, 7)
    } else if i == 16 {
        (0, 6)
    } else {
        (0, 7)
    }
}

fn dram_place(i: u32) -> (r: (u32, u32))
    ensures
        r == dram_at(i as int),
{
    if i == 0 {
        (0, 11)
    } else if i == 1 {
        (5, 11)
    } else if i == 2 {
        (5, 2)
    } else if i == 3 {
        (5, 8)
    } else if i == 4 {
        (5, 5)
    } else if i == 5 {
        (0, 5)
    } else if i == 6 {
        (0, 1)
    } else if i == 7 {
        (0, 0)
    } else if i == 8 {
        (5, 1)
    } else if i == 9 {
        (5, 0)
    } else if i == 10 {
        (5, 9)
    } else if i == 11 {
        (5, 10)
    } else if i == 12 {
        (5, 4)
    } else if i == 13 {
        (5, 3)
    } else if i == 14 {
        (5, 6)
    } else if i == 15 {
        (5, 7)
    } else if i == 16 {
        (0, 6)
    } else {
        (0, 7)
    }
}

/// Where the `i`-th ethernet tile sits: eight in row 0 and eight in row
/// 6, the columns taken from the outside in.
pub open spec fn eth_at(i: int) -> (u32, u32) {
    let k = i % 8;
    (
        if k % 2 == 0 {
            (9 - k / 2) as u32
        } else {
            (1 + k / 2) as u32
        },
        if i < 8 {
            0
        } else {
            6
        },
    )
}

/// The places of the tiles, the tensix tiles that harvesting left in
/// rising order. A mask with a bit from 11 to 30 names rows that a chip
/// does not have.
pub fn get_grid(harvest: u32) -> (r: NocGrid)
    requires
        harvest & 0x7fff_f800 == 0,
    ensures
        r.tensix@ == tensix_places(harvest),
        r.dram@ == Seq::new(18, |i: int| dram_at(i)),
        r.pci@ == seq![(0u32, 3u32), (0u32, 2u32), (0u32, 4u32), (0u32, 8u32), (0u32, 9u32)],
        r.arc@ == seq![(0u32, 10u32)],
        r.eth@ == Seq::new(16, |i: int| eth_at(i)),
{
    let ghost cells = Seq::new(80, |i: int| i);
    let ghost pick = |i: int|
        if !bit_set(harvest, harvest_bit(tensix_row(i % 10))) {
            Some(tensix_at(i))
        } else {
            None
        };
    let mut tensix: Vec<(u32, u32)> = Vec::new();
    let mut i: u32 = 0;
    while i < 80
        invariant
            i <= 80,
            cells == Seq::new(80, |i: int| i),
            tensix@ == cells.take(i as int).filter_map(pick),
            pick == |i: int|
                if !bit_set(harvest, harvest_bit(tensix_row(i % 10))) {
                    Some(tensix_at(i))
                } else {
                    None
                },
        decreases 80 - i,
    {
        proof {
            cells.lemma_filter_map_take_succ(pick, i as int);
        }
        let k = i % 10;
        let y = if k < 5 {
            k + 1
        } else {
            k + 2
        };
        let c = i / 10;
        let x = if c < 4 {
            c + 1
        } else {
            c + 2
        };
        if !test_bit(harvest, harvest_bit_of(y)) {
            tensix.push((x, y));
        }
        i += 1;
    }
    assert(cells.take(80) =~= cells);
    let mut dram: Vec<(u32, u32)> = Vec::new();
    let mut d: u32 = 0;
    while d < 18
        invariant
            d <= 18,
            dram@.len() == d,
            forall|k: int| 0 <= k < d ==> #[trigger] dram@[k] == dram_at(k),
        decreases 18 - d,
    {
        dram.push(dram_place(d));
        d += 1;
    }
    assert(dram@ =~= Seq::new(18, |i: int| dram_at(i)));
    let mut eth: Vec<(u32, u32)> = Vec::new();
    let mut e: u32 = 0;
    while e < 16
        invariant
            e <= 16,
            eth@.len() == e,
            forall|k: int| 0 <= k < e ==> #[trigger] eth@[k] == eth_at(k),
        decreases 16 - e,
    {
        let k = e % 8;
        let x = if k % 2 == 0 {
            9 - k / 2
        } else {
            1 + k / 2
        };
        eth.push(
            (
                x,
                if e < 8 {
                    0
                } else {
                    6
                },
            ),
        );
        e += 1;
    }
    assert(eth@ =~= Seq::new(16, |i: int| eth_at(i)));
    let mut pci: Vec<(u32, u32)> = Vec::new();
    pci.push((0, 3));
    pci.push((0, 2));
    pci.push((0, 4));
    pci.push((0, 8));
    pci.push((0, 9));
    assert(pci@ =~= seq![(0u32, 3u32), (0u32, 2u32), (0u32, 4u32), (0u32, 8u32), (0u32, 9u32)]);
    let mut arc: Vec<(u32, u32)> = Vec::new();
    arc.push((0, 10));
    assert(arc@ =~= seq![(0u32, 10u32)]);
    NocGrid { tensix, dram, pci, arc, eth }
}

/// How many bytes of memory a tensix tile has.
pub fn get_tensix_l1_size() -> (r: u32)
    ensures
        r == 1536 * 1024,
{
    1536 * 1024
}

} // verus!
