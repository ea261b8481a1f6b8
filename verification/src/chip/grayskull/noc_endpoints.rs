//! Which tiles of a Grayskull chip are in use, and where they sit.

use crate::bits::{bit_set, test_bit};
use crate::chip::noc::{NocAddress, Tile};
use vstd::prelude::*;

verus! {

pub const GRID_SIZE_X: u8 = 13;

pub const GRID_SIZE_Y: u8 = 12;

pub const NUM_TENSIX_X: u8 = GRID_SIZE_X - 1;

pub const NUM_TENSIX_Y: u8 = GRID_SIZE_Y - 2;

/// A tile at `(x, y)` on the first fabric sits at the mirrored place on the
/// second.
pub open spec fn coord_flip_spec(x: u8, y: u8) -> NocAddress {
    NocAddress { n0: (x, y), n1: ((GRID_SIZE_X - x - 1) as u8, (GRID_SIZE_Y - y - 1) as u8) }
}

pub fn coord_flip(x: u8, y: u8) -> (r: NocAddress)
    requires
        x < GRID_SIZE_X,
        y < GRID_SIZE_Y,
    ensures
        r == coord_flip_spec(x, y),
{
    NocAddress { n0: (x, y), n1: (GRID_SIZE_X - x - 1, GRID_SIZE_Y - y - 1) }
}

/// The `k`-th tensix row on the first fabric, in rising order: rows 1 to 5
/// and 7 to 11.
pub open spec fn tensix_row_spec(k: int) -> u8 {
    if k < 5 {
        (k + 1) as u8
    } else {
        (k + 2) as u8
    }
}

pub fn tensix_row(k: usize) -> (r: u8)
    requires
        k < 10,
    ensures
        r == tensix_row_spec(k as int),
        1 <= r < GRID_SIZE_Y,
{
    if k < 5 {
        (k + 1) as u8
    } else {
        (k + 2) as u8
    }
}

/// The bit of the harvesting mask that takes row `y` of the first fabric
/// out of use.
pub open spec fn harvest_bit_spec(y: u8) -> u32 {
    if y == 5 {
        0
    } else if y == 7 {
        1
    } else if y == 4 {
        2
    } else if y == 8 {
        3
    } else if y == 3 {
        4
    } else if y == 9 {
        5
    } else if y == 2 {
        6
    } else if y == 10 {
        7
    } else if y == 1 {
        8
    } else if y == 11 {
        9
    } else {
        10
    }
}

pub fn harvest_bit(y: u8) -> (r: u32)
    ensures
        r == harvest_bit_spec(y),
        r <= 10,
{
    if y == 5 {
        0
    } else if y == 7 {
        1
    } else if y == 4 {
        2
    } else if y == 8 {
        3
    } else if y == 3 {
        4
    } else if y == 9 {
        5
    } else if y == 2 {
        6
    } else if y == 10 {
        7
    } else if y == 1 {
        8
    } else if y == 11 {
        9
    } else {
        10
    }
}

/// The tensix tile in the `i / 12`-th tensix row, column `1 + i % 12`.
pub open spec fn tensix_tile(i: int) -> Tile {
    Tile {
        addr: coord_flip_spec((1 + i % 12) as u8, tensix_row_spec(i / 12)),
        align_read: 16,
        align_write: 16,
    }
}

/// The tensix tiles that harvesting left, row by row in rising order.
pub open spec fn tensix_tiles(harvest: u32) -> Seq<Tile> {
    Seq::new(120, |i: int| i).filter_map(
        |i: int|
            if !bit_set(harvest, harvest_bit_spec(tensix_row_spec(i / 12))) {
                Some(tensix_tile(i))
            } else {
                None
            },
    )
}

/// Where memory channel `i` sits on the first fabric: four in row 6, then
/// four in row 0, at columns 1, 4, 7 and 10.
pub open spec fn dram_coord_spec(i: int) -> (u8, u8) {
    (
        (1 + 3 * (i % 4)) as u8,
        if i < 4 {
            6
        } else {
            0
        },
    )
}

pub fn dram_coord(i: usize) -> (r: (u8, u8))
    requires
        i < 8,
    ensures
        r == dram_coord_spec(i as int),
        r.0 < GRID_SIZE_X,
        r.1 < GRID_SIZE_Y,
{
    (
        (1 + 3 * (i % 4)) as u8,
        if i < 4 {
            6
        } else {
            0
        },
    )
}

/// A memory tile at `c` on the first fabric.
pub open spec fn dram_tile(c: (u8, u8)) -> Tile {
    Tile { addr: coord_flip_spec(c.0, c.1), align_read: 32, align_write: 16 }
}

/// The endpoints of a Grayskull chip.
#[derive(Clone, Debug, PartialEq, Eq)]
pub struct NocGrid {
    pub tensix: Vec<Tile>,
    pub dram: Vec<Tile>,
    pub pci: Tile,
    pub arc: Tile,
    pub tensix_l1_size: u64,
    pub dram_size: u64,
}

/// What the harvesting mask says of a chip's tiles.
pub open spec fn grid_of(harvest: u32, g: NocGrid) -> bool {
    &&& g.tensix@ == tensix_tiles(harvest)
    &&& g.dram@ == Seq::new(8, |i: int| dram_tile(dram_coord_spec(i)))
    &&& g.pci == (Tile { addr: coord_flip_spec(0, 4), align_read: 32, align_write: 16 })
    &&& g.arc == (Tile { addr: coord_flip_spec(0, 2), align_read: 16, align_write: 16 })
    &&& g.tensix_l1_size == 1024 * 1024
    &&& g.dram_size == 1024 * 1024 * 1024
}

/// Tells the tiles of the chip from its harvesting mask. The mask names
/// physical rows; `harvest_bit_spec` says which row of the first fabric each
/// bit stands for. The rows come in rising order. A mask with a bit from 11
/// to 30 names rows that a chip does not have.
pub fn get_grid(harvest: u32) -> (r: NocGrid)
    requires
        harvest & 0x7fff_f800 == 0,
    ensures
        grid_of(harvest, r),
{
    let ghost cells = Seq::new(120, |i: int| i);
    let ghost pick = |i: int|
        if !bit_set(harvest, harvest_bit_spec(tensix_row_spec(i / 12))) {
            Some(tensix_tile(i))
        } else {
            None
        };
    let mut tensix: Vec<Tile> = Vec::new();
    let mut i: usize = 0;
    while i < 120
        invariant
            i <= 120,
            cells == Seq::new(120, |i: int| i),
            tensix@ == cells.take(i as int).filter_map(pick),
            pick == |i: int|
                if !bit_set(harvest, harvest_bit_spec(tensix_row_spec(i / 12))) {
                    Some(tensix_tile(i))
                } else {
                    None
                },
        decreases 120 - i,
    {
        proof {
            cells.lemma_filter_map_take_succ(pick, i as int);
        }
        let y = tensix_row(i / 12);
        if !test_bit(harvest, harvest_bit(y)) {
            tensix.push(
                Tile { addr: coord_flip((1 + i % 12) as u8, y), align_read: 16, align_write: 16 },
            );
        }
        i += 1;
    }
    assert(cells.take(120) =~= cells);

    let mut dram: Vec<Tile> = Vec::new();
    let mut channel: usize = 0;
    while channel < 8
        invariant
            channel <= 8,
            dram@.len() == channel,
            forall|k: int| 0 <= k < channel ==> #[trigger] dram@[k] == dram_tile(dram_coord_spec(k)),
        decreases 8 - channel,
    {
        let c = dram_coord(channel);
        dram.push(Tile { addr: coord_flip(c.0, c.1), align_read: 32, align_write: 16 });
        channel += 1;
    }
    assert(dram@ =~= Seq::new(8, |i: int| dram_tile(dram_coord_spec(i))));

    NocGrid {
        tensix,
        dram,
        pci: Tile { addr: coord_flip(0, 4), align_read: 32, align_write: 16 },
        arc: Tile { addr: coord_flip(0, 2), align_read: 16, align_write: 16 },
        tensix_l1_size: 1024 * 1024,
        dram_size: 1024 * 1024 * 1024,
    }
}

} // verus!
