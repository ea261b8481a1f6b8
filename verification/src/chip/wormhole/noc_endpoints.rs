//! Which tiles of a Wormhole chip are in use, and where they sit.

use crate::bits::{bit_set, test_bit};
use crate::chip::noc::{NocAddress, Tile};
use vstd::prelude::*;

verus! {

pub const GRID_SIZE_X: u8 = 10;

pub const GRID_SIZE_Y: u8 = 12;

pub const NUM_TENSIX_X: u8 = GRID_SIZE_X - 2;

pub const NUM_TENSIX_Y: u8 = GRID_SIZE_Y - 2;

/// A tile at `(x, y)` on the first fabric sits at the mirrored place on the
/// second.
pub open spec fn coord_flip_spec(x: u8, y: u8) -> NocAddress {
    NocAddress { n0: (x, y), n1: ((GRID_SIZE_X - x - 1) as u8, (GRID_SIZE_Y - y - 1) as u8) }
}

pub fn coord_flip(x: u8, y: u8) -> (r: NocAddress)
    requires
        x < GRID_SIZE_X,
        y < GRID_SIZE_Y,
    ensures
        r == coord_flip_spec(x, y),
{
    NocAddress { n0: (x, y), n1: (GRID_SIZE_X - x - 1, GRID_SIZE_Y - y - 1) }
}

/// The row on the first fabric of the `row`-th physical tensix row.
pub open spec fn tensix_row_spec(row: int) -> u8 {
    if row == 0 {
        11
    } else if row == 1 {
        1
    } else if row == 2 {
        10
    } else if row == 3 {
        2
    } else if row == 4 {
        9
    } else if row == 5 {
        3
    } else if row == 6 {
        8
    } else if row == 7 {
        4
    } else if row == 8 {
        7
    } else {
        5
    }
}

pub fn tensix_row(row: usize) -> (r: u8)
    requires
        row < 10,
    ensures
        r == tensix_row_spec(row as int),
        r < GRID_SIZE_Y,
{
    if row == 0 {
        11
    } else if row == 1 {
        1
    } else if row == 2 {
        10
    } else if row == 3 {
        2
    } else if row == 4 {
        9
    } else if row == 5 {
        3
    } else if row == 6 {
        8
    } else if row == 7 {
        4
    } else if row == 8 {
        7
    } else {
        5
    }
}

/// The column on the first fabric of the `col`-th tensix column: 1 to 4
/// and 6 to 9.
pub open spec fn tensix_col_spec(col: int) -> u8 {
    if col < 4 {
        (col + 1) as u8
    } else {
        (col + 2) as u8
    }
}

pub fn tensix_col(col: usize) -> (r: u8)
    requires
        col < 8,
    ensures
        r == tensix_col_spec(col as int),
        r < GRID_SIZE_X,
{
    if col < 4 {
        (col + 1) as u8
    } else {
        (col + 2) as u8
    }
}

/// The tensix tile in physical row `i / 8`, column `i % 8`.
pub open spec fn tensix_tile(i: int) -> Tile {
    Tile {
        addr: coord_flip_spec(tensix_col_spec(i % 8), tensix_row_spec(i / 8)),
        align_read: 16,
        align_write: 16,
    }
}

/// The tensix tiles that harvesting left: row by row, without the rows
/// whose bit is set in `harvest`.
pub open spec fn tensix_tiles(harvest: u32) -> Seq<Tile> {
    Seq::new(80, |i: int| i).filter_map(
        |i: int|
            if !bit_set(harvest, (i / 8) as u32) {
                Some(tensix_tile(i))
            } else {
                None
            },
    )
}

/// Where tile `k` of memory channel `channel` sits on the first fabric.
pub open spec fn dram_coord_spec(channel: int, k: int) -> (u8, u8) {
    if channel == 0 {
        if k == 0 { (0, 0) } else if k == 1 { (0, 1) } else { (0, 11) }
    } else if channel == 1 {
        if k == 0 { (0, 5) } else if k == 1 { (0, 6) } else { (0, 7) }
    } else if channel == 2 {
        if k == 0 { (5, 0) } else if k == 1 { (5, 1) } else { (5, 11) }
    } else if channel == 3 {
        if k == 0 { (5, 2) } else if k == 1 { (5, 9) } else { (5, 10) }
    } else if channel == 4 {
        if k == 0 { (5, 3) } else if k == 1 { (5, 4) } else { (5, 8) }
    } else {
        if k == 0 { (5, 5) } else if k == 1 { (5, 6) } else { (5, 7) }
    }
}

pub fn dram_coord(channel: usize, k: usize) -> (r: (u8, u8))
    requires
        channel < 6,
        k < 3,
    ensures
        r == dram_coord_spec(channel as int, k as int),
        r.0 < GRID_SIZE_X,
        r.1 < GRID_SIZE_Y,
{
    if channel == 0 {
        if k == 0 { (0, 0) } else if k == 1 { (0, 1) } else { (0, 11) }
    } else if channel == 1 {
        if k == 0 { (0, 5) } else if k == 1 { (0, 6) } else { (0, 7) }
    } else if channel == 2 {
        if k == 0 { (5, 0) } else if k == 1 { (5, 1) } else { (5, 11) }
    } else if channel == 3 {
        if k == 0 { (5, 2) } else if k == 1 { (5, 9) } else { (5, 10) }
    } else if channel == 4 {
        if k == 0 { (5, 3) } else if k == 1 { (5, 4) } else { (5, 8) }
    } else {
        if k == 0 { (5, 5) } else if k == 1 { (5, 6) } else { (5, 7) }
    }
}

/// A memory tile at `c` on the first fabric.
pub open spec fn dram_tile(c: (u8, u8)) -> Tile {
    Tile { addr: coord_flip_spec(c.0, c.1), align_read: 32, align_write: 16 }
}

/// The three tiles of memory channel `channel`.
pub open spec fn dram_channel(channel: int) -> [Tile; 3] {
    [
        dram_tile(dram_coord_spec(channel, 0)),
        dram_tile(dram_coord_spec(channel, 1)),
        dram_tile(dram_coord_spec(channel, 2)),
    ]
}

/// Where the `i`-th ethernet tile sits on the first fabric: eight in row 0
/// and eight in row 6, the columns taken from the outside in.
pub open spec fn eth_coord_spec(i: int) -> (u8, u8) {
    let k = i % 8;
    (
        if k % 2 == 0 {
            (9 - k / 2) as u8
        } else {
            (1 + k / 2) as u8
        },
        if i < 8 {
            0
        } else {
            6
        },
    )
}

pub fn eth_coord(i: usize) -> (r: (u8, u8))
    requires
        i < 16,
    ensures
        r == eth_coord_spec(i as int),
        r.0 < GRID_SIZE_X,
        r.1 < GRID_SIZE_Y,
{
    let k = i % 8;
    let x = if k % 2 == 0 {
        9 - k / 2
    } else {
        1 + k / 2
    };
    (
        x as u8,
        if i < 8 {
            0
        } else {
            6
        },
    )
}

/// An ethernet tile at `c` on the first fabric.
pub open spec fn eth_tile(c: (u8, u8)) -> Tile {
    Tile { addr: coord_flip_spec(c.0, c.1), align_read: 16, align_write: 16 }
}

/// The endpoints of a Wormhole chip.
#[derive(Clone, Debug, PartialEq, Eq)]
pub struct NocGrid {
    pub tensix: Vec<Tile>,
    pub dram: Vec<[Tile; 3]>,
    pub pci: Tile,
    pub arc: Tile,
    pub eth: Vec<Tile>,
    pub tensix_l1_size: u64,
    pub dram_size: u64,
}

/// What the harvesting mask says of a chip's tiles.
pub open spec fn grid_of(harvest: u32, g: NocGrid) -> bool {
    &&& g.tensix@ == tensix_tiles(harvest)
    &&& g.dram@ == Seq::new(6, |i: int| dram_channel(i))
    &&& g.pci == (Tile { addr: coord_flip_spec(0, 3), align_read: 32, align_write: 16 })
    &&& g.arc == (Tile { addr: coord_flip_spec(0, 10), align_read: 16, align_write: 16 })
    &&& g.eth@ == Seq::new(16, |i: int| eth_tile(eth_coord_spec(i)))
    &&& g.tensix_l1_size == 1536 * 1024
    &&& g.dram_size == 2 * 1024 * 1024 * 1024
}

/// Tells the tiles of the chip from its harvesting mask: bit `y` set means
/// that the `y`-th physical tensix row is not to be used.
pub fn get_grid(harvest: u32) -> (r: NocGrid)
    ensures
        grid_of(harvest, r),
{
    let ghost cells = Seq::new(80, |i: int| i);
    let ghost pick = |i: int|
        if !bit_set(harvest, (i / 8) as u32) {
            Some(tensix_tile(i))
        } else {
            None
        };
    let mut tensix: Vec<Tile> = Vec::new();
    let mut i: usize = 0;
    while i < 80
        invariant
            i <= 80,
            cells == Seq::new(80, |i: int| i),
            tensix@ == cells.take(i as int).filter_map(pick),
            pick == |i: int|
                if !bit_set(harvest, (i / 8) as u32) {
                    Some(tensix_tile(i))
                } else {
                    None
                },
        decreases 80 - i,
    {
        proof {
            cells.lemma_filter_map_take_succ(pick, i as int);
        }
        if !test_bit(harvest, (i / 8) as u32) {
            tensix.push(
                Tile {
                    addr: coord_flip(tensix_col(i % 8), tensix_row(i / 8)),
                    align_read: 16,
                    align_write: 16,
                },
            );
        }
        i += 1;
    }
    assert(cells.take(80) =~= cells);

    let mut dram: Vec<[Tile; 3]> = Vec::new();
    let mut channel: usize = 0;
    while channel < 6
        invariant
            channel <= 6,
            dram@.len() == channel,
            forall|k: int| 0 <= k < channel ==> #[trigger] dram@[k] == dram_channel(k),
        decreases 6 - channel,
    {
        let c0 = dram_coord(channel, 0);
        let c1 = dram_coord(channel, 1);
        let c2 = dram_coord(channel, 2);
        dram.push(
            [
                Tile { addr: coord_flip(c0.0, c0.1), align_read: 32, align_write: 16 },
                Tile { addr: coord_flip(c1.0, c1.1), align_read: 32, align_write: 16 },
                Tile { addr: coord_flip(c2.0, c2.1), align_read: 32, align_write: 16 },
            ],
        );
        channel += 1;
    }
    assert(dram@ =~= Seq::new(6, |i: int| dram_channel(i)));

    let mut eth: Vec<Tile> = Vec::new();
    let mut e: usize = 0;
    while e < 16
        invariant
            e <= 16,
            eth@.len() == e,
            forall|k: int| 0 <= k < e ==> #[trigger] eth@[k] == eth_tile(eth_coord_spec(k)),
        decreases 16 - e,
    {
        let c = eth_coord(e);
        eth.push(Tile { addr: coord_flip(c.0, c.1), align_read: 16, align_write: 16 });
        e += 1;
    }
    assert(eth@ =~= Seq::new(16, |i: int| eth_tile(eth_coord_spec(i))));

    NocGrid {
        tensix,
        dram,
        pci: Tile { addr: coord_flip(0, 3), align_read: 32, align_write: 16 },
        arc: Tile { addr: coord_flip(0, 10), align_read: 16, align_write: 16 },
        eth,
        tensix_l1_size: 1536 * 1024,
        dram_size: 2 * 1024 * 1024 * 1024,
    }
}

} // verus!
