//! Which tiles of a Blackhole chip are in use, and where they sit.

use super::telemetry::{reading, TelemetryData, TelemetryTag};
use crate::bits::{bit_set, count_ones, test_bit};
use crate::chip::noc::{NocAddress, Tile};
use vstd::prelude::*;

verus! {

pub const GRID_SIZE_X: u8 = 17;

pub const GRID_SIZE_Y: u8 = 12;

pub const NUM_TENSIX_ROWS: u32 = 10;

pub const NUM_TENSIX_COLS: u32 = 14;

/// A tile at `(x, y)` on the first fabric sits at the mirrored place on the
/// second.
pub open spec fn coord_flip_spec(x: u8, y: u8) -> NocAddress {
    NocAddress { n0: (x, y), n1: ((GRID_SIZE_X - x - 1) as u8, (GRID_SIZE_Y - y - 1) as u8) }
}

pub fn coord_flip(x: u8, y: u8) -> (r: NocAddress)
    requires
        x < GRID_SIZE_X,
        y < GRID_SIZE_Y,
    ensures
        r == coord_flip_spec(x, y),
{
    NocAddress { n0: (x, y), n1: (GRID_SIZE_X - x - 1, GRID_SIZE_Y - y - 1) }
}

/// The place of the `i`-th tensix tile, counted row by row: rows 2 to 11,
/// and in each row columns 1 to 7 and 10 to 16.
pub open spec fn tensix_coord_spec(i: int) -> (u8, u8) {
    let k = i % 14;
    (
        if k < 7 {
            (1 + k) as u8
        } else {
            (3 + k) as u8
        },
        (2 + i / 14) as u8,
    )
}

pub fn tensix_coord(i: usize) -> (r: (u8, u8))
    requires
        i < 140,
    ensures
        r == tensix_coord_spec(i as int),
        1 <= r.0 <= 16,
        r.0 <= 7 || r.0 >= 10,
        2 <= r.1 <= 11,
{
    let k = i % 14;
    let x = if k < 7 {
        1 + k
    } else {
        3 + k
    };
    (x as u8, (2 + i / 14) as u8)
}

/// All 140 tensix places, in that order.
pub open spec fn all_tensix() -> Seq<(u8, u8)> {
    Seq::new(140, |i: int| tensix_coord_spec(i))
}

/// Which of the fourteen tensix columns the column at `x` is.
pub open spec fn column_index(x: u8) -> u32 {
    if x <= 7 {
        (x - 1) as u32
    } else {
        (x - 3) as u32
    }
}

/// Whether a chip that translates coordinates uses the tensix column at `x`.
pub open spec fn column_in_use_translated(x: u8, columns: u32) -> bool {
    (x <= 7 && (x as u32) < columns) || (x >= 10 && ((x - 2) as u32) < columns)
}

/// A tensix tile of a chip that translates: both fabrics know it by the
/// same place.
pub open spec fn tensix_tile_translated(c: (u8, u8)) -> Tile {
    Tile { addr: NocAddress { n0: c, n1: c }, align_read: 16, align_write: 16 }
}

/// A tensix tile of a chip that does not translate.
pub open spec fn tensix_tile_flipped(c: (u8, u8)) -> Tile {
    Tile { addr: coord_flip_spec(c.0, c.1), align_read: 16, align_write: 16 }
}

/// The tensix tiles of a chip that translates, given the columns it reports.
pub open spec fn tensix_translated(columns: u32) -> Seq<Tile> {
    all_tensix().filter_map(
        |c: (u8, u8)|
            if column_in_use_translated(c.0, columns) {
                Some(tensix_tile_translated(c))
            } else {
                None
            },
    )
}

/// The tensix tiles of a chip that does not translate, given the mask of
/// its working columns.
pub open spec fn tensix_flipped(mask: u32) -> Seq<Tile> {
    all_tensix().filter_map(
        |c: (u8, u8)|
            if bit_set(mask, column_index(c.0)) {
                Some(tensix_tile_flipped(c))
            } else {
                None
            },
    )
}

/// A memory tile at `c`, known to both fabrics by the same place.
pub open spec fn dram_tile_translated(c: (u8, u8)) -> Tile {
    Tile { addr: NocAddress { n0: c, n1: c }, align_read: 64, align_write: 16 }
}

/// A memory tile at `c` on the first fabric.
pub open spec fn dram_tile_flipped(c: (u8, u8)) -> Tile {
    Tile { addr: coord_flip_spec(c.0, c.1), align_read: 64, align_write: 16 }
}

/// Where tile `k` of memory channel `channel` sits on a chip that
/// translates.
pub open spec fn translated_dram_coord_spec(channel: int, k: int) -> (u8, u8) {
    ((17 + channel % 2) as u8, (12 + 3 * (channel / 2) + k) as u8)
}

pub fn translated_dram_coord(channel: usize, k: usize) -> (r: (u8, u8))
    requires
        channel < 8,
        k < 3,
    ensures
        r == translated_dram_coord_spec(channel as int, k as int),
{
    ((17 + channel % 2) as u8, (12 + 3 * (channel / 2) + k) as u8)
}

/// Where tile `k` of memory channel `channel` sits on the first fabric.
pub open spec fn gddr_coord_spec(channel: int, k: int) -> (u8, u8) {
    if channel == 0 {
        if k == 0 { (0, 0) } else if k == 1 { (0, 1) } else { (0, 11) }
    } else if channel == 1 {
        if k == 0 { (0, 2) } else if k == 1 { (0, 10) } else { (0, 3) }
    } else if channel == 2 {
        if k == 0 { (0, 9) } else if k == 1 { (0, 4) } else { (0, 8) }
    } else if channel == 3 {
        if k == 0 { (0, 5) } else if k == 1 { (0, 7) } else { (0, 6) }
    } else if channel == 4 {
        if k == 0 { (9, 11) } else if k == 1 { (9, 1) } else { (9, 0) }
    } else if channel == 5 {
        if k == 0 { (9, 3) } else if k == 1 { (9, 10) } else { (9, 2) }
    } else if channel == 6 {
        if k == 0 { (9, 8) } else if k == 1 { (9, 4) } else { (9, 9) }
    } else {
        if k == 0 { (9, 6) } else if k == 1 { (9, 7) } else { (9, 5) }
    }
}

pub fn gddr_coord(channel: usize, k: usize) -> (r: (u8, u8))
    requires
        channel < 8,
        k < 3,
    ensures
        r == gddr_coord_spec(channel as int, k as int),
        r.0 < GRID_SIZE_X,
        r.1 < GRID_SIZE_Y,
{
    if channel == 0 {
        if k == 0 { (0, 0) } else if k == 1 { (0, 1) } else { (0, 11) }
    } else if channel == 1 {
        if k == 0 { (0, 2) } else if k == 1 { (0, 10) } else { (0, 3) }
    } else if channel == 2 {
        if k == 0 { (0, 9) } else if k == 1 { (0, 4) } else { (0, 8) }
    } else if channel == 3 {
        if k == 0 { (0, 5) } else if k == 1 { (0, 7) } else { (0, 6) }
    } else if channel == 4 {
        if k == 0 { (9, 11) } else if k == 1 { (9, 1) } else { (9, 0) }
    } else if channel == 5 {
        if k == 0 { (9, 3) } else if k == 1 { (9, 10) } else { (9, 2) }
    } else if channel == 6 {
        if k == 0 { (9, 8) } else if k == 1 { (9, 4) } else { (9, 9) }
    } else {
        if k == 0 { (9, 6) } else if k == 1 { (9, 7) } else { (9, 5) }
    }
}

/// The three tiles of memory channel `channel` on a chip that translates.
pub open spec fn dram_channel_translated(channel: int) -> [Tile; 3] {
    [
        dram_tile_translated(translated_dram_coord_spec(channel, 0)),
        dram_tile_translated(translated_dram_coord_spec(channel, 1)),
        dram_tile_translated(translated_dram_coord_spec(channel, 2)),
    ]
}

/// The three tiles of memory channel `channel` on a chip that does not.
pub open spec fn dram_channel_flipped(channel: int) -> [Tile; 3] {
    [
        dram_tile_flipped(gddr_coord_spec(channel, 0)),
        dram_tile_flipped(gddr_coord_spec(channel, 1)),
        dram_tile_flipped(gddr_coord_spec(channel, 2)),
    ]
}

/// The memory channels of a chip that translates: as many as the mask has
/// bits set, numbered from the first.
pub open spec fn dram_translated(mask: u32) -> Seq<[Tile; 3]> {
    Seq::new(count_ones(mask, 32), |i: int| dram_channel_translated(i))
}

/// The memory channels of a chip that does not translate: those whose bit
/// is set in the mask, in rising order.
pub open spec fn dram_flipped(mask: u32) -> Seq<[Tile; 3]> {
    Seq::new(8, |i: int| i).filter_map(
        |i: int|
            if bit_set(mask, i as u32) {
                Some(dram_channel_flipped(i))
            } else {
                None
            },
    )
}

/// The endpoints of a Blackhole chip that are in use.
#[derive(Clone, Debug, PartialEq, Eq)]
pub struct Endpoints {
    pub pcie: Tile,
    pub arc: Tile,
    /// The tensix tiles in use, `tensix_active_count` of them.
    pub tensix: Vec<Tile>,
    pub tensix_active_count: usize,
    /// The corners of the broadcast rectangle, for each fabric.
    pub tensix_broadcast: [((u8, u8), (u8, u8)); 2],
    pub use_translated_multicast: bool,
    /// The memory channels in use, `dram_active_count` of them.
    pub dram: Vec<[Tile; 3]>,
    pub dram_active_count: usize,
    pub ethernet: Vec<Tile>,
    pub ethernet_active_count: usize,
    pub l2cpu: Vec<Tile>,
    pub l2cpu_active_count: usize,
    pub tensix_l1_size: u64,
    pub dram_size: u64,
}

/// The tile of the firmware controller.
pub open spec fn arc_tile() -> Tile {
    Tile { addr: NocAddress { n0: (8, 0), n1: (8, 11) }, align_read: 16, align_write: 16 }
}

/// The tile of the PCIe bridge on a chip that translates.
pub open spec fn pcie_tile_translated() -> Tile {
    Tile { addr: NocAddress { n0: (19, 24), n1: (19, 24) }, align_read: 64, align_write: 16 }
}

/// What a chip's telemetry says of its tiles.
pub open spec fn endpoints_of(values: Map<u16, u32>, e: Endpoints) -> bool {
    let translated = match reading(values, TelemetryTag::NocTranslation) {
        Some(v) => v != 0,
        None => false,
    };
    let columns = match reading(values, TelemetryTag::EnabledTensixCol) {
        Some(v) => v,
        None => 0x3fff,
    };
    let gddr = match reading(values, TelemetryTag::EnabledGddr) {
        Some(v) => v,
        None => 0xff,
    };
    &&& e.arc == arc_tile()
    &&& e.use_translated_multicast == translated
    &&& e.tensix_active_count == e.tensix@.len()
    &&& e.dram_active_count == e.dram@.len()
    &&& e.ethernet@.len() == 0 && e.ethernet_active_count == 0
    &&& e.l2cpu@.len() == 0 && e.l2cpu_active_count == 0
    &&& e.tensix_l1_size == 1536 * 1024
    &&& e.dram_size == 4 * 1024 * 1024 * 1024
    &&& if translated {
        &&& e.tensix@ == tensix_translated(columns)
        &&& e.dram@ == dram_translated(gddr)
        &&& e.pcie == pcie_tile_translated()
        &&& e.tensix_broadcast[0] == ((2u8, 3u8), (1u8, 2u8))
        &&& e.tensix_broadcast[1] == ((1u8, 2u8), (2u8, 3u8))
    } else {
        &&& e.tensix@ == tensix_flipped(columns)
        &&& e.dram@ == dram_flipped(gddr)
        &&& e.pcie == (Tile {
            addr: NocAddress { n0: (0, 0), n1: (0, 0) },
            align_read: 0,
            align_write: 0,
        })
        &&& e.tensix_broadcast[0] == ((1u8, 2u8), (16u8, 11u8))
        &&& e.tensix_broadcast[1] == ((15u8, 9u8), (0u8, 0u8))
    }
}

/// The telemetry values from which the endpoints can be told: a chip that
/// translates names at most eight memory channels; one that does not sets
/// no bit beyond its fourteen columns and eight channels.
pub open spec fn telemetry_in_range(values: Map<u16, u32>) -> bool {
    let translated = match reading(values, TelemetryTag::NocTranslation) {
        Some(v) => v != 0,
        None => false,
    };
    let columns = match reading(values, TelemetryTag::EnabledTensixCol) {
        Some(v) => v,
        None => 0x3fff,
    };
    let gddr = match reading(values, TelemetryTag::EnabledGddr) {
        Some(v) => v,
        None => 0xff,
    };
    if translated {
        count_ones(gddr, 32) <= 8
    } else {
        columns < 0x4000 && gddr < 0x100
    }
}

/// Whether the endpoints can be told from these telemetry values.
pub fn telemetry_usable(telemetry: &TelemetryData) -> (r: bool)
    ensures
        r == telemetry_in_range(telemetry@),
{
    if telemetry.translation_enabled() {
        crate::bits::popcount(telemetry.enabled_gddr()) <= 8
    } else {
        telemetry.enabled_tensix_columns() < 0x4000 && telemetry.enabled_gddr() < 0x100
    }
}

impl Default for Endpoints {
    /// A chip of which nothing is known yet: only the firmware controller
    /// has its place.
    fn default() -> (r: Self)
        ensures
            r.arc == arc_tile(),
            r.pcie == (Tile {
                addr: NocAddress { n0: (0, 0), n1: (0, 0) },
                align_read: 0,
                align_write: 0,
            }),
            r.tensix@.len() == 0 && r.tensix_active_count == 0,
            r.dram@.len() == 0 && r.dram_active_count == 0,
            r.ethernet@.len() == 0 && r.ethernet_active_count == 0,
            r.l2cpu@.len() == 0 && r.l2cpu_active_count == 0,
            r.tensix_broadcast[0] == ((0u8, 0u8), (0u8, 0u8)),
            r.tensix_broadcast[1] == ((0u8, 0u8), (0u8, 0u8)),
            !r.use_translated_multicast,
            r.tensix_l1_size == 1536 * 1024,
            r.dram_size == 4 * 1024 * 1024 * 1024,
    {
        Endpoints {
            pcie: Tile::default(),
            arc: Tile {
                addr: NocAddress { n0: (8, 0), n1: (8, 11) },
                align_read: 16,
                align_write: 16,
            },
            tensix: Vec::new(),
            tensix_active_count: 0,
            tensix_broadcast: [((0, 0), (0, 0)), ((0, 0), (0, 0))],
            use_translated_multicast: false,
            dram: Vec::new(),
            dram_active_count: 0,
            ethernet: Vec::new(),
            ethernet_active_count: 0,
            l2cpu: Vec::new(),
            l2cpu_active_count: 0,
            tensix_l1_size: 1536 * 1024,
            dram_size: 4 * 1024 * 1024 * 1024,
        }
    }
}

impl Endpoints {
    /// Tells the tiles in use from a reading of the chip's telemetry.
    pub fn new(telemetry: &TelemetryData) -> (r: Endpoints)
        requires
            telemetry_in_range(telemetry@),
        ensures
            endpoints_of(telemetry@, r),
    {
        let mut tensix: Vec<Tile> = Vec::new();
        let mut dram: Vec<[Tile; 3]> = Vec::new();
        let columns = telemetry.enabled_tensix_columns();
        let gddr = telemetry.enabled_gddr();
        if telemetry.translation_enabled() {
            let ghost pick = |c: (u8, u8)|
                if column_in_use_translated(c.0, columns) {
                    Some(tensix_tile_translated(c))
                } else {
                    None
                };
            let mut i: usize = 0;
            while i < 140
                invariant
                    i <= 140,
                    tensix@ == all_tensix().take(i as int).filter_map(pick),
                    pick == |c: (u8, u8)|
                        if column_in_use_translated(c.0, columns) {
                            Some(tensix_tile_translated(c))
                        } else {
                            None
                        },
                decreases 140 - i,
            {
                let core = tensix_coord(i);
                let x = core.0 as u32;
                proof {
                    all_tensix().lemma_filter_map_take_succ(pick, i as int);
                }
                if (x <= 7 && x < columns) || (x >= 10 && (x - 2) < columns) {
                    tensix.push(
                        Tile {
                            addr: NocAddress { n0: (core.0, core.1), n1: (core.0, core.1) },
                            align_read: 16,
                            align_write: 16,
                        },
                    );
                }
                i += 1;
            }
            assert(all_tensix().take(140) =~= all_tensix());

            let working = crate::bits::popcount(gddr);
            let mut channel: usize = 0;
            while channel < working as usize
                invariant
                    channel <= working <= 8,
                    dram@.len() == channel,
                    forall|k: int|
                        0 <= k < channel ==> #[trigger] dram@[k]
                            == dram_channel_translated(k),
                decreases working - channel,
            {
                let c0 = translated_dram_coord(channel, 0);
                let c1 = translated_dram_coord(channel, 1);
                let c2 = translated_dram_coord(channel, 2);
                dram.push(
                    [
                        Tile { addr: NocAddress { n0: c0, n1: c0 }, align_read: 64, align_write: 16 },
                        Tile { addr: NocAddress { n0: c1, n1: c1 }, align_read: 64, align_write: 16 },
                        Tile { addr: NocAddress { n0: c2, n1: c2 }, align_read: 64, align_write: 16 },
                    ],
                );
                channel += 1;
            }
            assert(dram@ =~= dram_translated(gddr));

            let base = Endpoints::default();
            Endpoints {
                pcie: Tile {
                    addr: NocAddress { n0: (19, 24), n1: (19, 24) },
                    align_read: 64,
                    align_write: 16,
                },
                tensix_active_count: tensix.len(),
                tensix,
                tensix_broadcast: [((2, 3), (1, 2)), ((1, 2), (2, 3))],
                use_translated_multicast: true,
                dram_active_count: dram.len(),
                dram,
                ..base
            }
        } else {
            let ghost pick = |c: (u8, u8)|
                if bit_set(columns, column_index(c.0)) {
                    Some(tensix_tile_flipped(c))
                } else {
                    None
                };
            let mut i: usize = 0;
            while i < 140
                invariant
                    i <= 140,
                    tensix@ == all_tensix().take(i as int).filter_map(pick),
                    pick == |c: (u8, u8)|
                        if bit_set(columns, column_index(c.0)) {
                            Some(tensix_tile_flipped(c))
                        } else {
                            None
                        },
                decreases 140 - i,
            {
                let core = tensix_coord(i);
                let column: u32 = if core.0 <= 7 {
                    (core.0 - 1) as u32
                } else {
                    (core.0 - 3) as u32
                };
                proof {
                    all_tensix().lemma_filter_map_take_succ(pick, i as int);
                }
                if test_bit(columns, column) {
                    tensix.push(
                        Tile { addr: coord_flip(core.0, core.1), align_read: 16, align_write: 16 },
                    );
                }
                i += 1;
            }
            assert(all_tensix().take(140) =~= all_tensix());

            let ghost channels = Seq::new(8, |i: int| i);
            let ghost pick_channel = |i: int|
                if bit_set(gddr, i as u32) {
                    Some(dram_channel_flipped(i))
                } else {
                    None
                };
            let mut channel: usize = 0;
            while channel < 8
                invariant
                    channel <= 8,
                    channels == Seq::new(8, |i: int| i),
                    dram@ == channels.take(channel as int).filter_map(pick_channel),
                    pick_channel == |i: int|
                        if bit_set(gddr, i as u32) {
                            Some(dram_channel_flipped(i))
                        } else {
                            None
                        },
                decreases 8 - channel,
            {
                proof {
                    channels.lemma_filter_map_take_succ(pick_channel, channel as int);
                }
                if test_bit(gddr, channel as u32) {
                    let c0 = gddr_coord(channel, 0);
                    let c1 = gddr_coord(channel, 1);
                    let c2 = gddr_coord(channel, 2);
                    dram.push(
                        [
                            Tile { addr: coord_flip(c0.0, c0.1), align_read: 64, align_write: 16 },
                            Tile { addr: coord_flip(c1.0, c1.1), align_read: 64, align_write: 16 },
                            Tile { addr: coord_flip(c2.0, c2.1), align_read: 64, align_write: 16 },
                        ],
                    );
                }
                channel += 1;
            }
            assert(channels.take(8) =~= channels);

            let bcast_start = coord_flip(1, 2);
            let bcast_end = coord_flip(16, 11);
            let base = Endpoints::default();
            Endpoints {
                tensix_active_count: tensix.len(),
                tensix,
                tensix_broadcast: [(bcast_start.n0, bcast_end.n0), (bcast_start.n1, bcast_end.n1)],
                use_translated_multicast: false,
                dram_active_count: dram.len(),
                dram,
                ..base
            }
        }
    }
}

} // verus!
