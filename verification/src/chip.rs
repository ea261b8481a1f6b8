//! The chip: its architecture, its tiles and the operations addressed to them.

use crate::kernel::{load_ops, KernelData, LoadOp};
use crate::loader::{
    soft_reset_ops, ChipOp, ALL_SOFT_RESETS, SOFT_RESET_ADDR,
};
use vstd::prelude::*;

pub mod blackhole;
pub mod dma;
pub mod field;
pub mod grayskull;
pub mod noc;
pub mod tlb;
pub mod transaction;
pub mod wormhole;

use blackhole::Blackhole;
use grayskull::arc::{ArcMsg, PowerState};
use grayskull::Grayskull;
use noc::{in_rect, NocAddress, NocId, Tile};
use wormhole::Wormhole;

verus! {

/// The silicon generation of a chip.
#[derive(Clone, Copy, Debug, PartialEq, Eq, Hash, Structural)]
pub enum Arch {
    Grayskull,
    Wormhole,
    Blackhole,
}

/// An opened chip, as far as the host has to know it to decide what to do
/// with it.
#[derive(Clone, Debug)]
pub enum Chip {
    Grayskull(Grayskull),
    Wormhole(Wormhole),
    Blackhole(Blackhole),
}

/// A message for the firmware controller, in the form that the chip's
/// generation takes it in.
#[derive(Clone, Copy, Debug, PartialEq, Eq, Structural)]
pub enum ArcRequest {
    /// A message through the scratch registers.
    Scratch(ArcMsg),
    /// A message through the rings, known by its number.
    Queue { msg_id: u32 },
    /// Nothing: this generation does not need the message.
    Nothing,
}

impl Chip {
    pub open spec fn arch_spec(&self) -> Arch {
        match self {
            Chip::Grayskull(_) => Arch::Grayskull,
            Chip::Wormhole(_) => Arch::Wormhole,
            Chip::Blackhole(_) => Arch::Blackhole,
        }
    }

    /// The tensix tiles in use.
    pub open spec fn tensix_tiles(&self) -> Seq<Tile> {
        match self {
            Chip::Grayskull(g) => g.endpoints.tensix@,
            Chip::Wormhole(w) => w.endpoints.tensix@,
            Chip::Blackhole(b) => b.endpoints.tensix@,
        }
    }

    /// The corners of the rectangle that a broadcast over `noc_id` reaches.
    pub open spec fn broadcast_rect_spec(&self, noc_id: NocId) -> ((u8, u8), (u8, u8)) {
        match self {
            Chip::Grayskull(_) => grayskull::broadcast_rect_spec(noc_id),
            Chip::Wormhole(_) => wormhole::broadcast_rect_spec(noc_id),
            Chip::Blackhole(b) => b.endpoints.tensix_broadcast[noc_id.index_spec()],
        }
    }

    #[verifier::when_used_as_spec(arch_spec)]
    pub fn arch(&self) -> (r: Arch)
        ensures
            r == self.arch_spec(),
    {
        match self {
            Chip::Grayskull(_) => Arch::Grayskull,
            Chip::Wormhole(_) => Arch::Wormhole,
            Chip::Blackhole(_) => Arch::Blackhole,
        }
    }

    /// Which device of the host the chip is.
    pub fn id(&self) -> (r: usize)
        ensures
            r == match self {
                Chip::Grayskull(g) => g.id,
                Chip::Wormhole(w) => w.id,
                Chip::Blackhole(b) => b.id,
            },
    {
        match self {
            Chip::Grayskull(grayskull) => grayskull.id,
            Chip::Wormhole(wormhole) => wormhole.id,
            Chip::Blackhole(blackhole) => blackhole.id,
        }
    }

    /// How many tensix tiles are in use.
    pub fn tensix_count(&self) -> (r: usize)
        ensures
            r == self.tensix_tiles().len(),
    {
        match self {
            Chip::Grayskull(grayskull) => grayskull.endpoints.tensix.len(),
            Chip::Wormhole(wormhole) => wormhole.endpoints.tensix.len(),
            Chip::Blackhole(blackhole) => blackhole.endpoints.tensix.len(),
        }
    }

    /// The `index`-th tensix tile in use.
    pub fn tensix(&self, index: usize) -> (r: Tile)
        requires
            index < self.tensix_tiles().len(),
        ensures
            r == self.tensix_tiles()[index as int],
    {
        match self {
            Chip::Grayskull(grayskull) => grayskull.endpoints.tensix[index],
            Chip::Wormhole(wormhole) => wormhole.endpoints.tensix[index],
            Chip::Blackhole(blackhole) => blackhole.endpoints.tensix[index],
        }
    }

    /// How many bytes of memory a tensix tile has.
    pub fn tensix_l1(&self) -> (r: u64)
        ensures
            r == match self {
                Chip::Grayskull(g) => g.endpoints.tensix_l1_size,
                Chip::Wormhole(w) => w.endpoints.tensix_l1_size,
                Chip::Blackhole(b) => b.endpoints.tensix_l1_size,
            },
    {
        match self {
            Chip::Grayskull(grayskull) => grayskull.endpoints.tensix_l1_size,
            Chip::Wormhole(wormhole) => wormhole.endpoints.tensix_l1_size,
            Chip::Blackhole(blackhole) => blackhole.endpoints.tensix_l1_size,
        }
    }

    /// How many memory channels are in use.
    pub fn dram_count(&self) -> (r: usize)
        ensures
            r == match self {
                Chip::Grayskull(g) => g.endpoints.dram@.len(),
                Chip::Wormhole(w) => w.endpoints.dram@.len(),
                Chip::Blackhole(b) => b.endpoints.dram@.len(),
            },
    {
        match self {
            Chip::Grayskull(grayskull) => grayskull.endpoints.dram.len(),
            Chip::Wormhole(wormhole) => wormhole.endpoints.dram.len(),
            Chip::Blackhole(blackhole) => blackhole.endpoints.dram.len(),
        }
    }

    /// How many tiles give access to one memory channel.
    pub fn cores_per_channel(&self) -> (r: usize)
        ensures
            r == match self {
                Chip::Grayskull(_) => 1usize,
                Chip::Wormhole(_) => 3usize,
                Chip::Blackhole(_) => 3usize,
            },
    {
        match self {
            Chip::Grayskull(_grayskull) => 1,
            Chip::Wormhole(_wormhole) => 3,
            Chip::Blackhole(_blackhole) => 3,
        }
    }

    /// The tiles that give access to memory channel `index`.
    pub fn dram(&self, index: usize) -> (r: Vec<Tile>)
        requires
            index < match self {
                Chip::Grayskull(g) => g.endpoints.dram@.len(),
                Chip::Wormhole(w) => w.endpoints.dram@.len(),
                Chip::Blackhole(b) => b.endpoints.dram@.len(),
            },
        ensures
            r@ == match self {
                Chip::Grayskull(g) => seq![g.endpoints.dram@[index as int]],
                Chip::Wormhole(w) => w.endpoints.dram@[index as int]@,
                Chip::Blackhole(b) => b.endpoints.dram@[index as int]@,
            },
    {
        let mut r: Vec<Tile> = Vec::new();
        match self {
            Chip::Grayskull(grayskull) => {
                r.push(grayskull.endpoints.dram[index]);
                assert(r@ =~= seq![grayskull.endpoints.dram@[index as int]]);
            },
            Chip::Wormhole(wormhole) => {
                let channel = &wormhole.endpoints.dram[index];
                r.push(channel[0]);
                r.push(channel[1]);
                r.push(channel[2]);
                assert(r@ =~= wormhole.endpoints.dram@[index as int]@);
            },
            Chip::Blackhole(blackhole) => {
                let channel = &blackhole.endpoints.dram[index];
                r.push(channel[0]);
                r.push(channel[1]);
                r.push(channel[2]);
                assert(r@ =~= blackhole.endpoints.dram@[index as int]@);
            },
        }
        r
    }

    /// How many bytes of memory one channel has.
    pub fn dram_size(&self) -> (r: u64)
        ensures
            r == match self {
                Chip::Grayskull(g) => g.endpoints.dram_size,
                Chip::Wormhole(w) => w.endpoints.dram_size,
                Chip::Blackhole(b) => b.endpoints.dram_size,
            },
    {
        match self {
            Chip::Grayskull(grayskull) => grayskull.endpoints.dram_size,
            Chip::Wormhole(wormhole) => wormhole.endpoints.dram_size,
            Chip::Blackhole(blackhole) => blackhole.endpoints.dram_size,
        }
    }

    /// The tile of the PCIe bridge.
    pub fn pcie(&self) -> (r: Tile)
        ensures
            r == match self {
                Chip::Grayskull(g) => g.endpoints.pci,
                Chip::Wormhole(w) => w.endpoints.pci,
                Chip::Blackhole(b) => b.endpoints.pcie,
            },
    {
        match self {
            Chip::Grayskull(grayskull) => grayskull.endpoints.pci,
            Chip::Wormhole(wormhole) => wormhole.endpoints.pci,
            Chip::Blackhole(blackhole) => blackhole.endpoints.pcie,
        }
    }

    /// Where the memory of the host begins, seen from a tile through the
    /// PCIe bridge.
    pub open spec fn pcie_base(&self) -> u64 {
        match self {
            Chip::Grayskull(_) => 0,
            Chip::Wormhole(_) => 0x8_0000_0000,
            Chip::Blackhole(_) => 0x1000_0000_0000_0000,
        }
    }

    /// Where a tile finds the address `addr` of the host's memory, seen
    /// through the PCIe bridge.
    pub fn pcie_access(&self, addr: u64) -> (r: u64)
        requires
            self.pcie_base() + addr <= u64::MAX,
        ensures
            r == self.pcie_base() + addr,
    {
        match self {
            Chip::Grayskull(_grayskull) => addr,
            Chip::Wormhole(_wormhole) => 0x8_0000_0000 + addr,
            Chip::Blackhole(_blackhole) => 0x1000_0000_0000_0000 + addr,
        }
    }

    /// The message that asks the firmware to lower the clocks.
    pub fn go_idle(&self) -> (r: ArcRequest)
        ensures
            r == match self {
                Chip::Blackhole(_) => ArcRequest::Queue { msg_id: blackhole::MSG_GO_IDLE },
                _ => ArcRequest::Scratch(ArcMsg::SetPowerState(PowerState::LongIdle)),
            },
    {
        match self {
            Chip::Grayskull(_) => ArcRequest::Scratch(ArcMsg::SetPowerState(PowerState::LongIdle)),
            Chip::Wormhole(_) => ArcRequest::Scratch(ArcMsg::SetPowerState(PowerState::LongIdle)),
            Chip::Blackhole(_) => ArcRequest::Queue { msg_id: blackhole::MSG_GO_IDLE },
        }
    }

    /// The message that asks the firmware to raise the clocks.
    pub fn go_busy(&self) -> (r: ArcRequest)
        ensures
            r == match self {
                Chip::Blackhole(_) => ArcRequest::Queue { msg_id: blackhole::MSG_GO_BUSY },
                _ => ArcRequest::Scratch(ArcMsg::SetPowerState(PowerState::Busy)),
            },
    {
        match self {
            Chip::Grayskull(_) => ArcRequest::Scratch(ArcMsg::SetPowerState(PowerState::Busy)),
            Chip::Wormhole(_) => ArcRequest::Scratch(ArcMsg::SetPowerState(PowerState::Busy)),
            Chip::Blackhole(_) => ArcRequest::Queue { msg_id: blackhole::MSG_GO_BUSY },
        }
    }

    /// The message that asks the firmware to take the tiles out of hard
    /// reset; a Blackhole chip needs none.
    pub fn deassert_riscv_reset(&self) -> (r: ArcRequest)
        ensures
            r == match self {
                Chip::Blackhole(_) => ArcRequest::Nothing,
                _ => ArcRequest::Scratch(ArcMsg::DeassertRiscVReset),
            },
    {
        match self {
            Chip::Grayskull(_) => ArcRequest::Scratch(ArcMsg::DeassertRiscVReset),
            Chip::Wormhole(_) => ArcRequest::Scratch(ArcMsg::DeassertRiscVReset),
            Chip::Blackhole(_) => ArcRequest::Nothing,
        }
    }

    /// The message that a step of a plan stands for, if it is one for the
    /// firmware.
    pub fn arc_request(&self, op: &ChipOp) -> (r: Option<ArcRequest>)
        ensures
            r == match op {
                ChipOp::GoIdle => Some(
                    match self {
                        Chip::Blackhole(_) => ArcRequest::Queue { msg_id: blackhole::MSG_GO_IDLE },
                        _ => ArcRequest::Scratch(ArcMsg::SetPowerState(PowerState::LongIdle)),
                    },
                ),
                ChipOp::GoBusy => Some(
                    match self {
                        Chip::Blackhole(_) => ArcRequest::Queue { msg_id: blackhole::MSG_GO_BUSY },
                        _ => ArcRequest::Scratch(ArcMsg::SetPowerState(PowerState::Busy)),
                    },
                ),
                ChipOp::DeassertRiscvReset => Some(
                    match self {
                        Chip::Blackhole(_) => ArcRequest::Nothing,
                        _ => ArcRequest::Scratch(ArcMsg::DeassertRiscVReset),
                    },
                ),
                _ => None,
            },
    {
        match op {
            ChipOp::GoIdle => Some(self.go_idle()),
            ChipOp::GoBusy => Some(self.go_busy()),
            ChipOp::DeassertRiscvReset => Some(self.deassert_riscv_reset()),
            _ => None,
        }
    }

    /// The corners of the rectangle that a broadcast over `noc_id` reaches.
    pub fn broadcast_rect(&self, noc_id: NocId) -> (r: ((u8, u8), (u8, u8)))
        ensures
            r == self.broadcast_rect_spec(noc_id),
    {
        match self {
            Chip::Grayskull(grayskull) => grayskull.broadcast_rect(noc_id),
            Chip::Wormhole(wormhole) => wormhole.broadcast_rect(noc_id),
            Chip::Blackhole(blackhole) => blackhole.broadcast_rect(noc_id),
        }
    }
}

/// Which chips are idle: one flag for each device that has been touched. A
/// device that has not been touched is idle.
#[derive(Clone, Debug, PartialEq, Eq)]
pub struct IdleTable {
    pub flags: Vec<bool>,
}

/// The steps that wake a chip up: back to how it is found (every core
/// held in soft reset, then the tiles out of hard reset), then the clocks
/// raised.
pub open spec fn wake_ops() -> Seq<ChipOp> {
    seq![
        ChipOp::GoIdle,
        ChipOp::Broadcast32 { noc_id: NocId::Noc0, addr: SOFT_RESET_ADDR, value: ALL_SOFT_RESETS },
        ChipOp::DeassertRiscvReset,
        ChipOp::GoBusy,
    ]
}

/// The steps that put a chip to rest: the clocks lowered, every core held
/// in reset.
pub open spec fn rest_ops() -> Seq<ChipOp> {
    seq![
        ChipOp::GoIdle,
        ChipOp::Broadcast32 { noc_id: NocId::Noc0, addr: SOFT_RESET_ADDR, value: ALL_SOFT_RESETS },
    ]
}

impl IdleTable {
    /// Whether device `id` is idle.
    pub open spec fn is_idle_spec(&self, id: int) -> bool {
        id >= self.flags@.len() || self.flags@[id]
    }

    /// A table in which no device has been touched.
    pub fn new() -> (r: Self)
        ensures
            forall|id: int| 0 <= id ==> r.is_idle_spec(id),
    {
        IdleTable { flags: Vec::new() }
    }

    /// Whether device `id` is idle.
    pub fn is_idle(&self, id: usize) -> (r: bool)
        ensures
            r == self.is_idle_spec(id as int),
    {
        id >= self.flags.len() || self.flags[id]
    }

    /// Notes device `id` as idle or not, and leaves all others as they are.
    fn set(&mut self, id: usize, idle: bool)
        requires
            id < usize::MAX,
        ensures
            final(self).is_idle_spec(id as int) == idle,
            forall|other: int|
                0 <= other && other != id ==> final(self).is_idle_spec(other) == old(
                    self,
                ).is_idle_spec(other),
    {
        while self.flags.len() <= id
            invariant
                id < usize::MAX,
                self.flags@.len() >= old(self).flags@.len(),
                forall|other: int| 0 <= other ==> self.is_idle_spec(other) == old(self).is_idle_spec(other),
            decreases id + 1 - self.flags@.len(),
        {
            self.flags.push(true);
        }
        self.flags[id] = idle;
    }

    /// Wakes device `id` up if it is idle: the steps to take are those of
    /// `wake_ops`, and the device is idle no more. A device that is awake
    /// is left alone.
    pub fn start(&mut self, id: usize) -> (r: Vec<ChipOp>)
        requires
            id < usize::MAX,
        ensures
            r@ == if old(self).is_idle_spec(id as int) {
                wake_ops()
            } else {
                Seq::empty()
            },
            !final(self).is_idle_spec(id as int),
            forall|other: int|
                0 <= other && other != id ==> final(self).is_idle_spec(other) == old(
                    self,
                ).is_idle_spec(other),
    {
        if self.is_idle(id) {
            let mut ops = crate::loader::reset_to_default();
            ops.push(crate::loader::raise_clocks());
            assert(ops@ =~= wake_ops());
            self.set(id, false);
            ops
        } else {
            Vec::new()
        }
    }

    /// Puts device `id` to rest if it is awake, or in any case if forced:
    /// the steps to take are those of `rest_ops`, and the device is idle.
    /// An idle device is left alone unless forced.
    pub fn stop(&mut self, id: usize, force: bool) -> (r: Vec<ChipOp>)
        requires
            id < usize::MAX,
        ensures
            r@ == if force || !old(self).is_idle_spec(id as int) {
                rest_ops()
            } else {
                Seq::empty()
            },
            final(self).is_idle_spec(id as int),
            forall|other: int|
                0 <= other && other != id ==> final(self).is_idle_spec(other) == old(
                    self,
                ).is_idle_spec(other),
    {
        if force || !self.is_idle(id) {
            let ops = crate::loader::stop_all();
            self.set(id, true);
            ops
        } else {
            Vec::new()
        }
    }
}

/// The steps that hold every core of each of the tiles in reset, tile by
/// tile.
pub open spec fn stop_each(tiles: Seq<Tile>) -> Seq<ChipOp>
    decreases tiles.len(),
{
    if tiles.len() == 0 {
        Seq::empty()
    } else {
        stop_each(tiles.drop_last()) + soft_reset_ops(tiles.last().addr, ALL_SOFT_RESETS)
    }
}

/// The steps that release the BRISC of each of the tiles, tile by tile,
/// the TRISCs kept in reset, staggered.
pub open spec fn start_each(tiles: Seq<Tile>) -> Seq<ChipOp>
    decreases tiles.len(),
{
    if tiles.len() == 0 {
        Seq::empty()
    } else {
        start_each(tiles.drop_last()) + soft_reset_ops(
            tiles.last().addr,
            crate::loader::release_value(true, true),
        )
    }
}

/// The steps that load an image onto each of the tiles, tile by tile.
pub open spec fn load_each(segments: Seq<crate::kernel::KernelBytes>, tiles: Seq<Tile>) -> Seq<
    LoadOp,
>
    decreases tiles.len(),
{
    if tiles.len() == 0 {
        Seq::empty()
    } else {
        load_each(segments, tiles.drop_last()) + load_ops(
            segments,
            seq![tiles.last().addr],
            false,
        )
    }
}

/// The steps that stop tiles: each of the given tiles, or all at once
/// where none is given.
pub open spec fn stop_ops(tiles: Option<Seq<Tile>>) -> Seq<ChipOp> {
    match tiles {
        Some(t) => stop_each(t),
        None => rest_ops(),
    }
}

/// All that is to be done to run an image on tiles.
#[derive(Clone, Debug, PartialEq, Eq)]
pub struct LaunchPlan {
    /// First: the tiles stopped, out of hard reset, the clocks raised.
    pub prepare: Vec<ChipOp>,
    /// The fabric that the image is loaded over.
    pub noc_id: NocId,
    /// Then: the image written and read back.
    pub load: Vec<LoadOp>,
    /// Then: the cores released.
    pub start: Vec<ChipOp>,
    /// The tiles to follow: those given, or all tensix tiles.
    pub tiles: Vec<Tile>,
    /// Whether the start of the image is to be waited for on each tile.
    pub sync: bool,
    /// Where each tile is told its number before its start is waited for.
    pub core_id: Option<u64>,
    /// Whether the end of the image is to be waited for on each tile.
    pub wait: bool,
    /// Last, where the end was waited for: the clocks lowered, the tiles
    /// stopped.
    pub finish: Vec<ChipOp>,
}

/// The addresses of tiles.
pub open spec fn addrs_of(tiles: Seq<Tile>) -> Seq<NocAddress> {
    tiles.map_values(|t: Tile| t.addr)
}

impl Chip {
    /// The steps that stop tiles after a run: the clocks lowered, then each
    /// of the given tiles stopped, or all at once where none is given.
    pub fn stop_tile(&self, tiles: Option<&Vec<Tile>>) -> (r: Vec<ChipOp>)
        ensures
            r@ == seq![ChipOp::GoIdle] + stop_ops(
                match tiles {
                    Some(t) => Some(t@),
                    None => None,
                },
            ),
    {
        let mut r: Vec<ChipOp> = Vec::new();
        r.push(ChipOp::GoIdle);
        let mut rest = stop_tiles(tiles);
        r.append(&mut rest);
        r
    }

    /// Plans the run of an image: on the given tiles, each loaded by
    /// itself, or on all tensix tiles, loaded by broadcast.
    pub fn load_kernels(&self, data: &KernelData, tiles: Option<&Vec<Tile>>, wait: bool) -> (r:
        LaunchPlan)
        requires
            match tiles {
                Some(t) => 2 * data.writes@.len() * t@.len() <= usize::MAX,
                None => data.writes@.len() * (1 + self.tensix_tiles().len()) <= usize::MAX,
            },
        ensures
            r.noc_id == NocId::Noc1,
            r.wait == wait,
            r.sync == data.bin.start_sync is Some,
            r.core_id == if data.bin.start_sync is Some {
                crate::kernel::lookup(data.sym_table@, "CORE_ID"@)
            } else {
                None
            },
            match tiles {
                Some(t) => {
                    &&& r.tiles@ == t@
                    &&& r.prepare@ == stop_each(t@) + seq![
                        ChipOp::DeassertRiscvReset,
                        ChipOp::GoBusy,
                    ]
                    &&& r.load@ == load_each(data.writes@, t@)
                    &&& r.start@ == start_each(t@)
                    &&& r.finish@ == if wait {
                        seq![ChipOp::GoIdle] + stop_each(t@)
                    } else {
                        Seq::empty()
                    }
                },
                None => {
                    &&& r.tiles@ == self.tensix_tiles()
                    &&& r.prepare@ == rest_ops() + seq![
                        ChipOp::DeassertRiscvReset,
                        ChipOp::GoBusy,
                    ]
                    &&& r.load@ == load_ops(data.writes@, addrs_of(self.tensix_tiles()), true)
                    &&& r.start@ == seq![
                        ChipOp::Broadcast32 {
                            noc_id: NocId::Noc0,
                            addr: SOFT_RESET_ADDR,
                            value: crate::loader::release_value(true, true),
                        },
                    ]
                    &&& r.finish@ == if wait {
                        seq![ChipOp::GoIdle] + rest_ops()
                    } else {
                        Seq::empty()
                    }
                },
            },
    {
        let mut prepare = stop_tiles(tiles);
        prepare.push(ChipOp::DeassertRiscvReset);
        prepare.push(ChipOp::GoBusy);

        let mut load: Vec<LoadOp> = Vec::new();
        let mut start: Vec<ChipOp> = Vec::new();
        let mut all_tiles: Vec<Tile> = Vec::new();
        match tiles {
            Some(given) => {
                let mut i: usize = 0;
                while i < given.len()
                    invariant
                        i <= given@.len(),
                        2 * data.writes@.len() * given@.len() <= usize::MAX,
                        load@ == load_each(data.writes@, given@.take(i as int)),
                        start@ == start_each(given@.take(i as int)),
                        all_tiles@ == given@.take(i as int),
                    decreases given@.len() - i,
                {
                    proof {
                        assert(given@.take(i + 1).drop_last() =~= given@.take(i as int));
                        assert(given@.len() >= 1);
                        assert(2 * data.writes@.len() <= 2 * data.writes@.len() * given@.len())
                            by (nonlinear_arith)
                            requires
                                given@.len() >= 1,
                        ;
                    }
                    let mut ops = data.load(given[i]);
                    load.append(&mut ops);
                    let mut go = crate::loader::easy_start(given[i].addr);
                    start.append(&mut go);
                    all_tiles.push(given[i]);
                    assert(all_tiles@ =~= given@.take(i + 1));
                    i += 1;
                }
                assert(given@.take(i as int) =~= given@);
            },
            None => {
                let count = self.tensix_count();
                let mut addrs: Vec<NocAddress> = Vec::new();
                let mut i: usize = 0;
                while i < count
                    invariant
                        i <= count,
                        count == self.tensix_tiles().len(),
                        all_tiles@ == self.tensix_tiles().take(i as int),
                        addrs@ == addrs_of(self.tensix_tiles().take(i as int)),
                    decreases count - i,
                {
                    let tile = self.tensix(i);
                    all_tiles.push(tile);
                    addrs.push(tile.addr);
                    assert(all_tiles@ =~= self.tensix_tiles().take(i + 1));
                    assert(addrs@ =~= addrs_of(self.tensix_tiles().take(i + 1)));
                    i += 1;
                }
                assert(self.tensix_tiles().take(i as int) =~= self.tensix_tiles());
                load = data.load_all(&addrs);
                start.push(crate::loader::easy_start_all());
                assert(start@ =~= seq![
                    ChipOp::Broadcast32 {
                        noc_id: NocId::Noc0,
                        addr: SOFT_RESET_ADDR,
                        value: crate::loader::release_value(true, true),
                    },
                ]);
            },
        }
        let sync = data.bin.start_sync.is_some();
        let core_id = if sync {
            data.symbol("CORE_ID")
        } else {
            None
        };
        let finish = if wait {
            self.stop_tile(tiles)
        } else {
            Vec::new()
        };
        LaunchPlan {
            prepare,
            noc_id: NocId::Noc1,
            load,
            start,
            tiles: all_tiles,
            sync,
            core_id,
            wait,
            finish,
        }
    }
}

/// The steps that stop tiles: each of the given tiles, or all at once
/// where none is given.
pub fn stop_tiles(tiles: Option<&Vec<Tile>>) -> (r: Vec<ChipOp>)
    ensures
        r@ == stop_ops(
            match tiles {
                Some(t) => Some(t@),
                None => None,
            },
        ),
{
    match tiles {
        Some(given) => {
            let mut r: Vec<ChipOp> = Vec::new();
            let mut i: usize = 0;
            while i < given.len()
                invariant
                    i <= given@.len(),
                    r@ == stop_each(given@.take(i as int)),
                decreases given@.len() - i,
            {
                proof {
                    assert(given@.take(i + 1).drop_last() =~= given@.take(i as int));
                }
                let mut ops = crate::loader::stop(given[i].addr);
                r.append(&mut ops);
                i += 1;
            }
            assert(given@.take(i as int) =~= given@);
            r
        },
        None => crate::loader::stop_all(),
    }
}

impl Chip {
    /// The tiles of the chip are those that some harvesting mask, or some
    /// reading of the telemetry, gives.
    pub open spec fn wf(&self) -> bool {
        match self {
            Chip::Grayskull(g) => exists|harvest: u32|
                grayskull::noc_endpoints::grid_of(harvest, g.endpoints),
            Chip::Wormhole(w) => exists|harvest: u32|
                wormhole::noc_endpoints::grid_of(harvest, w.endpoints),
            Chip::Blackhole(b) => exists|values: Map<u16, u32>|
                blackhole::noc_endpoints::endpoints_of(values, b.endpoints),
        }
    }

    /// Whether the chip numbers its tiles for the host in translated
    /// coordinates. The corners of the broadcast rectangle of such a chip
    /// are not places of the grid.
    pub open spec fn translated(&self) -> bool {
        match self {
            Chip::Blackhole(b) => b.endpoints.use_translated_multicast,
            _ => false,
        }
    }
}

/// Every tensix tile in use lies in the rectangle that a broadcast
/// reaches, on either fabric, unless the chip translates coordinates.
pub proof fn lemma_broadcast_covers_tensix(chip: Chip, noc_id: NocId, i: int)
    requires
        chip.wf(),
        !chip.translated(),
        0 <= i < chip.tensix_tiles().len(),
    ensures
        in_rect(
            chip.tensix_tiles()[i].get_spec(noc_id),
            chip.broadcast_rect_spec(noc_id).0,
            chip.broadcast_rect_spec(noc_id).1,
        ),
{
    let tile = chip.tensix_tiles()[i];
    match chip {
        Chip::Grayskull(g) => {
            let harvest = choose|harvest: u32|
                grayskull::noc_endpoints::grid_of(harvest, g.endpoints);
            let cells = Seq::new(120, |i: int| i);
            let pick = |i: int|
                if !crate::bits::bit_set(
                    harvest,
                    grayskull::noc_endpoints::harvest_bit_spec(
                        grayskull::noc_endpoints::tensix_row_spec(i / 12),
                    ),
                ) {
                    Some(grayskull::noc_endpoints::tensix_tile(i))
                } else {
                    None
                };
            assert(cells.filter_map(pick).contains(tile));
            cells.lemma_filter_map_contains(pick, tile);
            let k = choose|k: int| #[trigger] cells.contains(k) && pick(k) == Some(tile);
            assert(0 <= k < 120);
        },
        Chip::Wormhole(w) => {
            let harvest = choose|harvest: u32|
                wormhole::noc_endpoints::grid_of(harvest, w.endpoints);
            let cells = Seq::new(80, |i: int| i);
            let pick = |i: int|
                if !crate::bits::bit_set(harvest, (i / 8) as u32) {
                    Some(wormhole::noc_endpoints::tensix_tile(i))
                } else {
                    None
                };
            assert(cells.filter_map(pick).contains(tile));
            cells.lemma_filter_map_contains(pick, tile);
            let k = choose|k: int| #[trigger] cells.contains(k) && pick(k) == Some(tile);
            assert(0 <= k < 80);
        },
        Chip::Blackhole(b) => {
            let values = choose|values: Map<u16, u32>|
                blackhole::noc_endpoints::endpoints_of(values, b.endpoints);
            let columns = match blackhole::telemetry::reading(
                values,
                blackhole::telemetry::TelemetryTag::EnabledTensixCol,
            ) {
                Some(v) => v,
                None => 0x3fff,
            };
            let all = blackhole::noc_endpoints::all_tensix();
            let pick = |c: (u8, u8)|
                if crate::bits::bit_set(columns, blackhole::noc_endpoints::column_index(c.0)) {
                    Some(blackhole::noc_endpoints::tensix_tile_flipped(c))
                } else {
                    None
                };
            assert(all.filter_map(pick).contains(tile));
            all.lemma_filter_map_contains(pick, tile);
            let c = choose|c: (u8, u8)| #[trigger] all.contains(c) && pick(c) == Some(tile);
            let k = choose|k: int| 0 <= k < all.len() && all[k] == c;
            assert(c == blackhole::noc_endpoints::tensix_coord_spec(k));
        },
    }
}

impl Chip {
    /// How many columns and rows the grid of the chip has.
    pub open spec fn grid_size(&self) -> (int, int) {
        match self {
            Chip::Grayskull(_) => (13, 12),
            Chip::Wormhole(_) => (10, 12),
            Chip::Blackhole(_) => (17, 12),
        }
    }
}

/// The two places of a tensix tile: the second fabric counts columns and
/// rows from the far corner of the grid, unless the chip translates
/// coordinates, which then gives the tile one place for both fabrics.
pub proof fn lemma_tensix_two_places(chip: Chip, i: int)
    requires
        chip.wf(),
        0 <= i < chip.tensix_tiles().len(),
    ensures
        ({
            let at = chip.tensix_tiles()[i].addr;
            if chip.translated() {
                at.n1 == at.n0
            } else {
                &&& at.n0.0 < chip.grid_size().0
                &&& at.n0.1 < chip.grid_size().1
                &&& at.n1.0 == chip.grid_size().0 - 1 - at.n0.0
                &&& at.n1.1 == chip.grid_size().1 - 1 - at.n0.1
            }
        }),
{
    let tile = chip.tensix_tiles()[i];
    match chip {
        Chip::Grayskull(g) => {
            let harvest = choose|harvest: u32|
                grayskull::noc_endpoints::grid_of(harvest, g.endpoints);
            let cells = Seq::new(120, |i: int| i);
            let pick = |i: int|
                if !crate::bits::bit_set(
                    harvest,
                    grayskull::noc_endpoints::harvest_bit_spec(
                        grayskull::noc_endpoints::tensix_row_spec(i / 12),
                    ),
                ) {
                    Some(grayskull::noc_endpoints::tensix_tile(i))
                } else {
                    None
                };
            assert(cells.filter_map(pick).contains(tile));
            cells.lemma_filter_map_contains(pick, tile);
            let k = choose|k: int| #[trigger] cells.contains(k) && pick(k) == Some(tile);
            assert(0 <= k < 120);
        },
        Chip::Wormhole(w) => {
            let harvest = choose|harvest: u32|
                wormhole::noc_endpoints::grid_of(harvest, w.endpoints);
            let cells = Seq::new(80, |i: int| i);
            let pick = |i: int|
                if !crate::bits::bit_set(harvest, (i / 8) as u32) {
                    Some(wormhole::noc_endpoints::tensix_tile(i))
                } else {
                    None
                };
            assert(cells.filter_map(pick).contains(tile));
            cells.lemma_filter_map_contains(pick, tile);
            let k = choose|k: int| #[trigger] cells.contains(k) && pick(k) == Some(tile);
            assert(0 <= k < 80);
        },
        Chip::Blackhole(b) => {
            let values = choose|values: Map<u16, u32>|
                blackhole::noc_endpoints::endpoints_of(values, b.endpoints);
            let columns = match blackhole::telemetry::reading(
                values,
                blackhole::telemetry::TelemetryTag::EnabledTensixCol,
            ) {
                Some(v) => v,
                None => 0x3fff,
            };
            let all = blackhole::noc_endpoints::all_tensix();
            if chip.translated() {
                let pick = |c: (u8, u8)|
                    if blackhole::noc_endpoints::column_in_use_translated(c.0, columns) {
                        Some(blackhole::noc_endpoints::tensix_tile_translated(c))
                    } else {
                        None
                    };
                assert(all.filter_map(pick).contains(tile));
                all.lemma_filter_map_contains(pick, tile);
            } else {
                let pick = |c: (u8, u8)|
                    if crate::bits::bit_set(
                        columns,
                        blackhole::noc_endpoints::column_index(c.0),
                    ) {
                        Some(blackhole::noc_endpoints::tensix_tile_flipped(c))
                    } else {
                        None
                    };
                assert(all.filter_map(pick).contains(tile));
                all.lemma_filter_map_contains(pick, tile);
                let c = choose|c: (u8, u8)| #[trigger] all.contains(c) && pick(c) == Some(tile);
                let k = choose|k: int| 0 <= k < all.len() && all[k] == c;
                assert(c == blackhole::noc_endpoints::tensix_coord_spec(k));
            }
        },
    }
}

/// No two tensix tiles of a chip share a place on either fabric.
pub proof fn lemma_tensix_places_distinct(chip: Chip, noc_id: NocId, i: int, j: int)
    requires
        chip.wf(),
        0 <= i < chip.tensix_tiles().len(),
        0 <= j < chip.tensix_tiles().len(),
        chip.tensix_tiles()[i].get_spec(noc_id) == chip.tensix_tiles()[j].get_spec(noc_id),
    ensures
        chip.tensix_tiles()[i].addr == chip.tensix_tiles()[j].addr,
{
    lemma_tensix_two_places(chip, i);
    lemma_tensix_two_places(chip, j);
}

/// A memory made up of tensix tiles of a chip has one tile per place.
pub proof fn lemma_one_tensix_per_place(chip: Chip, memory: transaction::ChipMemory)
    requires
        chip.wf(),
        forall|at: NocAddress| #[trigger]
            memory.dom().contains(at) ==> exists|i: int|
                0 <= i < chip.tensix_tiles().len() && #[trigger] chip.tensix_tiles()[i].addr == at,
    ensures
        transaction::one_tile_per_place(memory),
{
    assert forall|a: NocAddress, b: NocAddress, noc_id: NocId|
        memory.dom().contains(a) && memory.dom().contains(b) && #[trigger] a.get_spec(noc_id)
            == #[trigger] b.get_spec(noc_id) implies a == b by {
        let i = choose|i: int|
            0 <= i < chip.tensix_tiles().len() && #[trigger] chip.tensix_tiles()[i].addr == a;
        let j = choose|j: int|
            0 <= j < chip.tensix_tiles().len() && #[trigger] chip.tensix_tiles()[j].addr == b;
        lemma_tensix_places_distinct(chip, noc_id, i, j);
    }
}

/// A broadcast reaches every tensix tile in use: what was written over one
/// fabric is what a read of each of them gives afterwards, over that
/// fabric or the other, on a chip that does not translate coordinates.
pub proof fn lemma_broadcast_fan_out(
    chip: Chip,
    written_over: NocId,
    read_over: NocId,
    memory: transaction::ChipMemory,
    addr: int,
    data: Seq<u8>,
    i: int,
)
    requires
        chip.wf(),
        !chip.translated(),
        0 <= i < chip.tensix_tiles().len(),
        transaction::one_tile_per_place(memory),
        memory.dom().contains(chip.tensix_tiles()[i].addr),
    ensures
        transaction::fabric_read(
            transaction::broadcast_write(
                memory,
                written_over,
                chip.broadcast_rect_spec(written_over).0,
                chip.broadcast_rect_spec(written_over).1,
                addr,
                data,
            ),
            read_over,
            chip.tensix_tiles()[i].get_spec(read_over),
            addr,
            data.len() as int,
        ) == data,
{
    lemma_broadcast_covers_tensix(chip, written_over, i);
    transaction::lemma_broadcast_write(
        memory,
        written_over,
        chip.broadcast_rect_spec(written_over).0,
        chip.broadcast_rect_spec(written_over).1,
        addr,
        data,
        chip.tensix_tiles()[i].addr,
        read_over,
    );
}

} // verus!
