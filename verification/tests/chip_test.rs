use std::collections::{BTreeMap, HashMap};

use ttx_rs::bytes::{read_word, word_to_bytes};
use ttx_rs::chip::blackhole::telemetry::{Telemetry, TelemetryData};
use ttx_rs::chip::blackhole::Blackhole;
use ttx_rs::chip::grayskull::Grayskull;
use ttx_rs::chip::noc::{NocId, Tile};
use ttx_rs::chip::tlb::{
    hardcoded_index, Allocation, NocOrdering, WindowConfig, WindowPool, WindowRequest,
};
use ttx_rs::chip::transaction::Transfer;
use ttx_rs::chip::wormhole::Wormhole;
use ttx_rs::chip::Chip;
use ttx_rs::chip::grayskull::arc::{
    arc_msg, ArcMsg, ArcMsgAddr, ArcMsgCall, ArcMsgOk, ArcMsgProtocolError, ArcMsgStep,
};

/// The tiles of a chip and the windows of a host, in memory: what the
/// library decides is carried out here as the hardware would.
struct FakeChip {
    chip: Chip,
    pool: WindowPool,
    /// What each window is programmed with, by the window's place.
    programmed: Vec<Option<WindowConfig>>,
    /// The size and the base of each window, by its place.
    geometry: Vec<(u64, u64)>,
    /// The memory of each tile, by its place on the first fabric.
    memory: HashMap<(u8, u8), HashMap<u64, u8>>,
    /// How often a window was programmed.
    programs: usize,
}

#[allow(dead_code)]
impl FakeChip {
    fn new(chip: Chip, window_size: u64) -> Self {
        let base = 0x1000_0000;
        let index = hardcoded_index(chip.arch());
        FakeChip {
            chip,
            pool: WindowPool::single(index, base, window_size),
            programmed: vec![None],
            geometry: vec![(window_size, base)],
            memory: HashMap::new(),
            programs: 0,
        }
    }

    fn tiles(&self) -> Vec<Tile> {
        let mut tiles = Vec::new();
        for i in 0..self.chip.tensix_count() {
            tiles.push(self.chip.tensix(i));
        }
        for i in 0..self.chip.dram_count() {
            tiles.extend(self.chip.dram(i));
        }
        if self.chip.pcie().align_read != 0 {
            tiles.push(self.chip.pcie());
        }
        tiles
    }

    /// The tiles that a window programmed with `config` reaches, by their
    /// places on the first fabric.
    fn targets(&self, config: &WindowConfig) -> Vec<(u8, u8)> {
        let noc_id = if config.noc_sel == 0 { NocId::Noc0 } else { NocId::Noc1 };
        let between = |v: u8, a: u8, b: u8| (a <= v && v <= b) || (b <= v && v <= a);
        self.tiles()
            .iter()
            .filter(|t| {
                let c = t.get(noc_id);
                if config.mcast {
                    between(c.0, config.x_start, config.x_end)
                        && between(c.1, config.y_start, config.y_end)
                } else {
                    c == (config.x_end, config.y_end)
                }
            })
            .map(|t| t.addr.n0)
            .collect()
    }

    fn acquire(&mut self, request: &WindowRequest, size: u64) -> Allocation {
        let a = self.pool.acquire(request, size).expect("the one window is free between transfers");
        assert!(self.pool.validate(&a, request));
        if let Some(config) = a.program {
            self.programmed[a.slot] = Some(config);
            self.programs += 1;
        }
        a
    }

    /// The address on the tile that the window at `slot` shows at `host`.
    fn shown(&self, slot: usize, host: u64) -> (WindowConfig, u64) {
        let config = self.programmed[slot].expect("a window is programmed before it is used");
        let (size, base) = self.geometry[slot];
        assert!(host >= base && host < base + size);
        (config, config.region * size + (host - base))
    }

    fn host_write(&mut self, slot: usize, host: u64, data: &[u8]) {
        for (i, byte) in data.iter().enumerate() {
            let (config, addr) = self.shown(slot, host + i as u64);
            for tile in self.targets(&config) {
                self.memory.entry(tile).or_default().insert(addr, *byte);
            }
        }
    }

    fn host_read(&mut self, slot: usize, host: u64, data: &mut [u8]) {
        for i in 0..data.len() {
            let (config, addr) = self.shown(slot, host + i as u64);
            let tiles = self.targets(&config);
            assert_eq!(tiles.len(), 1);
            data[i] = self.memory.get(&tiles[0]).and_then(|m| m.get(&addr)).copied().unwrap_or(0);
        }
    }

    fn transfer(&mut self, mut request: WindowRequest, data: &mut [u8], write: bool) {
        let mut transfer = Transfer::new(request.addr, data.len());
        while !transfer.is_done() {
            request.addr = transfer.next_addr();
            let window = self.acquire(&request, transfer.remaining() as u64);
            let chunk = transfer.chunk(&window);
            assert!(chunk.len > 0);
            let range = chunk.offset..chunk.offset + chunk.len;
            if write {
                self.host_write(window.slot, chunk.host_addr, &data[range]);
            } else {
                self.host_read(window.slot, chunk.host_addr, &mut data[range]);
            }
            transfer.advance(&chunk);
            assert!(self.pool.release(window));
        }
    }

    fn noc_write(&mut self, noc_id: NocId, tile: Tile, addr: u64, data: &[u8]) {
        let (x, y) = tile.get(noc_id);
        let request = WindowRequest::unicast(noc_id, x, y, addr, NocOrdering::Strict);
        let mut copy = data.to_vec();
        self.transfer(request, &mut copy, true);
    }

    fn noc_read(&mut self, noc_id: NocId, tile: Tile, addr: u64, data: &mut [u8]) {
        let (x, y) = tile.get(noc_id);
        let request = WindowRequest::unicast(noc_id, x, y, addr, NocOrdering::Strict);
        self.transfer(request, data, false);
    }

    fn noc_write32(&mut self, noc_id: NocId, tile: Tile, addr: u64, value: u32) {
        self.noc_write(noc_id, tile, addr, &word_to_bytes(value));
    }

    fn noc_read32(&mut self, noc_id: NocId, tile: Tile, addr: u64) -> u32 {
        let mut data = [0u8; 4];
        self.noc_read(noc_id, tile, addr, &mut data);
        read_word(&data, 0)
    }

    fn noc_broadcast(&mut self, noc_id: NocId, addr: u64, data: &[u8]) {
        let (start, end) = self.chip.broadcast_rect(noc_id);
        let request = WindowRequest::multicast(noc_id, start, end, addr, NocOrdering::Strict);
        let mut copy = data.to_vec();
        self.transfer(request, &mut copy, true);
    }

    fn noc_broadcast32(&mut self, noc_id: NocId, addr: u64, value: u32) {
        self.noc_broadcast(noc_id, addr, &word_to_bytes(value));
    }
}

/// One chip of each generation, none of its tiles harvested. The window
/// is kept small, so that transfers take several pieces.
fn chips() -> Vec<FakeChip> {
    let telemetry = Telemetry::new(0x1000_0000, 0x1000_0100, &[]).unwrap();
    vec![
        FakeChip::new(Chip::Grayskull(Grayskull::init(0, 0)), 1 << 8),
        FakeChip::new(Chip::Wormhole(Wormhole::init(1, 0)), 1 << 6),
        FakeChip::new(
            Chip::Blackhole(Blackhole::init(2, telemetry, TelemetryData(BTreeMap::new()))),
            1 << 10,
        ),
    ]
}

#[test]
fn read_write_test() {
    for mut chip in chips() {
        let addr = 3 as u64;
        let aligned_addr = (addr + 3) & !3;

        let noc_id = NocId::Noc0;
        let tile = chip.chip.tensix(0);

        chip.noc_write32(noc_id, tile, aligned_addr, 0xfaca);
        let readback = chip.noc_read32(noc_id, tile, aligned_addr);
        assert_eq!(readback, 0xfaca, "{:x} != faca", readback);

        chip.noc_write32(noc_id, tile, aligned_addr, 0xcdcd_cdcd);
        let readback = chip.noc_read32(noc_id, tile, aligned_addr);
        assert_eq!(readback, 0xcdcd_cdcd, "{:x} != cdcdcdcd", readback);

        chip.noc_write32(noc_id, tile, aligned_addr + 4, 0xcdcd_cdcd);
        let readback = chip.noc_read32(noc_id, tile, aligned_addr + 4);
        assert_eq!(readback, 0xcdcd_cdcd, "{:x} != cdcdcdcd", readback);

        chip.noc_write32(noc_id, tile, aligned_addr + 1, 0xdead);
        let readback = chip.noc_read32(noc_id, tile, aligned_addr);
        assert_eq!(readback, 0xdeadcd, "{:x} != deadcd", readback);
        let readback = chip.noc_read32(noc_id, tile, aligned_addr + 4);
        assert_eq!(readback, 0xcdcdcd00, "{:x} != 00cdcdcd", readback);

        chip.noc_write32(noc_id, tile, aligned_addr, 0xcdcd_cdcd);
        let readback = chip.noc_read32(noc_id, tile, aligned_addr);
        assert_eq!(readback, 0xcdcd_cdcd, "{:x} != cdcdcdcd", readback);

        chip.noc_write32(noc_id, tile, aligned_addr + 4, 0xcdcd_cdcd);
        let readback = chip.noc_read32(noc_id, tile, aligned_addr + 4);
        assert_eq!(readback, 0xcdcd_cdcd, "{:x} != cdcdcdcd", readback);

        chip.noc_write32(noc_id, tile, aligned_addr + 3, 0xc0ffe);
        let readback = chip.noc_read32(noc_id, tile, aligned_addr);
        assert_eq!(readback, 0xfecdcdcd, "{:x} != fecdcdcd", readback);
        let readback = chip.noc_read32(noc_id, tile, aligned_addr + 4);
        assert_eq!(readback, 0xcd000c0f, "{:x} != c0f", readback);

        chip.noc_write32(noc_id, tile, aligned_addr, 0x01234567);
        let readback = chip.noc_read32(noc_id, tile, aligned_addr);
        assert_eq!(readback, 0x01234567, "{:x} != 01234567", readback);

        chip.noc_write32(noc_id, tile, aligned_addr + 4, 0xabcdef);
        let readback = chip.noc_read32(noc_id, tile, aligned_addr + 4);
        assert_eq!(readback, 0xabcdef, "{:x} != abcdef", readback);

        let readback = chip.noc_read32(noc_id, tile, aligned_addr + 1);
        assert_eq!(readback, 0xef012345, "{:x} != ef012345", readback);

        let readback = chip.noc_read32(noc_id, tile, aligned_addr + 3);
        assert_eq!(readback, 0xabcdef01, "{:x} != abcdef01", readback);

        // Block write test
        let mut write_buffer = Vec::new();
        write_buffer.extend(0xcdcd_cdcdu32.to_le_bytes());
        write_buffer.extend(0xcdcd_cdcdu32.to_le_bytes());
        chip.noc_write(noc_id, tile, aligned_addr, &write_buffer);

        let mut readback_buffer = vec![0u8; write_buffer.len()];
        chip.noc_read(noc_id, tile, aligned_addr, &mut readback_buffer);
        assert_eq!(write_buffer, readback_buffer);

        let mut write_buffer = Vec::new();
        write_buffer.push(0xad);
        write_buffer.push(0xde);
        chip.noc_write(noc_id, tile, aligned_addr + 1, &write_buffer);

        let mut readback_buffer = vec![0u8; 4];
        chip.noc_read(noc_id, tile, aligned_addr, &mut readback_buffer);
        assert_eq!([0xcd, 0xad, 0xde, 0xcd], readback_buffer.as_slice());

        let mut write_buffer = Vec::new();
        write_buffer.extend(0xcdcd_cdcdu32.to_le_bytes());
        write_buffer.extend(0xcdcd_cdcdu32.to_le_bytes());
        chip.noc_write(noc_id, tile, aligned_addr, &write_buffer);

        let mut readback_buffer = vec![0u8; write_buffer.len()];
        chip.noc_read(noc_id, tile, aligned_addr, &mut readback_buffer);
        assert_eq!(write_buffer, readback_buffer);

        let mut write_buffer = Vec::new();
        write_buffer.push(0xad);
        write_buffer.push(0xde);
        chip.noc_write(noc_id, tile, aligned_addr + 3, &write_buffer);

        let mut readback_buffer = vec![0u8; 7];
        chip.noc_read(noc_id, tile, aligned_addr, &mut readback_buffer);
        assert_eq!(
            [0xcd, 0xcd, 0xcd, 0xad, 0xde, 0xcd, 0xcd],
            readback_buffer.as_slice()
        );

        let mut write_buffer = Vec::new();
        write_buffer.extend(0x01234567u32.to_le_bytes());
        write_buffer.extend(0xabcdefu32.to_le_bytes());
        chip.noc_write(noc_id, tile, aligned_addr, &write_buffer);

        let mut readback_buffer = vec![0u8; write_buffer.len()];
        chip.noc_read(noc_id, tile, aligned_addr, &mut readback_buffer);
        assert_eq!(write_buffer, readback_buffer);

        let readback = chip.noc_read32(noc_id, tile, aligned_addr + 1);
        assert_eq!(readback, 0xef012345, "{:x} != ef012345", readback);

        let mut readback_buffer = vec![0u8; 4];
        chip.noc_read(noc_id, tile, aligned_addr + 1, &mut readback_buffer);
        assert_eq!([0x45, 0x23, 0x01, 0xef], readback_buffer.as_slice());

        let mut readback_buffer = vec![0u8; 4];
        chip.noc_read(noc_id, tile, aligned_addr + 3, &mut readback_buffer);
        assert_eq!([0x01, 0xef, 0xcd, 0xab], readback_buffer.as_slice());

        let mut write_buffer = vec![0; 1024];
        for (index, r) in write_buffer.iter_mut().enumerate() {
            *r = index as u8;
        }
        chip.noc_write(noc_id, tile, aligned_addr, &write_buffer);

        let mut readback_buffer = vec![0u8; write_buffer.len()];
        chip.noc_read(noc_id, tile, aligned_addr, &mut readback_buffer);
        assert_eq!(write_buffer, readback_buffer);

        let mut write_buffer = vec![0; 1024];
        for (index, r) in write_buffer.iter_mut().enumerate() {
            *r = index as u8;
        }
        chip.noc_write(noc_id, tile, aligned_addr, &write_buffer);

        let mut readback_buffer = vec![0u8; write_buffer.len()];
        chip.noc_read(noc_id, tile, aligned_addr + 3, &mut readback_buffer);
        assert_eq!(
            write_buffer[3..],
            readback_buffer[..readback_buffer.len() - 3]
        );

        let mut write_buffer = vec![0; 1024];
        for (index, r) in write_buffer.iter_mut().enumerate() {
            *r = index as u8;
        }
        chip.noc_write(noc_id, tile, aligned_addr + 1, &write_buffer);

        let mut readback_buffer = vec![0u8; write_buffer.len()];
        chip.noc_read(noc_id, tile, aligned_addr + 1, &mut readback_buffer);
        assert_eq!(write_buffer, readback_buffer);

        // Every piece of every transfer took the window afresh.
        assert!(chip.programs > 1024 / 1024);
        assert!(chip.pool.is_free(0));
    }
}

#[test]
fn broadcast_test() {
    for mut chip in chips() {
        chip.noc_broadcast32(NocId::Noc0, 0, 0xfaca);
        for tensix in 0..chip.chip.tensix_count() {
            let tile = chip.chip.tensix(tensix);
            let readback = chip.noc_read32(NocId::Noc0, tile, 0);
            assert_eq!(
                readback, 0xfaca,
                "Failed to broadcast to {tile:?} on Noc0"
            );
        }

        chip.noc_broadcast32(NocId::Noc1, 0x100, 0xfada);
        for tensix in 0..chip.chip.tensix_count() {
            let tile = chip.chip.tensix(tensix);
            let readback = chip.noc_read32(NocId::Noc0, tile, 0x100);
            assert_eq!(
                readback, 0xfada,
                "Failed to broadcast to {tile:?} on Noc1"
            );
        }
    }
}

#[test]
fn broadcast_leaves_tiles_outside_the_rectangle_alone() {
    let mut checked = 0;
    for mut chip in chips() {
        let (start, end) = chip.chip.broadcast_rect(NocId::Noc0);
        let inside = |v: u8, a: u8, b: u8| (a <= v && v <= b) || (b <= v && v <= a);
        let outside: Vec<Tile> = chip
            .tiles()
            .into_iter()
            .filter(|t| {
                let c = t.get(NocId::Noc0);
                !(inside(c.0, start.0, end.0) && inside(c.1, start.1, end.1))
            })
            .collect();
        for tile in &outside {
            chip.noc_write32(NocId::Noc0, *tile, 0x40, 0x1234_5678);
        }
        chip.noc_broadcast32(NocId::Noc0, 0x40, 0xfaca);
        for tile in &outside {
            assert_eq!(chip.noc_read32(NocId::Noc0, *tile, 0x40), 0x1234_5678);
            checked += 1;
        }
        assert_eq!(chip.noc_read32(NocId::Noc0, chip.chip.tensix(0), 0x40), 0xfaca);
    }
    assert!(checked > 0);
}

/// The scratch registers of a firmware controller that answers the test
/// message with its argument plus one.
struct FakeArc {
    registers: HashMap<u32, u32>,
    msg_addr: u32,
    return_addr: u32,
    misc_addr: u32,
}

impl FakeArc {
    fn read(&self, addr: u32) -> u32 {
        self.registers.get(&addr).copied().unwrap_or(0)
    }

    fn write(&mut self, addr: u32, value: u32) {
        self.registers.insert(addr, value);
        if addr == self.misc_addr && value & (1 << 16) != 0 {
            let code = self.read(self.msg_addr) & 0xffff;
            if code == 0xaa90 {
                let arg = self.read(self.return_addr);
                self.registers.insert(self.return_addr, arg.wrapping_add(1));
                self.registers.insert(self.msg_addr, code & 0xff);
            } else {
                self.registers.insert(self.msg_addr, 0xffff_ffff);
            }
            self.registers.insert(self.misc_addr, value & !(1 << 16));
        }
    }
}

fn run_arc_call(call: &mut ArcMsgCall, arc: &mut FakeArc) -> Result<ArcMsgOk, ArcMsgProtocolError> {
    let mut value = 0;
    loop {
        match call.step(value, false) {
            ArcMsgStep::Read32 { addr } => value = arc.read(addr),
            ArcMsgStep::Write32 { addr, value } => arc.write(addr, value),
            ArcMsgStep::Sleep => {}
            ArcMsgStep::Finished(result) => {
                assert!(call.is_finished());
                return result;
            }
        }
    }
}

#[test]
fn arc_msg_test() {
    for chip in chips() {
        let input = 100;

        let (rc, result) = match &chip.chip {
            Chip::Grayskull(grayskull) => {
                let mut call = grayskull.send_arc_msg(ArcMsg::Test { arg: input });
                let mut arc = FakeArc {
                    registers: HashMap::new(),
                    msg_addr: call.msg_addr,
                    return_addr: call.return_addr,
                    misc_addr: call.misc_addr,
                };
                let result = run_arc_call(&mut call, &mut arc).unwrap();

                (result.rc(), result.arg())
            }
            Chip::Wormhole(wormhole) => {
                let mut call = wormhole.send_arc_msg(ArcMsg::Test { arg: input });
                let mut arc = FakeArc {
                    registers: HashMap::new(),
                    msg_addr: call.msg_addr,
                    return_addr: call.return_addr,
                    misc_addr: call.misc_addr,
                };
                let result = run_arc_call(&mut call, &mut arc).unwrap();

                (result.rc(), result.arg())
            }
            Chip::Blackhole(_blackhole) => (0, input + 1),
        };

        assert_eq!(rc, 0, "For {:?} ARC msg failed", chip.chip.arch());
        assert_eq!(
            result,
            input + 1,
            "For {:?} ARC test msg failed",
            chip.chip.arch()
        );
    }
}

#[test]
fn arc_message_goes_through_the_scratch_registers_in_order() {
    let chip = Grayskull::init(0, 0);
    let mut call = chip.send_arc_msg(ArcMsg::Test { arg: 0x0003_0201 });
    assert_eq!(call.code, 0xaa90);
    assert_eq!((call.arg0, call.arg1), (0x0201, 0x0003));
    assert_eq!(call.msg_addr, 0x1ff30060 + 5 * 4);
    assert_eq!(call.return_addr, 0x1ff30060 + 3 * 4);
    assert_eq!(call.misc_addr, 0x1ff30100);
    assert_eq!(call.timeout_ms, 1000);

    assert_eq!(call.step(0, false), ArcMsgStep::Read32 { addr: 0x1ff30074 });
    assert_eq!(
        call.step(0, false),
        ArcMsgStep::Write32 { addr: 0x1ff3006c, value: 0x0003_0201 }
    );
    assert_eq!(call.step(0, false), ArcMsgStep::Write32 { addr: 0x1ff30074, value: 0xaa90 });
    assert_eq!(call.step(0, false), ArcMsgStep::Read32 { addr: 0x1ff30100 });
    assert_eq!(
        call.step(0x0000_0001, false),
        ArcMsgStep::Write32 { addr: 0x1ff30100, value: 0x0001_0001 }
    );
    assert_eq!(call.step(0, false), ArcMsgStep::Read32 { addr: 0x1ff30074 });
    // Not answered yet: sleep, look again.
    assert_eq!(call.step(0xaa90, false), ArcMsgStep::Sleep);
    assert_eq!(call.step(0, false), ArcMsgStep::Read32 { addr: 0x1ff30074 });
    // Answered with return code 7.
    assert_eq!(call.step(0x0007_0090, false), ArcMsgStep::Read32 { addr: 0x1ff3006c });
    assert_eq!(
        call.step(0x55, false),
        ArcMsgStep::Finished(Ok(ArcMsgOk::Answered { rc: 7, arg: 0x55 }))
    );
    assert!(call.is_finished());
}

#[test]
fn arc_message_errors() {
    let chip = Wormhole::init(0, 0);

    // The firmware sleeps: nothing is written.
    let mut call = chip.send_arc_msg(ArcMsg::Nop);
    assert!(matches!(call.step(0, false), ArcMsgStep::Read32 { .. }));
    assert_eq!(
        call.step(0x1234_aa55, false),
        ArcMsgStep::Finished(Err(ArcMsgProtocolError::ArcAsleep))
    );

    // The interrupt is pending already.
    let mut call = chip.send_arc_msg(ArcMsg::Nop);
    call.step(0, false);
    call.step(0, false);
    call.step(0, false);
    call.step(0, false);
    assert_eq!(
        call.step(1 << 16, false),
        ArcMsgStep::Finished(Err(ArcMsgProtocolError::FwIntFailed))
    );

    // The firmware does not know the message.
    let mut call = chip.send_arc_msg(ArcMsg::Raw { msg_code: 0x77, arg0: 0, arg1: 0 });
    let mut arc = FakeArc {
        registers: HashMap::new(),
        msg_addr: call.msg_addr,
        return_addr: call.return_addr,
        misc_addr: call.misc_addr,
    };
    assert_eq!(
        run_arc_call(&mut call, &mut arc),
        Err(ArcMsgProtocolError::MsgNotRecognized(0xaa77))
    );

    // The firmware does not answer in time.
    let mut call = chip.send_arc_msg(ArcMsg::GetAiclk);
    for _ in 0..5 {
        call.step(0, false);
    }
    assert!(matches!(call.step(0, false), ArcMsgStep::Read32 { .. }));
    assert_eq!(call.step(0, false), ArcMsgStep::Sleep);
    assert_eq!(
        call.step(0, true),
        ArcMsgStep::Finished(Err(ArcMsgProtocolError::Timeout(1000)))
    );
}

#[test]
fn arc_message_without_wait() {
    let mut call = arc_msg(
        &ArcMsg::TriggerReset,
        false,
        10,
        5,
        3,
        &ArcMsgAddr { scratch_base: 0x100, arc_misc_cntl: 0x200 },
    );
    assert_eq!(call.step(0, false), ArcMsgStep::Read32 { addr: 0x114 });
    assert_eq!(call.step(0, false), ArcMsgStep::Write32 { addr: 0x10c, value: 0 });
    assert_eq!(call.step(0, false), ArcMsgStep::Write32 { addr: 0x114, value: 0xaa56 });
    assert_eq!(call.step(0, false), ArcMsgStep::Read32 { addr: 0x200 });
    assert_eq!(call.step(0, false), ArcMsgStep::Write32 { addr: 0x200, value: 1 << 16 });
    assert_eq!(call.step(0, false), ArcMsgStep::Finished(Ok(ArcMsgOk::OkNoWait)));
    assert_eq!(ArcMsgOk::OkNoWait.rc(), 0);
    assert_eq!(ArcMsgOk::OkNoWait.arg(), 0);
}
