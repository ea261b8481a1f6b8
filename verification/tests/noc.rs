use std::collections::{BTreeMap, HashMap};

use ttx_rs::bytes::{read_word, word_to_bytes};
use ttx_rs::chip::blackhole::telemetry::{Telemetry, TelemetryData};
use ttx_rs::chip::blackhole::Blackhole;
use ttx_rs::chip::grayskull::Grayskull;
use ttx_rs::chip::noc::{NocId, Tile};
use ttx_rs::chip::tlb::{
    hardcoded_index, Allocation, NocOrdering, WindowConfig, WindowPool, WindowRequest,
};
use ttx_rs::chip::transaction::Transfer;
use ttx_rs::chip::wormhole::Wormhole;
use ttx_rs::chip::Chip;

/// The tiles of a chip and the windows of a host, in memory: what the
/// library decides is carried out here as the hardware would.
struct FakeChip {
    chip: Chip,
    pool: WindowPool,
    /// What each window is programmed with, by the window's place.
    programmed: Vec<Option<WindowConfig>>,
    /// The size and the base of each window, by its place.
    geometry: Vec<(u64, u64)>,
    /// The memory of each tile, by its place on the first fabric.
    memory: HashMap<(u8, u8), HashMap<u64, u8>>,
    /// How often a window was programmed.
    programs: usize,
}

#[allow(dead_code)]
impl FakeChip {
    fn new(chip: Chip, window_size: u64) -> Self {
        let base = 0x1000_0000;
        let index = hardcoded_index(chip.arch());
        FakeChip {
            chip,
            pool: WindowPool::single(index, base, window_size),
            programmed: vec![None],
            geometry: vec![(window_size, base)],
            memory: HashMap::new(),
            programs: 0,
        }
    }

    fn tiles(&self) -> Vec<Tile> {
        let mut tiles = Vec::new();
        for i in 0..self.chip.tensix_count() {
            tiles.push(self.chip.tensix(i));
        }
        for i in 0..self.chip.dram_count() {
            tiles.extend(self.chip.dram(i));
        }
        if self.chip.pcie().align_read != 0 {
            tiles.push(self.chip.pcie());
        }
        tiles
    }

    /// The tiles that a window programmed with `config` reaches, by their
    /// places on the first fabric.
    fn targets(&self, config: &WindowConfig) -> Vec<(u8, u8)> {
        let noc_id = if config.noc_sel == 0 { NocId::Noc0 } else { NocId::Noc1 };
        let between = |v: u8, a: u8, b: u8| (a <= v && v <= b) || (b <= v && v <= a);
        self.tiles()
            .iter()
            .filter(|t| {
                let c = t.get(noc_id);
                if config.mcast {
                    between(c.0, config.x_start, config.x_end)
                        && between(c.1, config.y_start, config.y_end)
                } else {
                    c == (config.x_end, config.y_end)
                }
            })
            .map(|t| t.addr.n0)
            .collect()
    }

    fn acquire(&mut self, request: &WindowRequest, size: u64) -> Allocation {
        let a = self.pool.acquire(request, size).expect("the one window is free between transfers");
        assert!(self.pool.validate(&a, request));
        if let Some(config) = a.program {
            self.programmed[a.slot] = Some(config);
            self.programs += 1;
        }
        a
    }

    /// The address on the tile that the window at `slot` shows at `host`.
    fn shown(&self, slot: usize, host: u64) -> (WindowConfig, u64) {
        let config = self.programmed[slot].expect("a window is programmed before it is used");
        let (size, base) = self.geometry[slot];
        assert!(host >= base && host < base + size);
        (config, config.region * size + (host - base))
    }

    fn host_write(&mut self, slot: usize, host: u64, data: &[u8]) {
        for (i, byte) in data.iter().enumerate() {
            let (config, addr) = self.shown(slot, host + i as u64);
            for tile in self.targets(&config) {
                self.memory.entry(tile).or_default().insert(addr, *byte);
            }
        }
    }

    fn host_read(&mut self, slot: usize, host: u64, data: &mut [u8]) {
        for i in 0..data.len() {
            let (config, addr) = self.shown(slot, host + i as u64);
            let tiles = self.targets(&config);
            assert_eq!(tiles.len(), 1);
            data[i] = self.memory.get(&tiles[0]).and_then(|m| m.get(&addr)).copied().unwrap_or(0);
        }
    }

    fn transfer(&mut self, mut request: WindowRequest, data: &mut [u8], write: bool) {
        let mut transfer = Transfer::new(request.addr, data.len());
        while !transfer.is_done() {
            request.addr = transfer.next_addr();
            let window = self.acquire(&request, transfer.remaining() as u64);
            let chunk = transfer.chunk(&window);
            assert!(chunk.len > 0);
            let range = chunk.offset..chunk.offset + chunk.len;
            if write {
                self.host_write(window.slot, chunk.host_addr, &data[range]);
            } else {
                self.host_read(window.slot, chunk.host_addr, &mut data[range]);
            }
            transfer.advance(&chunk);
            assert!(self.pool.release(window));
        }
    }

    fn noc_write(&mut self, noc_id: NocId, tile: Tile, addr: u64, data: &[u8]) {
        let (x, y) = tile.get(noc_id);
        let request = WindowRequest::unicast(noc_id, x, y, addr, NocOrdering::Strict);
        let mut copy = data.to_vec();
        self.transfer(request, &mut copy, true);
    }

    fn noc_read(&mut self, noc_id: NocId, tile: Tile, addr: u64, data: &mut [u8]) {
        let (x, y) = tile.get(noc_id);
        let request = WindowRequest::unicast(noc_id, x, y, addr, NocOrdering::Strict);
        self.transfer(request, data, false);
    }

    fn noc_write32(&mut self, noc_id: NocId, tile: Tile, addr: u64, value: u32) {
        self.noc_write(noc_id, tile, addr, &word_to_bytes(value));
    }

    fn noc_read32(&mut self, noc_id: NocId, tile: Tile, addr: u64) -> u32 {
        let mut data = [0u8; 4];
        self.noc_read(noc_id, tile, addr, &mut data);
        read_word(&data, 0)
    }

    fn noc_broadcast(&mut self, noc_id: NocId, addr: u64, data: &[u8]) {
        let (start, end) = self.chip.broadcast_rect(noc_id);
        let request = WindowRequest::multicast(noc_id, start, end, addr, NocOrdering::Strict);
        let mut copy = data.to_vec();
        self.transfer(request, &mut copy, true);
    }

    fn noc_broadcast32(&mut self, noc_id: NocId, addr: u64, value: u32) {
        self.noc_broadcast(noc_id, addr, &word_to_bytes(value));
    }
}

/// One chip of each generation, none of its tiles harvested. The window
/// is kept small, so that transfers take several pieces.
fn chips() -> Vec<FakeChip> {
    let telemetry = Telemetry::new(0x1000_0000, 0x1000_0100, &[]).unwrap();
    vec![
        FakeChip::new(Chip::Grayskull(Grayskull::init(0, 0)), 1 << 8),
        FakeChip::new(Chip::Wormhole(Wormhole::init(1, 0)), 1 << 6),
        FakeChip::new(
            Chip::Blackhole(Blackhole::init(2, telemetry, TelemetryData(BTreeMap::new()))),
            1 << 10,
        ),
    ]
}

#[test]
fn pci_to_tensix_32() {
    for mut chip in chips() {
        let base_addr = chip.chip.tensix_l1() / 3;
        let value = 0xfacadaca;

        // Check baseline
        let tile = chip.chip.tensix(0);
        chip.noc_write32(NocId::Noc0, tile, tile.align_write_ptr(base_addr), value);
        let readback = chip.noc_read32(NocId::Noc1, tile, tile.align_read_ptr(base_addr));
        assert_eq!(value, readback);

        // Test read
        let tile = chip.chip.tensix(1);
        let mut alignment = 1;
        let mut read_value = value;
        while alignment < ((tile.align_read as u64) << 2) {
            let addr = (base_addr + (alignment - 1) & !(alignment - 1)) + alignment;
            assert!(addr < chip.chip.tensix_l1());

            read_value = read_value.wrapping_add(0x12345678);

            let write_addr = base_addr & !((tile.align_write as u64) - 1);

            let mut value = vec![];
            for i in write_addr..(addr + 25) {
                value.push((i as u8).wrapping_add((read_value >> (read_value % 4)) as u8));
            }

            chip.noc_write(NocId::Noc1, tile, write_addr, &value);
            let readback = chip.noc_read32(NocId::Noc0, tile, addr);

            let offset = addr - write_addr;
            let offset = offset as usize;
            let expected = u32::from_le_bytes([
                value[offset..][0],
                value[offset..][1],
                value[offset..][2],
                value[offset..][3],
            ]);

            assert_eq!(
                expected, readback,
                "Did not expect to fail to correctly readback with an alignment of {alignment} from 0x{addr:x} with an offset of {offset}"
            );

            alignment <<= 1;
        }

        // Test write
        let tile = chip.chip.tensix(2);
        let mut alignment = 1;
        let mut write_value = value;
        while alignment < ((tile.align_read as u64) << 2) {
            let addr = (base_addr + (alignment - 1) & !(alignment - 1)) + alignment;
            assert!(addr < chip.chip.tensix_l1());

            write_value = write_value.wrapping_add(0x12345678);

            let read_addr = base_addr & !((tile.align_read as u64) - 1);

            chip.noc_write32(NocId::Noc1, tile, addr, write_value);

            let mut read_value = vec![0u8; (addr - read_addr + 25) as usize];
            chip.noc_read(NocId::Noc0, tile, read_addr, &mut read_value);

            let offset = addr - read_addr;
            let offset = offset as usize;
            let expected = u32::from_le_bytes([
                read_value[offset..][0],
                read_value[offset..][1],
                read_value[offset..][2],
                read_value[offset..][3],
            ]);

            assert_eq!(
                expected, write_value,
                "Did not expect to fail to correctly write with an alignment of {alignment} from 0x{addr:x} with an offset of {offset}"
            );

            alignment <<= 1;
        }
    }
}

#[test]
fn pci_to_tensix_block() {
    for mut chip in chips() {
        let base_addr = chip.chip.tensix_l1() / 3;
        let mut value = vec![0u8; 1473];
        for i in 0..value.len() {
            value[i] = (i % u8::MAX as usize) as u8;
        }

        // Check baseline
        let tile = chip.chip.tensix(0);
        chip.noc_write(NocId::Noc0, tile, tile.align_write_ptr(base_addr), &value);

        let mut readback = vec![0u8; value.len()];
        chip.noc_read(
            NocId::Noc1,
            tile,
            tile.align_read_ptr(base_addr),
            &mut readback,
        );
        assert_eq!(value, readback);

        // Test read
        let tile = chip.chip.tensix(1);
        let mut alignment = 1;
        while alignment < ((tile.align_read as u64) << 2) {
            let addr = (base_addr + (alignment - 1) & !(alignment - 1)) + alignment;
            assert!(addr < chip.chip.tensix_l1());

            for i in 0..value.len() {
                value[i] = value[i].wrapping_add((0x12345678 >> (i % 4)) as u8);
            }

            let write_addr = base_addr & !((tile.align_write as u64) - 1);
            chip.noc_write(NocId::Noc1, tile, write_addr, &value);

            let offset = addr - write_addr;
            let offset = offset as usize;
            let mut readback = vec![0u8; value.len() - offset];
            chip.noc_read(NocId::Noc0, tile, addr, &mut readback);

            let expected = &value[offset..];
            assert_eq!(
                expected, readback,
                "Did not expect to fail to correctly readback with an alignment of {alignment} from 0x{addr:x} with an offset of {offset}"
            );

            alignment <<= 1;
        }

        // Test write
        let tile = chip.chip.tensix(2);
        let mut alignment = 1;
        while alignment < ((tile.align_read as u64) << 2) {
            let addr = (base_addr + (alignment - 1) & !(alignment - 1)) + alignment;
            assert!(addr < chip.chip.tensix_l1());

            for i in 0..value.len() {
                value[i] = value[i].wrapping_add((0x12345678 >> (i % 4)) as u8);
            }

            let read_addr = base_addr & !((tile.align_read as u64) - 1);

            chip.noc_write(NocId::Noc1, tile, addr, &value);

            let offset = addr - read_addr;
            let offset = offset as usize;
            let mut readback = vec![0u8; value.len() + offset];
            chip.noc_read(NocId::Noc0, tile, read_addr, &mut readback);

            let expected = &value;
            let readback = &readback[offset..];

            assert_eq!(
                expected, readback,
                "Did not expect to fail to correctly write with an alignment of {alignment} from 0x{addr:x} with an offset of {offset}"
            );

            alignment <<= 1;
        }
    }
}

#[test]
fn pci_to_dram_32() {
    for mut chip in chips() {
        let base_addr = chip.chip.dram_size() / 3;
        let value = 0xfacadaca;

        // Check baseline
        let dram_tiles = chip.chip.dram(0).len();
        let tile = chip.chip.dram(0)[2 % dram_tiles];
        chip.noc_write32(NocId::Noc0, tile, tile.align_rw_ptr(base_addr), value);
        let readback = chip.noc_read32(NocId::Noc1, tile, tile.align_rw_ptr(base_addr));
        assert_eq!(value, readback);

        // Test read
        let tile = chip.chip.dram(1)[1 % dram_tiles];
        let mut alignment = 1;
        let mut read_value = value;
        while alignment < ((tile.align_read as u64) << 2) {
            let addr = (base_addr + (alignment - 1) & !(alignment - 1)) + alignment;
            assert!(addr < chip.chip.dram_size());

            read_value = read_value.wrapping_add(0x12345678);

            let write_addr = base_addr & !((tile.align_write as u64) - 1);

            let mut value = vec![];
            for i in write_addr..(addr + 25) {
                value.push((i as u8).wrapping_add((read_value >> (read_value % 4)) as u8));
            }

            chip.noc_write(NocId::Noc1, tile, write_addr, &value);
            let readback = chip.noc_read32(NocId::Noc0, tile, addr);

            let offset = addr - write_addr;
            let offset = offset as usize;
            let expected = u32::from_le_bytes([
                value[offset..][0],
                value[offset..][1],
                value[offset..][2],
                value[offset..][3],
            ]);

            assert_eq!(
                expected, readback,
                "Did not expect to fail to correctly readback with an alignment of {alignment} from 0x{addr:x} with an offset of {offset}"
            );

            alignment <<= 1;
        }

        // Test write
        let tile = chip.chip.dram(2)[0];
        let mut alignment = 1;
        let mut write_value = value;
        while alignment < ((tile.align_read as u64) << 2) {
            let addr = (base_addr + (alignment - 1) & !(alignment - 1)) + alignment;
            assert!(addr < chip.chip.dram_size());

            write_value = write_value.wrapping_add(0x12345678);

            let read_addr = base_addr & !((tile.align_read as u64) - 1);

            chip.noc_write32(NocId::Noc1, tile, addr, write_value);

            let mut read_value = vec![0u8; (addr - read_addr + 25) as usize];
            chip.noc_read(NocId::Noc0, tile, read_addr, &mut read_value);

            let offset = addr - read_addr;
            let offset = offset as usize;
            let expected = u32::from_le_bytes([
                read_value[offset..][0],
                read_value[offset..][1],
                read_value[offset..][2],
                read_value[offset..][3],
            ]);

            assert_eq!(
                expected, write_value,
                "Did not expect to fail to correctly write with an alignment of {alignment} from 0x{addr:x} with an offset of {offset}"
            );

            alignment <<= 1;
        }
    }
}

#[test]
fn pci_to_dram_block() {
    for mut chip in chips() {
        let base_addr = chip.chip.dram_size() / 3;
        let mut value = vec![0u8; 1473];
        for i in 0..value.len() {
            value[i] = (i % u8::MAX as usize) as u8;
        }

        // Check baseline
        let dram_tiles = chip.chip.dram(0).len();
        let tile = chip.chip.dram(0)[2 % dram_tiles];
        chip.noc_write(NocId::Noc0, tile, tile.align_rw_ptr(base_addr), &value);

        let mut readback = vec![0u8; value.len()];
        chip.noc_read(
            NocId::Noc1,
            tile,
            tile.align_rw_ptr(base_addr),
            &mut readback,
        );
        assert_eq!(value, readback);

        // Test read
        let tile = chip.chip.dram(1)[1 % dram_tiles];
        let mut alignment = 1;
        while alignment < ((tile.align_read as u64) << 2) {
            let addr = (base_addr + (alignment - 1) & !(alignment - 1)) + alignment;
            assert!(addr < chip.chip.dram_size());

            for i in 0..value.len() {
                value[i] = value[i].wrapping_add((0x12345678 >> (i % 4)) as u8);
            }

            let write_addr = base_addr & !((tile.align_write as u64) - 1);
            chip.noc_write(NocId::Noc1, tile, write_addr, &value);

            let offset = addr - write_addr;
            let offset = offset as usize;
            let mut readback = vec![0u8; value.len() - offset];
            chip.noc_read(NocId::Noc0, tile, addr, &mut readback);

            let expected = &value[offset..];
            assert_eq!(
                expected, readback,
                "Did not expect to fail to correctly readback with an alignment of {alignment} from 0x{addr:x} with an offset of {offset}"
            );

            alignment <<= 1;
        }

        // Test write
        let tile = chip.chip.dram(2)[0];
        let mut alignment = 1;
        while alignment < ((tile.align_read as u64) << 2) {
            let addr = (base_addr + (alignment - 1) & !(alignment - 1)) + alignment;
            assert!(addr < chip.chip.dram_size());

            for i in 0..value.len() {
                value[i] = value[i].wrapping_add((0x12345678 >> (i % 4)) as u8);
            }

            let read_addr = base_addr & !((tile.align_read as u64) - 1);

            chip.noc_write(NocId::Noc1, tile, addr, &value);

            let offset = addr - read_addr;
            let offset = offset as usize;
            let mut readback = vec![0u8; value.len() + offset];
            chip.noc_read(NocId::Noc0, tile, read_addr, &mut readback);

            let expected = &value;
            let readback = &readback[offset..];

            assert_eq!(
                expected, readback,
                "Did not expect to fail to correctly write with an alignment of {alignment} from 0x{addr:x} with an offset of {offset}"
            );

            alignment <<= 1;
        }
    }
}
