//! The telemetry table that the firmware keeps: a directory of tagged entries
//! and the words they point at.

use crate::bytes::{read_word, word_at};
use crate::chip::blackhole::arc::{arc_fw_init_status, init_status_bits, BOOT_STATUS_REG};
use std::collections::BTreeMap;
use vstd::prelude::*;

verus! {

broadcast use {vstd::std_specs::btree::group_btree_axioms, vstd::laws_cmp::group_laws_cmp};

/// What a telemetry entry reports.
#[derive(Clone, Copy, Debug, PartialEq, Eq, Hash, Structural)]
pub enum TelemetryTag {
    BoardIdHigh,
    BoardIdLow,
    AsicId,
    HarvestingState,
    UpdateTelemSpeed,
    VCORE,
    TDP,
    TDC,
    VddLimits,
    ThmLimits,
    AsicTemperature,
    VregTemperature,
    BoardTemperature,
    AICLK,
    AXICLK,
    ARCCLK,
    L2CPUCLK0,
    L2CPUCLK1,
    L2CPUCLK2,
    L2CPUCLK3,
    EthLiveStatus,
    DdrStatus,
    DdrSpeed,
    EthFwVersion,
    DdrFwVersion,
    BmAppFwVersion,
    BmBlFwVersion,
    FlashBundleVersion,
    CmFwVersion,
    L2cpuFwVersion,
    FanSpeed,
    TimerHeartbeat,
    TelemEnumCount,
    EnabledTensixCol,
    EnabledEth,
    EnabledGddr,
    EnabledL2Cpu,
    PcieUsage,
    InputCurrent,
    NocTranslation,
    FanRPM,
    Gddr0_1Temp,
    Gddr2_3Temp,
    Gddr4_5Temp,
    Gddr6_7Temp,
    Gddr0_1TempCorrErrs,
    Gddr2_3TempCorrErrs,
    Gddr4_5TempCorrErrs,
    Gddr6_7TempCorrErrs,
    GddrUncorrErrs,
    MaxGddrTemp,
    AsicLocation,
}

impl TelemetryTag {
    /// The number the firmware files the entry under.
    pub open spec fn id_spec(self) -> u16 {
        match self {
            TelemetryTag::BoardIdHigh => 1,
            TelemetryTag::BoardIdLow => 2,
            TelemetryTag::AsicId => 3,
            TelemetryTag::HarvestingState => 4,
            TelemetryTag::UpdateTelemSpeed => 5,
            TelemetryTag::VCORE => 6,
            TelemetryTag::TDP => 7,
            TelemetryTag::TDC => 8,
            TelemetryTag::VddLimits => 9,
            TelemetryTag::ThmLimits => 10,
            TelemetryTag::AsicTemperature => 11,
            TelemetryTag::VregTemperature => 12,
            TelemetryTag::BoardTemperature => 13,
            TelemetryTag::AICLK => 14,
            TelemetryTag::AXICLK => 15,
            TelemetryTag::ARCCLK => 16,
            TelemetryTag::L2CPUCLK0 => 17,
            TelemetryTag::L2CPUCLK1 => 18,
            TelemetryTag::L2CPUCLK2 => 19,
            TelemetryTag::L2CPUCLK3 => 20,
            TelemetryTag::EthLiveStatus => 21,
            TelemetryTag::DdrStatus => 22,
            TelemetryTag::DdrSpeed => 23,
            TelemetryTag::EthFwVersion => 24,
            TelemetryTag::DdrFwVersion => 25,
            TelemetryTag::BmAppFwVersion => 26,
            TelemetryTag::BmBlFwVersion => 27,
            TelemetryTag::FlashBundleVersion => 28,
            TelemetryTag::CmFwVersion => 29,
            TelemetryTag::L2cpuFwVersion => 30,
            TelemetryTag::FanSpeed => 31,
            TelemetryTag::TimerHeartbeat => 32,
            TelemetryTag::TelemEnumCount => 33,
            TelemetryTag::EnabledTensixCol => 34,
            TelemetryTag::EnabledEth => 35,
            TelemetryTag::EnabledGddr => 36,
            TelemetryTag::EnabledL2Cpu => 37,
            TelemetryTag::PcieUsage => 38,
            TelemetryTag::InputCurrent => 39,
            TelemetryTag::NocTranslation => 40,
            TelemetryTag::FanRPM => 41,
            TelemetryTag::Gddr0_1Temp => 42,
            TelemetryTag::Gddr2_3Temp => 43,
            TelemetryTag::Gddr4_5Temp => 44,
            TelemetryTag::Gddr6_7Temp => 45,
            TelemetryTag::Gddr0_1TempCorrErrs => 46,
            TelemetryTag::Gddr2_3TempCorrErrs => 47,
            TelemetryTag::Gddr4_5TempCorrErrs => 48,
            TelemetryTag::Gddr6_7TempCorrErrs => 49,
            TelemetryTag::GddrUncorrErrs => 50,
            TelemetryTag::MaxGddrTemp => 51,
            TelemetryTag::AsicLocation => 52,
        }
    }

    #[verifier::when_used_as_spec(id_spec)]
    pub fn id(self) -> (r: u16)
        ensures
            r == self.id_spec(),
    {
        match self {
            TelemetryTag::BoardIdHigh => 1,
            TelemetryTag::BoardIdLow => 2,
            TelemetryTag::AsicId => 3,
            TelemetryTag::HarvestingState => 4,
            TelemetryTag::UpdateTelemSpeed => 5,
            TelemetryTag::VCORE => 6,
            TelemetryTag::TDP => 7,
            TelemetryTag::TDC => 8,
            TelemetryTag::VddLimits => 9,
            TelemetryTag::ThmLimits => 10,
            TelemetryTag::AsicTemperature => 11,
            TelemetryTag::VregTemperature => 12,
            TelemetryTag::BoardTemperature => 13,
            TelemetryTag::AICLK => 14,
            TelemetryTag::AXICLK => 15,
            TelemetryTag::ARCCLK => 16,
            TelemetryTag::L2CPUCLK0 => 17,
            TelemetryTag::L2CPUCLK1 => 18,
            TelemetryTag::L2CPUCLK2 => 19,
            TelemetryTag::L2CPUCLK3 => 20,
            TelemetryTag::EthLiveStatus => 21,
            TelemetryTag::DdrStatus => 22,
            TelemetryTag::DdrSpeed => 23,
            TelemetryTag::EthFwVersion => 24,
            TelemetryTag::DdrFwVersion => 25,
            TelemetryTag::BmAppFwVersion => 26,
            TelemetryTag::BmBlFwVersion => 27,
            TelemetryTag::FlashBundleVersion => 28,
            TelemetryTag::CmFwVersion => 29,
            TelemetryTag::L2cpuFwVersion => 30,
            TelemetryTag::FanSpeed => 31,
            TelemetryTag::TimerHeartbeat => 32,
            TelemetryTag::TelemEnumCount => 33,
            TelemetryTag::EnabledTensixCol => 34,
            TelemetryTag::EnabledEth => 35,
            TelemetryTag::EnabledGddr => 36,
            TelemetryTag::EnabledL2Cpu => 37,
            TelemetryTag::PcieUsage => 38,
            TelemetryTag::InputCurrent => 39,
            TelemetryTag::NocTranslation => 40,
            TelemetryTag::FanRPM => 41,
            TelemetryTag::Gddr0_1Temp => 42,
            TelemetryTag::Gddr2_3Temp => 43,
            TelemetryTag::Gddr4_5Temp => 44,
            TelemetryTag::Gddr6_7Temp => 45,
            TelemetryTag::Gddr0_1TempCorrErrs => 46,
            TelemetryTag::Gddr2_3TempCorrErrs => 47,
            TelemetryTag::Gddr4_5TempCorrErrs => 48,
            TelemetryTag::Gddr6_7TempCorrErrs => 49,
            TelemetryTag::GddrUncorrErrs => 50,
            TelemetryTag::MaxGddrTemp => 51,
            TelemetryTag::AsicLocation => 52,
        }
    }
}

/// One reading of the telemetry table: the value found under each tag.
#[derive(Clone, Debug, PartialEq, Eq)]
pub struct TelemetryData(pub BTreeMap<u16, u32>);

impl View for TelemetryData {
    type V = Map<u16, u32>;

    open spec fn view(&self) -> Map<u16, u32> {
        self.0@
    }
}

impl Default for TelemetryData {
    fn default() -> (r: Self)
        ensures
            r@ == Map::<u16, u32>::empty(),
    {
        TelemetryData(BTreeMap::new())
    }
}

/// The value under `tag` in a reading, if the reading has one.
pub open spec fn reading(values: Map<u16, u32>, tag: TelemetryTag) -> Option<u32> {
    if values.contains_key(tag.id_spec()) {
        Some(values[tag.id_spec()])
    } else {
        None
    }
}

impl TelemetryData {
    /// The value reported under `tag`, if the table had such an entry.
    pub fn get(&self, tag: TelemetryTag) -> (r: Option<u32>)
        ensures
            r == reading(self@, tag),
    {
        let key = tag.id();
        match self.0.get(&key) {
            Some(v) => Some(*v),
            None => None,
        }
    }

    /// The AI clock, if reported.
    pub fn aiclk(&self) -> (r: Option<u32>)
        ensures
            r == reading(self@, TelemetryTag::AICLK),
    {
        self.get(TelemetryTag::AICLK)
    }

    /// Whether the chip translates NOC coordinates; a chip that does not
    /// report it does not translate.
    pub fn translation_enabled(&self) -> (r: bool)
        ensures
            r == match reading(self@, TelemetryTag::NocTranslation) {
                Some(v) => v != 0,
                None => false,
            },
    {
        match self.get(TelemetryTag::NocTranslation) {
            Some(v) => v != 0,
            None => false,
        }
    }

    /// The enabled tensix columns; all fourteen when the chip does not say.
    pub fn enabled_tensix_columns(&self) -> (r: u32)
        ensures
            r == match reading(self@, TelemetryTag::EnabledTensixCol) {
                Some(v) => v,
                None => 0x3fff,
            },
    {
        match self.get(TelemetryTag::EnabledTensixCol) {
            Some(v) => v,
            None => 0x3fff,
        }
    }

    /// The enabled memory channels, one bit each; all eight when the chip
    /// does not say.
    pub fn enabled_gddr(&self) -> (r: u32)
        ensures
            r == match reading(self@, TelemetryTag::EnabledGddr) {
                Some(v) => v,
                None => 0xff,
            },
    {
        match self.get(TelemetryTag::EnabledGddr) {
            Some(v) => v,
            None => 0xff,
        }
    }

    /// The PCIe usage word, if reported.
    pub fn enabled_pcie(&self) -> (r: Option<u32>)
        ensures
            r == reading(self@, TelemetryTag::PcieUsage),
    {
        self.get(TelemetryTag::PcieUsage)
    }

    /// The enabled ethernet tiles, one bit each; all fourteen when the chip
    /// does not say.
    pub fn enabled_ethernet(&self) -> (r: u32)
        ensures
            r == match reading(self@, TelemetryTag::EnabledEth) {
                Some(v) => v,
                None => 0x3fff,
            },
    {
        match self.get(TelemetryTag::EnabledEth) {
            Some(v) => v,
            None => 0x3fff,
        }
    }
}

/// Why a telemetry table cannot be used.
#[derive(Clone, Copy, Debug, PartialEq, Eq, Structural)]
pub enum TelemetryError {
    /// The firmware has not published a table yet.
    TelemetryNotReady,
}

/// Where the firmware keeps the address of the table's values.
pub const TELEMETRY_DATA_REG: u64 = 0x80030000 + 0x400 + (4 * 12);

/// Where the firmware keeps the address of the table's directory.
pub const TELEMETRY_TABLE_REG: u64 = 0x80030000 + 0x400 + (4 * 13);

/// The tag in a directory word: its low half.
pub open spec fn entry_tag(word: u32) -> u16 {
    (word & 0xFFFF) as u16
}

/// The offset in a directory word, counted in words: its high half.
pub open spec fn entry_offset(word: u32) -> u16 {
    ((word >> 16) & 0xFFFF) as u16
}

/// The directory that `bytes` holds: one (tag, offset) pair per whole word.
pub open spec fn directory(bytes: Seq<u8>) -> Seq<(u16, u16)> {
    Seq::new(
        (bytes.len() / 4) as nat,
        |i: int| (entry_tag(word_at(bytes, 4 * i)), entry_offset(word_at(bytes, 4 * i))),
    )
}

/// Whether `max` is the largest offset in the directory (0 for an empty one).
pub open spec fn is_max_offset(entries: Seq<(u16, u16)>, max: int) -> bool {
    &&& forall|i: int| 0 <= i < entries.len() ==> (#[trigger] entries[i]).1 <= max
    &&& if entries.len() == 0 {
        max == 0
    } else {
        exists|i: int| 0 <= i < entries.len() && (#[trigger] entries[i]).1 == max
    }
}

/// The reading that a directory gives of the words in `data`: each tag has
/// the word at its offset; where a tag occurs twice, the later entry counts.
pub open spec fn readings(entries: Seq<(u16, u16)>, data: Seq<u8>) -> Map<u16, u32>
    decreases entries.len(),
{
    if entries.len() == 0 {
        Map::empty()
    } else {
        let last = entries.last();
        readings(entries.drop_last(), data).insert(last.0, word_at(data, 4 * (last.1 as int)))
    }
}

/// Whether an address lies in the memory the firmware keeps its tables in.
pub open spec fn in_csm(addr: u64) -> bool {
    0x10000000 <= addr <= 0x1007FFFF
}

/// Whether a table can stand at these two addresses: neither is null, and
/// at least one of them lies in the firmware's memory.
pub open spec fn table_usable_spec(table_data: u64, table_addr: u64) -> bool {
    (in_csm(table_addr) || in_csm(table_data)) && table_addr != 0 && table_data != 0
}

/// The directory of a telemetry table: which tags it holds, and where.
#[derive(Clone, Debug, PartialEq, Eq)]
pub struct Telemetry {
    /// The (tag, offset) pairs, in the order of the table.
    pub entries: Vec<(u16, u16)>,
    pub table_data: u64,
    pub table_addr: u64,
    pub max_offset: u64,
}

impl Telemetry {
    pub open spec fn wf(&self) -> bool {
        is_max_offset(self.entries@, self.max_offset as int)
    }

    /// Whether a table can stand at the two addresses the firmware gave.
    pub fn table_usable(table_data: u64, table_addr: u64) -> (r: bool)
        ensures
            r == table_usable_spec(table_data, table_addr),
    {
        let addr_in = 0x10000000 <= table_addr && table_addr <= 0x1007FFFF;
        let data_in = 0x10000000 <= table_data && table_data <= 0x1007FFFF;
        (addr_in || data_in) && table_addr != 0 && table_data != 0
    }

    /// Where the number of directory entries stands.
    pub fn entry_count_addr(table_addr: u64) -> (r: u64)
        requires
            table_addr + 4 <= u64::MAX,
        ensures
            r == table_addr + 4,
    {
        table_addr + 4
    }

    /// Where the directory itself starts.
    pub fn directory_addr(table_addr: u64) -> (r: u64)
        requires
            table_addr + 8 <= u64::MAX,
        ensures
            r == table_addr + 8,
    {
        table_addr + 8
    }

    /// Builds the directory from the words read at `directory_addr`. Fails
    /// where no table can stand at the two addresses.
    pub fn new(table_data: u64, table_addr: u64, entry_offsets: &[u8]) -> (r: Result<
        Telemetry,
        TelemetryError,
    >)
        ensures
            r is Ok <==> table_usable_spec(table_data, table_addr),
            r matches Ok(t) ==> {
                &&& t.wf()
                &&& t.entries@ == directory(entry_offsets@)
                &&& t.table_data == table_data
                &&& t.table_addr == table_addr
            },
            r matches Err(e) ==> e == TelemetryError::TelemetryNotReady,
    {
        if !Self::table_usable(table_data, table_addr) {
            return Err(TelemetryError::TelemetryNotReady);
        }
        let count = entry_offsets.len() / 4;
        let mut entries: Vec<(u16, u16)> = Vec::new();
        let mut max_offset: u16 = 0;
        let mut i: usize = 0;
        while i < count
            invariant
                count == entry_offsets@.len() / 4,
                entry_offsets@.len() <= usize::MAX,
                i <= count,
                entries@.len() == i,
                forall|k: int|
                    0 <= k < i ==> #[trigger] entries@[k] == directory(entry_offsets@)[k],
                is_max_offset(entries@, max_offset as int),
            decreases count - i,
        {
            let word = read_word(entry_offsets, 4 * i);
            proof {
                assert(word & 0xFFFF < 0x10000 && (word >> 16) & 0xFFFF < 0x10000)
                    by (bit_vector);
            }
            let tag = (word & 0xFFFF) as u16;
            let offset = ((word >> 16) & 0xFFFF) as u16;
            let ghost before = entries@;
            entries.push((tag, offset));
            if offset > max_offset || i == 0 {
                max_offset = offset;
                assert(entries@[i as int].1 == max_offset);
            } else {
                let ghost w = choose|w: int|
                    0 <= w < before.len() && (#[trigger] before[w]).1 == max_offset;
                assert(entries@[w].1 == max_offset);
            }
            i += 1;
        }
        assert(entries@ =~= directory(entry_offsets@));
        Ok(Telemetry { entries, table_data, table_addr, max_offset: max_offset as u64 })
    }

    /// How many bytes, from the start of the values, a reading must cover.
    pub fn read_len(&self) -> (r: usize)
        requires
            self.max_offset <= u16::MAX,
        ensures
            r == 4 * (self.max_offset + 1),
    {
        4 * (self.max_offset as usize + 1)
    }

    /// Takes a reading out of `data`, the bytes found at the start of the
    /// values. `None` where `data` is too short for the directory.
    pub fn read(&self, data: &[u8]) -> (r: Option<TelemetryData>)
        requires
            self.wf(),
        ensures
            r is Some <==> data@.len() >= 4 * (self.max_offset + 1),
            r matches Some(t) ==> t@ == readings(self.entries@, data@),
    {
        if self.max_offset > u16::MAX as u64 || data.len() < 4 * (self.max_offset as usize + 1) {
            proof {
                if self.entries@.len() > 0 {
                    let w = choose|w: int|
                        0 <= w < self.entries@.len() && (#[trigger] self.entries@[w]).1
                            == self.max_offset;
                }
            }
            return None;
        }
        let mut map: BTreeMap<u16, u32> = BTreeMap::new();
        let mut i: usize = 0;
        while i < self.entries.len()
            invariant
                i <= self.entries@.len(),
                self.wf(),
                data@.len() >= 4 * (self.max_offset + 1),
                self.max_offset <= u16::MAX,
                map@ == readings(self.entries@.take(i as int), data@),
            decreases self.entries@.len() - i,
        {
            let (tag, offset) = self.entries[i];
            assert(self.entries@[i as int].1 <= self.max_offset);
            let value = read_word(data, 4 * (offset as usize));
            map.insert(tag, value);
            proof {
                let next = self.entries@.take(i + 1);
                assert(next.drop_last() =~= self.entries@.take(i as int));
                assert(next.last() == self.entries@[i as int]);
            }
            i += 1;
        }
        assert(self.entries@.take(i as int) =~= self.entries@);
        Some(TelemetryData(map))
    }
}

/// How far the search for the telemetry table has come.
#[derive(Clone, Copy, Debug, PartialEq, Eq, Structural)]
pub enum ProbePhase {
    Start,
    /// The boot status is being read, to see whether the firmware is up.
    AwaitStatus,
    /// The address of the values is being read.
    AwaitData,
    /// The address of the directory is being read.
    AwaitTable { table_data: u64 },
    /// The number of entries is being read.
    AwaitCount { table_data: u64, table_addr: u64 },
    /// The directory is being read.
    AwaitDirectory { table_data: u64, table_addr: u64 },
    Finished,
}

/// What the host is to do next to find the telemetry table.
#[derive(Clone, Copy, Debug, PartialEq, Eq)]
pub enum ProbeStep {
    /// Read the word at `addr` of the controller's memory.
    Read32 { addr: u64 },
    /// Read `len` bytes at `addr` of the controller's memory.
    Read { addr: u64, len: usize },
    /// The search is over. Where it went well, the directory is in the
    /// probe's `telemetry`.
    Finished(Result<(), TelemetryError>),
}

/// The search for the telemetry table of a chip.
#[derive(Clone, Debug, PartialEq, Eq)]
pub struct TelemetryProbe {
    pub phase: ProbePhase,
    pub telemetry: Option<Telemetry>,
}

/// What the search does in each phase: the phase it goes to and what the
/// host is to do. `value` is the word that the last read gave. The firmware
/// must have finished its start-up; one of the two addresses it gives must
/// lie in its memory; and neither may be null, which is looked at only
/// after the number of entries has been read.
pub open spec fn probe_next(phase: ProbePhase, value: u32) -> (ProbePhase, ProbeStep) {
    let not_ready = (
        ProbePhase::Finished,
        ProbeStep::Finished(Err(TelemetryError::TelemetryNotReady)),
    );
    match phase {
        ProbePhase::Start => (ProbePhase::AwaitStatus, ProbeStep::Read32 { addr: BOOT_STATUS_REG }),
        ProbePhase::AwaitStatus => if init_status_bits(value) == 2 {
            (ProbePhase::AwaitData, ProbeStep::Read32 { addr: TELEMETRY_DATA_REG })
        } else {
            not_ready
        },
        ProbePhase::AwaitData => (
            ProbePhase::AwaitTable { table_data: value as u64 },
            ProbeStep::Read32 { addr: TELEMETRY_TABLE_REG },
        ),
        ProbePhase::AwaitTable { table_data } => if in_csm(value as u64) || in_csm(table_data) {
            (
                ProbePhase::AwaitCount { table_data, table_addr: value as u64 },
                ProbeStep::Read32 { addr: (value + 4) as u64 },
            )
        } else {
            not_ready
        },
        ProbePhase::AwaitCount { table_data, table_addr } => if table_addr == 0 || table_data == 0
            || 4 * value > usize::MAX {
            not_ready
        } else {
            (
                ProbePhase::AwaitDirectory { table_data, table_addr },
                ProbeStep::Read { addr: (table_addr + 8) as u64, len: (4 * value) as usize },
            )
        },
        _ => (ProbePhase::Finished, ProbeStep::Finished(Ok(()))),
    }
}

impl TelemetryProbe {
    /// A search that has not begun.
    pub fn new() -> (r: Self)
        ensures
            r.phase == ProbePhase::Start,
            r.telemetry is None,
    {
        TelemetryProbe { phase: ProbePhase::Start, telemetry: None }
    }

    /// The addresses that the search has read are words, and have passed
    /// the looks that came before the phase.
    pub open spec fn wf(&self) -> bool {
        match self.phase {
            ProbePhase::AwaitCount { table_data, table_addr } => table_addr <= u32::MAX && (in_csm(
                table_addr,
            ) || in_csm(table_data)),
            ProbePhase::AwaitDirectory { table_data, table_addr } => table_addr <= u32::MAX
                && table_usable_spec(table_data, table_addr),
            _ => true,
        }
    }

    /// Takes the search one step further. `value` is the word that the read
    /// asked for by the step before gave, `bytes` the bytes where bytes
    /// were asked for.
    pub fn step(&mut self, value: u32, bytes: &[u8]) -> (r: ProbeStep)
        requires
            old(self).wf(),
            old(self).phase != ProbePhase::Finished,
        ensures
            final(self).wf(),
            (final(self).phase, r) == probe_next(old(self).phase, value),
            match old(self).phase {
                ProbePhase::AwaitDirectory { table_data, table_addr } => {
                    &&& final(self).telemetry matches Some(t)
                    &&& t.wf()
                    &&& t.entries@ == directory(bytes@)
                    &&& t.table_data == table_data
                    &&& t.table_addr == table_addr
                },
                _ => final(self).telemetry == old(self).telemetry,
            },
    {
        match self.phase {
            ProbePhase::Start => {
                self.phase = ProbePhase::AwaitStatus;
                ProbeStep::Read32 { addr: BOOT_STATUS_REG }
            },
            ProbePhase::AwaitStatus => {
                match arc_fw_init_status(value) {
                    crate::chip::blackhole::arc::ArcFwInitStatus::Done => {
                        self.phase = ProbePhase::AwaitData;
                        ProbeStep::Read32 { addr: TELEMETRY_DATA_REG }
                    },
                    _ => {
                        self.phase = ProbePhase::Finished;
                        ProbeStep::Finished(Err(TelemetryError::TelemetryNotReady))
                    },
                }
            },
            ProbePhase::AwaitData => {
                self.phase = ProbePhase::AwaitTable { table_data: value as u64 };
                ProbeStep::Read32 { addr: TELEMETRY_TABLE_REG }
            },
            ProbePhase::AwaitTable { table_data } => {
                let table_addr = value as u64;
                let addr_in = 0x10000000 <= table_addr && table_addr <= 0x1007FFFF;
                let data_in = 0x10000000 <= table_data && table_data <= 0x1007FFFF;
                if addr_in || data_in {
                    self.phase = ProbePhase::AwaitCount { table_data, table_addr };
                    ProbeStep::Read32 { addr: Telemetry::entry_count_addr(table_addr) }
                } else {
                    self.phase = ProbePhase::Finished;
                    ProbeStep::Finished(Err(TelemetryError::TelemetryNotReady))
                }
            },
            ProbePhase::AwaitCount { table_data, table_addr } => {
                if table_addr == 0 || table_data == 0 || value as u64 > (usize::MAX / 4) as u64 {
                    self.phase = ProbePhase::Finished;
                    ProbeStep::Finished(Err(TelemetryError::TelemetryNotReady))
                } else {
                    self.phase = ProbePhase::AwaitDirectory { table_data, table_addr };
                    ProbeStep::Read {
                        addr: Telemetry::directory_addr(table_addr),
                        len: 4 * (value as usize),
                    }
                }
            },
            ProbePhase::AwaitDirectory { table_data, table_addr } => {
                self.phase = ProbePhase::Finished;
                match Telemetry::new(table_data, table_addr, bytes) {
                    Ok(t) => {
                        self.telemetry = Some(t);
                        ProbeStep::Finished(Ok(()))
                    },
                    Err(e) => ProbeStep::Finished(Err(e)),
                }
            },
            ProbePhase::Finished => ProbeStep::Finished(Ok(())),
        }
    }

    /// Whether the search is over.
    pub fn is_finished(&self) -> (r: bool)
        ensures
            r == (self.phase == ProbePhase::Finished),
    {
        match self.phase {
            ProbePhase::Finished => true,
            _ => false,
        }
    }
}

} // verus!
