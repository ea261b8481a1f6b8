//! A firmware image as it is loaded onto a tile, and the marks by which the
//! host follows its cores while they run.

use crate::bytes::{read_word, word_at};
use crate::chip::noc::{NocAddress, NocId, NocOp, Tile};
use crate::chip::Chip;
use crate::loader::{soft_reset_ops, ChipOp, ALL_SOFT_RESETS};
use crate::text::{decimal, decimal_spec, hex, hex_spec};
use vstd::prelude::*;
use vstd::string::StringExecFns;

verus! {

/// The bytes of a segment.
#[derive(Clone, Debug, PartialEq, Eq)]
pub struct Alignment16(pub Vec<u8>);

/// One segment of an image: the bytes that go to address `addr`.
#[derive(Clone, Debug, PartialEq, Eq)]
pub struct KernelBytes {
    pub addr: u32,
    pub data: Alignment16,
}

impl KernelBytes {
    /// How many bytes the segment has.
    pub fn len(&self) -> (r: usize)
        ensures
            r == self.data.0@.len(),
    {
        self.data.0.len()
    }
}

/// Where an image keeps what the host needs to know of one core: its panic
/// record, its entry point, its state and its postcode.
#[derive(Clone, Copy, Debug, PartialEq, Eq, Structural)]
pub struct CoreData {
    pub panic: Option<u64>,
    pub entry: Option<u64>,
    pub state: Option<u64>,
    pub pc: Option<u64>,
}

/// The record that a core leaves behind when it panics.
#[derive(PartialEq, Eq, Debug, Clone, Copy, Structural)]
pub struct PanicData {
    pub filename_addr: u32,
    pub filename_len: u32,
    pub line: u32,
    pub message_addr: u32,
    pub message_len: u32,
    pub stack_pointer: u32,
    pub program_counter: u32,
    pub panicked: bool,
}

/// How many bytes a panic record takes in the tile's memory: seven words
/// and the flag, filled up to a whole word.
pub const PANIC_DATA_SIZE: usize = 32;

/// The panic record that `bytes` hold.
pub open spec fn panic_data_of(bytes: Seq<u8>) -> PanicData {
    PanicData {
        filename_addr: word_at(bytes, 0),
        filename_len: word_at(bytes, 4),
        line: word_at(bytes, 8),
        message_addr: word_at(bytes, 12),
        message_len: word_at(bytes, 16),
        stack_pointer: word_at(bytes, 20),
        program_counter: word_at(bytes, 24),
        panicked: bytes[28] != 0,
    }
}

impl PanicData {
    /// Reads a panic record out of the bytes found at its address.
    pub fn from_bytes(bytes: &[u8]) -> (r: Option<PanicData>)
        ensures
            r is Some <==> bytes@.len() >= PANIC_DATA_SIZE,
            r matches Some(p) ==> p == panic_data_of(bytes@),
    {
        if bytes.len() < PANIC_DATA_SIZE {
            return None;
        }
        Some(
            PanicData {
                filename_addr: read_word(bytes, 0),
                filename_len: read_word(bytes, 4),
                line: read_word(bytes, 8),
                message_addr: read_word(bytes, 12),
                message_len: read_word(bytes, 16),
                stack_pointer: read_word(bytes, 20),
                program_counter: read_word(bytes, 24),
                panicked: bytes[28] != 0,
            },
        )
    }

    /// Where the name of the file and the message of a panic are to be
    /// read, each as an address and a length; nothing where the core has
    /// not panicked.
    pub fn text_ranges(&self) -> (r: Option<((u64, usize), (u64, usize))>)
        ensures
            r is Some <==> self.panicked,
            r matches Some((file, message)) ==> file == (
                self.filename_addr as u64,
                self.filename_len as usize,
            ) && message == (self.message_addr as u64, self.message_len as usize),
    {
        if self.panicked {
            Some(
                (
                    (self.filename_addr as u64, self.filename_len as usize),
                    (self.message_addr as u64, self.message_len as usize),
                ),
            )
        } else {
            None
        }
    }
}

/// What a core's state word says of it.
#[derive(Clone, Copy, Debug, PartialEq, Eq, Structural)]
pub enum CoreState {
    /// The core has not begun to run the image.
    NotStarted,
    /// The core is running.
    Running,
    /// The core has finished.
    Complete,
    /// The core has panicked, and left a record.
    Panicked,
}

/// The state word of a core that has panicked.
pub const STATE_PANICKED: u32 = 6;

/// The least state word of a core that has finished.
pub const STATE_COMPLETE: u32 = 3;

impl CoreState {
    pub open spec fn of(state: u32) -> CoreState {
        if state == 0 {
            CoreState::NotStarted
        } else if state == STATE_PANICKED {
            CoreState::Panicked
        } else if state >= STATE_COMPLETE {
            CoreState::Complete
        } else {
            CoreState::Running
        }
    }

    /// Reads a state word.
    pub fn classify(state: u32) -> (r: CoreState)
        ensures
            r == CoreState::of(state),
    {
        if state == 0 {
            CoreState::NotStarted
        } else if state == STATE_PANICKED {
            CoreState::Panicked
        } else if state >= STATE_COMPLETE {
            CoreState::Complete
        } else {
            CoreState::Running
        }
    }
}

/// What was last seen of a tile's cores: the sync word, for each core its
/// name, state, postcode and panic record, and the panic record that
/// belongs to no core.
#[derive(Clone, Debug, PartialEq, Eq)]
pub struct CoreDataCache {
    pub sync: Option<u32>,
    pub core_data: Vec<(String, Option<u32>, Option<u32>, Option<PanicData>)>,
    pub panic_data: Option<PanicData>,
}

impl Default for CoreDataCache {
    fn default() -> (r: Self)
        ensures
            r.sync is None,
            r.core_data@.len() == 0,
            r.panic_data is None,
    {
        CoreDataCache { sync: None, core_data: Vec::new(), panic_data: None }
    }
}

/// What is seen of one core, names compared letter by letter.
pub open spec fn core_view(c: (String, Option<u32>, Option<u32>, Option<PanicData>)) -> (
    Seq<char>,
    Option<u32>,
    Option<u32>,
    Option<PanicData>,
) {
    (c.0@, c.1, c.2, c.3)
}

impl CoreDataCache {
    /// What is seen of the cores, names compared letter by letter.
    pub open spec fn cores(&self) -> Seq<(Seq<char>, Option<u32>, Option<u32>, Option<PanicData>)> {
        self.core_data@.map_values(
            |c: (String, Option<u32>, Option<u32>, Option<PanicData>)| core_view(c),
        )
    }

    /// Whether two snapshots show the same sync word and the same of every
    /// core.
    pub fn same_state(&self, other: &CoreDataCache) -> (r: bool)
        ensures
            r == (self.sync == other.sync && self.cores() == other.cores()),
    {
        if self.sync != other.sync || self.core_data.len() != other.core_data.len() {
            proof {
                if self.sync == other.sync {
                    assert(self.cores().len() != other.cores().len());
                }
            }
            return false;
        }
        let mut i: usize = 0;
        while i < self.core_data.len()
            invariant
                i <= self.core_data@.len(),
                self.core_data@.len() == other.core_data@.len(),
                forall|k: int| 0 <= k < i ==> self.cores()[k] == other.cores()[k],
            decreases self.core_data@.len() - i,
        {
            let a = &self.core_data[i];
            let b = &other.core_data[i];
            if !(a.0 == b.0 && a.1 == b.1 && a.2 == b.2 && a.3 == b.3) {
                assert(self.cores()[i as int] != other.cores()[i as int]);
                return false;
            }
            i += 1;
        }
        assert(self.cores() =~= other.cores());
        true
    }
}

/// The line that shows a core: its name, and in braces its state and its
/// postcode, as far as they are known, the postcode in hexadecimal.
pub open spec fn state_line_spec(name: Seq<char>, state: Option<u32>, postcode: Option<u32>) -> Seq<
    char,
> {
    name + " {"@ + (match state {
        Some(s) => " STATE: "@ + decimal_spec(s as nat),
        None => Seq::empty(),
    }) + (if state is Some && postcode is Some {
        ","@
    } else {
        Seq::empty()
    }) + (match postcode {
        Some(p) => " POSTCODE: "@ + hex_spec(p as nat),
        None => Seq::empty(),
    }) + " }"@
}

/// Writes the line that shows a core.
pub fn state_line(name: &str, state: Option<u32>, postcode: Option<u32>) -> (r: String)
    ensures
        r@ == state_line_spec(name@, state, postcode),
{
    let mut info = String::from_str(name).concat(" {");
    match state {
        Some(s) => {
            let number = decimal(s as u64);
            info.append(" STATE: ");
            info.append(number.as_str());
            if postcode.is_some() {
                info.append(",");
            }
        },
        None => {},
    }
    match postcode {
        Some(p) => {
            let number = hex(p as u64);
            info.append(" POSTCODE: ");
            info.append(number.as_str());
        },
        None => {},
    }
    info.append(" }");
    assert(info@ =~= state_line_spec(name@, state, postcode));
    info
}

/// What of a tile's state is to be shown.
#[derive(Clone, Copy, Debug, PartialEq, Eq, Structural)]
pub enum PrintDecision {
    /// Nothing: all is as it was shown last.
    Unchanged,
    /// The sync word only: the cores are still held back by it.
    SyncOnly,
    /// The sync word, if there is one, and every core.
    Full,
}

/// What the host knows of an image besides its bytes.
#[derive(Clone, Debug, PartialEq, Eq)]
pub struct KernelBinData {
    pub start_sync: Option<u64>,
    pub brisc_state: CoreData,
    pub ncrisc_state: CoreData,
    pub trisc0_state: CoreData,
    pub trisc1_state: CoreData,
    pub trisc2_state: CoreData,
    pub data_start: Option<u64>,
    pub noc_debug: Option<u64>,
    pub unknown_panic: Option<u64>,
    pub core_data_cache: CoreDataCache,
}

/// The number of cores on a tile.
pub const CORE_COUNT: usize = 5;

/// Whether some core has finished and none is caught between start and
/// finish.
pub open spec fn complete(states: Seq<u32>) -> bool {
    &&& exists|i: int| 0 <= i < states.len() && #[trigger] states[i] >= STATE_COMPLETE
    &&& forall|i: int|
        0 <= i < states.len() ==> #[trigger] states[i] == 0 || states[i] >= STATE_COMPLETE
}

/// How many of the first `n` state words satisfy `pick`.
pub open spec fn count_states(states: Seq<u32>, pick: spec_fn(u32) -> bool, n: int) -> int
    decreases n,
{
    if n <= 0 {
        0
    } else {
        count_states(states, pick, n - 1) + if pick(states[n - 1]) {
            1int
        } else {
            0int
        }
    }
}

impl KernelBinData {
    /// The five cores by name, in the order in which they are always
    /// looked at, each with what the image says of it.
    pub fn state_vec(&self) -> (r: Vec<(String, CoreData)>)
        ensures
            r@.len() == CORE_COUNT,
            r@[0].0@ == "BRISC"@ && r@[0].1 == self.brisc_state,
            r@[1].0@ == "NCRISC"@ && r@[1].1 == self.ncrisc_state,
            r@[2].0@ == "TRISC0"@ && r@[2].1 == self.trisc0_state,
            r@[3].0@ == "TRISC1"@ && r@[3].1 == self.trisc1_state,
            r@[4].0@ == "TRISC2"@ && r@[4].1 == self.trisc2_state,
    {
        let mut v: Vec<(String, CoreData)> = Vec::new();
        v.push((String::from_str("BRISC"), self.brisc_state));
        v.push((String::from_str("NCRISC"), self.ncrisc_state));
        v.push((String::from_str("TRISC0"), self.trisc0_state));
        v.push((String::from_str("TRISC1"), self.trisc1_state));
        v.push((String::from_str("TRISC2"), self.trisc2_state));
        v
    }

    /// What the image says of the five cores, in the same order.
    pub fn cores(&self) -> (r: [CoreData; 5])
        ensures
            r[0] == self.brisc_state,
            r[1] == self.ncrisc_state,
            r[2] == self.trisc0_state,
            r[3] == self.trisc1_state,
            r[4] == self.trisc2_state,
    {
        [
            self.brisc_state,
            self.ncrisc_state,
            self.trisc0_state,
            self.trisc1_state,
            self.trisc2_state,
        ]
    }

    /// The addresses of the state words of the cores that have one, in the
    /// order of the cores.
    pub fn state_addrs(&self) -> (r: Vec<u64>)
        ensures
            r@ == self.cores_spec().filter_map(|c: CoreData| c.state),
    {
        let cores = self.cores();
        let ghost all = self.cores_spec();
        let ghost pick = |c: CoreData| c.state;
        let mut r: Vec<u64> = Vec::new();
        let mut i: usize = 0;
        while i < 5
            invariant
                i <= 5,
                all.len() == 5,
                forall|k: int| 0 <= k < 5 ==> cores[k] == all[k],
                pick == |c: CoreData| c.state,
                r@ == all.take(i as int).filter_map(pick),
            decreases 5 - i,
        {
            proof {
                all.lemma_filter_map_take_succ(pick, i as int);
            }
            match cores[i].state {
                Some(addr) => {
                    r.push(addr);
                },
                None => {},
            }
            i += 1;
        }
        assert(all.take(5) =~= all);
        r
    }

    pub open spec fn cores_spec(&self) -> Seq<CoreData> {
        seq![
            self.brisc_state,
            self.ncrisc_state,
            self.trisc0_state,
            self.trisc1_state,
            self.trisc2_state,
        ]
    }

    /// Whether the image has run its course on a tile, given the state
    /// words read at `state_addrs`: some core has finished, and every one
    /// of the five cores has either finished or never begun. A core
    /// without a state word counts as caught in between, unless no core has
    /// one: then there is nothing to wait for.
    pub fn all_complete(&self, states: &[u32]) -> (r: bool)
        requires
            states@.len() <= CORE_COUNT,
        ensures
            r == (states@.len() == 0 || (states@.len() == CORE_COUNT && complete(states@))),
    {
        let total_count = states.len();
        let ghost done = |v: u32| v >= STATE_COMPLETE;
        let ghost idle = |v: u32| v == 0;
        let mut complete_count: usize = 0;
        let mut not_started_count: usize = 0;
        let mut i: usize = 0;
        while i < states.len()
            invariant
                i <= states@.len(),
                done == |v: u32| v >= STATE_COMPLETE,
                idle == |v: u32| v == 0,
                complete_count == count_states(states@, done, i as int),
                not_started_count == count_states(states@, idle, i as int),
                complete_count + not_started_count <= i,
                complete_count > 0 <==> exists|k: int|
                    0 <= k < i && #[trigger] states@[k] >= STATE_COMPLETE,
                complete_count + not_started_count == i <==> forall|k: int|
                    0 <= k < i ==> #[trigger] states@[k] == 0 || states@[k] >= STATE_COMPLETE,
            decreases states@.len() - i,
        {
            if states[i] >= STATE_COMPLETE {
                complete_count += 1;
            }
            if states[i] == 0 {
                not_started_count += 1;
            }
            i += 1;
        }
        total_count == 0 || (complete_count > 0 && complete_count + not_started_count
            == CORE_COUNT)
    }

    /// Whether a core has panicked, given the state words of the cores (none
    /// for a core without one).
    pub fn check_panic(&self, states: &[Option<u32>]) -> (r: bool)
        ensures
            r == exists|i: int|
                0 <= i < states@.len() && #[trigger] states@[i] == Some(STATE_PANICKED),
    {
        let mut i: usize = 0;
        while i < states.len()
            invariant
                i <= states@.len(),
                forall|k: int| 0 <= k < i ==> #[trigger] states@[k] != Some(STATE_PANICKED),
            decreases states@.len() - i,
        {
            match states[i] {
                Some(v) => {
                    if v == STATE_PANICKED {
                        return true;
                    }
                },
                None => {},
            }
            i += 1;
        }
        false
    }
}

/// The sync word with which the firmware says that it waits for the host.
pub const SYNC_WAITING: u32 = 1;

/// The sync word with which the host tells the firmware to go on.
pub const SYNC_GO: u32 = 2;

/// The sync word with which the firmware says that it has gone on.
pub const SYNC_PROCEEDED: u32 = 3;

/// What the host does about the start of an image.
#[derive(Clone, Copy, Debug, PartialEq, Eq, Structural)]
pub enum SyncAction {
    /// The image has started, or needs no sign to start.
    Started,
    /// The firmware has not come to the sync point yet: look again later.
    NotYet,
    /// The firmware waits: write `SYNC_GO` to the sync word at `addr`, read
    /// it again, and take the image as started if it then says
    /// `SYNC_PROCEEDED`.
    Release { addr: u64 },
}

/// Whether no core has begun to run: every state word there is says 0.
pub open spec fn none_started(states: Seq<Option<u32>>) -> bool {
    forall|i: int| 0 <= i < states.len() ==> #[trigger] states[i] is None || states[i] == Some(0u32)
}

impl KernelBinData {
    /// Whether the sync word is to be looked at at all, given the state
    /// words of the cores: only an image with a sync point, none of whose
    /// cores has begun to run, is held back by it.
    pub fn needs_sync(&self, states: &[Option<u32>]) -> (r: Option<u64>)
        ensures
            r == if none_started(states@) {
                self.start_sync
            } else {
                None
            },
    {
        let mut i: usize = 0;
        while i < states.len()
            invariant
                i <= states@.len(),
                forall|k: int|
                    0 <= k < i ==> #[trigger] states@[k] is None || states@[k] == Some(0u32),
            decreases states@.len() - i,
        {
            match states[i] {
                Some(v) => {
                    if v != 0 {
                        return None;
                    }
                },
                None => {},
            }
            i += 1;
        }
        self.start_sync
    }

    /// What to do about the start of the image, given the state words of
    /// the cores and the sync word (read only where `needs_sync` asks for
    /// it).
    pub fn start_sync(&self, states: &[Option<u32>], sync_value: u32) -> (r: SyncAction)
        ensures
            r == match (if none_started(states@) {
                self.start_sync
            } else {
                None
            }) {
                None => SyncAction::Started,
                Some(addr) => if sync_value == SYNC_PROCEEDED {
                    SyncAction::Started
                } else if sync_value == SYNC_WAITING {
                    SyncAction::Release { addr }
                } else {
                    SyncAction::NotYet
                },
            },
    {
        match self.needs_sync(states) {
            None => SyncAction::Started,
            Some(addr) => {
                if sync_value == SYNC_PROCEEDED {
                    SyncAction::Started
                } else if sync_value == SYNC_WAITING {
                    SyncAction::Release { addr }
                } else {
                    SyncAction::NotYet
                }
            },
        }
    }

    /// Whether the image has started, given the sync word read again after
    /// a `Release`.
    pub fn released(sync_value: u32) -> (r: bool)
        ensures
            r == (sync_value == SYNC_PROCEEDED),
    {
        sync_value == SYNC_PROCEEDED
    }

    /// Decides what of a freshly read state is to be shown, and remembers
    /// the state as the one shown last. Unless forced, nothing is shown
    /// where the sync word and the cores are as they were; where the sync
    /// word holds the cores back, only the sync word is shown.
    pub fn maybe_print_state(&mut self, state: CoreDataCache, force: bool) -> (r: PrintDecision)
        ensures
            r == if !force && state.sync == old(self).core_data_cache.sync && state.cores() == old(
                self,
            ).core_data_cache.cores() {
                PrintDecision::Unchanged
            } else if state.sync is Some && state.sync != Some(SYNC_PROCEEDED) {
                PrintDecision::SyncOnly
            } else {
                PrintDecision::Full
            },
            r == PrintDecision::Unchanged ==> final(self).core_data_cache == old(
                self,
            ).core_data_cache,
            r != PrintDecision::Unchanged ==> final(self).core_data_cache == state,
            final(self).start_sync == old(self).start_sync,
            final(self).cores_spec() == old(self).cores_spec(),
            final(self).data_start == old(self).data_start,
            final(self).noc_debug == old(self).noc_debug,
            final(self).unknown_panic == old(self).unknown_panic,
    {
        if !force {
            if state.same_state(&self.core_data_cache) {
                return PrintDecision::Unchanged;
            }
        }
        let decision = match state.sync {
            Some(sync) => if sync != SYNC_PROCEEDED {
                PrintDecision::SyncOnly
            } else {
                PrintDecision::Full
            },
            None => PrintDecision::Full,
        };
        self.core_data_cache = state;
        decision
    }

    /// As `maybe_print_state`, never forced.
    pub fn print_state_diff(&mut self, state: CoreDataCache) -> (r: PrintDecision)
        ensures
            r == PrintDecision::Unchanged <==> (state.sync == old(self).core_data_cache.sync
                && state.cores() == old(self).core_data_cache.cores()),
            r == PrintDecision::Unchanged ==> final(self).core_data_cache == old(
                self,
            ).core_data_cache,
            r != PrintDecision::Unchanged ==> final(self).core_data_cache == state,
    {
        self.maybe_print_state(state, false)
    }

    /// As `maybe_print_state`, always forced.
    pub fn print_state(&mut self, state: CoreDataCache) -> (r: PrintDecision)
        ensures
            r != PrintDecision::Unchanged,
            r == PrintDecision::SyncOnly <==> (state.sync is Some && state.sync != Some(
                SYNC_PROCEEDED,
            )),
            final(self).core_data_cache == state,
    {
        self.maybe_print_state(state, true)
    }
}

/// An image: its symbols, its segments, and what the host knows of it.
#[derive(Clone, Debug, PartialEq, Eq)]
pub struct KernelData {
    /// The symbols by name, in the order of the image's symbol table.
    pub sym_table: Vec<(String, u64)>,
    pub writes: Vec<KernelBytes>,
    pub bin: KernelBinData,
}

/// The value of the symbol `name`: that of the last entry of the table that
/// bears the name.
pub open spec fn lookup(table: Seq<(String, u64)>, name: Seq<char>) -> Option<u64>
    decreases table.len(),
{
    if table.len() == 0 {
        None
    } else if table.last().0@ == name {
        Some(table.last().1)
    } else {
        lookup(table.drop_last(), name)
    }
}

/// Finds a symbol in a table.
pub fn find_symbol(table: &Vec<(String, u64)>, name: &str) -> (r: Option<u64>)
    ensures
        r == lookup(table@, name@),
{
    let wanted = String::from_str(name);
    let mut i: usize = table.len();
    assert(table@.take(i as int) =~= table@);
    while i > 0
        invariant
            i <= table@.len(),
            wanted@ == name@,
            lookup(table@, name@) == lookup(table@.take(i as int), name@),
        decreases i,
    {
        i -= 1;
        proof {
            let upto = table@.take(i + 1);
            assert(upto.last() == table@[i as int]);
            assert(upto.drop_last() =~= table@.take(i as int));
        }
        if table[i].0 == wanted {
            return Some(table[i].1);
        }
    }
    None
}

/// One step of putting an image onto tiles.
#[derive(Clone, Copy, Debug, PartialEq, Eq)]
pub enum LoadOp {
    /// Write segment `segment` to `addr`: of `tile`, or of all tiles of the
    /// broadcast rectangle where no tile is given.
    Write { segment: usize, tile: Option<NocAddress>, addr: u64, len: usize },
    /// Read `len` bytes back from `addr` of `tile` and hold them against
    /// segment `segment`.
    Verify { segment: usize, tile: NocAddress, addr: u64, len: usize },
}

/// Why an image could not be put onto a tile.
#[derive(Clone, Copy, Debug, PartialEq, Eq)]
pub enum LoadError {
    /// What was read back from `tile` is not what was written of segment
    /// `segment`.
    ReadbackMismatch { segment: usize, tile: NocAddress },
}

/// The step at place `i` of the load of `segments` onto `tiles`, written
/// either tile by tile or, where `broadcast` is set, to all tiles at once
/// and only read back tile by tile. For each segment the writes come
/// first and then the reads; in a load onto one tile that is a write and a
/// read by turns.
pub open spec fn load_op_at(
    segments: Seq<KernelBytes>,
    tiles: Seq<NocAddress>,
    broadcast: bool,
    i: int,
) -> LoadOp {
    let writes = if broadcast {
        1int
    } else {
        tiles.len() as int
    };
    let per_segment = writes + tiles.len();
    let segment = i / per_segment;
    let k = i % per_segment;
    let addr = segments[segment].addr as u64;
    let len = segments[segment].data.0@.len() as usize;
    if k < writes {
        LoadOp::Write {
            segment: segment as usize,
            tile: if broadcast {
                None
            } else {
                Some(tiles[k])
            },
            addr,
            len,
        }
    } else {
        LoadOp::Verify { segment: segment as usize, tile: tiles[k - writes], addr, len }
    }
}

/// The steps of a load, in order.
pub open spec fn load_ops(segments: Seq<KernelBytes>, tiles: Seq<NocAddress>, broadcast: bool) -> Seq<
    LoadOp,
> {
    let writes = if broadcast {
        1int
    } else {
        tiles.len() as int
    };
    Seq::new(
        (segments.len() * (writes + tiles.len())) as nat,
        |i: int| load_op_at(segments, tiles, broadcast, i),
    )
}

/// Where the reset vectors of the cores are configured.
pub const TENSIX_CFG_BASE: u32 = 4293853184;

pub const TRISC0_RESET_PC_ADDR: u32 = 158;

pub const TRISC1_RESET_PC_ADDR: u32 = 159;

pub const TRISC2_RESET_PC_ADDR: u32 = 160;

pub const TRISC_RESET_PC_OVERRIDE_EN: u32 = 161;

pub const NCRISC_RESET_PC_ADDR: u32 = 162;

pub const NCRISC_RESET_PC_OVERRIDE_EN: u32 = 163;

/// The low word of an entry address.
pub open spec fn low_word(entry: u64) -> u32 {
    (entry & 0xFFFF_FFFF) as u32
}

/// The register write that sets a core's reset vector, if it is to be set.
pub open spec fn entry_write(reg: u32, entry: Option<u64>) -> Seq<(u64, u32)> {
    match entry {
        Some(e) => seq![((TENSIX_CFG_BASE + reg) as u64, low_word(e))],
        None => Seq::empty(),
    }
}

/// The bit that enables the override for a core, if its entry is given.
pub open spec fn enable_bit(entry: Option<u64>, bit: u32) -> u32 {
    if entry is Some {
        bit
    } else {
        0
    }
}

/// The register writes that redirect the four subordinate cores: the
/// entries of the three TRISCs that are given, then the mask of those to be
/// redirected, then the entry of the NCRISC and its enable, if given.
pub open spec fn entry_writes(
    ncrisc: Option<u64>,
    trisc0: Option<u64>,
    trisc1: Option<u64>,
    trisc2: Option<u64>,
) -> Seq<(u64, u32)> {
    entry_write(TRISC0_RESET_PC_ADDR, trisc0) + entry_write(TRISC1_RESET_PC_ADDR, trisc1)
        + entry_write(TRISC2_RESET_PC_ADDR, trisc2) + seq![
        (
            (TENSIX_CFG_BASE + TRISC_RESET_PC_OVERRIDE_EN) as u64,
            enable_bit(trisc0, 1) | enable_bit(trisc1, 2) | enable_bit(trisc2, 4),
        ),
    ] + match ncrisc {
        Some(e) => seq![
            ((TENSIX_CFG_BASE + NCRISC_RESET_PC_ADDR) as u64, low_word(e)),
            ((TENSIX_CFG_BASE + NCRISC_RESET_PC_OVERRIDE_EN) as u64, 1u32),
        ],
        None => Seq::empty(),
    }
}

impl KernelData {
    /// The address of the symbol `name`, if the image has it.
    pub fn symbol(&self, name: &str) -> (r: Option<u64>)
        ensures
            r == lookup(self.sym_table@, name@),
    {
        find_symbol(&self.sym_table, name)
    }

    /// The steps that put the image onto one tile: each segment is
    /// written and at once read back.
    pub fn load(&self, tile: Tile) -> (r: Vec<LoadOp>)
        requires
            2 * self.writes@.len() <= usize::MAX,
        ensures
            r@ == load_ops(self.writes@, seq![tile.addr], false),
    {
        let mut tiles: Vec<NocAddress> = Vec::new();
        tiles.push(tile.addr);
        assert(tiles@ =~= seq![tile.addr]);
        assert(self.writes@.len() * (1 + 1) == 2 * self.writes@.len()) by (nonlinear_arith);
        self.plan(&tiles, false)
    }

    /// The steps that put the image onto all `tiles` at once: each segment
    /// is broadcast and then read back from every tile.
    pub fn load_all(&self, tiles: &Vec<NocAddress>) -> (r: Vec<LoadOp>)
        requires
            self.writes@.len() * (1 + tiles@.len()) <= usize::MAX,
        ensures
            r@ == load_ops(self.writes@, tiles@, true),
    {
        self.plan(tiles, true)
    }

    /// The steps of a load, in order.
    fn plan(&self, tiles: &Vec<NocAddress>, broadcast: bool) -> (r: Vec<LoadOp>)
        requires
            self.writes@.len() * ((if broadcast {
                1int
            } else {
                tiles@.len() as int
            }) + tiles@.len()) <= usize::MAX,
        ensures
            r@ == load_ops(self.writes@, tiles@, broadcast),
    {
        let ghost writes = if broadcast {
            1int
        } else {
            tiles@.len() as int
        };
        let ghost per = writes + tiles@.len();
        let mut r: Vec<LoadOp> = Vec::new();
        let mut s: usize = 0;
        while s < self.writes.len()
            invariant
                s <= self.writes@.len(),
                writes == if broadcast {
                    1int
                } else {
                    tiles@.len() as int
                },
                per == writes + tiles@.len(),
                r@.len() == s * per,
                forall|i: int|
                    0 <= i < r@.len() ==> #[trigger] r@[i] == load_op_at(
                        self.writes@,
                        tiles@,
                        broadcast,
                        i,
                    ),
            decreases self.writes@.len() - s,
        {
            let addr = self.writes[s].addr as u64;
            let len = self.writes[s].len();
            let ghost base = r@.len() as int;
            proof {
                assert(s * per + per == (s + 1) * per) by (nonlinear_arith);
            }
            if broadcast {
                proof {
                    lemma_segment_of(s as int, per, 0);
                }
                r.push(LoadOp::Write { segment: s, tile: None, addr, len });
            } else {
                let mut t: usize = 0;
                while t < tiles.len()
                    invariant
                        t <= tiles@.len(),
                        !broadcast,
                        s < self.writes@.len(),
                        writes == tiles@.len(),
                        per == writes + tiles@.len(),
                        base == s * per,
                        addr == self.writes@[s as int].addr,
                        len == self.writes@[s as int].data.0@.len(),
                        r@.len() == base + t,
                        forall|i: int|
                            0 <= i < r@.len() ==> #[trigger] r@[i] == load_op_at(
                                self.writes@,
                                tiles@,
                                broadcast,
                                i,
                            ),
                    decreases tiles@.len() - t,
                {
                    proof {
                        lemma_segment_of(s as int, per, t as int);
                    }
                    r.push(LoadOp::Write { segment: s, tile: Some(tiles[t]), addr, len });
                    t += 1;
                }
            }
            let mut t: usize = 0;
            while t < tiles.len()
                invariant
                    t <= tiles@.len(),
                    s < self.writes@.len(),
                    writes == if broadcast {
                        1int
                    } else {
                        tiles@.len() as int
                    },
                    per == writes + tiles@.len(),
                    base == s * per,
                    addr == self.writes@[s as int].addr,
                    len == self.writes@[s as int].data.0@.len(),
                    r@.len() == base + writes + t,
                    forall|i: int|
                        0 <= i < r@.len() ==> #[trigger] r@[i] == load_op_at(
                            self.writes@,
                            tiles@,
                            broadcast,
                            i,
                        ),
                decreases tiles@.len() - t,
            {
                proof {
                    lemma_segment_of(s as int, per, writes + t);
                }
                r.push(LoadOp::Verify { segment: s, tile: tiles[t], addr, len });
                t += 1;
            }
            s += 1;
        }
        assert(r@ =~= load_ops(self.writes@, tiles@, broadcast));
        r
    }

    /// Holds what was read back from `tile` against segment `segment`.
    pub fn verify(&self, segment: usize, tile: NocAddress, readback: &[u8]) -> (r: Result<
        (),
        LoadError,
    >)
        requires
            segment < self.writes@.len(),
        ensures
            r is Ok <==> readback@ == self.writes@[segment as int].data.0@,
            r matches Err(e) ==> e == (LoadError::ReadbackMismatch { segment, tile }),
    {
        let data = &self.writes[segment].data.0;
        if data.len() != readback.len() {
            return Err(LoadError::ReadbackMismatch { segment, tile });
        }
        let mut i: usize = 0;
        while i < data.len()
            invariant
                i <= data@.len(),
                segment < self.writes@.len(),
                data@ == self.writes@[segment as int].data.0@,
                data@.len() == readback@.len(),
                forall|k: int| 0 <= k < i ==> data@[k] == readback@[k],
            decreases data@.len() - i,
        {
            if data[i] != readback[i] {
                assert(data@[i as int] != readback@[i as int]);
                return Err(LoadError::ReadbackMismatch { segment, tile });
            }
            i += 1;
        }
        assert(readback@ =~= data@);
        Ok(())
    }

    /// The register writes that redirect the subordinate cores of a tile to
    /// the given entry points.
    pub fn set_entry(
        &self,
        ncrisc: Option<u64>,
        trisc0: Option<u64>,
        trisc1: Option<u64>,
        trisc2: Option<u64>,
    ) -> (r: Vec<(u64, u32)>)
        ensures
            r@ == entry_writes(ncrisc, trisc0, trisc1, trisc2),
    {
        let mut r: Vec<(u64, u32)> = Vec::new();
        match trisc0 {
            Some(e) => {
                r.push(((TENSIX_CFG_BASE + TRISC0_RESET_PC_ADDR) as u64, truncate_entry(e)));
            },
            None => {},
        }
        match trisc1 {
            Some(e) => {
                r.push(((TENSIX_CFG_BASE + TRISC1_RESET_PC_ADDR) as u64, truncate_entry(e)));
            },
            None => {},
        }
        match trisc2 {
            Some(e) => {
                r.push(((TENSIX_CFG_BASE + TRISC2_RESET_PC_ADDR) as u64, truncate_entry(e)));
            },
            None => {},
        }
        let mask: u32 = (if trisc0.is_some() {
            1
        } else {
            0
        }) | (if trisc1.is_some() {
            0b10
        } else {
            0
        }) | (if trisc2.is_some() {
            0b100
        } else {
            0
        });
        r.push(((TENSIX_CFG_BASE + TRISC_RESET_PC_OVERRIDE_EN) as u64, mask));
        match ncrisc {
            Some(e) => {
                r.push(((TENSIX_CFG_BASE + NCRISC_RESET_PC_ADDR) as u64, truncate_entry(e)));
                r.push(((TENSIX_CFG_BASE + NCRISC_RESET_PC_OVERRIDE_EN) as u64, 1));
            },
            None => {},
        }
        assert(r@ =~= entry_writes(ncrisc, trisc0, trisc1, trisc2));
        r
    }
}

/// The low word of an entry address.
pub fn truncate_entry(entry: u64) -> (r: u32)
    ensures
        r == low_word(entry),
{
    proof {
        assert(entry & 0xFFFF_FFFF <= 0xFFFF_FFFF) by (bit_vector);
    }
    (entry & 0xFFFF_FFFF) as u32
}

/// Step `k` of segment `s` stands at place `s * per + k`.
proof fn lemma_segment_of(s: int, per: int, k: int)
    requires
        0 <= s,
        0 <= k < per,
    ensures
        (s * per + k) / per == s,
        (s * per + k) % per == k,
{
    vstd::arithmetic::div_mod::lemma_fundamental_div_mod_converse(s * per + k, per, s, k);
}

/// What the host does while it waits for an image to run its course.
#[derive(Clone, Debug, PartialEq, Eq)]
pub enum WaitStep {
    /// Sleep ten milliseconds, read the state again, show what has changed,
    /// and ask again.
    Poll,
    /// The image has run its course: take these steps, which hold the
    /// cores of the tile in reset, and show what has changed.
    Finish(Vec<ChipOp>),
}

/// The time between two looks at a tile, in milliseconds.
pub const POLL_INTERVAL_MS: u64 = 10;

impl KernelBinData {
    /// Decides whether the wait for an image on `tile` is over, given the
    /// state words read at `state_addrs`.
    pub fn wait(&self, states: &[u32], tile: Tile) -> (r: WaitStep)
        requires
            states@.len() <= CORE_COUNT,
        ensures
            match r {
                WaitStep::Poll => !(states@.len() == 0 || (states@.len() == CORE_COUNT && complete(
                    states@,
                ))),
                WaitStep::Finish(ops) => (states@.len() == 0 || (states@.len() == CORE_COUNT
                    && complete(states@))) && ops@ == soft_reset_ops(tile.addr, ALL_SOFT_RESETS),
            },
    {
        if self.all_complete(states) {
            WaitStep::Finish(crate::loader::stop(tile.addr))
        } else {
            WaitStep::Poll
        }
    }
}

/// An image loaded onto a tile of a chip.
pub struct Kernel {
    pub device: Chip,
    pub noc_id: NocId,
    pub core: Tile,
    pub data: KernelData,
}

impl Kernel {
    pub fn new(device: Chip, noc_id: NocId, core: Tile, data: KernelData) -> (r: Self)
        ensures
            r.device == device,
            r.noc_id == noc_id,
            r.core == core,
            r.data == data,
    {
        Kernel { device, noc_id, core, data }
    }

    /// What to do about the start of the image; see
    /// `KernelBinData::start_sync`.
    pub fn start_sync(&self, states: &[Option<u32>], sync_value: u32) -> (r: SyncAction)
        ensures
            r == match (if none_started(states@) {
                self.data.bin.start_sync
            } else {
                None
            }) {
                None => SyncAction::Started,
                Some(addr) => if sync_value == SYNC_PROCEEDED {
                    SyncAction::Started
                } else if sync_value == SYNC_WAITING {
                    SyncAction::Release { addr }
                } else {
                    SyncAction::NotYet
                },
            },
    {
        self.data.bin.start_sync(states, sync_value)
    }

    /// Whether a core has panicked; see `KernelBinData::check_panic`.
    pub fn check_panic(&self, states: &[Option<u32>]) -> (r: bool)
        ensures
            r == exists|i: int|
                0 <= i < states@.len() && #[trigger] states@[i] == Some(STATE_PANICKED),
    {
        self.data.bin.check_panic(states)
    }

    /// Whether the image has run its course; see
    /// `KernelBinData::all_complete`.
    pub fn all_complete(&self, states: &[u32]) -> (r: bool)
        requires
            states@.len() <= CORE_COUNT,
        ensures
            r == (states@.len() == 0 || (states@.len() == CORE_COUNT && complete(states@))),
    {
        self.data.bin.all_complete(states)
    }

    /// Decides whether the wait for the image is over; see
    /// `KernelBinData::wait`.
    pub fn wait(&self, states: &[u32]) -> (r: WaitStep)
        requires
            states@.len() <= CORE_COUNT,
        ensures
            match r {
                WaitStep::Poll => !(states@.len() == 0 || (states@.len() == CORE_COUNT && complete(
                    states@,
                ))),
                WaitStep::Finish(ops) => (states@.len() == 0 || (states@.len() == CORE_COUNT
                    && complete(states@))) && ops@ == soft_reset_ops(
                    self.core.addr,
                    ALL_SOFT_RESETS,
                ),
            },
    {
        self.data.bin.wait(states, self.core)
    }

    /// As `wait`: the fabric over which the state is read is the host's to
    /// choose.
    pub fn wait_id(&self, states: &[u32]) -> (r: WaitStep)
        requires
            states@.len() <= CORE_COUNT,
        ensures
            match r {
                WaitStep::Poll => !(states@.len() == 0 || (states@.len() == CORE_COUNT && complete(
                    states@,
                ))),
                WaitStep::Finish(ops) => (states@.len() == 0 || (states@.len() == CORE_COUNT
                    && complete(states@))) && ops@ == soft_reset_ops(
                    self.core.addr,
                    ALL_SOFT_RESETS,
                ),
            },
    {
        self.data.bin.wait(states, self.core)
    }

    /// Decides what of a freshly read state is to be shown; see
    /// `KernelBinData::maybe_print_state`.
    pub fn maybe_print_state(&mut self, state: CoreDataCache, force: bool) -> (r: PrintDecision)
        ensures
            r == if !force && state.sync == old(self).data.bin.core_data_cache.sync
                && state.cores() == old(self).data.bin.core_data_cache.cores() {
                PrintDecision::Unchanged
            } else if state.sync is Some && state.sync != Some(SYNC_PROCEEDED) {
                PrintDecision::SyncOnly
            } else {
                PrintDecision::Full
            },
            r != PrintDecision::Unchanged ==> final(self).data.bin.core_data_cache == state,
            r == PrintDecision::Unchanged ==> final(self).data.bin.core_data_cache == old(
                self,
            ).data.bin.core_data_cache,
            final(self).noc_id == old(self).noc_id,
            final(self).core == old(self).core,
    {
        self.data.bin.maybe_print_state(state, force)
    }

    /// As `maybe_print_state`, never forced.
    pub fn print_state_diff(&mut self, state: CoreDataCache) -> (r: PrintDecision)
        ensures
            r == PrintDecision::Unchanged <==> (state.sync == old(
                self,
            ).data.bin.core_data_cache.sync && state.cores() == old(
                self,
            ).data.bin.core_data_cache.cores()),
            r != PrintDecision::Unchanged ==> final(self).data.bin.core_data_cache == state,
    {
        self.maybe_print_state(state, false)
    }

    /// As `maybe_print_state`, always forced.
    pub fn print_state(&mut self, state: CoreDataCache) -> (r: PrintDecision)
        ensures
            r != PrintDecision::Unchanged,
            final(self).data.bin.core_data_cache == state,
    {
        self.maybe_print_state(state, true)
    }

    /// The register writes that redirect the subordinate cores of the tile
    /// to the entry points that the image names.
    pub fn set_entry(&self) -> (r: Vec<(u64, u32)>)
        ensures
            r@ == entry_writes(
                self.data.bin.ncrisc_state.entry,
                self.data.bin.trisc0_state.entry,
                self.data.bin.trisc1_state.entry,
                self.data.bin.trisc2_state.entry,
            ),
    {
        self.data.set_entry(
            self.data.bin.ncrisc_state.entry,
            self.data.bin.trisc0_state.entry,
            self.data.bin.trisc1_state.entry,
            self.data.bin.trisc2_state.entry,
        )
    }

    /// The read of `len` bytes at `addr` of the kernel's tile over `noc_id`.
    pub fn read_id(&self, noc_id: NocId, addr: u64, len: usize) -> (r: NocOp)
        ensures
            r == (NocOp::Read { noc_id, tile: self.core.addr, addr, len }),
    {
        NocOp::Read { noc_id, tile: self.core.addr, addr, len }
    }

    /// The write of `data` at `addr` of the kernel's tile over `noc_id`.
    pub fn write_id(&self, noc_id: NocId, addr: u64, data: Vec<u8>) -> (r: NocOp)
        ensures
            r == (NocOp::Write { noc_id, tile: self.core.addr, addr, data }),
    {
        NocOp::Write { noc_id, tile: self.core.addr, addr, data }
    }

    /// The read of the word at `addr` of the kernel's tile over `noc_id`.
    pub fn read32_id(&self, noc_id: NocId, addr: u64) -> (r: NocOp)
        ensures
            r == (NocOp::Read32 { noc_id, tile: self.core.addr, addr }),
    {
        NocOp::Read32 { noc_id, tile: self.core.addr, addr }
    }

    /// The write of `value` at `addr` of the kernel's tile over `noc_id`.
    pub fn write32_id(&self, noc_id: NocId, addr: u64, value: u32) -> (r: NocOp)
        ensures
            r == (NocOp::Write32 { noc_id, tile: self.core.addr, addr, value }),
    {
        NocOp::Write32 { noc_id, tile: self.core.addr, addr, value }
    }

    /// The read of `len` bytes at `addr` of the kernel's tile, over the
    /// kernel's fabric.
    pub fn read(&self, addr: u64, len: usize) -> (r: NocOp)
        ensures
            r == (NocOp::Read { noc_id: self.noc_id, tile: self.core.addr, addr, len }),
    {
        self.read_id(self.noc_id, addr, len)
    }

    /// The write of `data` at `addr` of the kernel's tile, over the
    /// kernel's fabric.
    pub fn write(&self, addr: u64, data: Vec<u8>) -> (r: NocOp)
        ensures
            r == (NocOp::Write { noc_id: self.noc_id, tile: self.core.addr, addr, data }),
    {
        self.write_id(self.noc_id, addr, data)
    }

    /// The read of the word at `addr` of the kernel's tile, over the
    /// kernel's fabric.
    pub fn read32(&self, addr: u64) -> (r: NocOp)
        ensures
            r == (NocOp::Read32 { noc_id: self.noc_id, tile: self.core.addr, addr }),
    {
        self.read32_id(self.noc_id, addr)
    }

    /// The write of `value` at `addr` of the kernel's tile, over the
    /// kernel's fabric.
    pub fn write32(&self, addr: u64, value: u32) -> (r: NocOp)
        ensures
            r == (NocOp::Write32 { noc_id: self.noc_id, tile: self.core.addr, addr, value }),
    {
        self.write32_id(self.noc_id, addr, value)
    }
}

} // verus!
