//! Messages to the firmware controller through its ring buffers.
//!
//! Each channel is a pair of rings in the controller's memory, one for
//! requests and one for responses, behind a header that holds their read and
//! write pointers. The pointers count modulo twice the ring's length, so
//! that a full ring and an empty one can be told apart.

use crate::chip::field::{field_read, read_field, Field};
use vstd::prelude::*;

verus! {

/// Why the firmware refused a message.
#[derive(Debug, Clone, Copy, PartialEq, Eq, Structural)]
pub enum ProtocolErrorType {
    MsgNotRecognized(u32),
    UnknownErrorCode(u8),
}

/// The half of an exchange in which time ran out.
#[derive(Debug, Clone, Copy, PartialEq, Eq, Structural)]
pub enum Phase {
    Push,
    Pop,
}

impl Phase {
    /// The name of the phase.
    pub fn name(self) -> (r: &'static str)
        ensures
            r@ == match self {
                Phase::Push => "push"@,
                Phase::Pop => "pop"@,
            },
    {
        match self {
            Phase::Push => "push",
            Phase::Pop => "pop",
        }
    }
}

/// Why an exchange with the firmware failed.
#[derive(Debug, Clone, Copy, PartialEq, Eq, Structural)]
pub enum MessageError {
    /// Time ran out while waiting in `phase`.
    Timeout { phase: Phase },
    /// There is no channel `index`: the `queue_count` channels are numbered
    /// from 0 on.
    QueueIndexOutOfRange { index: u32, queue_count: u32 },
    ProtocolError(ProtocolErrorType),
    /// The firmware has not come far enough to take messages.
    NotSafe,
    /// The firmware describes rings without entries.
    NoQueue,
}

/// The word of the header that holds the request ring's write pointer.
pub const REQUEST_WPTR: u32 = 0;

/// The word of the header that holds the response ring's read pointer.
pub const RESPONSE_RPTR: u32 = 1;

/// The word of the header that holds the request ring's read pointer.
pub const REQUEST_RPTR: u32 = 4;

/// The word of the header that holds the response ring's write pointer.
pub const RESPONSE_WPTR: u32 = 5;

/// The rings of the firmware controller: `queue_count` channels, numbered
/// from 0, from `queue_base` on, each a header of `header_size` words, then
/// `queue_size` request entries and as many response entries of
/// `entry_size` words. A message of `N` words fills the first `N` words of
/// its entry.
#[derive(Clone, Copy, Debug)]
pub struct MessageQueue<const N: usize> {
    pub header_size: u32,
    pub entry_size: u32,
    pub queue_base: u64,
    pub queue_count: u32,
    pub queue_size: u32,
    pub fw_int: Field,
}

/// A snapshot of a channel's four pointers.
#[derive(Debug, Clone, Copy, PartialEq, Eq, Structural)]
pub struct QueueInfo {
    pub req_rptr: u32,
    pub req_wptr: u32,
    pub resp_rptr: u32,
    pub resp_wptr: u32,
}

/// How many entries lie between a ring's read pointer and its write
/// pointer, both counted modulo twice the ring's length.
pub open spec fn ring_distance(rptr: int, wptr: int, size: int) -> int {
    (wptr - rptr) % (2 * size)
}

/// Whether a ring of `size` entries is full: its pointers are `size` apart.
pub open spec fn ring_full(rptr: u32, wptr: u32, size: u32) -> bool {
    (if rptr >= wptr {
        rptr - wptr
    } else {
        wptr - rptr
    }) % (2 * size) == size as int
}

/// The pointer after `ptr`.
pub open spec fn ring_next(ptr: u32, size: u32) -> int {
    (ptr + 1) % (2 * size)
}

/// The entry that `ptr` points at.
pub open spec fn ring_slot(ptr: u32, size: u32) -> int {
    ptr as int % size as int
}

impl<const N: usize> MessageQueue<N> {
    /// The rings are not empty shells, the header has room for the four
    /// pointers, an entry has room for a message, and every word of every
    /// channel has an address.
    pub open spec fn wf(&self) -> bool {
        &&& 0 < self.queue_size
        &&& 2 * self.queue_size <= u32::MAX
        &&& self.header_size >= 6
        &&& 0 < N <= self.entry_size
        &&& self.header_size + 2 * self.queue_size * self.entry_size <= u32::MAX
        &&& 2 * self.queue_size * (self.entry_size * 4) + (self.header_size * 4) <= u32::MAX
        &&& self.queue_base + 256 * (2 * self.queue_size * (self.entry_size * 4) + (
        self.header_size * 4)) <= u64::MAX
    }

    /// How many bytes one channel takes.
    pub open spec fn channel_bytes(&self) -> int {
        2 * self.queue_size * (self.entry_size * 4) + (self.header_size * 4)
    }

    /// Where channel `index` starts.
    pub open spec fn base_spec(&self, index: u8) -> int {
        self.queue_base + index * self.channel_bytes()
    }

    /// Where word `offset` of channel `index` stands.
    pub open spec fn word_addr_spec(&self, index: u8, offset: int) -> int {
        self.base_spec(index) + 4 * offset
    }

    /// The word of channel data at which the request entry under `wptr`
    /// starts.
    pub open spec fn request_entry_spec(&self, wptr: u32) -> int {
        self.header_size + ring_slot(wptr, self.queue_size) * self.entry_size
    }

    /// The word of channel data at which the response entry under `rptr`
    /// starts: the responses follow the requests.
    pub open spec fn response_entry_spec(&self, rptr: u32) -> int {
        self.header_size + (self.queue_size + ring_slot(rptr, self.queue_size)) * self.entry_size
    }

    /// Whether the rings can be used as they are described.
    pub fn usable(&self) -> (r: bool)
        ensures
            r == self.wf(),
    {
        if self.queue_size == 0 || self.queue_size > 0x7fff_ffff || self.header_size < 6 || N == 0
            || N > 0xffff_ffff || (self.entry_size as u64) < N as u64 {
            return false;
        }
        let q = self.queue_size as u128;
        let n = self.entry_size as u128;
        let h = self.header_size as u128;
        assert(q * n <= 0x7fff_ffff * 0xffff_ffff && q * (n * 4) <= 0x7fff_ffff * (0xffff_ffff * 4)
            && q * n >= 0 && q * (n * 4) >= 0 && 2 * q * n == 2 * (q * n) && 2 * q * (n * 4) == 2
            * (q * (n * 4))) by (nonlinear_arith)
            requires
                0 < q <= 0x7fff_ffff,
                0 < n <= 0xffff_ffff,
        ;
        let words = h + 2 * (q * n);
        let bytes = 2 * (q * (n * 4)) + h * 4;
        words <= 0xffff_ffff && bytes <= 0xffff_ffff && self.queue_base as u128 + 256 * bytes
            <= 0xffff_ffff_ffff_ffff
    }

    /// Where channel `index` starts.
    pub fn get_base(&self, index: u8) -> (r: u64)
        requires
            self.wf(),
        ensures
            r == self.base_spec(index),
    {
        assert(2 * self.queue_size * (self.entry_size * 4) == 2 * (self.queue_size * (
        self.entry_size * 4))) by (nonlinear_arith);
        assert(self.queue_size * (self.entry_size * 4) >= 0) by (nonlinear_arith);
        assert(self.entry_size * 4 <= u32::MAX && 2 * self.queue_size <= u32::MAX) by (nonlinear_arith)
            requires
                2 * self.queue_size * (self.entry_size * 4) <= u32::MAX,
                self.queue_size > 0,
                self.entry_size > 0,
        ;
        let msg_queue_size = 2 * self.queue_size * (self.entry_size * 4) + (self.header_size * 4);
        assert(index as u64 * msg_queue_size as u64 <= 256 * msg_queue_size) by (nonlinear_arith)
            requires
                index <= 255,
                msg_queue_size >= 0,
        ;
        self.queue_base + (index as u64 * msg_queue_size as u64)
    }

    /// Where word `offset` of channel `index` stands.
    pub fn word_addr(&self, index: u8, offset: u32) -> (r: u64)
        requires
            self.wf(),
            self.base_spec(index) + 4 * offset <= u64::MAX,
        ensures
            r == self.word_addr_spec(index, offset as int),
    {
        self.get_base(index) + (4 * offset as u64)
    }

    /// Whether the request ring has no room, given its two pointers.
    pub fn request_full(&self, rptr: u32, wptr: u32) -> (r: bool)
        requires
            self.wf(),
        ensures
            r == ring_full(rptr, wptr, self.queue_size),
    {
        let distance = if rptr >= wptr {
            rptr - wptr
        } else {
            wptr - rptr
        };
        distance % (2 * self.queue_size) == self.queue_size
    }

    /// The word of channel data at which the request entry under `wptr`
    /// starts.
    pub fn request_entry(&self, wptr: u32) -> (r: u32)
        requires
            self.wf(),
        ensures
            r == self.request_entry_spec(wptr),
            r + N <= self.header_size + self.queue_size * self.entry_size,
    {
        let slot = wptr % self.queue_size;
        let stride = self.entry_size;
        assert(slot * stride + stride <= self.queue_size * stride) by (nonlinear_arith)
            requires
                slot < self.queue_size,
                stride > 0,
        ;
        assert(2 * self.queue_size * stride == 2 * (self.queue_size * stride))
            by (nonlinear_arith);
        assert(slot * stride >= 0) by (nonlinear_arith);
        self.header_size + slot * stride
    }

    /// The word of channel data at which the response entry under `rptr`
    /// starts.
    pub fn response_entry(&self, rptr: u32) -> (r: u32)
        requires
            self.wf(),
        ensures
            r == self.response_entry_spec(rptr),
            r + N <= self.header_size + 2 * self.queue_size * self.entry_size,
    {
        let slot = rptr % self.queue_size;
        let stride = self.entry_size;
        assert((self.queue_size + slot) * stride + stride <= 2 * self.queue_size * stride)
            by (nonlinear_arith)
            requires
                slot < self.queue_size,
                stride > 0,
        ;
        assert((self.queue_size + slot) * stride >= 0) by (nonlinear_arith);
        self.header_size + (self.queue_size + slot) * stride
    }

}

/// How far the firmware has come with its start-up.
#[derive(Debug, Clone, Copy, PartialEq, Eq, Structural)]
pub enum ArcFwInitStatus {
    NotStarted,
    Started,
    Done,
    Error,
    Unknown(u8),
}

impl vstd::std_specs::convert::FromSpecImpl<u8> for ArcFwInitStatus {
    open spec fn obeys_from_spec() -> bool {
        true
    }

    open spec fn from_spec(value: u8) -> Self {
        if value == 0 {
            ArcFwInitStatus::NotStarted
        } else if value == 1 {
            ArcFwInitStatus::Started
        } else if value == 2 {
            ArcFwInitStatus::Done
        } else if value == 3 {
            ArcFwInitStatus::Error
        } else {
            ArcFwInitStatus::Unknown(value)
        }
    }
}

impl From<u8> for ArcFwInitStatus {
    fn from(value: u8) -> (r: Self) {
        match value {
            0 => ArcFwInitStatus::NotStarted,
            1 => ArcFwInitStatus::Started,
            2 => ArcFwInitStatus::Done,
            3 => ArcFwInitStatus::Error,
            other => ArcFwInitStatus::Unknown(other),
        }
    }
}

impl ArcFwInitStatus {
    pub open spec fn ready_spec(&self) -> bool {
        *self == ArcFwInitStatus::Done || *self == ArcFwInitStatus::Error
    }

    /// Whether the start-up has come to an end, well or badly.
    #[verifier::when_used_as_spec(ready_spec)]
    pub fn ready(&self) -> (r: bool)
        ensures
            r == self.ready_spec(),
    {
        match self {
            ArcFwInitStatus::NotStarted
            | ArcFwInitStatus::Started
            | ArcFwInitStatus::Unknown(_) => false,
            ArcFwInitStatus::Done | ArcFwInitStatus::Error => true,
        }
    }
}

/// The register whose bits 16 to 19 raise the firmware's interrupts.
pub const FW_INT_REG: u64 = 0x80030000 + 0x100;

/// Where the firmware reports on its start-up.
pub const BOOT_STATUS_REG: u64 = 0x80030000 + 0x400 + (4 * 2);

/// Where the firmware keeps the address of the description of its rings.
pub const QUEUE_INFO_REG: u64 = 0x80030000 + 0x400 + (4 * 11);

/// The start-up status in the boot status word: its bits 1 and 2.
pub open spec fn init_status_bits(boot_status: u32) -> u8 {
    ((boot_status >> 1) & 0x3) as u8
}

/// Reads the firmware's start-up status out of the boot status word.
pub fn arc_fw_init_status(boot_status: u32) -> (r: ArcFwInitStatus)
    ensures
        r == <ArcFwInitStatus as vstd::std_specs::convert::FromSpec<u8>>::from_spec(
            init_status_bits(boot_status),
        ),
        !(r is Unknown),
{
    proof {
        assert((boot_status >> 1) & 0x3 < 4) by (bit_vector);
    }
    ArcFwInitStatus::from(((boot_status >> 1) & 0x3) as u8)
}

/// Whether the firmware takes messages: bit 0 of the boot status word.
pub fn check_arc_msg_safe(boot_status: u32) -> (r: bool)
    ensures
        r == (boot_status & 0x1 == 1),
{
    (boot_status & 0x1) == 1
}

/// The rings as the firmware describes them: their base, and a word whose
/// low byte is the length of a ring and whose next byte is the number of
/// channels. Headers and entries are eight words.
pub fn describe_queue(queue_base: u32, queue_sizing: u32) -> (r: MessageQueue<8>)
    ensures
        r.header_size == 8,
        r.entry_size == 8,
        r.queue_base == queue_base,
        r.queue_size == queue_sizing & 0xFF,
        r.queue_count == (queue_sizing >> 8) & 0xFF,
        r.fw_int == (Field { addr: FW_INT_REG, size: 4, bits: Some((16u32, 19u32)) }),
        r.queue_size > 0 ==> r.wf(),
{
    let queue_size = queue_sizing & 0xFF;
    let queue_count = (queue_sizing >> 8) & 0xFF;
    proof {
        assert(queue_sizing & 0xFF < 256) by (bit_vector);
    }
    let r = MessageQueue {
        header_size: 8,
        entry_size: 8,
        queue_base: queue_base as u64,
        queue_size,
        queue_count,
        fw_int: Field { addr: FW_INT_REG, size: 4, bits: Some((16, 19)) },
    };
    proof {
        let q = queue_size as int;
        assert(2 * q * 8 == 16 * q && 2 * q * (8 * 4) == 64 * q) by (nonlinear_arith);
    }
    r
}

/// The request for message `msg_id`: the code first, then the seven words
/// of `data`, or zeros.
pub fn build_request(msg_id: u32, data: Option<[u32; 7]>) -> (r: [u32; 8])
    ensures
        r[0] == msg_id,
        forall|i: int| 1 <= i < 8 ==> r[i] == match data {
            Some(d) => d[i - 1],
            None => 0,
        },
{
    match data {
        Some(d) => [msg_id, d[0], d[1], d[2], d[3], d[4], d[5], d[6]],
        None => [msg_id, 0, 0, 0, 0, 0, 0, 0],
    }
}

/// The status in a response: the low byte of its first word.
pub open spec fn response_status(word: u32) -> u8 {
    (word & 0xFF) as u8
}

/// The return code in a response: the high half of its first word.
pub open spec fn response_rc(word: u32) -> u16 {
    (word >> 16) as u16
}

/// Reads the firmware's response to message `msg_id`. A status below 240 is
/// success, and gives the status, the return code and the seven words that
/// follow; 255 says that the firmware did not know the message; any other
/// status is an error the protocol has no name for.
pub fn decode_response(msg_id: u32, response: &[u32; 8]) -> (r: Result<
    (u8, u16, [u32; 7]),
    MessageError,
>)
    ensures
        response_status(response[0]) < 240 ==> ({
            &&& r matches Ok((status, rc, data))
            &&& status == response_status(response[0])
            &&& rc == response_rc(response[0])
            &&& forall|i: int| 0 <= i < 7 ==> data[i] == response[i + 1]
        }),
        response_status(response[0]) == 0xFF ==> r == Err::<(u8, u16, [u32; 7]), MessageError>(
            MessageError::ProtocolError(ProtocolErrorType::MsgNotRecognized(msg_id)),
        ),
        240 <= response_status(response[0]) < 0xFF ==> r == Err::<
            (u8, u16, [u32; 7]),
            MessageError,
        >(
            MessageError::ProtocolError(
                ProtocolErrorType::UnknownErrorCode(response_status(response[0])),
            ),
        ),
{
    let word = response[0];
    proof {
        assert(word & 0xFF < 256 && word >> 16 < 0x10000) by (bit_vector);
    }
    let status = (word & 0xFF) as u8;
    let rc = (word >> 16) as u16;
    if status < 240 {
        let data = [
            response[1],
            response[2],
            response[3],
            response[4],
            response[5],
            response[6],
            response[7],
        ];
        Ok((status, rc, data))
    } else if status == 0xFF {
        Err(MessageError::ProtocolError(ProtocolErrorType::MsgNotRecognized(msg_id)))
    } else {
        Err(MessageError::ProtocolError(ProtocolErrorType::UnknownErrorCode(status)))
    }
}

/// How far an exchange with the firmware has come.
#[derive(Debug, Clone, Copy, PartialEq, Eq, Structural)]
pub enum ExchangePhase {
    Start,
    /// The request ring's write pointer is being read.
    AwaitRequestWptr,
    /// The clock of the push phase is running.
    PushTimed { wptr: u32 },
    /// The request ring's read pointer is being read.
    AwaitRequestRptr { wptr: u32 },
    /// The request's words before `word` are in the ring.
    WriteEntry { wptr: u32, word: usize },
    /// The request is published; the interrupt is next.
    Published,
    /// The interrupt is raised, and the response awaited.
    PopStart,
    /// The response ring's read pointer is being read.
    AwaitResponseRptr,
    /// The clock of the pop phase is running.
    PopTimed { rptr: u32 },
    /// The response ring's write pointer is being read.
    AwaitResponseWptr { rptr: u32 },
    /// Word `word` of the response is being read.
    ReadEntry { rptr: u32, word: usize },
    /// The response is taken out of the ring.
    Consumed,
    Finished,
}

/// What the host is to do next for an exchange.
#[derive(Debug, Clone, Copy, PartialEq, Eq)]
pub enum QueueStep {
    /// Note the time: `timed_out` is from now on counted from here.
    StartTimer,
    /// Read the word at `addr` of the controller's memory.
    Read32 { addr: u64 },
    /// Write `value` at `addr` of the controller's memory.
    Write32 { addr: u64, value: u32 },
    /// Raise the firmware's interrupt, unless it is pending.
    TriggerInt,
    /// The exchange is over. Where it went well, the response is in the
    /// exchange's `words`.
    Finished(Result<(), MessageError>),
}

/// One request on its way through a channel, and its response on the way
/// back. `words` holds the request first, and the response in the end.
#[derive(Debug, Clone, Copy)]
pub struct Exchange<const N: usize> {
    pub queue: MessageQueue<N>,
    pub index: u8,
    pub words: [u32; N],
    pub phase: ExchangePhase,
}

/// Whether the phase is one that an exchange of `n` words can be in.
pub open spec fn phase_in_range(phase: ExchangePhase, n: int) -> bool {
    match phase {
        ExchangePhase::WriteEntry { word, .. } => 1 <= word <= n,
        ExchangePhase::ReadEntry { word, .. } => word < n,
        _ => true,
    }
}

impl<const N: usize> Exchange<N> {
    pub open spec fn wf(&self) -> bool {
        self.queue.wf() && phase_in_range(self.phase, N as int)
    }

    /// Where word `offset` of this exchange's channel stands.
    pub open spec fn addr_spec(&self, offset: int) -> u64 {
        self.queue.word_addr_spec(self.index, offset) as u64
    }

    /// What the exchange does in each phase: the phase it goes to, what
    /// the host is to do, and the words it then holds. `value` is the word
    /// that the last read gave, `timed_out` whether the time allowed has
    /// passed since the timer was started.
    pub open spec fn next(self, value: u32, timed_out: bool) -> (
        ExchangePhase,
        QueueStep,
        Seq<u32>,
    ) {
        let q = self.queue;
        match self.phase {
            ExchangePhase::Start => if self.index as u32 >= q.queue_count {
                (
                    ExchangePhase::Finished,
                    QueueStep::Finished(
                        Err(
                            MessageError::QueueIndexOutOfRange {
                                index: self.index as u32,
                                queue_count: q.queue_count,
                            },
                        ),
                    ),
                    self.words@,
                )
            } else {
                (
                    ExchangePhase::AwaitRequestWptr,
                    QueueStep::Read32 { addr: self.addr_spec(REQUEST_WPTR as int) },
                    self.words@,
                )
            },
            ExchangePhase::AwaitRequestWptr => (
                ExchangePhase::PushTimed { wptr: value },
                QueueStep::StartTimer,
                self.words@,
            ),
            ExchangePhase::PushTimed { wptr } => (
                ExchangePhase::AwaitRequestRptr { wptr },
                QueueStep::Read32 { addr: self.addr_spec(REQUEST_RPTR as int) },
                self.words@,
            ),
            ExchangePhase::AwaitRequestRptr { wptr } => if !ring_full(value, wptr, q.queue_size) {
                (
                    ExchangePhase::WriteEntry { wptr, word: 1 },
                    QueueStep::Write32 {
                        addr: self.addr_spec(q.request_entry_spec(wptr)),
                        value: self.words[0],
                    },
                    self.words@,
                )
            } else if timed_out {
                (
                    ExchangePhase::Finished,
                    QueueStep::Finished(Err(MessageError::Timeout { phase: Phase::Push })),
                    self.words@,
                )
            } else {
                (
                    self.phase,
                    QueueStep::Read32 { addr: self.addr_spec(REQUEST_RPTR as int) },
                    self.words@,
                )
            },
            ExchangePhase::WriteEntry { wptr, word } => if word < N {
                (
                    ExchangePhase::WriteEntry { wptr, word: (word + 1) as usize },
                    QueueStep::Write32 {
                        addr: self.addr_spec(q.request_entry_spec(wptr) + word),
                        value: self.words[word as int],
                    },
                    self.words@,
                )
            } else {
                (
                    ExchangePhase::Published,
                    QueueStep::Write32 {
                        addr: self.addr_spec(REQUEST_WPTR as int),
                        value: ring_next(wptr, q.queue_size) as u32,
                    },
                    self.words@,
                )
            },
            ExchangePhase::Published => (
                ExchangePhase::PopStart,
                QueueStep::TriggerInt,
                self.words@,
            ),
            ExchangePhase::PopStart => (
                ExchangePhase::AwaitResponseRptr,
                QueueStep::Read32 { addr: self.addr_spec(RESPONSE_RPTR as int) },
                self.words@,
            ),
            ExchangePhase::AwaitResponseRptr => (
                ExchangePhase::PopTimed { rptr: value },
                QueueStep::StartTimer,
                self.words@,
            ),
            ExchangePhase::PopTimed { rptr } => (
                ExchangePhase::AwaitResponseWptr { rptr },
                QueueStep::Read32 { addr: self.addr_spec(RESPONSE_WPTR as int) },
                self.words@,
            ),
            ExchangePhase::AwaitResponseWptr { rptr } => if value != rptr {
                (
                    ExchangePhase::ReadEntry { rptr, word: 0 },
                    QueueStep::Read32 { addr: self.addr_spec(q.response_entry_spec(rptr)) },
                    self.words@,
                )
            } else if timed_out {
                (
                    ExchangePhase::Finished,
                    QueueStep::Finished(Err(MessageError::Timeout { phase: Phase::Pop })),
                    self.words@,
                )
            } else {
                (
                    self.phase,
                    QueueStep::Read32 { addr: self.addr_spec(RESPONSE_WPTR as int) },
                    self.words@,
                )
            },
            ExchangePhase::ReadEntry { rptr, word } => if word + 1 < N {
                (
                    ExchangePhase::ReadEntry { rptr, word: (word + 1) as usize },
                    QueueStep::Read32 {
                        addr: self.addr_spec(q.response_entry_spec(rptr) + word + 1),
                    },
                    self.words@.update(word as int, value),
                )
            } else {
                (
                    ExchangePhase::Consumed,
                    QueueStep::Write32 {
                        addr: self.addr_spec(RESPONSE_RPTR as int),
                        value: ring_next(rptr, q.queue_size) as u32,
                    },
                    self.words@.update(word as int, value),
                )
            },
            ExchangePhase::Consumed => (
                ExchangePhase::Finished,
                QueueStep::Finished(Ok(())),
                self.words@,
            ),
            ExchangePhase::Finished => (self.phase, QueueStep::Finished(Ok(())), self.words@),
        }
    }
}

impl<const N: usize> MessageQueue<N> {
    /// Every word of a channel has an address that fits.
    pub proof fn lemma_word_addr_fits(&self, index: u8, offset: int)
        requires
            self.wf(),
            0 <= offset <= self.header_size + 2 * self.queue_size * self.entry_size,
        ensures
            0 <= self.word_addr_spec(index, offset) <= u64::MAX,
    {
        let q = self.queue_size as int;
        let n = self.entry_size as int;
        let h = self.header_size as int;
        assert(2 * q * (n * 4) + h * 4 == 4 * (h + 2 * q * n)) by (nonlinear_arith);
        assert(2 * q * n >= 0) by (nonlinear_arith)
            requires
                q >= 0,
                n >= 0,
        ;
        assert(index * self.channel_bytes() <= 255 * self.channel_bytes()) by (nonlinear_arith)
            requires
                0 <= index <= 255,
                self.channel_bytes() >= 0,
        ;
        assert(index * self.channel_bytes() >= 0) by (nonlinear_arith)
            requires
                0 <= index,
                self.channel_bytes() >= 0,
        ;
    }

    /// The pointer after `ptr`, whatever word the ring's header held.
    pub fn advance(&self, ptr: u32) -> (r: u32)
        requires
            self.wf(),
        ensures
            r == ring_next(ptr, self.queue_size),
            r < 2 * self.queue_size,
    {
        let m = 2 * self.queue_size;
        proof {
            vstd::arithmetic::div_mod::lemma_add_mod_noop(ptr as int, 1, m as int);
            vstd::arithmetic::div_mod::lemma_small_mod(1, m as nat);
        }
        (ptr % m + 1) % m
    }

    /// Starts an exchange of `request` on channel `index`.
    pub fn send_message(&self, index: u8, request: [u32; N]) -> (r: Exchange<N>)
        requires
            self.wf(),
        ensures
            r.wf(),
            r.queue == *self,
            r.index == index,
            r.words == request,
            r.phase == ExchangePhase::Start,
    {
        Exchange { queue: *self, index, words: request, phase: ExchangePhase::Start }
    }

    /// Where the four pointers of channel `index` stand, in the order
    /// request read, request write, response read, response write; or the
    /// error, where there is no such channel.
    pub fn queue_info_addrs(&self, index: u8) -> (r: Result<[u64; 4], MessageError>)
        requires
            self.wf(),
        ensures
            r is Ok <==> index < self.queue_count,
            r matches Ok(a) ==> a[0] == self.word_addr_spec(index, REQUEST_RPTR as int) && a[1]
                == self.word_addr_spec(index, REQUEST_WPTR as int) && a[2] == self.word_addr_spec(
                index,
                RESPONSE_RPTR as int,
            ) && a[3] == self.word_addr_spec(index, RESPONSE_WPTR as int),
            r matches Err(e) ==> e == (MessageError::QueueIndexOutOfRange {
                index: index as u32,
                queue_count: self.queue_count,
            }),
    {
        if index as u32 >= self.queue_count {
            return Err(
                MessageError::QueueIndexOutOfRange {
                    index: index as u32,
                    queue_count: self.queue_count,
                },
            );
        }
        proof {
            assert(2 * self.queue_size * self.entry_size >= 0) by (nonlinear_arith);
            self.lemma_word_addr_fits(index, 0);
            self.lemma_word_addr_fits(index, 1);
            self.lemma_word_addr_fits(index, 4);
            self.lemma_word_addr_fits(index, 5);
        }
        Ok(
            [
                self.word_addr(index, REQUEST_RPTR),
                self.word_addr(index, REQUEST_WPTR),
                self.word_addr(index, RESPONSE_RPTR),
                self.word_addr(index, RESPONSE_WPTR),
            ],
        )
    }

    /// The snapshot that the four words read at `queue_info_addrs` make.
    pub fn get_queue_info(&self, words: [u32; 4]) -> (r: QueueInfo)
        ensures
            r == (QueueInfo {
                req_rptr: words[0],
                req_wptr: words[1],
                resp_rptr: words[2],
                resp_wptr: words[3],
            }),
    {
        QueueInfo {
            req_rptr: words[0],
            req_wptr: words[1],
            resp_rptr: words[2],
            resp_wptr: words[3],
        }
    }
}

impl<const N: usize> Exchange<N> {
    /// Where word `offset` of this exchange's channel stands.
    fn addr(&self, offset: u32) -> (r: u64)
        requires
            self.queue.wf(),
            offset <= self.queue.header_size + 2 * self.queue.queue_size * self.queue.entry_size,
        ensures
            r == self.addr_spec(offset as int),
    {
        proof {
            self.queue.lemma_word_addr_fits(self.index, offset as int);
        }
        self.queue.word_addr(self.index, offset)
    }

    /// Takes the exchange one step further. `value` is the word that the
    /// read asked for by the step before gave; `timed_out` says whether the
    /// time allowed has passed since the last `StartTimer`.
    pub fn step(&mut self, value: u32, timed_out: bool) -> (r: QueueStep)
        requires
            old(self).wf(),
            old(self).phase != ExchangePhase::Finished,
        ensures
            (final(self).phase, r, final(self).words@) == old(self).next(value, timed_out),
            final(self).queue == old(self).queue,
            final(self).index == old(self).index,
            final(self).wf(),
    {
        proof {
            assert(2 * self.queue.queue_size * self.queue.entry_size >= 0) by (nonlinear_arith);
        }
        match self.phase {
            ExchangePhase::Start => {
                if self.index as u32 >= self.queue.queue_count {
                    self.phase = ExchangePhase::Finished;
                    QueueStep::Finished(
                        Err(
                            MessageError::QueueIndexOutOfRange {
                                index: self.index as u32,
                                queue_count: self.queue.queue_count,
                            },
                        ),
                    )
                } else {
                    self.phase = ExchangePhase::AwaitRequestWptr;
                    QueueStep::Read32 { addr: self.addr(REQUEST_WPTR) }
                }
            },
            ExchangePhase::AwaitRequestWptr => {
                self.phase = ExchangePhase::PushTimed { wptr: value };
                QueueStep::StartTimer
            },
            ExchangePhase::PushTimed { wptr } => {
                self.phase = ExchangePhase::AwaitRequestRptr { wptr };
                QueueStep::Read32 { addr: self.addr(REQUEST_RPTR) }
            },
            ExchangePhase::AwaitRequestRptr { wptr } => {
                if !self.queue.request_full(value, wptr) {
                    let entry = self.queue.request_entry(wptr);
                    proof {
                        assert(self.queue.queue_size * self.queue.entry_size <= 2
                            * self.queue.queue_size * self.queue.entry_size) by (nonlinear_arith);
                    }
                    self.phase = ExchangePhase::WriteEntry { wptr, word: 1 };
                    QueueStep::Write32 { addr: self.addr(entry), value: self.words[0] }
                } else if timed_out {
                    self.phase = ExchangePhase::Finished;
                    QueueStep::Finished(Err(MessageError::Timeout { phase: Phase::Push }))
                } else {
                    QueueStep::Read32 { addr: self.addr(REQUEST_RPTR) }
                }
            },
            ExchangePhase::WriteEntry { wptr, word } => {
                if word < N {
                    let entry = self.queue.request_entry(wptr);
                    proof {
                        assert(self.queue.queue_size * self.queue.entry_size <= 2
                            * self.queue.queue_size * self.queue.entry_size) by (nonlinear_arith);
                    }
                    self.phase = ExchangePhase::WriteEntry { wptr, word: word + 1 };
                    QueueStep::Write32 {
                        addr: self.addr(entry + word as u32),
                        value: self.words[word],
                    }
                } else {
                    self.phase = ExchangePhase::Published;
                    QueueStep::Write32 {
                        addr: self.addr(REQUEST_WPTR),
                        value: self.queue.advance(wptr),
                    }
                }
            },
            ExchangePhase::Published => {
                self.phase = ExchangePhase::PopStart;
                QueueStep::TriggerInt
            },
            ExchangePhase::PopStart => {
                self.phase = ExchangePhase::AwaitResponseRptr;
                QueueStep::Read32 { addr: self.addr(RESPONSE_RPTR) }
            },
            ExchangePhase::AwaitResponseRptr => {
                self.phase = ExchangePhase::PopTimed { rptr: value };
                QueueStep::StartTimer
            },
            ExchangePhase::PopTimed { rptr } => {
                self.phase = ExchangePhase::AwaitResponseWptr { rptr };
                QueueStep::Read32 { addr: self.addr(RESPONSE_WPTR) }
            },
            ExchangePhase::AwaitResponseWptr { rptr } => {
                if value != rptr {
                    let entry = self.queue.response_entry(rptr);
                    self.phase = ExchangePhase::ReadEntry { rptr, word: 0 };
                    QueueStep::Read32 { addr: self.addr(entry) }
                } else if timed_out {
                    self.phase = ExchangePhase::Finished;
                    QueueStep::Finished(Err(MessageError::Timeout { phase: Phase::Pop }))
                } else {
                    QueueStep::Read32 { addr: self.addr(RESPONSE_WPTR) }
                }
            },
            ExchangePhase::ReadEntry { rptr, word } => {
                self.words[word] = value;
                if word + 1 < N {
                    let entry = self.queue.response_entry(rptr);
                    self.phase = ExchangePhase::ReadEntry { rptr, word: word + 1 };
                    QueueStep::Read32 { addr: self.addr(entry + (word + 1) as u32) }
                } else {
                    self.phase = ExchangePhase::Consumed;
                    QueueStep::Write32 {
                        addr: self.addr(RESPONSE_RPTR),
                        value: self.queue.advance(rptr),
                    }
                }
            },
            ExchangePhase::Consumed => {
                self.phase = ExchangePhase::Finished;
                QueueStep::Finished(Ok(()))
            },
            ExchangePhase::Finished => QueueStep::Finished(Ok(())),
        }
    }

    /// Whether the exchange is over.
    pub fn is_finished(&self) -> (r: bool)
        ensures
            r == (self.phase == ExchangePhase::Finished),
    {
        match self.phase {
            ExchangePhase::Finished => true,
            _ => false,
        }
    }
}

/// An exchange on a channel that is not there ends at its first step with
/// the error that names the channel and the count, before any word of a
/// ring is read or written and before the interrupt is raised. On a
/// channel that is there it begins with the read of the request ring's
/// write pointer.
pub proof fn lemma_channel_in_range<const N: usize>(
    exchange: Exchange<N>,
    value: u32,
    timed_out: bool,
)
    requires
        exchange.phase == ExchangePhase::Start,
    ensures
        exchange.index >= exchange.queue.queue_count ==> exchange.next(value, timed_out) == (
            ExchangePhase::Finished,
            QueueStep::Finished(
                Err(
                    MessageError::QueueIndexOutOfRange {
                        index: exchange.index as u32,
                        queue_count: exchange.queue.queue_count,
                    },
                ),
            ),
            exchange.words@,
        ),
        exchange.index < exchange.queue.queue_count ==> exchange.next(value, timed_out) == (
            ExchangePhase::AwaitRequestWptr,
            QueueStep::Read32 { addr: exchange.addr_spec(REQUEST_WPTR as int) },
            exchange.words@,
        ),
{
}

/// A ring as its two ends see it: the two pointers, and what each entry
/// holds.
pub struct Ring {
    pub size: u32,
    pub rptr: u32,
    pub wptr: u32,
    pub slots: Seq<Seq<u32>>,
}

/// What one end does to a ring.
pub enum RingOp {
    /// The writing end offers a message.
    Push(Seq<u32>),
    /// The reading end asks for one.
    Pop,
}

/// The writing end's move: into a ring that is not full the message goes,
/// under the write pointer, which then moves on; a full ring stays as it is.
pub open spec fn ring_push(r: Ring, msg: Seq<u32>) -> Ring {
    if ring_full(r.rptr, r.wptr, r.size) {
        r
    } else {
        Ring {
            wptr: ring_next(r.wptr, r.size) as u32,
            slots: r.slots.update(ring_slot(r.wptr, r.size), msg),
            ..r
        }
    }
}

/// The reading end's move: from a ring whose pointers differ it takes the
/// message under the read pointer, which then moves on; from an empty ring
/// it takes nothing.
pub open spec fn ring_pop(r: Ring) -> (Ring, Option<Seq<u32>>) {
    if r.rptr == r.wptr {
        (r, None)
    } else {
        (
            Ring { rptr: ring_next(r.rptr, r.size) as u32, ..r },
            Some(r.slots[ring_slot(r.rptr, r.size)]),
        )
    }
}

/// The ring after a run of moves, the messages it took in, and the
/// messages it gave out, each in order.
pub open spec fn ring_run(r: Ring, ops: Seq<RingOp>) -> (Ring, Seq<Seq<u32>>, Seq<Seq<u32>>)
    decreases ops.len(),
{
    if ops.len() == 0 {
        (r, Seq::empty(), Seq::empty())
    } else {
        let (before, accepted, popped) = ring_run(r, ops.drop_last());
        match ops.last() {
            RingOp::Push(msg) => if ring_full(before.rptr, before.wptr, before.size) {
                (before, accepted, popped)
            } else {
                (ring_push(before, msg), accepted.push(msg), popped)
            },
            RingOp::Pop => match ring_pop(before).1 {
                Some(msg) => (ring_pop(before).0, accepted, popped.push(msg)),
                None => (before, accepted, popped),
            },
        }
    }
}

/// A ring with nothing in it.
pub open spec fn ring_empty(r: Ring) -> bool {
    &&& 0 < r.size
    &&& 2 * r.size <= u32::MAX
    &&& r.slots.len() == r.size
    &&& r.rptr == r.wptr
    &&& r.rptr < 2 * r.size
}

/// The ring holds the messages of `history` from number `read` on: so many
/// were written and so many read since its pointers stood at zero.
pub open spec fn ring_tracks(r: Ring, history: Seq<Seq<u32>>, read: int) -> bool {
    &&& 0 < r.size
    &&& 2 * r.size <= u32::MAX
    &&& r.slots.len() == r.size
    &&& 0 <= read <= history.len() <= read + r.size
    &&& r.rptr == read % (2 * r.size)
    &&& r.wptr == (history.len() as int) % (2 * r.size)
    &&& forall|k: int|
        read <= k < history.len() ==> r.slots[#[trigger] (k % (r.size as int))] == history[k]
}

/// Two counts less than a ring's length apart fall on different entries.
proof fn lemma_distinct_slots(a: int, b: int, s: int)
    requires
        0 < s,
        0 <= a < b < a + s,
    ensures
        a % s != b % s,
{
    if a % s == b % s {
        vstd::arithmetic::div_mod::lemma_mod_equivalence(b, a, s);
        vstd::arithmetic::div_mod::lemma_small_mod((b - a) as nat, s as nat);
    }
}

/// The pointers tell how full the ring is.
proof fn lemma_ring_fill(r: Ring, history: Seq<Seq<u32>>, read: int)
    requires
        ring_tracks(r, history, read),
    ensures
        ring_full(r.rptr, r.wptr, r.size) <==> history.len() == read + r.size,
        r.rptr == r.wptr <==> history.len() == read,
        ring_slot(r.rptr, r.size) == read % (r.size as int),
        ring_slot(r.wptr, r.size) == history.len() as int % (r.size as int),
        ring_next(r.rptr, r.size) == (read + 1) % (2 * r.size),
        ring_next(r.wptr, r.size) == ((history.len() + 1) as int) % (2 * r.size),
{
    let s = r.size as int;
    let m = 2 * s;
    let w = history.len() as int;
    let d = w - read;
    vstd::arithmetic::div_mod::lemma_mod_mod(read, s, 2);
    vstd::arithmetic::div_mod::lemma_mod_mod(w, s, 2);
    vstd::arithmetic::mul::lemma_mul_is_commutative(s, 2);
    vstd::arithmetic::div_mod::lemma_add_mod_noop(read, 1, m);
    vstd::arithmetic::div_mod::lemma_add_mod_noop(w, 1, m);
    vstd::arithmetic::div_mod::lemma_small_mod(1, m as nat);
    // The write pointer is the read pointer moved on by what the ring holds.
    vstd::arithmetic::div_mod::lemma_add_mod_noop(read, d, m);
    vstd::arithmetic::div_mod::lemma_small_mod(d as nat, m as nat);
    let rp = r.rptr as int;
    let wp = r.wptr as int;
    assert(wp == (rp + d) % m);
    if rp + d < m {
        vstd::arithmetic::div_mod::lemma_small_mod((rp + d) as nat, m as nat);
        assert(wp == rp + d);
        vstd::arithmetic::div_mod::lemma_small_mod(d as nat, m as nat);
    } else {
        vstd::arithmetic::div_mod::lemma_mod_sub_multiples_vanish(rp + d, m);
        vstd::arithmetic::div_mod::lemma_small_mod((rp + d - m) as nat, m as nat);
        assert(wp == rp + d - m);
        vstd::arithmetic::div_mod::lemma_small_mod((m - d) as nat, m as nat);
    }
}

/// A message pushed where there is room is the newest the ring holds.
proof fn lemma_ring_push(r: Ring, history: Seq<Seq<u32>>, read: int, msg: Seq<u32>)
    requires
        ring_tracks(r, history, read),
        !ring_full(r.rptr, r.wptr, r.size),
    ensures
        ring_tracks(ring_push(r, msg), history.push(msg), read),
{
    lemma_ring_fill(r, history, read);
    let s = r.size as int;
    let w = history.len() as int;
    let after = ring_push(r, msg);
    let grown = history.push(msg);
    assert forall|k: int| read <= k < grown.len() implies after.slots[#[trigger] (k % s)]
        == grown[k] by {
        if k < w {
            lemma_distinct_slots(k, w, s);
            assert(r.slots[k % s] == history[k]);
        }
    }
}

/// A message popped is the oldest the ring held.
proof fn lemma_ring_pop(r: Ring, history: Seq<Seq<u32>>, read: int)
    requires
        ring_tracks(r, history, read),
        r.rptr != r.wptr,
    ensures
        read < history.len(),
        ring_pop(r).1 == Some(history[read]),
        ring_tracks(ring_pop(r).0, history, read + 1),
{
    lemma_ring_fill(r, history, read);
    let s = r.size as int;
    assert(r.slots[read % s] == history[read]);
}

/// Whatever the two ends do, the ring keeps the messages in order.
proof fn lemma_ring_run(r: Ring, history: Seq<Seq<u32>>, read: int, ops: Seq<RingOp>)
    requires
        ring_tracks(r, history, read),
    ensures
        ({
            let (after, accepted, popped) = ring_run(r, ops);
            &&& ring_tracks(after, history + accepted, read + popped.len())
            &&& after.size == r.size
            &&& popped == (history + accepted).subrange(read, read + popped.len())
        }),
    decreases ops.len(),
{
    if ops.len() == 0 {
        assert(history + Seq::<Seq<u32>>::empty() =~= history);
        assert(Seq::<Seq<u32>>::empty() =~= history.subrange(read, read));
    } else {
        lemma_ring_run(r, history, read, ops.drop_last());
        let (before, accepted, popped) = ring_run(r, ops.drop_last());
        let so_far = history + accepted;
        let at = read + popped.len();
        match ops.last() {
            RingOp::Push(msg) => {
                if !ring_full(before.rptr, before.wptr, before.size) {
                    lemma_ring_push(before, so_far, at, msg);
                    assert(history + accepted.push(msg) =~= so_far.push(msg));
                    assert(popped =~= so_far.push(msg).subrange(read, at));
                }
            },
            RingOp::Pop => {
                if before.rptr != before.wptr {
                    lemma_ring_pop(before, so_far, at);
                    assert(popped.push(so_far[at]) =~= so_far.subrange(read, at + 1));
                }
            },
        }
    }
}

/// However many messages pass through a ring, and however often its
/// pointers wrap, the messages come out in the order in which they went in:
/// what was popped is the beginning of what was accepted.
pub proof fn lemma_ring_fifo(r: Ring, ops: Seq<RingOp>)
    requires
        ring_empty(r),
    ensures
        ({
            let (after, accepted, popped) = ring_run(r, ops);
            &&& popped.len() <= accepted.len() <= popped.len() + r.size
            &&& popped == accepted.take(popped.len() as int)
        }),
{
    // The ring stands as if `r.rptr` messages had gone through it already.
    let p = r.rptr as int;
    let history = Seq::new(p as nat, |i: int| Seq::<u32>::empty());
    vstd::arithmetic::div_mod::lemma_small_mod(p as nat, (2 * r.size) as nat);
    assert(ring_tracks(r, history, p));
    lemma_ring_run(r, history, p, ops);
    let (after, accepted, popped) = ring_run(r, ops);
    assert(popped =~= accepted.take(popped.len() as int)) by {
        assert forall|i: int| 0 <= i < popped.len() implies popped[i] == accepted[i] by {
            assert((history + accepted)[p + i] == accepted[i]);
        }
    }
}

/// For a ring whose length is a power of two, the pointers are a ring's
/// length apart exactly when they differ in the one bit that counts the
/// laps.
pub proof fn lemma_full_is_lap_bit(rptr: u32, wptr: u32, size: u32)
    requires
        size == 1 || size == 2 || size == 4 || size == 8 || size == 16 || size == 32 || size == 64
            || size == 128,
        rptr < 2 * size,
        wptr < 2 * size,
    ensures
        ring_full(rptr, wptr, size) <==> (rptr ^ wptr) == size,
{
    let d: u32 = if rptr >= wptr {
        (rptr - wptr) as u32
    } else {
        (wptr - rptr) as u32
    };
    vstd::arithmetic::div_mod::lemma_small_mod(d as nat, (2 * size) as nat);
    assert((d == size) <==> (rptr ^ wptr) == size) by (bit_vector)
        requires
            size == 1 || size == 2 || size == 4 || size == 8 || size == 16 || size == 32 || size
                == 64 || size == 128,
            rptr < 2 * size,
            wptr < 2 * size,
            d == if rptr >= wptr {
                (rptr - wptr) as u32
            } else {
                (wptr - rptr) as u32
            },
    ;
}

impl<const N: usize> MessageQueue<N> {
    /// Decides about the firmware's interrupt, given what was read at the
    /// interrupt field: where the lowest bit of the field is set the
    /// interrupt is pending and nothing is to be done; else the value to
    /// put into the field is what was read with that bit set.
    pub fn trigger_int(&self, read: Vec<u8>) -> (r: Option<Vec<u8>>)
        requires
            0 < self.fw_int.size <= read@.len(),
            self.fw_int.fits(read@.len() as int),
            8 * read@.len() <= usize::MAX,
        ensures
            match r {
                None => exists|seen: Seq<u8>|
                    #![trigger field_read(self.fw_int, read@, seen)]
                    field_read(self.fw_int, read@, seen) && seen[0] & 1 != 0,
                Some(value) => exists|seen: Seq<u8>|
                    #![trigger field_read(self.fw_int, read@, seen)]
                    field_read(self.fw_int, read@, seen) && seen[0] & 1 == 0 && value@
                        == seen.update(0, seen[0] | 1),
            },
    {
        match read_field(self.fw_int, read) {
            Some(seen) => {
                let mut value = seen;
                let ghost before = value@;
                assert(value@.len() > 0) by {
                    if self.fw_int.bits is None {
                        assert(value@ == read@.take(self.fw_int.size as int));
                    }
                }
                let low = value[0];
                if low & 1 != 0 {
                    assert(field_read(self.fw_int, read@, before));
                    return None;
                }
                value[0] = low | 1;
                assert(field_read(self.fw_int, read@, before));
                assert(value@ == before.update(0, before[0] | 1));
                Some(value)
            },
            None => None,
        }
    }
}

/// How far a message to the firmware has come.
#[derive(Debug, Clone, Copy, PartialEq, Eq, Structural)]
pub enum ArcCallPhase {
    Start,
    /// The boot status is being read, to see whether the firmware takes
    /// messages.
    AwaitBootStatus,
    /// The address of the description of the rings is being read.
    AwaitInfo,
    /// The base of the rings is being read from the description at `info`.
    AwaitQueueBase { info: u32 },
    /// The sizes of the rings are being read.
    AwaitSizing { queue_base: u32 },
    /// The request is on its way through the rings.
    Exchanging,
    Finished,
}

/// One message to the firmware, from the look whether the firmware takes
/// messages to the reading of its answer.
#[derive(Debug, Clone, Copy)]
pub struct ArcCall {
    pub msg_id: u32,
    pub request: [u32; 8],
    /// The channel that the message goes through.
    pub channel: u8,
    pub phase: ArcCallPhase,
    /// The exchange through the rings, once the rings are known.
    pub exchange: Option<Exchange<8>>,
    /// The answer: the status, the return code and seven words.
    pub response: Option<(u8, u16, [u32; 7])>,
}

/// The rings that the firmware describes by their base and sizes.
pub open spec fn described_queue(queue_base: u32, queue_sizing: u32) -> MessageQueue<8> {
    MessageQueue {
        header_size: 8,
        entry_size: 8,
        queue_base: queue_base as u64,
        queue_count: (queue_sizing >> 8) & 0xFF,
        queue_size: queue_sizing & 0xFF,
        fw_int: Field { addr: FW_INT_REG, size: 4, bits: Some((16u32, 19u32)) },
    }
}

/// The answer in a response: for a status below 240 the status, the
/// return code and the seven words that follow; else the error that the
/// status stands for.
pub open spec fn decoded(msg_id: u32, response: Seq<u32>) -> Result<
    (u8, u16, Seq<u32>),
    MessageError,
> {
    let status = response_status(response[0]);
    if status < 240 {
        Ok((status, response_rc(response[0]), response.subrange(1, 8)))
    } else if status == 0xFF {
        Err(MessageError::ProtocolError(ProtocolErrorType::MsgNotRecognized(msg_id)))
    } else {
        Err(MessageError::ProtocolError(ProtocolErrorType::UnknownErrorCode(status)))
    }
}

/// Prepares message `msg_id` with its seven words, or zeros, for the
/// channel that the host's messages go through.
pub fn send_arc_msg(msg_id: u32, request: Option<[u32; 7]>) -> (r: ArcCall)
    ensures
        r.wf(),
        r.msg_id == msg_id,
        r.channel == crate::chip::blackhole::ARC_MSG_CHANNEL,
        r.phase == ArcCallPhase::Start,
        r.exchange is None,
        r.response is None,
        r.request[0] == msg_id,
        forall|i: int|
            1 <= i < 8 ==> r.request[i] == match request {
                Some(d) => d[i - 1],
                None => 0,
            },
{
    ArcCall {
        msg_id,
        request: build_request(msg_id, request),
        channel: crate::chip::blackhole::ARC_MSG_CHANNEL,
        phase: ArcCallPhase::Start,
        exchange: None,
        response: None,
    }
}

impl ArcCall {
    /// While the request is on its way, the exchange that carries it is
    /// there, in order, and not over.
    pub open spec fn wf(&self) -> bool {
        self.phase == ArcCallPhase::Exchanging ==> {
            &&& self.exchange matches Some(ex)
            &&& ex.wf()
            &&& ex.phase != ExchangePhase::Finished
            &&& ex.index == self.channel
        }
    }

    /// What the host is told when an exchange has taken a step: the step
    /// itself, but at the end of an exchange that went well what its
    /// response says.
    pub open spec fn pass_on(msg_id: u32, step: QueueStep, words: Seq<u32>) -> QueueStep {
        match step {
            QueueStep::Finished(Ok(())) => match decoded(msg_id, words) {
                Ok(_) => QueueStep::Finished(Ok(())),
                Err(e) => QueueStep::Finished(Err(e)),
            },
            other => other,
        }
    }

    /// What the call does in each phase before the request is on its way:
    /// the phase it goes to and what the host is to do. `None` where the
    /// rings have just become known and the exchange takes over.
    pub open spec fn next_before(self, value: u32) -> Option<(ArcCallPhase, QueueStep)> {
        match self.phase {
            ArcCallPhase::Start => Some(
                (ArcCallPhase::AwaitBootStatus, QueueStep::Read32 { addr: BOOT_STATUS_REG }),
            ),
            ArcCallPhase::AwaitBootStatus => if value & 0x1 == 1 {
                Some((ArcCallPhase::AwaitInfo, QueueStep::Read32 { addr: QUEUE_INFO_REG }))
            } else {
                Some((ArcCallPhase::Finished, QueueStep::Finished(Err(MessageError::NotSafe))))
            },
            ArcCallPhase::AwaitInfo => Some(
                (
                    ArcCallPhase::AwaitQueueBase { info: value },
                    QueueStep::Read32 { addr: value as u64 },
                ),
            ),
            ArcCallPhase::AwaitQueueBase { info } => Some(
                (
                    ArcCallPhase::AwaitSizing { queue_base: value },
                    QueueStep::Read32 { addr: (info + 4) as u64 },
                ),
            ),
            ArcCallPhase::AwaitSizing { queue_base } => if value & 0xFF == 0 {
                Some((ArcCallPhase::Finished, QueueStep::Finished(Err(MessageError::NoQueue))))
            } else {
                None
            },
            _ => None,
        }
    }

    /// Takes the call one step further. `value` is the word that the read
    /// asked for by the step before gave; `timed_out` says whether the time
    /// allowed has passed since the last `StartTimer`.
    pub fn step(&mut self, value: u32, timed_out: bool) -> (r: QueueStep)
        requires
            old(self).wf(),
            old(self).phase != ArcCallPhase::Finished,
        ensures
            final(self).wf(),
            final(self).msg_id == old(self).msg_id,
            final(self).request == old(self).request,
            final(self).channel == old(self).channel,
            (final(self).phase == ArcCallPhase::Finished) == (r is Finished),
            match old(self).next_before(value) {
                Some((phase, step)) => {
                    &&& final(self).phase == phase
                    &&& r == step
                    &&& final(self).exchange == old(self).exchange
                    &&& final(self).response == old(self).response
                },
                None => {
                    // The exchange takes a step: its first, where the rings
                    // have just become known.
                    let before = match old(self).phase {
                        ArcCallPhase::AwaitSizing { queue_base } => Exchange {
                            queue: described_queue(queue_base, value),
                            index: old(self).channel,
                            words: old(self).request,
                            phase: ExchangePhase::Start,
                        },
                        _ => old(self).exchange->0,
                    };
                    let (phase, step, words) = before.next(value, timed_out);
                    &&& final(self).exchange matches Some(after)
                    &&& after.phase == phase
                    &&& after.words@ == words
                    &&& after.queue == before.queue
                    &&& after.index == before.index
                    &&& r == Self::pass_on(old(self).msg_id, step, words)
                    &&& (r is Finished) || final(self).phase == ArcCallPhase::Exchanging
                    &&& match (step, decoded(old(self).msg_id, words)) {
                        (QueueStep::Finished(Ok(())), Ok(answer)) => {
                            &&& final(self).response matches Some(got)
                            &&& got.0 == answer.0
                            &&& got.1 == answer.1
                            &&& got.2@ == answer.2
                        },
                        _ => final(self).response == old(self).response,
                    }
                },
            },
    {
        match self.phase {
            ArcCallPhase::Start => {
                self.phase = ArcCallPhase::AwaitBootStatus;
                QueueStep::Read32 { addr: BOOT_STATUS_REG }
            },
            ArcCallPhase::AwaitBootStatus => {
                if check_arc_msg_safe(value) {
                    self.phase = ArcCallPhase::AwaitInfo;
                    QueueStep::Read32 { addr: QUEUE_INFO_REG }
                } else {
                    self.phase = ArcCallPhase::Finished;
                    QueueStep::Finished(Err(MessageError::NotSafe))
                }
            },
            ArcCallPhase::AwaitInfo => {
                self.phase = ArcCallPhase::AwaitQueueBase { info: value };
                QueueStep::Read32 { addr: value as u64 }
            },
            ArcCallPhase::AwaitQueueBase { info } => {
                self.phase = ArcCallPhase::AwaitSizing { queue_base: value };
                QueueStep::Read32 { addr: info as u64 + 4 }
            },
            ArcCallPhase::AwaitSizing { queue_base } => {
                let queue = describe_queue(queue_base, value);
                if queue.queue_size == 0 {
                    self.phase = ArcCallPhase::Finished;
                    QueueStep::Finished(Err(MessageError::NoQueue))
                } else {
                    let exchange = queue.send_message(self.channel, self.request);
                    self.exchange = Some(exchange);
                    self.phase = ArcCallPhase::Exchanging;
                    self.exchange_step(value, timed_out)
                }
            },
            ArcCallPhase::Exchanging => self.exchange_step(value, timed_out),
            ArcCallPhase::Finished => QueueStep::Finished(Err(MessageError::NotSafe)),
        }
    }

    /// Lets the exchange take a step, and reads the response where that
    /// was its last.
    fn exchange_step(&mut self, value: u32, timed_out: bool) -> (r: QueueStep)
        requires
            old(self).phase == ArcCallPhase::Exchanging,
            old(self).wf(),
        ensures
            final(self).wf(),
            final(self).msg_id == old(self).msg_id,
            final(self).request == old(self).request,
            final(self).channel == old(self).channel,
            (final(self).phase == ArcCallPhase::Finished) == (r is Finished),
            (r is Finished) || final(self).phase == ArcCallPhase::Exchanging,
            ({
                let before = old(self).exchange->0;
                let (phase, step, words) = before.next(value, timed_out);
                &&& final(self).exchange matches Some(after)
                &&& after.phase == phase
                &&& after.words@ == words
                &&& after.queue == before.queue
                &&& after.index == before.index
                &&& r == Self::pass_on(old(self).msg_id, step, words)
                &&& match (step, decoded(old(self).msg_id, words)) {
                    (QueueStep::Finished(Ok(())), Ok(answer)) => {
                        &&& final(self).response matches Some(got)
                        &&& got.0 == answer.0
                        &&& got.1 == answer.1
                        &&& got.2@ == answer.2
                    },
                    _ => final(self).response == old(self).response,
                }
            }),
    {
        let mut exchange = match self.exchange {
            Some(exchange) => exchange,
            None => {
                return QueueStep::Finished(Err(MessageError::NoQueue));
            },
        };
        let step = exchange.step(value, timed_out);
        self.exchange = Some(exchange);
        match step {
            QueueStep::Finished(Ok(())) => {
                self.phase = ArcCallPhase::Finished;
                match decode_response(self.msg_id, &exchange.words) {
                    Ok(answer) => {
                        assert(answer.2@ =~= exchange.words@.subrange(1, 8));
                        self.response = Some(answer);
                        QueueStep::Finished(Ok(()))
                    },
                    Err(e) => QueueStep::Finished(Err(e)),
                }
            },
            QueueStep::Finished(Err(e)) => {
                self.phase = ArcCallPhase::Finished;
                QueueStep::Finished(Err(e))
            },
            other => other,
        }
    }

    /// Whether the call is over.
    pub fn is_finished(&self) -> (r: bool)
        ensures
            r == (self.phase == ArcCallPhase::Finished),
    {
        match self.phase {
            ArcCallPhase::Finished => true,
            _ => false,
        }
    }
}

} // verus!
