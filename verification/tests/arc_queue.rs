use std::collections::HashMap;

use ttx_rs::chip::blackhole::arc::{
    arc_fw_init_status, build_request, check_arc_msg_safe, decode_response, describe_queue,
    send_arc_msg, ArcCallPhase, ArcFwInitStatus, Exchange, ExchangePhase, MessageError, MessageQueue, Phase,
    ProtocolErrorType, QueueInfo, QueueStep, BOOT_STATUS_REG, FW_INT_REG, QUEUE_INFO_REG,
};
use ttx_rs::chip::field::Field;
use ttx_rs::chip::grayskull::arc::{ArcMsg, ArcState, FwType, PowerState};

fn queue(base: u64, size: u32) -> MessageQueue<8> {
    MessageQueue {
        header_size: 8,
        entry_size: 8,
        queue_base: base,
        queue_count: 4,
        queue_size: size,
        fw_int: Field { addr: FW_INT_REG, size: 4, bits: Some((16, 19)) },
    }
}

/// The memory of a firmware controller that answers each request with the
/// request plus one in every word but the first, which it clears.
struct FakeFirmware {
    queue: MessageQueue<8>,
    index: u8,
    memory: HashMap<u64, u32>,
    /// Whether the firmware takes requests at all.
    awake: bool,
    /// The first word of every response.
    status: u32,
    /// The first words of the requests, in the order in which they came.
    seen: Vec<u32>,
}

impl FakeFirmware {
    fn new(queue: MessageQueue<8>, index: u8) -> Self {
        FakeFirmware {
            queue,
            index,
            memory: HashMap::new(),
            awake: true,
            status: 0,
            seen: Vec::new(),
        }
    }

    fn word(&self, offset: u32) -> u32 {
        let addr = self.queue.word_addr(self.index, offset);
        self.memory.get(&addr).copied().unwrap_or(0)
    }

    fn set_word(&mut self, offset: u32, value: u32) {
        let addr = self.queue.word_addr(self.index, offset);
        self.memory.insert(addr, value);
    }

    fn interrupt(&mut self) {
        if !self.awake {
            return;
        }
        let q = self.queue.queue_size;
        while self.word(4) != self.word(0) {
            let rptr = self.word(4);
            let wptr = self.word(5);
            let from = 8 + (rptr % q) * 8;
            let to = 8 + (q + wptr % q) * 8;
            self.seen.push(self.word(from));
            self.set_word(to, self.status);
            for i in 1..8 {
                let v = self.word(from + i);
                self.set_word(to + i, v.wrapping_add(1));
            }
            self.set_word(4, (rptr + 1) % (2 * q));
            self.set_word(5, (wptr + 1) % (2 * q));
        }
    }

    fn run(&mut self, exchange: &mut Exchange<8>, patience: usize) -> Result<[u32; 8], MessageError> {
        let mut value = 0;
        let mut polls = 0;
        loop {
            match exchange.step(value, polls > patience) {
                QueueStep::StartTimer => polls = 0,
                QueueStep::Read32 { addr } => {
                    polls += 1;
                    value = self.memory.get(&addr).copied().unwrap_or(0);
                }
                QueueStep::Write32 { addr, value } => {
                    self.memory.insert(addr, value);
                }
                QueueStep::TriggerInt => self.interrupt(),
                QueueStep::Finished(result) => {
                    assert!(exchange.is_finished());
                    return result.map(|()| exchange.words);
                }
            }
        }
    }
}

#[test]
fn where_the_rings_stand() {
    let q = queue(0x1000, 4);
    // A channel is a header of 8 words and twice 4 entries of 8 words.
    assert_eq!(q.get_base(0), 0x1000);
    assert_eq!(q.get_base(1), 0x1000 + 4 * (8 + 2 * 4 * 8));
    assert_eq!(q.get_base(2), 0x1000 + 2 * 288);
    assert_eq!(q.word_addr(2, 5), 0x1000 + 2 * 288 + 20);
    assert_eq!(q.request_entry(0), 8);
    assert_eq!(q.request_entry(3), 8 + 3 * 8);
    assert_eq!(q.request_entry(4), 8);
    assert_eq!(q.request_entry(7), 8 + 3 * 8);
    assert_eq!(q.response_entry(0), 8 + 4 * 8);
    assert_eq!(q.response_entry(5), 8 + (4 + 1) * 8);
    assert_eq!(q.advance(0), 1);
    assert_eq!(q.advance(7), 0);
    assert_eq!(q.advance(u32::MAX), 0);
    assert_eq!(q.advance(8), 1);
    assert_eq!(
        q.queue_info_addrs(1),
        Ok([0x1000 + 288 + 16, 0x1000 + 288, 0x1000 + 288 + 4, 0x1000 + 288 + 20])
    );
    assert_eq!(
        q.queue_info_addrs(5),
        Err(MessageError::QueueIndexOutOfRange { index: 5, queue_count: 4 })
    );
    assert_eq!(
        q.queue_info_addrs(4),
        Err(MessageError::QueueIndexOutOfRange { index: 4, queue_count: 4 })
    );
    assert!(q.queue_info_addrs(3).is_ok());
    assert_eq!(
        q.get_queue_info([1, 2, 3, 4]),
        QueueInfo { req_rptr: 1, req_wptr: 2, resp_rptr: 3, resp_wptr: 4 }
    );
}

#[test]
fn a_ring_is_full_when_its_pointers_are_its_length_apart() {
    let q = queue(0, 4);
    for rptr in 0..8u32 {
        for wptr in 0..8u32 {
            let held = (wptr + 8 - rptr) % 8;
            assert_eq!(q.request_full(rptr, wptr), held == 4, "{rptr} {wptr}");
            // For a length that is a power of two: the pointers differ in
            // the lap bit alone.
            assert_eq!(q.request_full(rptr, wptr), rptr ^ wptr == 4);
        }
    }
    let q = queue(0, 3);
    assert!(q.request_full(0, 3));
    assert!(q.request_full(5, 2));
    assert!(!q.request_full(0, 2));
    assert!(!q.request_full(1, 1));
}

#[test]
fn one_exchange_step_by_step() {
    let q = queue(0x2000, 2);
    let base = 0x2000 + 2 * 4 * (8 + 2 * 2 * 8);
    let request = [0xaa, 1, 2, 3, 4, 5, 6, 7];
    let mut ex = q.send_message(2, request);
    assert_eq!(ex.phase, ExchangePhase::Start);
    assert_eq!(ex.step(0, false), QueueStep::Read32 { addr: base });
    // The write pointer stands at 3: the second entry, on the second lap.
    assert_eq!(ex.step(3, false), QueueStep::StartTimer);
    assert_eq!(ex.step(0, false), QueueStep::Read32 { addr: base + 16 });
    // The read pointer stands at 1: the ring is full. Look again.
    assert_eq!(ex.step(1, false), QueueStep::Read32 { addr: base + 16 });
    // Now at 2: there is room.
    let entry = base + 4 * (8 + 8);
    assert_eq!(ex.step(2, false), QueueStep::Write32 { addr: entry, value: 0xaa });
    for i in 1..8u64 {
        assert_eq!(
            ex.step(0, false),
            QueueStep::Write32 { addr: entry + 4 * i, value: i as u32 }
        );
    }
    assert_eq!(ex.step(0, false), QueueStep::Write32 { addr: base, value: 0 });
    assert_eq!(ex.step(0, false), QueueStep::TriggerInt);
    assert_eq!(ex.step(0, false), QueueStep::Read32 { addr: base + 4 });
    assert_eq!(ex.step(1, false), QueueStep::StartTimer);
    assert_eq!(ex.step(0, false), QueueStep::Read32 { addr: base + 20 });
    // Nothing there yet.
    assert_eq!(ex.step(1, false), QueueStep::Read32 { addr: base + 20 });
    let answer = base + 4 * (8 + (2 + 1) * 8);
    assert_eq!(ex.step(2, false), QueueStep::Read32 { addr: answer });
    for i in 1..8u64 {
        assert_eq!(
            ex.step(100 + i as u32 - 1, false),
            QueueStep::Read32 { addr: answer + 4 * i }
        );
    }
    assert_eq!(ex.step(107, false), QueueStep::Write32 { addr: base + 4, value: 2 });
    assert_eq!(ex.step(0, false), QueueStep::Finished(Ok(())));
    assert!(ex.is_finished());
    assert_eq!(ex.words, [100, 101, 102, 103, 104, 105, 106, 107]);
}

#[test]
fn arc_ring_wrap_around() {
    let size = 4;
    let k = 3;
    let q = queue(0x8000, size);
    let mut firmware = FakeFirmware::new(q, 2);
    // The pointers do not start at zero.
    firmware.set_word(0, 6);
    firmware.set_word(4, 6);
    firmware.set_word(1, 3);
    firmware.set_word(5, 3);
    let count = 2 * size + k;
    for n in 0..count {
        let request = [0x1000 + n, n, n + 1, n + 2, n + 3, n + 4, n + 5, n + 6];
        let mut ex = q.send_message(2, request);
        let response = firmware.run(&mut ex, 10).unwrap();
        assert_eq!(response, [0, n + 1, n + 2, n + 3, n + 4, n + 5, n + 6, n + 7]);
    }
    assert_eq!(firmware.seen, (0..count).map(|n| 0x1000 + n).collect::<Vec<_>>());
    assert_eq!(firmware.word(0), (6 + count) % (2 * size));
    assert_eq!(firmware.word(4), (6 + count) % (2 * size));
    assert_eq!(firmware.word(1), (3 + count) % (2 * size));
    assert_eq!(firmware.word(5), (3 + count) % (2 * size));
}

#[test]
fn requests_wait_in_order_while_the_firmware_sleeps() {
    let size = 4;
    let q = queue(0x8000, size);
    let mut firmware = FakeFirmware::new(q, 0);
    firmware.awake = false;
    // Four requests go in, none is answered.
    for n in 0..size {
        let mut ex = q.send_message(0, [n; 8]);
        assert_eq!(
            firmware.run(&mut ex, 5),
            Err(MessageError::Timeout { phase: Phase::Pop })
        );
    }
    assert_eq!(firmware.word(0), 4);
    // The ring is full: the fifth does not go in, and nothing is written.
    let before = firmware.memory.clone();
    let mut ex = q.send_message(0, [99; 8]);
    assert_eq!(
        firmware.run(&mut ex, 5),
        Err(MessageError::Timeout { phase: Phase::Push })
    );
    assert_eq!(firmware.memory, before);
    // Awake again, the firmware finds the four in the order they came in.
    firmware.awake = true;
    firmware.interrupt();
    assert_eq!(firmware.seen, vec![0, 1, 2, 3]);
}

#[test]
fn a_channel_that_is_not_there() {
    let q = queue(0x8000, 4);
    let mut ex = q.send_message(5, [0; 8]);
    assert_eq!(
        ex.step(0, false),
        QueueStep::Finished(Err(MessageError::QueueIndexOutOfRange { index: 5, queue_count: 4 }))
    );
    assert!(ex.is_finished());
    // Four channels are numbered 0 to 3: there is no channel 4 either, and
    // the last one there is is channel 3.
    let mut ex = q.send_message(4, [0; 8]);
    assert_eq!(
        ex.step(0, false),
        QueueStep::Finished(Err(MessageError::QueueIndexOutOfRange { index: 4, queue_count: 4 }))
    );
    assert!(ex.is_finished());
    let mut ex = q.send_message(3, [0; 8]);
    assert_eq!(ex.step(0, false), QueueStep::Read32 { addr: 0x8000 + 3 * 288 });
    assert!(!ex.is_finished());
    let none = MessageQueue::<8> { queue_count: 0, ..q };
    let mut ex = none.send_message(0, [0; 8]);
    assert_eq!(
        ex.step(0, false),
        QueueStep::Finished(Err(MessageError::QueueIndexOutOfRange { index: 0, queue_count: 0 }))
    );
}

#[test]
fn what_the_firmware_says_of_itself() {
    assert_eq!(BOOT_STATUS_REG, 0x80030408);
    assert_eq!(QUEUE_INFO_REG, 0x8003042c);
    assert_eq!(FW_INT_REG, 0x80030100);
    assert_eq!(arc_fw_init_status(0b000), ArcFwInitStatus::NotStarted);
    assert_eq!(arc_fw_init_status(0b011), ArcFwInitStatus::Started);
    assert_eq!(arc_fw_init_status(0b100), ArcFwInitStatus::Done);
    assert_eq!(arc_fw_init_status(0xffff_ffff), ArcFwInitStatus::Error);
    assert_eq!(ArcFwInitStatus::from(2), ArcFwInitStatus::Done);
    assert_eq!(ArcFwInitStatus::from(9), ArcFwInitStatus::Unknown(9));
    assert!(!ArcFwInitStatus::NotStarted.ready());
    assert!(!ArcFwInitStatus::Started.ready());
    assert!(ArcFwInitStatus::Done.ready());
    assert!(ArcFwInitStatus::Error.ready());
    assert!(!ArcFwInitStatus::Unknown(7).ready());
    assert!(check_arc_msg_safe(0x0000_0001));
    assert!(check_arc_msg_safe(0xffff_ffff));
    assert!(!check_arc_msg_safe(0xffff_fffe));
    assert_eq!(Phase::Push.name(), "push");
    assert_eq!(Phase::Pop.name(), "pop");

    let q = describe_queue(0x1234_5678, 0xdead_0310);
    assert_eq!(q.queue_base, 0x1234_5678);
    assert_eq!(q.queue_size, 0x10);
    assert_eq!(q.queue_count, 3);
    assert_eq!(q.header_size, 8);
    assert_eq!(q.entry_size, 8);
    assert_eq!(q.fw_int, Field { addr: 0x80030100, size: 4, bits: Some((16, 19)) });
}

#[test]
fn requests_and_responses() {
    assert_eq!(build_request(0x52, None), [0x52, 0, 0, 0, 0, 0, 0, 0]);
    assert_eq!(
        build_request(0x90, Some([1, 2, 3, 4, 5, 6, 7])),
        [0x90, 1, 2, 3, 4, 5, 6, 7]
    );
    assert_eq!(
        decode_response(0x90, &[0x0042_0000, 1, 2, 3, 4, 5, 6, 7]),
        Ok((0, 0x42, [1, 2, 3, 4, 5, 6, 7]))
    );
    assert_eq!(
        decode_response(0x90, &[0xffff_12ef, 9, 0, 0, 0, 0, 0, 0]),
        Ok((239, 0xffff, [9, 0, 0, 0, 0, 0, 0]))
    );
    assert_eq!(
        decode_response(0x90, &[0xff, 0, 0, 0, 0, 0, 0, 0]),
        Err(MessageError::ProtocolError(ProtocolErrorType::MsgNotRecognized(0x90)))
    );
    assert_eq!(
        decode_response(0x90, &[240, 0, 0, 0, 0, 0, 0, 0]),
        Err(MessageError::ProtocolError(ProtocolErrorType::UnknownErrorCode(240)))
    );
    assert_eq!(
        decode_response(0x90, &[0x1234_00fe, 0, 0, 0, 0, 0, 0, 0]),
        Err(MessageError::ProtocolError(ProtocolErrorType::UnknownErrorCode(254)))
    );
}

#[test]
fn the_interrupt_is_raised_unless_it_is_pending() {
    let q = queue(0, 4);
    // Bit 16 of the register is the lowest bit of the field.
    assert_eq!(q.trigger_int(vec![0, 0, 0x01, 0]), None);
    assert_eq!(q.trigger_int(vec![0xff, 0xff, 0x0f, 0xff]), None);
    assert_eq!(q.trigger_int(vec![0xff, 0xff, 0xf0, 0xff]), Some(vec![0x01, 0xff, 0, 0]));
    assert_eq!(q.trigger_int(vec![0, 0, 0x06, 0]), Some(vec![0x07, 0, 0, 0]));
}

#[test]
fn scratch_messages_and_their_codes() {
    let table: Vec<(ArcMsg, u16, (u16, u16))> = vec![
        (ArcMsg::Nop, 0xaa11, (0, 0)),
        (ArcMsg::Test { arg: 0x1234_5678 }, 0xaa90, (0x5678, 0x1234)),
        (ArcMsg::ArcGoToSleep, 0xaa55, (0, 0)),
        (ArcMsg::SetPowerState(PowerState::Busy), 0xaa52, (0, 0)),
        (ArcMsg::SetPowerState(PowerState::ShortIdle), 0xaa53, (0, 0)),
        (ArcMsg::SetPowerState(PowerState::LongIdle), 0xaa54, (0, 0)),
        (ArcMsg::FwVersion(FwType::ArcL2), 0xaab9, (0, 0)),
        (ArcMsg::FwVersion(FwType::FwBundle), 0xaab9, (1, 0)),
        (ArcMsg::FwVersion(FwType::FwBundleSPI), 0xaab9, (2, 0)),
        (ArcMsg::GetSmbusTelemetryAddr, 0xaa2c, (0, 0)),
        (ArcMsg::SetArcState { state: ArcState::A0 }, 0xaaa0, (0, 0)),
        (ArcMsg::SetArcState { state: ArcState::A1 }, 0xaaa1, (0, 0)),
        (ArcMsg::SetArcState { state: ArcState::A3 }, 0xaaa3, (0, 0)),
        (ArcMsg::SetArcState { state: ArcState::A5 }, 0xaaa5, (0, 0)),
        (ArcMsg::ResetSafeClks { arg: 1 }, 0xaabb, (1, 0)),
        (ArcMsg::ToggleTensixReset { arg: 0x8000_0000 }, 0xaaaf, (0, 0x8000)),
        (ArcMsg::DeassertRiscVReset, 0xaaba, (0, 0)),
        (ArcMsg::GetAiclk, 0xaa34, (0, 0)),
        (ArcMsg::TriggerReset, 0xaa56, (0, 0)),
        (ArcMsg::GetHarvesting, 0xaa57, (0, 0)),
        (ArcMsg::TriggerSpiCopyLtoR, 0xaa50, (0, 0)),
        (ArcMsg::GetSpiDumpAddr, 0xaa29, (0, 0)),
        (ArcMsg::SpiRead { addr: 0x0001_0002 }, 0xaa2a, (2, 1)),
        (ArcMsg::SpiWrite, 0xaa2b, (0xffff, 0xffff)),
        (ArcMsg::Raw { msg_code: 0x77, arg0: 5, arg1: 6 }, 0xaa77, (5, 6)),
        (ArcMsg::Raw { msg_code: 0x1234, arg0: 0, arg1: 0 }, 0xba34, (0, 0)),
    ];
    for (msg, code, args) in &table {
        assert_eq!(msg.msg_code(), *code, "{msg:?}");
        assert_eq!(msg.args(), *args, "{msg:?}");
    }
}

#[test]
fn scratch_messages_from_their_values() {
    assert_eq!(ArcMsg::from_values(0x11, 7, 7), ArcMsg::Nop);
    assert_eq!(ArcMsg::from_values(0x34, 0, 0), ArcMsg::GetAiclk);
    assert_eq!(ArcMsg::from_values(0x56, 0, 0), ArcMsg::TriggerReset);
    assert_eq!(ArcMsg::from_values(0xbb, 2, 1), ArcMsg::ResetSafeClks { arg: 0x0001_0002 });
    assert_eq!(ArcMsg::from_values(0xaf, 0, 0x8000), ArcMsg::ToggleTensixReset { arg: 0x8000_0000 });
    assert_eq!(ArcMsg::from_values(0xba, 0, 0), ArcMsg::DeassertRiscVReset);
    assert_eq!(ArcMsg::from_values(0x50, 0, 0), ArcMsg::TriggerSpiCopyLtoR);
    assert_eq!(ArcMsg::from_values(0x52, 0, 0), ArcMsg::SetPowerState(PowerState::Busy));
    assert_eq!(ArcMsg::from_values(0x53, 0, 0), ArcMsg::SetPowerState(PowerState::ShortIdle));
    assert_eq!(ArcMsg::from_values(0x54, 0, 0), ArcMsg::SetPowerState(PowerState::LongIdle));
    assert_eq!(ArcMsg::from_values(0x57, 0, 0), ArcMsg::GetHarvesting);
    assert_eq!(ArcMsg::from_values(0x90, 0x5678, 0x1234), ArcMsg::Test { arg: 0x1234_5678 });
    assert_eq!(ArcMsg::from_values(0xa0, 0, 0), ArcMsg::SetArcState { state: ArcState::A0 });
    assert_eq!(ArcMsg::from_values(0xa1, 0, 0), ArcMsg::SetArcState { state: ArcState::A1 });
    assert_eq!(ArcMsg::from_values(0xa3, 0, 0), ArcMsg::SetArcState { state: ArcState::A3 });
    assert_eq!(ArcMsg::from_values(0xa5, 0, 0), ArcMsg::SetArcState { state: ArcState::A5 });
    assert_eq!(ArcMsg::from_values(0xb9, 0, 0), ArcMsg::FwVersion(FwType::ArcL2));
    assert_eq!(ArcMsg::from_values(0xb9, 1, 0), ArcMsg::FwVersion(FwType::FwBundle));
    assert_eq!(ArcMsg::from_values(0xb9, 2, 0), ArcMsg::FwVersion(FwType::FwBundleSPI));
    // Codes without a request of their own stay as they are.
    assert_eq!(
        ArcMsg::from_values(0x2a, 2, 1),
        ArcMsg::Raw { msg_code: 0x2a, arg0: 2, arg1: 1 }
    );
    assert_eq!(
        ArcMsg::from_values(0xaa90, 0, 0),
        ArcMsg::Raw { msg_code: 0xaa90, arg0: 0, arg1: 0 }
    );
}

#[test]
fn rings_that_can_be_used() {
    assert!(queue(0x1000, 4).usable());
    assert!(queue(0, 1).usable());
    assert!(!queue(0x1000, 0).usable());
    assert!(!MessageQueue::<8> { header_size: 5, ..queue(0, 4) }.usable());
    assert!(MessageQueue::<8> { header_size: 6, ..queue(0, 4) }.usable());
    assert!(!MessageQueue::<8> { entry_size: 4, ..queue(0, 4) }.usable());
    assert!(!MessageQueue::<8> { entry_size: 7, ..queue(0, 4) }.usable());
    assert!(MessageQueue::<8> { entry_size: 12, ..queue(0, 4) }.usable());
    assert!(!queue(0, 0x0400_0000).usable());
    assert!(queue(0, 0x0100_0000).usable());
    assert!(!queue(u64::MAX - 1000, 4).usable());
    assert!(describe_queue(0, 0x0310).usable());
    assert!(!describe_queue(0, 0x0300).usable());
}

/// Runs a whole call against the firmware, whose memory holds the boot
/// status and the description of the rings.
fn run_call(
    firmware: &mut FakeFirmware,
    msg_id: u32,
    data: Option<[u32; 7]>,
) -> Result<(u8, u16, [u32; 7]), MessageError> {
    let mut call = send_arc_msg(msg_id, data);
    assert_eq!(call.phase, ArcCallPhase::Start);
    let mut value = 0;
    let mut polls = 0;
    loop {
        match call.step(value, polls > 10) {
            QueueStep::StartTimer => polls = 0,
            QueueStep::Read32 { addr } => {
                polls += 1;
                value = firmware.memory.get(&addr).copied().unwrap_or(0);
            }
            QueueStep::Write32 { addr, value } => {
                firmware.memory.insert(addr, value);
            }
            QueueStep::TriggerInt => firmware.interrupt(),
            QueueStep::Finished(result) => {
                assert!(call.is_finished());
                return result.map(|()| call.response.unwrap());
            }
        }
    }
}

fn firmware_with_rings(sizing: u32) -> FakeFirmware {
    let queue = describe_queue(0x4000, sizing);
    let mut firmware = FakeFirmware::new(queue, 2);
    firmware.memory.insert(BOOT_STATUS_REG, 0b101);
    firmware.memory.insert(QUEUE_INFO_REG, 0x3000);
    firmware.memory.insert(0x3000, 0x4000);
    firmware.memory.insert(0x3004, sizing);
    firmware
}

#[test]
fn a_whole_call_to_the_firmware() {
    let mut firmware = firmware_with_rings(0x0404);
    // The firmware answers with status 0 and each word plus one.
    assert_eq!(
        run_call(&mut firmware, 0x90, Some([1, 2, 3, 4, 5, 6, 7])),
        Ok((0, 0, [2, 3, 4, 5, 6, 7, 8]))
    );
    assert_eq!(run_call(&mut firmware, 0x52, None), Ok((0, 0, [1; 7])));
    assert_eq!(firmware.seen, vec![0x90, 0x52]);
    // The messages went through channel 2.
    assert_eq!(firmware.word(0), 2);
    assert_eq!(firmware.word(1), 2);
}

#[test]
fn a_call_that_the_firmware_does_not_take() {
    let mut firmware = firmware_with_rings(0x0404);
    firmware.memory.insert(BOOT_STATUS_REG, 0b100);
    let before = firmware.memory.clone();
    assert_eq!(run_call(&mut firmware, 0x90, None), Err(MessageError::NotSafe));
    assert_eq!(firmware.memory, before);

    let mut firmware = firmware_with_rings(0x0400);
    assert_eq!(run_call(&mut firmware, 0x90, None), Err(MessageError::NoQueue));

    // The host's channel is the third: with three channels it is there,
    // with two it is not, and nothing is written.
    let mut firmware = firmware_with_rings(0x0304);
    assert!(run_call(&mut firmware, 0x90, None).is_ok());
    let mut firmware = firmware_with_rings(0x0204);
    let before = firmware.memory.clone();
    assert_eq!(
        run_call(&mut firmware, 0x90, None),
        Err(MessageError::QueueIndexOutOfRange { index: 2, queue_count: 2 })
    );
    assert_eq!(firmware.memory, before);
    let mut firmware = firmware_with_rings(0x0104);
    assert_eq!(
        run_call(&mut firmware, 0x90, None),
        Err(MessageError::QueueIndexOutOfRange { index: 2, queue_count: 1 })
    );

    let mut firmware = firmware_with_rings(0x0404);
    firmware.awake = false;
    assert_eq!(
        run_call(&mut firmware, 0x90, None),
        Err(MessageError::Timeout { phase: Phase::Pop })
    );

    // The firmware answers, but with an error.
    let mut firmware = firmware_with_rings(0x0404);
    firmware.status = 0xff;
    assert_eq!(
        run_call(&mut firmware, 0x90, None),
        Err(MessageError::ProtocolError(ProtocolErrorType::MsgNotRecognized(0x90)))
    );
    firmware.status = 0x0003_00f1;
    assert_eq!(
        run_call(&mut firmware, 0x91, None),
        Err(MessageError::ProtocolError(ProtocolErrorType::UnknownErrorCode(0xf1)))
    );
    firmware.status = 0x0003_00ef;
    assert_eq!(run_call(&mut firmware, 0x92, None), Ok((0xef, 3, [1; 7])));
}

#[test]
fn entries_wider_than_a_message() {
    // Entries of twelve words that hold messages of eight: an entry starts
    // every twelve words, and a channel is as long as its entries.
    let q = MessageQueue::<8> { entry_size: 12, ..queue(0x1000, 4) };
    assert!(q.usable());
    let channel: u64 = 2 * 4 * 12 * 4 + 8 * 4;
    assert_eq!(q.get_base(0), 0x1000);
    assert_eq!(q.get_base(1), 0x1000 + channel);
    assert_eq!(q.request_entry(0), 8);
    assert_eq!(q.request_entry(1), 8 + 12);
    assert_eq!(q.request_entry(3), 8 + 3 * 12);
    assert_eq!(q.request_entry(4), 8);
    assert_eq!(q.response_entry(0), 8 + 4 * 12);
    assert_eq!(q.response_entry(6), 8 + (4 + 2) * 12);

    // The second request of an exchange goes to the second entry, and only
    // its eight words are written.
    let mut ex = q.send_message(1, [10, 11, 12, 13, 14, 15, 16, 17]);
    assert_eq!(ex.step(0, false), QueueStep::Read32 { addr: 0x1000 + channel });
    assert_eq!(ex.step(1, false), QueueStep::StartTimer);
    assert_eq!(ex.step(0, false), QueueStep::Read32 { addr: 0x1000 + channel + 16 });
    let entry: u64 = 0x1000 + channel + 4 * (8 + 12);
    for word in 0..8u64 {
        assert_eq!(
            ex.step(0, false),
            QueueStep::Write32 { addr: entry + 4 * word, value: 10 + word as u32 }
        );
    }
    assert_eq!(ex.step(0, false), QueueStep::Write32 { addr: 0x1000 + channel, value: 2 });
}
