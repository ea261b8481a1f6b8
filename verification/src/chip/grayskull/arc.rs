//! Messages to the firmware controller through its scratch registers.
//!
//! A message is a code and two 16-bit arguments. The host writes the
//! arguments, then the code, raises the firmware's interrupt and watches the
//! code register until the firmware has put its answer there.

use vstd::prelude::*;

verus! {

#[derive(Debug, Clone, Copy, PartialEq, Eq, Structural)]
pub enum PowerState {
    Busy,
    ShortIdle,
    LongIdle,
}

#[derive(Debug, Clone, Copy, PartialEq, Eq, Structural)]
pub enum ArcState {
    A0,
    A1,
    A3,
    A5,
}

#[derive(Debug, Clone, Copy, PartialEq, Eq, Structural)]
pub enum FwType {
    ArcL2,
    FwBundle,
    FwBundleSPI,
}

/// A request to the firmware controller.
#[derive(Debug, Clone, Copy, PartialEq, Eq, Structural)]
pub enum ArcMsg {
    Nop,
    Test { arg: u32 },
    ArcGoToSleep,
    SetPowerState(PowerState),
    FwVersion(FwType),
    GetSmbusTelemetryAddr,
    SetArcState { state: ArcState },
    ResetSafeClks { arg: u32 },
    ToggleTensixReset { arg: u32 },
    DeassertRiscVReset,
    GetAiclk,
    TriggerReset,
    GetHarvesting,
    TriggerSpiCopyLtoR,
    GetSpiDumpAddr,
    SpiRead { addr: u32 },
    SpiWrite,
    Raw { msg_code: u16, arg0: u16, arg1: u16 },
}

/// The low half of a 32-bit argument.
pub open spec fn low_half(arg: u32) -> u16 {
    (arg & 0xFFFF) as u16
}

/// The high half of a 32-bit argument.
pub open spec fn high_half(arg: u32) -> u16 {
    ((arg >> 16) & 0xFFFF) as u16
}

/// The 32-bit argument whose halves are `arg0` (low) and `arg1` (high).
pub open spec fn join_halves(arg0: u16, arg1: u16) -> u32 {
    ((arg1 as u32) << 16) | (arg0 as u32)
}

/// The messages that `ArcMsg::from_values` can tell: every code but that
/// of a firmware version request for a firmware that does not exist.
pub open spec fn known_values(msg: u16, arg0: u16, arg1: u16) -> bool {
    msg == 0xB9 ==> join_halves(arg0, arg1) <= 2
}

impl ArcMsg {
    /// The code that names the request, without the marker in its high byte.
    pub open spec fn short_code(&self) -> u16 {
        match self {
            ArcMsg::Nop => 0x11,
            ArcMsg::ArcGoToSleep => 0x55,
            ArcMsg::Test { .. } => 0x90,
            ArcMsg::GetSmbusTelemetryAddr => 0x2C,
            ArcMsg::TriggerSpiCopyLtoR => 0x50,
            ArcMsg::SetPowerState(state) => match state {
                PowerState::Busy => 0x52,
                PowerState::ShortIdle => 0x53,
                PowerState::LongIdle => 0x54,
            },
            ArcMsg::TriggerReset => 0x56,
            ArcMsg::GetHarvesting => 0x57,
            ArcMsg::DeassertRiscVReset => 0xba,
            ArcMsg::ResetSafeClks { .. } => 0xbb,
            ArcMsg::ToggleTensixReset { .. } => 0xaf,
            ArcMsg::GetAiclk => 0x34,
            ArcMsg::SetArcState { state } => match state {
                ArcState::A0 => 0xA0,
                ArcState::A1 => 0xA1,
                ArcState::A3 => 0xA3,
                ArcState::A5 => 0xA5,
            },
            ArcMsg::FwVersion(_) => 0xb9,
            ArcMsg::GetSpiDumpAddr => 0x29,
            ArcMsg::SpiRead { .. } => 0x2A,
            ArcMsg::SpiWrite => 0x2B,
            ArcMsg::Raw { msg_code, .. } => *msg_code,
        }
    }

    /// The word that goes into the message register: the code under the
    /// marker `0xaa00`.
    pub open spec fn msg_code_spec(&self) -> u16 {
        0xaa00 | self.short_code()
    }

    #[verifier::when_used_as_spec(msg_code_spec)]
    pub fn msg_code(&self) -> (r: u16)
        ensures
            r == self.msg_code_spec(),
    {
        let short_code: u16 = match self {
            ArcMsg::Nop => 0x11,
            ArcMsg::ArcGoToSleep => 0x55,
            ArcMsg::Test { .. } => 0x90,
            ArcMsg::GetSmbusTelemetryAddr => 0x2C,
            ArcMsg::TriggerSpiCopyLtoR => 0x50,
            ArcMsg::SetPowerState(state) => match state {
                PowerState::Busy => 0x52,
                PowerState::ShortIdle => 0x53,
                PowerState::LongIdle => 0x54,
            },
            ArcMsg::TriggerReset => 0x56,
            ArcMsg::GetHarvesting => 0x57,
            ArcMsg::DeassertRiscVReset => 0xba,
            ArcMsg::ResetSafeClks { .. } => 0xbb,
            ArcMsg::ToggleTensixReset { .. } => 0xaf,
            ArcMsg::GetAiclk => 0x34,
            ArcMsg::SetArcState { state } => match state {
                ArcState::A0 => 0xA0,
                ArcState::A1 => 0xA1,
                ArcState::A3 => 0xA3,
                ArcState::A5 => 0xA5,
            },
            ArcMsg::FwVersion(_) => 0xb9,
            ArcMsg::GetSpiDumpAddr => 0x29,
            ArcMsg::SpiRead { .. } => 0x2A,
            ArcMsg::SpiWrite => 0x2B,
            ArcMsg::Raw { msg_code, .. } => *msg_code,
        };
        0xaa00 | short_code
    }

    /// The two arguments that go with the request.
    pub open spec fn args_spec(&self) -> (u16, u16) {
        match self {
            ArcMsg::Raw { arg0, arg1, .. } => (*arg0, *arg1),
            ArcMsg::Test { arg } => (low_half(*arg), high_half(*arg)),
            ArcMsg::ResetSafeClks { arg } => (low_half(*arg), high_half(*arg)),
            ArcMsg::ToggleTensixReset { arg } => (low_half(*arg), high_half(*arg)),
            ArcMsg::SpiRead { addr } => (low_half(*addr), high_half(*addr)),
            ArcMsg::SpiWrite => (0xFFFF, 0xFFFF),
            ArcMsg::FwVersion(ty) => match ty {
                FwType::ArcL2 => (0, 0),
                FwType::FwBundle => (1, 0),
                FwType::FwBundleSPI => (2, 0),
            },
            _ => (0, 0),
        }
    }

    #[verifier::when_used_as_spec(args_spec)]
    pub fn args(&self) -> (r: (u16, u16))
        ensures
            r == self.args_spec(),
    {
        match self {
            ArcMsg::Raw { arg0, arg1, .. } => (*arg0, *arg1),
            ArcMsg::Test { arg }
            | ArcMsg::ResetSafeClks { arg }
            | ArcMsg::ToggleTensixReset { arg }
            | ArcMsg::SpiRead { addr: arg } => {
                let arg: u32 = *arg;
                proof {
                    assert(arg & 0xFFFF < 0x10000 && (arg >> 16) & 0xFFFF < 0x10000)
                        by (bit_vector);
                }
                ((arg & 0xFFFF) as u16, ((arg >> 16) & 0xFFFF) as u16)
            },
            ArcMsg::SpiWrite => (0xFFFF, 0xFFFF),
            ArcMsg::Nop
            | ArcMsg::ArcGoToSleep
            | ArcMsg::GetSmbusTelemetryAddr
            | ArcMsg::SetPowerState(_)
            | ArcMsg::DeassertRiscVReset
            | ArcMsg::GetAiclk
            | ArcMsg::TriggerReset
            | ArcMsg::GetHarvesting
            | ArcMsg::GetSpiDumpAddr
            | ArcMsg::TriggerSpiCopyLtoR
            | ArcMsg::SetArcState { .. } => (0, 0),
            ArcMsg::FwVersion(ty) => match ty {
                FwType::ArcL2 => (0, 0),
                FwType::FwBundle => (1, 0),
                FwType::FwBundleSPI => (2, 0),
            },
        }
    }

    /// The request that a code and two arguments stand for. A code that
    /// names no request of its own gives `Raw`.
    pub open spec fn from_values_spec(msg: u16, arg0: u16, arg1: u16) -> ArcMsg {
        let arg = join_halves(arg0, arg1);
        if msg == 0x11 {
            ArcMsg::Nop
        } else if msg == 0x34 {
            ArcMsg::GetAiclk
        } else if msg == 0x56 {
            ArcMsg::TriggerReset
        } else if msg == 0xbb {
            ArcMsg::ResetSafeClks { arg }
        } else if msg == 0xaf {
            ArcMsg::ToggleTensixReset { arg }
        } else if msg == 0xba {
            ArcMsg::DeassertRiscVReset
        } else if msg == 0x50 {
            ArcMsg::TriggerSpiCopyLtoR
        } else if msg == 0x52 {
            ArcMsg::SetPowerState(PowerState::Busy)
        } else if msg == 0x53 {
            ArcMsg::SetPowerState(PowerState::ShortIdle)
        } else if msg == 0x54 {
            ArcMsg::SetPowerState(PowerState::LongIdle)
        } else if msg == 0x57 {
            ArcMsg::GetHarvesting
        } else if msg == 0x90 {
            ArcMsg::Test { arg }
        } else if msg == 0xA0 {
            ArcMsg::SetArcState { state: ArcState::A0 }
        } else if msg == 0xA1 {
            ArcMsg::SetArcState { state: ArcState::A1 }
        } else if msg == 0xA3 {
            ArcMsg::SetArcState { state: ArcState::A3 }
        } else if msg == 0xA5 {
            ArcMsg::SetArcState { state: ArcState::A5 }
        } else if msg == 0xB9 {
            ArcMsg::FwVersion(
                if arg == 0 {
                    FwType::ArcL2
                } else if arg == 1 {
                    FwType::FwBundle
                } else {
                    FwType::FwBundleSPI
                },
            )
        } else {
            ArcMsg::Raw { msg_code: msg, arg0, arg1 }
        }
    }

    pub fn from_values(msg: u16, arg0: u16, arg1: u16) -> (r: Self)
        requires
            known_values(msg, arg0, arg1),
        ensures
            r == Self::from_values_spec(msg, arg0, arg1),
            r.short_code() == msg,
    {
        let arg = ((arg1 as u32) << 16) | arg0 as u32;
        match msg {
            0x11 => ArcMsg::Nop,
            0x34 => ArcMsg::GetAiclk,
            0x56 => ArcMsg::TriggerReset,
            0xbb => ArcMsg::ResetSafeClks { arg },
            0xaf => ArcMsg::ToggleTensixReset { arg },
            0xba => ArcMsg::DeassertRiscVReset,
            0x50 => ArcMsg::TriggerSpiCopyLtoR,
            0x52 => ArcMsg::SetPowerState(PowerState::Busy),
            0x53 => ArcMsg::SetPowerState(PowerState::ShortIdle),
            0x54 => ArcMsg::SetPowerState(PowerState::LongIdle),
            0x57 => ArcMsg::GetHarvesting,
            0x90 => ArcMsg::Test { arg },
            0xA0 => ArcMsg::SetArcState { state: ArcState::A0 },
            0xA1 => ArcMsg::SetArcState { state: ArcState::A1 },
            0xA3 => ArcMsg::SetArcState { state: ArcState::A3 },
            0xA5 => ArcMsg::SetArcState { state: ArcState::A5 },
            0xB9 => ArcMsg::FwVersion(
                if arg == 0 {
                    FwType::ArcL2
                } else if arg == 1 {
                    FwType::FwBundle
                } else {
                    FwType::FwBundleSPI
                },
            ),
            value => ArcMsg::Raw { msg_code: value, arg0, arg1 },
        }
    }
}

/// A 32-bit argument cut in halves and joined again is itself, so the
/// requests that carry one survive the trip through code and arguments.
pub proof fn lemma_halves_round_trip(arg: u32)
    ensures
        join_halves(low_half(arg), high_half(arg)) == arg,
        ArcMsg::from_values_spec(0x90, low_half(arg), high_half(arg)) == (ArcMsg::Test { arg }),
        ArcMsg::from_values_spec(0xbb, low_half(arg), high_half(arg)) == (ArcMsg::ResetSafeClks {
            arg,
        }),
        ArcMsg::from_values_spec(0xaf, low_half(arg), high_half(arg)) == (
        ArcMsg::ToggleTensixReset { arg }),
{
    let lo = low_half(arg);
    let hi = high_half(arg);
    assert(((hi as u32) << 16) | (lo as u32) == arg) by (bit_vector)
        requires
            lo == (arg & 0xFFFF) as u16,
            hi == ((arg >> 16) & 0xFFFF) as u16,
    ;
}

/// Why the firmware controller did not answer a message as asked.
#[derive(Debug, Clone, Copy, PartialEq, Eq, Structural)]
pub enum ArcMsgProtocolError {
    /// The firmware does not know the code.
    MsgNotRecognized(u16),
    /// No answer came within the time allowed, given in milliseconds.
    Timeout(u64),
    ArcAsleep,
    FwIntFailed,
    InvalidMailbox(usize),
    UnknownErrorCode(u8),
}

/// The firmware's answer to a message.
#[derive(Debug, Clone, Copy, PartialEq, Eq, Structural)]
pub enum ArcMsgOk {
    Answered { rc: u32, arg: u32 },
    OkNoWait,
}

impl ArcMsgOk {
    pub open spec fn arg_spec(&self) -> u32 {
        match self {
            ArcMsgOk::Answered { arg, .. } => *arg,
            ArcMsgOk::OkNoWait => 0,
        }
    }

    /// The word the firmware returned; 0 where none was waited for.
    #[verifier::when_used_as_spec(arg_spec)]
    pub fn arg(&self) -> (r: u32)
        ensures
            r == self.arg_spec(),
    {
        match self {
            ArcMsgOk::Answered { arg, .. } => *arg,
            ArcMsgOk::OkNoWait => 0,
        }
    }

    pub open spec fn rc_spec(&self) -> u32 {
        match self {
            ArcMsgOk::Answered { rc, .. } => *rc,
            ArcMsgOk::OkNoWait => 0,
        }
    }

    /// The firmware's return code; 0 where none was waited for.
    #[verifier::when_used_as_spec(rc_spec)]
    pub fn rc(&self) -> (r: u32)
        ensures
            r == self.rc_spec(),
    {
        match self {
            ArcMsgOk::Answered { rc, .. } => *rc,
            ArcMsgOk::OkNoWait => 0,
        }
    }
}

/// Where the registers of the message protocol stand.
#[derive(Clone, Copy, Debug, PartialEq, Eq, Structural)]
pub struct ArcMsgAddr {
    pub scratch_base: u32,
    pub arc_misc_cntl: u32,
}

/// The answer that says the firmware did not know the code.
pub const MSG_ERROR_REPLY: u32 = 0xffffffff;

/// The bit of the control register that raises the firmware's interrupt.
pub const FW_INT_BIT: u32 = 1 << 16;

/// How far a message has come.
#[derive(Debug, Clone, Copy, PartialEq, Eq, Structural)]
pub enum ArcMsgPhase {
    /// Nothing done yet.
    Start,
    /// The message register is being read, to see whether the firmware sleeps.
    AwaitCurrentCode,
    /// The arguments are in the return register.
    ArgStored,
    /// The code is in the message register.
    CodeStored,
    /// The control register is being read.
    AwaitMisc,
    /// The interrupt is raised.
    IntRaised,
    /// The message register is being read for the firmware's answer.
    AwaitStatus,
    /// The host has slept between two looks at the message register.
    Slept,
    /// The answer was there; the return register is being read.
    AwaitArg { rc: u32 },
    /// The call is over.
    Finished,
}

/// What the host is to do next for a message.
#[derive(Debug, Clone, Copy, PartialEq, Eq)]
pub enum ArcMsgStep {
    /// Read the register at `addr` and hand the word to the next step.
    Read32 { addr: u32 },
    /// Write `value` to the register at `addr`.
    Write32 { addr: u32, value: u32 },
    /// Sleep a millisecond, then tell the next step whether the time is up.
    Sleep,
    /// The call is over, with this result.
    Finished(Result<ArcMsgOk, ArcMsgProtocolError>),
}

/// One message on its way to the firmware controller.
#[derive(Debug, Clone, Copy, PartialEq, Eq, Structural)]
pub struct ArcMsgCall {
    pub code: u16,
    pub arg0: u16,
    pub arg1: u16,
    pub wait_for_done: bool,
    /// The time allowed for the answer, in milliseconds.
    pub timeout_ms: u64,
    pub msg_addr: u32,
    pub return_addr: u32,
    pub misc_addr: u32,
    pub phase: ArcMsgPhase,
}

/// Whether the word in the message register says that the firmware sleeps.
pub open spec fn says_asleep(current: u32) -> bool {
    (current & 0xFFFF) as u16 == 0xaa55
}

/// Whether the word in the message register is the firmware's answer to
/// `code`: its low half is the code without the marker.
pub open spec fn answers(status: u32, code: u16) -> bool {
    (status & 0xFFFF) as u16 == code & 0xFF
}

/// The return code in an answer: its high half.
pub open spec fn exit_code(status: u32) -> u32 {
    (status >> 16) & 0xFFFF
}

/// What a call does in each phase: the phase it goes to and what the host
/// is to do. `value` is the word that the last read gave, `timed_out`
/// whether the time allowed has passed.
pub open spec fn arc_msg_next(call: ArcMsgCall, value: u32, timed_out: bool) -> (
    ArcMsgPhase,
    ArcMsgStep,
) {
    match call.phase {
        ArcMsgPhase::Start => (
            ArcMsgPhase::AwaitCurrentCode,
            ArcMsgStep::Read32 { addr: call.msg_addr },
        ),
        ArcMsgPhase::AwaitCurrentCode => if says_asleep(value) {
            (
                ArcMsgPhase::Finished,
                ArcMsgStep::Finished(Err(ArcMsgProtocolError::ArcAsleep)),
            )
        } else {
            (
                ArcMsgPhase::ArgStored,
                ArcMsgStep::Write32 {
                    addr: call.return_addr,
                    value: (call.arg0 as u32) | ((call.arg1 as u32) << 16),
                },
            )
        },
        ArcMsgPhase::ArgStored => (
            ArcMsgPhase::CodeStored,
            ArcMsgStep::Write32 { addr: call.msg_addr, value: call.code as u32 },
        ),
        ArcMsgPhase::CodeStored => (
            ArcMsgPhase::AwaitMisc,
            ArcMsgStep::Read32 { addr: call.misc_addr },
        ),
        ArcMsgPhase::AwaitMisc => if value & FW_INT_BIT != 0 {
            (
                ArcMsgPhase::Finished,
                ArcMsgStep::Finished(Err(ArcMsgProtocolError::FwIntFailed)),
            )
        } else {
            (
                ArcMsgPhase::IntRaised,
                ArcMsgStep::Write32 { addr: call.misc_addr, value: value | FW_INT_BIT },
            )
        },
        ArcMsgPhase::IntRaised => if call.wait_for_done {
            (ArcMsgPhase::AwaitStatus, ArcMsgStep::Read32 { addr: call.msg_addr })
        } else {
            (ArcMsgPhase::Finished, ArcMsgStep::Finished(Ok(ArcMsgOk::OkNoWait)))
        },
        ArcMsgPhase::AwaitStatus => if answers(value, call.code) {
            (
                ArcMsgPhase::AwaitArg { rc: exit_code(value) },
                ArcMsgStep::Read32 { addr: call.return_addr },
            )
        } else if value == MSG_ERROR_REPLY {
            (
                ArcMsgPhase::Finished,
                ArcMsgStep::Finished(Err(ArcMsgProtocolError::MsgNotRecognized(call.code))),
            )
        } else {
            (ArcMsgPhase::Slept, ArcMsgStep::Sleep)
        },
        ArcMsgPhase::Slept => if timed_out {
            (
                ArcMsgPhase::Finished,
                ArcMsgStep::Finished(Err(ArcMsgProtocolError::Timeout(call.timeout_ms))),
            )
        } else {
            (ArcMsgPhase::AwaitStatus, ArcMsgStep::Read32 { addr: call.msg_addr })
        },
        ArcMsgPhase::AwaitArg { rc } => (
            ArcMsgPhase::Finished,
            ArcMsgStep::Finished(Ok(ArcMsgOk::Answered { rc, arg: value })),
        ),
        ArcMsgPhase::Finished => (
            ArcMsgPhase::Finished,
            ArcMsgStep::Finished(Err(ArcMsgProtocolError::ArcAsleep)),
        ),
    }
}

/// Prepares a message: the code and arguments of `msg`, and the registers
/// it goes through, counted in words from the scratch base.
pub fn arc_msg(
    msg: &ArcMsg,
    wait_for_done: bool,
    timeout_ms: u64,
    msg_reg: u32,
    return_reg: u32,
    addrs: &ArcMsgAddr,
) -> (r: ArcMsgCall)
    requires
        addrs.scratch_base + 4 * msg_reg <= u32::MAX,
        addrs.scratch_base + 4 * return_reg <= u32::MAX,
    ensures
        r == (ArcMsgCall {
            code: msg.msg_code_spec(),
            arg0: msg.args_spec().0,
            arg1: msg.args_spec().1,
            wait_for_done,
            timeout_ms,
            msg_addr: (addrs.scratch_base + 4 * msg_reg) as u32,
            return_addr: (addrs.scratch_base + 4 * return_reg) as u32,
            misc_addr: addrs.arc_misc_cntl,
            phase: ArcMsgPhase::Start,
        }),
{
    let (arg0, arg1) = msg.args();
    ArcMsgCall {
        code: msg.msg_code(),
        arg0,
        arg1,
        wait_for_done,
        timeout_ms,
        msg_addr: addrs.scratch_base + (msg_reg * 4),
        return_addr: addrs.scratch_base + (return_reg * 4),
        misc_addr: addrs.arc_misc_cntl,
        phase: ArcMsgPhase::Start,
    }
}

impl ArcMsgCall {
    /// Takes the call one step further. `value` is the word that the read
    /// asked for by the step before gave; `timed_out` says, after a sleep,
    /// whether the time allowed has passed.
    pub fn step(&mut self, value: u32, timed_out: bool) -> (r: ArcMsgStep)
        requires
            old(self).phase != ArcMsgPhase::Finished,
        ensures
            (final(self).phase, r) == arc_msg_next(*old(self), value, timed_out),
            *final(self) == (ArcMsgCall { phase: final(self).phase, ..*old(self) }),
    {
        match self.phase {
            ArcMsgPhase::Start => {
                self.phase = ArcMsgPhase::AwaitCurrentCode;
                ArcMsgStep::Read32 { addr: self.msg_addr }
            },
            ArcMsgPhase::AwaitCurrentCode => {
                proof {
                    assert(value & 0xFFFF < 0x10000) by (bit_vector);
                }
                if (value & 0xFFFF) as u16 == 0xaa55 {
                    self.phase = ArcMsgPhase::Finished;
                    ArcMsgStep::Finished(Err(ArcMsgProtocolError::ArcAsleep))
                } else {
                    self.phase = ArcMsgPhase::ArgStored;
                    ArcMsgStep::Write32 {
                        addr: self.return_addr,
                        value: (self.arg0 as u32) | ((self.arg1 as u32) << 16),
                    }
                }
            },
            ArcMsgPhase::ArgStored => {
                self.phase = ArcMsgPhase::CodeStored;
                ArcMsgStep::Write32 { addr: self.msg_addr, value: self.code as u32 }
            },
            ArcMsgPhase::CodeStored => {
                self.phase = ArcMsgPhase::AwaitMisc;
                ArcMsgStep::Read32 { addr: self.misc_addr }
            },
            ArcMsgPhase::AwaitMisc => {
                if value & FW_INT_BIT != 0 {
                    self.phase = ArcMsgPhase::Finished;
                    ArcMsgStep::Finished(Err(ArcMsgProtocolError::FwIntFailed))
                } else {
                    self.phase = ArcMsgPhase::IntRaised;
                    ArcMsgStep::Write32 { addr: self.misc_addr, value: value | FW_INT_BIT }
                }
            },
            ArcMsgPhase::IntRaised => {
                if self.wait_for_done {
                    self.phase = ArcMsgPhase::AwaitStatus;
                    ArcMsgStep::Read32 { addr: self.msg_addr }
                } else {
                    self.phase = ArcMsgPhase::Finished;
                    ArcMsgStep::Finished(Ok(ArcMsgOk::OkNoWait))
                }
            },
            ArcMsgPhase::AwaitStatus => {
                proof {
                    assert(value & 0xFFFF < 0x10000) by (bit_vector);
                }
                if (value & 0xFFFF) as u16 == self.code & 0xFF {
                    self.phase = ArcMsgPhase::AwaitArg { rc: (value >> 16) & 0xFFFF };
                    ArcMsgStep::Read32 { addr: self.return_addr }
                } else if value == MSG_ERROR_REPLY {
                    self.phase = ArcMsgPhase::Finished;
                    ArcMsgStep::Finished(Err(ArcMsgProtocolError::MsgNotRecognized(self.code)))
                } else {
                    self.phase = ArcMsgPhase::Slept;
                    ArcMsgStep::Sleep
                }
            },
            ArcMsgPhase::Slept => {
                if timed_out {
                    self.phase = ArcMsgPhase::Finished;
                    ArcMsgStep::Finished(Err(ArcMsgProtocolError::Timeout(self.timeout_ms)))
                } else {
                    self.phase = ArcMsgPhase::AwaitStatus;
                    ArcMsgStep::Read32 { addr: self.msg_addr }
                }
            },
            ArcMsgPhase::AwaitArg { rc } => {
                self.phase = ArcMsgPhase::Finished;
                ArcMsgStep::Finished(Ok(ArcMsgOk::Answered { rc, arg: value }))
            },
            ArcMsgPhase::Finished => ArcMsgStep::Finished(Err(ArcMsgProtocolError::ArcAsleep)),
        }
    }

    /// Whether the call is over.
    pub fn is_finished(&self) -> (r: bool)
        ensures
            r == (self.phase == ArcMsgPhase::Finished),
    {
        match self.phase {
            ArcMsgPhase::Finished => true,
            _ => false,
        }
    }
}

/// A call that is not over never stands still: each step either ends it or
/// asks the host for exactly one thing, and only a step that follows a read
/// or a sleep looks at what the host hands in.
pub proof fn lemma_arc_msg_progress(call: ArcMsgCall, value: u32, timed_out: bool)
    requires
        call.phase != ArcMsgPhase::Finished,
    ensures
        ({
            let (phase, step) = arc_msg_next(call, value, timed_out);
            (phase == ArcMsgPhase::Finished) <==> (step is Finished)
        }),
        // The code is written only after the arguments, the interrupt raised
        // only after the code.
        arc_msg_next(call, value, timed_out).1 matches ArcMsgStep::Write32 { addr, value: v }
            ==> (call.phase == ArcMsgPhase::AwaitCurrentCode && addr == call.return_addr)
            || (call.phase == ArcMsgPhase::ArgStored && addr == call.msg_addr && v == call.code)
            || (call.phase == ArcMsgPhase::AwaitMisc && addr == call.misc_addr),
        // A sleeping firmware is never written to.
        call.phase == ArcMsgPhase::AwaitCurrentCode && says_asleep(value) ==> arc_msg_next(
            call,
            value,
            timed_out,
        ).1 == ArcMsgStep::Finished(Err(ArcMsgProtocolError::ArcAsleep)),
{
}

} // verus!
