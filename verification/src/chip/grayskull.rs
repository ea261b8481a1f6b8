//! The Grayskull generation.

use crate::chip::noc::NocId;
use vstd::prelude::*;

pub mod arc;
pub mod noc_endpoints;

pub use arc::ArcMsg;

verus! {

/// Where the scratch registers of the firmware controller start.
pub const ARC_SCRATCH_BASE: u32 = 0x1ff30060;

/// The control register that raises the firmware's interrupt.
pub const ARC_MISC_CNTL: u32 = 0x1ff30100;

/// The scratch register that takes the message code.
pub const ARC_MSG_REG: u32 = 5;

/// The scratch register that takes the arguments and gives the answer.
pub const ARC_RETURN_REG: u32 = 3;

/// The time allowed for the firmware's answer, in milliseconds.
pub const ARC_MSG_TIMEOUT_MS: u64 = 1000;

/// The call that sends `msg` to the firmware controller and waits for the
/// answer.
pub open spec fn arc_call_spec(msg: ArcMsg) -> arc::ArcMsgCall {
    arc::ArcMsgCall {
        code: msg.msg_code_spec(),
        arg0: msg.args_spec().0,
        arg1: msg.args_spec().1,
        wait_for_done: true,
        timeout_ms: ARC_MSG_TIMEOUT_MS,
        msg_addr: (ARC_SCRATCH_BASE + 4 * ARC_MSG_REG) as u32,
        return_addr: (ARC_SCRATCH_BASE + 4 * ARC_RETURN_REG) as u32,
        misc_addr: ARC_MISC_CNTL,
        phase: arc::ArcMsgPhase::Start,
    }
}

/// Prepares the call that sends `msg` to the firmware controller.
pub fn arc_call(msg: &ArcMsg) -> (r: arc::ArcMsgCall)
    ensures
        r == arc_call_spec(*msg),
{
    arc::arc_msg(
        msg,
        true,
        ARC_MSG_TIMEOUT_MS,
        ARC_MSG_REG,
        ARC_RETURN_REG,
        &arc::ArcMsgAddr { scratch_base: ARC_SCRATCH_BASE, arc_misc_cntl: ARC_MISC_CNTL },
    )
}

/// A Grayskull chip: which device it is, and its tiles.
#[derive(Clone, Debug)]
pub struct Grayskull {
    pub id: usize,
    pub endpoints: noc_endpoints::NocGrid,
}

/// The corners of the rectangle that a broadcast reaches.
pub open spec fn broadcast_rect_spec(noc_id: NocId) -> ((u8, u8), (u8, u8)) {
    ((0, 0), (12, 11))
}

impl Grayskull {
    /// The chip with the given harvesting mask.
    pub fn init(id: usize, harvesting_mask: u32) -> (r: Self)
        requires
            harvesting_mask & 0x7fff_f800 == 0,
        ensures
            r.id == id,
            noc_endpoints::grid_of(harvesting_mask, r.endpoints),
    {
        Grayskull { id, endpoints: noc_endpoints::get_grid(harvesting_mask) }
    }

    /// Prepares the call that sends `msg` to the firmware controller.
    pub fn send_arc_msg(&self, msg: ArcMsg) -> (r: arc::ArcMsgCall)
        ensures
            r == arc_call_spec(msg),
    {
        arc_call(&msg)
    }

    /// Prepares the call that asks the firmware for the harvesting mask.
    pub fn get_harvesting_mask() -> (r: arc::ArcMsgCall)
        ensures
            r == arc_call_spec(ArcMsg::GetHarvesting),
    {
        arc_call(&ArcMsg::GetHarvesting)
    }

    /// The corners of the rectangle that a broadcast reaches.
    pub fn broadcast_rect(&self, noc_id: NocId) -> (r: ((u8, u8), (u8, u8)))
        ensures
            r == broadcast_rect_spec(noc_id),
    {
        ((0, 0), (12, 11))
    }
}

} // verus!
