//! The Wormhole generation.

use crate::chip::grayskull::{arc_call, arc_call_spec};
use crate::chip::noc::NocId;
use vstd::prelude::*;

pub mod noc_endpoints;

pub use crate::chip::grayskull::arc;
pub use crate::chip::grayskull::arc::ArcMsg;

verus! {

/// A Wormhole chip: which device it is, and its tiles.
#[derive(Clone, Debug)]
pub struct Wormhole {
    pub id: usize,
    pub endpoints: noc_endpoints::NocGrid,
}

/// The corners of the rectangle that a broadcast reaches: the whole grid,
/// but on the first fabric without its first column.
pub open spec fn broadcast_rect_spec(noc_id: NocId) -> ((u8, u8), (u8, u8)) {
    match noc_id {
        NocId::Noc0 => ((1, 0), (9, 11)),
        NocId::Noc1 => ((0, 0), (9, 11)),
    }
}

impl Wormhole {
    /// The chip with the given harvesting mask.
    pub fn init(id: usize, harvesting_mask: u32) -> (r: Self)
        ensures
            r.id == id,
            noc_endpoints::grid_of(harvesting_mask, r.endpoints),
    {
        Wormhole { id, endpoints: noc_endpoints::get_grid(harvesting_mask) }
    }

    /// Prepares the call that sends `msg` to the firmware controller.
    pub fn send_arc_msg(&self, msg: ArcMsg) -> (r: arc::ArcMsgCall)
        ensures
            r == arc_call_spec(msg),
    {
        arc_call(&msg)
    }

    /// Prepares the call that asks the firmware for the harvesting mask.
    pub fn get_harvesting_mask() -> (r: arc::ArcMsgCall)
        ensures
            r == arc_call_spec(ArcMsg::GetHarvesting),
    {
        arc_call(&ArcMsg::GetHarvesting)
    }

    /// The corners of the rectangle that a broadcast reaches.
    pub fn broadcast_rect(&self, noc_id: NocId) -> (r: ((u8, u8), (u8, u8)))
        ensures
            r == broadcast_rect_spec(noc_id),
    {
        match noc_id {
            NocId::Noc0 => ((1, 0), (9, 11)),
            NocId::Noc1 => ((0, 0), (9, 11)),
        }
    }
}

} // verus!
