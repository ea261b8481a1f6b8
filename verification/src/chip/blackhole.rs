//! The Blackhole generation.

use crate::chip::noc::NocId;
use vstd::prelude::*;

pub mod arc;
pub mod noc_endpoints;
pub mod telemetry;

use noc_endpoints::Endpoints;
use telemetry::{Telemetry, TelemetryData};

verus! {

/// The message that asks the firmware to lower the clocks.
pub const MSG_GO_IDLE: u32 = 0x54;

/// The message that asks the firmware to raise the clocks.
pub const MSG_GO_BUSY: u32 = 0x52;

/// The channel that the host's messages go through.
pub const ARC_MSG_CHANNEL: u8 = 2;

/// The time allowed for each half of an exchange, in milliseconds.
pub const ARC_MSG_TIMEOUT_MS: u64 = 500;

/// A Blackhole chip: which device it is, its tiles, and what is known of
/// its telemetry.
#[derive(Clone, Debug)]
pub struct Blackhole {
    pub id: usize,
    pub endpoints: Endpoints,
    pub telemetry: Telemetry,
    pub telemetry_cache: Option<TelemetryData>,
}

impl Blackhole {
    /// The chip whose telemetry table has the directory `telemetry` and
    /// gave the reading `data`.
    pub fn init(id: usize, telemetry: Telemetry, data: TelemetryData) -> (r: Self)
        requires
            noc_endpoints::telemetry_in_range(data@),
        ensures
            r.id == id,
            r.telemetry == telemetry,
            r.telemetry_cache == Some(data),
            noc_endpoints::endpoints_of(data@, r.endpoints),
    {
        let endpoints = Endpoints::new(&data);
        Blackhole { id, endpoints, telemetry, telemetry_cache: Some(data) }
    }

    /// The reading of the telemetry that the chip was made from.
    pub fn get_telemetry_unchanged(&self) -> (r: Option<&TelemetryData>)
        ensures
            match r {
                Some(t) => self.telemetry_cache == Some(*t),
                None => self.telemetry_cache is None,
            },
    {
        self.telemetry_cache.as_ref()
    }

    /// The request that carries message `msg_id` to the firmware.
    pub fn send_arc_msg(&self, msg_id: u32, data: Option<[u32; 7]>) -> (r: [u32; 8])
        ensures
            r[0] == msg_id,
            forall|i: int|
                1 <= i < 8 ==> r[i] == match data {
                    Some(d) => d[i - 1],
                    None => 0,
                },
    {
        arc::build_request(msg_id, data)
    }

    /// The corners of the rectangle that a broadcast reaches.
    pub fn broadcast_rect(&self, noc_id: NocId) -> (r: ((u8, u8), (u8, u8)))
        ensures
            r == self.endpoints.tensix_broadcast[noc_id.index_spec()],
    {
        self.endpoints.tensix_broadcast[noc_id.index() as usize]
    }
}

} // verus!
