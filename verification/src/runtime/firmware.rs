//! The firmware that hands out jobs on a tile.

use crate::chip::noc::Tile;
use vstd::prelude::*;

verus! {

/// Where the firmware of a tile asks for its jobs: the tile of the job
/// server, and the address there.
#[derive(Clone, Copy, Debug, Hash, PartialEq, Eq)]
pub struct FirmwareParameters {
    pub job_server: Tile,
    pub job_server_addr: u64,
}

} // verus!
