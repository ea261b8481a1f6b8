//! Host-side control plane for a family of multi-core accelerator chips.
//!
//! Every decision the host makes is verified here: how tiles are addressed,
//! how the scarce address-translation windows are shared, how a transfer is
//! cut into window-sized pieces, how messages travel through the firmware's
//! ring buffers, and how a loaded image is watched until it finishes.
//! The functions take and return plain values; touching the device itself is
//! left to the caller.

pub mod bits;
pub mod bytes;
pub mod chip;
pub mod elf;
pub mod kernel;
pub mod loader;
pub mod runtime;
pub mod tensix_builder;
pub mod text;

pub use chip::{Arch, Chip};
