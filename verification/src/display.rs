//! The display side of the library: the gamma-ramp backup format and the
//! decisions of the display manager.

pub mod devices;
pub mod manager;
pub mod mock;
pub mod persist;
pub mod plan;

use vstd::prelude::*;

verus! {

/// Length of a gamma ramp: 256 entries for each of the red, green and blue
/// channels.
pub const GAMMA_RAMP_LEN: usize = 1536;

} // verus!
