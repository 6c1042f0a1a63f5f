//! Two decisions of the display manager: which parameters go into the gamma
//! ramp of a monitor whose brightness is set over DDC/CI, and when a DDC/CI
//! write is needed.

use vstd::prelude::*;
use crate::common::{DisplayParams, BRIGHTNESS_DEFAULT_BITS};

verus! {

/// The parameters that go into the gamma ramp: on a monitor whose
/// brightness is set over DDC/CI the ramp leaves brightness alone (the
/// default), elsewhere the ramp carries everything.
pub fn ramp_params(params: DisplayParams, supports_ddc: bool) -> (r: DisplayParams)
    ensures
        supports_ddc ==> r == (DisplayParams { brightness_bits: BRIGHTNESS_DEFAULT_BITS, ..params }),
        !supports_ddc ==> r == params,
{
    if supports_ddc {
        DisplayParams { brightness_bits: BRIGHTNESS_DEFAULT_BITS, ..params }
    } else {
        params
    }
}

/// Whether a DDC/CI brightness write is needed: not when the target equals
/// the brightness the monitor had at start-up.
pub fn ddc_write_needed(baseline: Option<u32>, target: u32) -> (r: bool)
    ensures
        r == match baseline {
            Some(b) => b != target,
            None => true,
        },
{
    match baseline {
        Some(b) => b != target,
        None => true,
    }
}

} // verus!
