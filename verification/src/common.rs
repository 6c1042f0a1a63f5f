//! Shared data: value ranges and defaults, monitor descriptions, and the
//! set of display parameters that monitors and profiles carry.

use vstd::prelude::*;

verus! {

/// Lowest colour temperature (Kelvin, warm).
pub const TEMPERATURE_MIN_K: u32 = 2500;

/// Highest colour temperature (Kelvin, cool).
pub const TEMPERATURE_MAX_K: u32 = 10000;

/// Default colour temperature: the D65 white point, i.e. no adjustment.
pub const TEMPERATURE_DEFAULT_K: u32 = 6500;

/// Bit pattern of the default gamma (100, the identity curve).
pub const GAMMA_DEFAULT_BITS: u32 = 0x42c8_0000;

/// Bit pattern of the default brightness (100, the original brightness).
pub const BRIGHTNESS_DEFAULT_BITS: u32 = 0x42c8_0000;

/// Bit pattern of the default contrast (100, no adjustment).
pub const CONTRAST_DEFAULT_BITS: u32 = 0x42c8_0000;

/// Bit pattern of the default saturation (100 %, no adjustment).
pub const SATURATION_DEFAULT_BITS: u32 = 0x42c8_0000;

/// A description of one monitor (no platform handle; safe to persist).
#[derive(Debug, Clone, PartialEq, Eq)]
pub struct MonitorInfo {
    /// Stable identifier (`\\.\DISPLAY1` on Windows, `mock-N` in memory).
    pub id: String,
    /// Human-readable name.
    pub name: String,
    /// Whether this is the primary monitor.
    pub is_primary: bool,
    /// Whether brightness and contrast can be written over DDC/CI.
    pub supports_ddc: bool,
    /// Width in logical pixels.
    pub width: u32,
    /// Height in logical pixels.
    pub height: u32,
}

impl MonitorInfo {
    /// A monitor description with the given fields.
    pub fn new(
        id: &str,
        name: &str,
        is_primary: bool,
        supports_ddc: bool,
        width: u32,
        height: u32,
    ) -> (r: MonitorInfo)
        ensures
            r.id@ == id@,
            r.name@ == name@,
            r.is_primary == is_primary,
            r.supports_ddc == supports_ddc,
            r.width == width,
            r.height == height,
    {
        MonitorInfo {
            id: String::from_str(id),
            name: String::from_str(name),
            is_primary,
            supports_ddc,
            width,
            height,
        }
    }
}

/// A complete set of display parameters, for a monitor or a profile.
///
/// Gamma, brightness, contrast and saturation are continuous values; they
/// are carried here as the bit patterns of their 32-bit IEEE-754 values, so
/// that every value survives unchanged. The colour curves that read them
/// are computed outside this library.
#[derive(Debug, Clone, Copy, PartialEq, Eq, Structural)]
pub struct DisplayParams {
    /// Gamma curve strength, range [50, 150], default 100.
    pub gamma_bits: u32,
    /// Brightness, range [0, 100], default 100.
    pub brightness_bits: u32,
    /// Contrast, range [50, 150], default 100.
    pub contrast_bits: u32,
    /// Saturation, range [0, 200], default 100.
    pub saturation_bits: u32,
    /// Colour temperature in Kelvin, range [2500, 10000], default 6500.
    pub temperature_k: u32,
}

/// The parameters of "no adjustment at all".
pub open spec fn default_params() -> DisplayParams {
    DisplayParams {
        gamma_bits: GAMMA_DEFAULT_BITS,
        brightness_bits: BRIGHTNESS_DEFAULT_BITS,
        contrast_bits: CONTRAST_DEFAULT_BITS,
        saturation_bits: SATURATION_DEFAULT_BITS,
        temperature_k: TEMPERATURE_DEFAULT_K,
    }
}

impl Default for DisplayParams {
    fn default() -> (r: DisplayParams)
        ensures
            r == default_params(),
    {
        DisplayParams {
            gamma_bits: GAMMA_DEFAULT_BITS,
            brightness_bits: BRIGHTNESS_DEFAULT_BITS,
            contrast_bits: CONTRAST_DEFAULT_BITS,
            saturation_bits: SATURATION_DEFAULT_BITS,
            temperature_k: TEMPERATURE_DEFAULT_K,
        }
    }
}

/// The colour temperature brought into its range.
pub open spec fn clamp_temperature_spec(k: u32) -> u32 {
    if k < TEMPERATURE_MIN_K {
        TEMPERATURE_MIN_K
    } else if k > TEMPERATURE_MAX_K {
        TEMPERATURE_MAX_K
    } else {
        k
    }
}

/// Brings a colour temperature into [2500, 10000] K.
pub fn clamp_temperature(k: u32) -> (r: u32)
    ensures
        r == clamp_temperature_spec(k),
{
    if k < TEMPERATURE_MIN_K {
        TEMPERATURE_MIN_K
    } else if k > TEMPERATURE_MAX_K {
        TEMPERATURE_MAX_K
    } else {
        k
    }
}

} // verus!
