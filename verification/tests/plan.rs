use screen_tune::common::DisplayParams;
use screen_tune::display::plan::{ddc_write_needed, ramp_params};

#[test]
fn ddc_decisions() {
    let p = DisplayParams { brightness_bits: 50.0f32.to_bits(), ..DisplayParams::default() };
    assert_eq!(f32::from_bits(ramp_params(p, true).brightness_bits), 100.0);
    assert_eq!(ramp_params(p, false), p);
    assert!(ddc_write_needed(None, 50));
    assert!(ddc_write_needed(Some(80), 50));
    assert!(!ddc_write_needed(Some(50), 50));
}
