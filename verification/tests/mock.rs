use screen_tune::display::mock::{DdcValues, MockDisplays};
use screen_tune::display::GAMMA_RAMP_LEN;

fn flat(v: u16) -> [u16; GAMMA_RAMP_LEN] {
    [v; GAMMA_RAMP_LEN]
}

#[test]
fn fresh_mock_has_two_monitors() {
    let m = MockDisplays::new(flat(7));
    let list = m.monitors();
    assert_eq!(list.len(), 2);
    assert_eq!(list[0].id, "mock-0");
    assert_eq!(list[0].name, "Mock Monitor 1");
    assert!(list[0].is_primary && list[0].supports_ddc);
    assert_eq!((list[0].width, list[0].height), (1920, 1080));
    assert_eq!(list[1].id, "mock-1");
    assert_eq!(list[1].name, "Mock Monitor 2");
    assert!(!list[1].is_primary && !list[1].supports_ddc);
    assert_eq!((list[1].width, list[1].height), (2560, 1080));
    let (ramps, ddc) = m.snapshot();
    assert_eq!(ramps, vec![flat(7), flat(7)]);
    assert_eq!(ddc, vec![Some((80, 50)), None]);
    assert_eq!(m.ddc_brightness("mock-1"), None);
    assert_eq!(m.ddc_contrast("mock-1"), None);
}

#[test]
fn mock_ddc_values_are_clamped() {
    let mut m = MockDisplays::new(flat(0));
    assert!(m.set_ddc_brightness("mock-0", 250));
    assert!(m.set_ddc_contrast("mock-0", 30));
    assert!(!m.set_ddc_contrast("mock-1", 30));
    assert_eq!(m.ddc_brightness("mock-0"), Some((100, 100)));
    assert_eq!(m.ddc_contrast("mock-0"), Some((30, 100)));
    assert_eq!(m.ddc_contrast("mock-1"), None);
    assert!(!m.set_ddc_brightness("mock-9", 10));
    assert_eq!(m.ddc_brightness("mock-9"), None);
    let (_, ddc) = m.snapshot();
    assert_eq!(ddc, vec![Some((100, 30)), None]);
    let _ = DdcValues { brightness: 1, contrast: 2 };
}

#[test]
fn mock_ramps_are_kept_per_id() {
    let mut m = MockDisplays::new(flat(1));
    m.set_gamma_ramp("mock-1", flat(9));
    m.set_gamma_ramp("other", flat(5));
    assert_eq!(m.gamma_ramp("mock-1"), Some(flat(9)));
    assert_eq!(m.gamma_ramp("other"), Some(flat(5)));
    assert_eq!(m.gamma_ramp("missing"), None);
    let (ramps, _) = m.snapshot();
    assert_eq!(ramps, vec![flat(1), flat(9)]);
}
