use screen_tune::display::persist::{backup_file_name, decode_baseline, encode_baseline, BackupError};
use screen_tune::display::GAMMA_RAMP_LEN;

fn sample_ramp() -> Vec<u16> {
    (0..GAMMA_RAMP_LEN).map(|i| ((i * 37) % 65535) as u16).collect()
}

#[test]
fn backup_bytes_roundtrip() {
    let mut ramp = sample_ramp();
    let bytes = encode_baseline(r"\\.\DISPLAY1", &ramp);
    assert_eq!(bytes.len(), 4 + 4 + 2 + 12 + GAMMA_RAMP_LEN * 2);
    assert_eq!(&bytes[0..4], b"STGR");
    assert_eq!(&bytes[4..8], &1u32.to_le_bytes());
    assert_eq!(&bytes[8..10], &12u16.to_le_bytes());
    assert_eq!(decode_baseline(&bytes, r"\\.\DISPLAY1").unwrap(), ramp);

    // Read for another monitor: refused.
    assert_eq!(
        decode_baseline(&bytes, r"\\.\DISPLAY2"),
        Err(BackupError::OtherMonitor(r"\\.\DISPLAY1".to_string()))
    );

    // Overwrite and read again.
    ramp[0] = 12345;
    let bytes2 = encode_baseline(r"\\.\DISPLAY1", &ramp);
    assert_eq!(decode_baseline(&bytes2, r"\\.\DISPLAY1").unwrap(), ramp);
}

#[test]
fn garbage_backup_is_refused() {
    assert_eq!(decode_baseline(b"garbage", "AAAA"), Err(BackupError::TooShort));
    assert_eq!(decode_baseline(b"garbage-garbage", "AAAA"), Err(BackupError::BadMagic));
}

#[test]
fn header_faults_in_order() {
    let ramp = sample_ramp();
    let good = encode_baseline("mon", &ramp);

    let mut v2 = good.clone();
    v2[4] = 2;
    assert_eq!(decode_baseline(&v2, "mon"), Err(BackupError::UnsupportedVersion(2)));

    let short = &good[..good.len() - 1];
    assert_eq!(decode_baseline(short, "mon"), Err(BackupError::Truncated));

    let mut bad_utf8 = good.clone();
    bad_utf8[10] = 0xff;
    assert_eq!(decode_baseline(&bad_utf8, "mon"), Err(BackupError::InvalidId));

    // One spare byte after the ramp is tolerated; two mean a damaged file.
    let mut one_more = good.clone();
    one_more.push(7);
    assert_eq!(decode_baseline(&one_more, "mon").unwrap(), ramp);
    let mut two_more = one_more.clone();
    two_more.push(7);
    assert_eq!(decode_baseline(&two_more, "mon"), Err(BackupError::ExtraBytes));
    assert_eq!(decode_baseline(&good, "mon").unwrap(), ramp);
}

#[test]
fn backup_names_are_hex() {
    assert_eq!(backup_file_name("AAAA"), "41414141.bin");
    assert_eq!(backup_file_name(r"\\.\DISPLAY1"), "5c5c2e5c444953504c415931.bin");
    assert_eq!(backup_file_name(""), ".bin");
}
