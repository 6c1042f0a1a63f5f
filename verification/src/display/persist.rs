//! The backup file of a monitor's original gamma ramp.
//!
//! At start-up the original ramp of each monitor is kept on disk, and it is
//! written back at exit; a backup left over from a crash is restored at the
//! next start. The file format:
//!
//! ```text
//! 4 bytes   magic "STGR"
//! 4 bytes   version, u32 little-endian (1)
//! 2 bytes   id length N, u16 little-endian
//! N bytes   monitor id, UTF-8
//! 3072 bytes ramp: 1536 entries, u16 little-endian
//! ```
//!
//! This module builds and checks the bytes and names the file; reading and
//! writing the file is left to the caller.

use vstd::prelude::*;
use vstd::utf8::{decode_utf8, encode_utf8, valid_utf8};
use crate::display::GAMMA_RAMP_LEN;
use crate::text::{push_char, str_eq};

verus! {

/// Current version of the format.
pub const FORMAT_VERSION: u32 = 1;

/// The magic bytes "STGR".
pub open spec fn magic() -> Seq<u8> {
    seq![0x53u8, 0x54u8, 0x47u8, 0x52u8]
}

/// Little-endian bytes of a 16-bit value.
pub open spec fn le16(v: u16) -> Seq<u8> {
    seq![(v % 256) as u8, (v / 256) as u8]
}

/// Little-endian bytes of a 32-bit value.
pub open spec fn le32(v: u32) -> Seq<u8> {
    seq![(v % 256) as u8, ((v / 256) % 256) as u8, ((v / 65536) % 256) as u8, (v / 16777216) as u8]
}

/// The value of two little-endian bytes.
pub open spec fn le16_value(lo: u8, hi: u8) -> nat {
    lo as nat + 256 * hi as nat
}

/// The value of four little-endian bytes.
pub open spec fn le32_value(b0: u8, b1: u8, b2: u8, b3: u8) -> nat {
    b0 as nat + 256 * b1 as nat + 65536 * b2 as nat + 16777216 * b3 as nat
}

/// The ramp entries as little-endian byte pairs, in order.
pub open spec fn ramp_bytes(r: Seq<u16>) -> Seq<u8> {
    Seq::new(
        2 * r.len(),
        |j: int|
            if j % 2 == 0 {
                (r[j / 2] % 256) as u8
            } else {
                (r[j / 2] / 256) as u8
            },
    )
}

/// The backup file of a monitor id and ramp. The id length is stored in
/// 16 bits; a longer id has its length cut to the low 16 bits.
pub open spec fn encoded(id: Seq<char>, ramp: Seq<u16>) -> Seq<u8> {
    let idb = encode_utf8(id);
    magic() + le32(FORMAT_VERSION) + le16((idb.len() % 65536) as u16) + idb + ramp_bytes(ramp)
}

/// Why a backup file was not accepted.
#[derive(Debug, Clone, PartialEq, Eq)]
pub enum BackupError {
    /// Shorter than the fixed header.
    TooShort,
    /// The magic bytes are wrong.
    BadMagic,
    /// A version other than the current one.
    UnsupportedVersion(u32),
    /// Shorter than the header, id and ramp together.
    Truncated,
    /// Two or more bytes after the ramp.
    ExtraBytes,
    /// The id bytes are not UTF-8.
    InvalidId,
    /// The backup belongs to another monitor (whose id is given).
    OtherMonitor(String),
}

/// A reason for refusing a backup file, as a value.
pub enum BackupFault {
    TooShort,
    BadMagic,
    UnsupportedVersion(u32),
    Truncated,
    ExtraBytes,
    InvalidId,
    OtherMonitor(Seq<char>),
}

impl View for BackupError {
    type V = BackupFault;

    open spec fn view(&self) -> BackupFault {
        match self {
            BackupError::TooShort => BackupFault::TooShort,
            BackupError::BadMagic => BackupFault::BadMagic,
            BackupError::UnsupportedVersion(v) => BackupFault::UnsupportedVersion(*v),
            BackupError::Truncated => BackupFault::Truncated,
            BackupError::ExtraBytes => BackupFault::ExtraBytes,
            BackupError::InvalidId => BackupFault::InvalidId,
            BackupError::OtherMonitor(s) => BackupFault::OtherMonitor(s@),
        }
    }
}

/// The stored id length of a file at least 10 bytes long.
pub open spec fn id_len_of(b: Seq<u8>) -> int {
    le16_value(b[8], b[9]) as int
}

/// The ramp stored from position `start` on.
pub open spec fn ramp_at(b: Seq<u8>, start: int) -> Seq<u16> {
    Seq::new(GAMMA_RAMP_LEN as nat, |i: int| le16_value(b[start + 2 * i], b[start + 2 * i + 1]) as u16)
}

/// The first header check that the file fails, if any: its length, magic,
/// version, and a length of the header, the id and the ramp, with at most
/// one spare byte after them.
pub open spec fn header_fault(b: Seq<u8>) -> Option<BackupFault> {
    if b.len() < 10 {
        Some(BackupFault::TooShort)
    } else if b.subrange(0, 4) != magic() {
        Some(BackupFault::BadMagic)
    } else if le32_value(b[4], b[5], b[6], b[7]) != FORMAT_VERSION {
        Some(BackupFault::UnsupportedVersion(le32_value(b[4], b[5], b[6], b[7]) as u32))
    } else if b.len() < 10 + id_len_of(b) + 2 * GAMMA_RAMP_LEN {
        Some(BackupFault::Truncated)
    } else if b.len() >= 10 + id_len_of(b) + 2 * GAMMA_RAMP_LEN + 2 {
        Some(BackupFault::ExtraBytes)
    } else {
        None
    }
}

/// What reading the backup file `b` for the monitor `expected` gives:
/// the header checks, then the id (UTF-8, and the expected one), then the
/// ramp that follows the id.
pub open spec fn decoded(b: Seq<u8>, expected: Seq<char>) -> Result<Seq<u16>, BackupFault> {
    match header_fault(b) {
        Some(f) => Err(f),
        None => {
            let idb = b.subrange(10, 10 + id_len_of(b));
            if !valid_utf8(idb) {
                Err(BackupFault::InvalidId)
            } else if decode_utf8(idb) != expected {
                Err(BackupFault::OtherMonitor(decode_utf8(idb)))
            } else {
                Ok(ramp_at(b, 10 + id_len_of(b)))
            }
        },
    }
}

/// Appends the little-endian bytes of `v`.
fn push_u16(out: &mut Vec<u8>, v: u16)
    ensures
        final(out)@ == old(out)@ + le16(v),
{
    out.push((v % 256) as u8);
    out.push((v / 256) as u8);
    assert(final(out)@ =~= old(out)@ + le16(v));
}

/// The bytes of the backup file of a monitor id and its ramp.
pub fn encode_baseline(monitor_id: &str, ramp: &[u16]) -> (r: Vec<u8>)
    requires
        ramp@.len() == GAMMA_RAMP_LEN,
    ensures
        r@ == encoded(monitor_id@, ramp@),
{
    let mut buf: Vec<u8> = Vec::new();
    buf.push(0x53u8);
    buf.push(0x54u8);
    buf.push(0x47u8);
    buf.push(0x52u8);
    buf.push(1u8);
    buf.push(0u8);
    buf.push(0u8);
    buf.push(0u8);
    let id_bytes = monitor_id.as_bytes();
    let n = id_bytes.len();
    let len16: u16 = (n % 65536) as u16;
    push_u16(&mut buf, len16);
    let ghost header = buf@;
    assert(header =~= magic() + le32(FORMAT_VERSION) + le16(len16));
    let mut i: usize = 0;
    while i < n
        invariant
            i <= n,
            n == id_bytes@.len(),
            id_bytes@ == encode_utf8(monitor_id@),
            buf@ == header + id_bytes@.subrange(0, i as int),
        decreases n - i,
    {
        buf.push(id_bytes[i]);
        assert(buf@ =~= header + id_bytes@.subrange(0, i as int + 1));
        i = i + 1;
    }
    let ghost prefix = buf@;
    assert(prefix =~= header + id_bytes@);
    let mut k: usize = 0;
    while k < ramp.len()
        invariant
            k <= ramp@.len(),
            ramp@.len() == GAMMA_RAMP_LEN,
            buf@ == prefix + ramp_bytes(ramp@.subrange(0, k as int)),
        decreases ramp@.len() - k,
    {
        let ghost before = buf@;
        push_u16(&mut buf, ramp[k]);
        assert(buf@ =~= prefix + ramp_bytes(ramp@.subrange(0, k as int + 1))) by {
            let rb = ramp_bytes(ramp@.subrange(0, k as int + 1));
            let ra = ramp_bytes(ramp@.subrange(0, k as int));
            assert forall|j: int| 0 <= j < 2 * k implies rb[j] == ra[j] by {
                assert(j / 2 < k);
            }
            assert(rb[2 * k as int] == (ramp@[k as int] % 256) as u8);
            assert(rb[2 * k as int + 1] == (ramp@[k as int] / 256) as u8);
            assert(rb =~= ra + le16(ramp@[k as int]));
        }
        k = k + 1;
    }
    assert(ramp@.subrange(0, ramp@.len() as int) =~= ramp@);
    buf
}

/// The header checks of a backup file; on success, the id length.
fn check_header(bytes: &[u8]) -> (r: Result<usize, BackupError>)
    ensures
        match r {
            Ok(n) => header_fault(bytes@) is None && n == id_len_of(bytes@),
            Err(e) => header_fault(bytes@) == Some(e@),
        },
{
    if bytes.len() < 10 {
        return Err(BackupError::TooShort);
    }
    if !(bytes[0] == 0x53u8 && bytes[1] == 0x54u8 && bytes[2] == 0x47u8 && bytes[3] == 0x52u8) {
        assert(bytes@.subrange(0, 4) != magic()) by {
            if bytes@.subrange(0, 4) == magic() {
                assert(bytes@.subrange(0, 4)[0] == bytes@[0]);
                assert(bytes@.subrange(0, 4)[1] == bytes@[1]);
                assert(bytes@.subrange(0, 4)[2] == bytes@[2]);
                assert(bytes@.subrange(0, 4)[3] == bytes@[3]);
            }
        }
        return Err(BackupError::BadMagic);
    }
    assert(bytes@.subrange(0, 4) =~= magic());
    let version: u32 = bytes[4] as u32 + bytes[5] as u32 * 256 + bytes[6] as u32 * 65536
        + bytes[7] as u32 * 16777216;
    if version != FORMAT_VERSION {
        return Err(BackupError::UnsupportedVersion(version));
    }
    let n: usize = bytes[8] as usize + bytes[9] as usize * 256;
    if bytes.len() < 10 + n + 2 * GAMMA_RAMP_LEN {
        return Err(BackupError::Truncated);
    }
    if bytes.len() >= 10 + n + 2 * GAMMA_RAMP_LEN + 2 {
        return Err(BackupError::ExtraBytes);
    }
    Ok(n)
}

/// Calls `std::str::from_utf8`: the bytes are accepted exactly when they
/// are valid UTF-8, and the text then has these bytes as its encoding.
#[verifier::external_body]
fn utf8_text(bytes: &[u8]) -> (r: Option<&str>)
    ensures
        r is Some <==> valid_utf8(bytes@),
        r matches Some(s) ==> s@ == decode_utf8(bytes@),
{
    std::str::from_utf8(bytes).ok()
}

/// The bytes `b[from..to]`.
fn slice_range(b: &[u8], from: usize, to: usize) -> (r: &[u8])
    requires
        from <= to <= b@.len(),
    ensures
        r@ == b@.subrange(from as int, to as int),
{
    vstd::slice::slice_subrange(b, from, to)
}

/// Reads the ramp back from a backup file, checking it against the monitor
/// id it must belong to; a damaged file is refused with the reason.
pub fn decode_baseline(bytes: &[u8], expected_id: &str) -> (r: Result<Vec<u16>, BackupError>)
    ensures
        match r {
            Ok(v) => decoded(bytes@, expected_id@) == Ok::<Seq<u16>, BackupFault>(v@),
            Err(e) => decoded(bytes@, expected_id@) == Err::<Seq<u16>, BackupFault>(e@),
        },
{
    let n = match check_header(bytes) {
        Err(e) => {
            return Err(e);
        },
        Ok(n) => n,
    };
    let id = match utf8_text(slice_range(bytes, 10, 10 + n)) {
        None => {
            return Err(BackupError::InvalidId);
        },
        Some(id) => id,
    };
    if !str_eq(id, expected_id) {
        return Err(BackupError::OtherMonitor(String::from_str(id)));
    }
    let start = 10 + n;
    let len = bytes.len();
    let mut ramp: Vec<u16> = Vec::new();
    let mut i: usize = 0;
    while i < GAMMA_RAMP_LEN
        invariant
            i <= GAMMA_RAMP_LEN,
            len == bytes@.len(),
            start + 2 * GAMMA_RAMP_LEN <= bytes@.len(),
            ramp@ == ramp_at(bytes@, start as int).subrange(0, i as int),
        decreases GAMMA_RAMP_LEN - i,
    {
        assert(start + 2 * i + 1 < bytes@.len());
        let lo = bytes[start + 2 * i];
        let hi = bytes[start + 2 * i + 1];
        let v: u16 = lo as u16 + hi as u16 * 256;
        ramp.push(v);
        assert(ramp@ =~= ramp_at(bytes@, start as int).subrange(0, i as int + 1));
        i = i + 1;
    }
    assert(ramp@ =~= ramp_at(bytes@, start as int));
    Ok(ramp)
}

/// The hexadecimal digit of a value below 16 (lower case).
pub open spec fn hex_digit(d: nat) -> char {
    if d < 10 {
        (('0' as u32) + d) as char
    } else {
        (('a' as u32) + d - 10) as char
    }
}

/// Each byte as two lower-case hexadecimal digits, in order.
pub open spec fn hex_text(b: Seq<u8>) -> Seq<char> {
    Seq::new(2 * b.len(), |j: int| if j % 2 == 0 { hex_digit(b[j / 2] as nat / 16) } else { hex_digit(b[j / 2] as nat % 16) })
}

/// The digit character of a value below 16.
fn hex_char(d: u8) -> (c: char)
    requires
        d < 16,
    ensures
        c == hex_digit(d as nat),
{
    if d < 10 {
        (('0' as u8) + d) as char
    } else {
        (('a' as u8) + d - 10) as char
    }
}

/// The file name of a monitor's backup: the UTF-8 bytes of its id in
/// hexadecimal (ids such as `\\.\DISPLAY1` hold characters a file name
/// cannot), then `.bin`.
pub fn backup_file_name(monitor_id: &str) -> (r: String)
    ensures
        r@ == hex_text(encode_utf8(monitor_id@)) + seq!['.', 'b', 'i', 'n'],
{
    let bytes = monitor_id.as_bytes();
    let mut s = String::new();
    let mut i: usize = 0;
    while i < bytes.len()
        invariant
            i <= bytes@.len(),
            bytes@ == encode_utf8(monitor_id@),
            s@ == hex_text(bytes@.subrange(0, i as int)),
        decreases bytes@.len() - i,
    {
        let b = bytes[i];
        push_char(&mut s, hex_char(b / 16));
        push_char(&mut s, hex_char(b % 16));
        assert(s@ =~= hex_text(bytes@.subrange(0, i as int + 1))) by {
            let t = hex_text(bytes@.subrange(0, i as int + 1));
            let u = hex_text(bytes@.subrange(0, i as int));
            assert forall|j: int| 0 <= j < 2 * i implies t[j] == u[j] by {
                assert(j / 2 < i);
            }
        }
        i = i + 1;
    }
    assert(bytes@.subrange(0, bytes@.len() as int) =~= bytes@);
    push_char(&mut s, '.');
    push_char(&mut s, 'b');
    push_char(&mut s, 'i');
    push_char(&mut s, 'n');
    assert(s@ =~= hex_text(bytes@) + seq!['.', 'b', 'i', 'n']);
    s
}

/// Reading back the backup file of a monitor gives the ramp that was
/// written: the bytes pass every check for that monitor and hold the
/// ramp. Read for any other monitor, they are refused
/// as belonging to the monitor they were written for.
pub proof fn law_backup_roundtrip(id: Seq<char>, ramp: Seq<u16>, other: Seq<char>)
    requires
        ramp.len() == GAMMA_RAMP_LEN,
        encode_utf8(id).len() < 65536,
    ensures
        decoded(encoded(id, ramp), id) == Ok::<Seq<u16>, BackupFault>(ramp),
        other != id ==> decoded(encoded(id, ramp), other) == Err::<Seq<u16>, BackupFault>(
            BackupFault::OtherMonitor(id),
        ),
{
    let idb = encode_utf8(id);
    let l = idb.len() as int;
    let b = encoded(id, ramp);
    let head = magic() + le32(FORMAT_VERSION) + le16((l % 65536) as u16);
    assert(b == head + idb + ramp_bytes(ramp));
    assert(head.len() == 10);
    assert(b.len() == 10 + l + 2 * GAMMA_RAMP_LEN);
    assert(b.subrange(0, 4) =~= magic());
    assert(b[4] == 1 && b[5] == 0 && b[6] == 0 && b[7] == 0);
    assert(b[8] == head[8] && b[9] == head[9]);
    assert(le16_value(b[8], b[9]) == l) by {
        assert(head[8] == ((l % 65536) as u16 % 256) as u8);
        assert(head[9] == ((l % 65536) as u16 / 256) as u8);
    }
    assert(header_fault(b) is None);
    assert(b.subrange(10, 10 + l) =~= idb);
    vstd::utf8::encode_utf8_valid_utf8(id);
    vstd::utf8::encode_utf8_decode_utf8(id);
    assert(ramp_at(b, 10 + l) =~= ramp) by {
        assert forall|i: int| 0 <= i < GAMMA_RAMP_LEN implies #[trigger] ramp_at(b, 10 + l)[i] == ramp[i] by {
            let rb = ramp_bytes(ramp);
            assert(b[10 + l + 2 * i] == rb[2 * i]);
            assert(b[10 + l + 2 * i + 1] == rb[2 * i + 1]);
            assert((2 * i) / 2 == i && (2 * i) % 2 == 0);
            assert((2 * i + 1) / 2 == i && (2 * i + 1) % 2 == 1);
        }
    }
}

/// The layout of a backup file, byte by byte: "STGR", the version 1 as
/// four little-endian bytes, the id's UTF-8 length as two little-endian
/// bytes, the id's UTF-8 bytes, and then each ramp entry as two bytes, low
/// byte first.
pub proof fn law_backup_layout(id: Seq<char>, ramp: Seq<u16>)
    requires
        ramp.len() == GAMMA_RAMP_LEN,
        encode_utf8(id).len() < 65536,
    ensures
        ({
            let b = encoded(id, ramp);
            let n = encode_utf8(id).len() as int;
            &&& b.len() == 10 + n + 2 * GAMMA_RAMP_LEN
            &&& b[0] == 0x53 && b[1] == 0x54 && b[2] == 0x47 && b[3] == 0x52
            &&& b[4] == 1 && b[5] == 0 && b[6] == 0 && b[7] == 0
            &&& b[8] == n % 256 && b[9] == n / 256
            &&& b.subrange(10, 10 + n) == encode_utf8(id)
            &&& forall|i: int|
                0 <= i < GAMMA_RAMP_LEN ==> b[10 + n + 2 * i] == #[trigger] ramp[i] % 256 && b[10 + n + 2 * i + 1]
                    == ramp[i] / 256
        }),
{
    let idb = encode_utf8(id);
    let n = idb.len() as int;
    let b = encoded(id, ramp);
    let head = magic() + le32(FORMAT_VERSION) + le16((n % 65536) as u16);
    let rb = ramp_bytes(ramp);
    assert(b == head + idb + rb);
    assert(head.len() == 10);
    assert(b[8] == head[8] && b[9] == head[9]);
    assert(b.subrange(10, 10 + n) =~= idb);
    assert forall|i: int| 0 <= i < GAMMA_RAMP_LEN implies b[10 + n + 2 * i] == #[trigger] ramp[i] % 256 && b[10 + n
        + 2 * i + 1] == ramp[i] / 256 by {
        assert(b[10 + n + 2 * i] == rb[2 * i]);
        assert(b[10 + n + 2 * i + 1] == rb[2 * i + 1]);
        assert((2 * i) / 2 == i && (2 * i) % 2 == 0);
        assert((2 * i + 1) / 2 == i && (2 * i + 1) % 2 == 1);
    }
}

/// A backup file that is accepted starts with "STGR" and the version 1
/// (four bytes, low byte first), holds the expected monitor's id in UTF-8
/// after the 10 header bytes (its length in bytes 8 and 9, low byte
/// first), ends with the ramp or one spare byte after it, and gives its
/// ramp read as little-endian pairs: entry `i` is the byte at `s + 2i`
/// plus 256 times the byte after it, where `s` is where the ramp starts.
/// A file of at least 10 bytes that does not start with "STGR" is refused
/// as such.
pub proof fn law_backup_read_little_endian(b: Seq<u8>, expected: Seq<char>)
    ensures
        decoded(b, expected) matches Ok(r) ==> {
            let s = 10 + b[8] + 256 * b[9];
            &&& b[0] == 0x53 && b[1] == 0x54 && b[2] == 0x47 && b[3] == 0x52
            &&& b[4] == 1 && b[5] == 0 && b[6] == 0 && b[7] == 0
            &&& valid_utf8(b.subrange(10, s)) && decode_utf8(b.subrange(10, s)) == expected
            &&& b.len() == s + 2 * GAMMA_RAMP_LEN || b.len() == s + 2 * GAMMA_RAMP_LEN + 1
            &&& r.len() == GAMMA_RAMP_LEN
            &&& forall|i: int| 0 <= i < GAMMA_RAMP_LEN ==> #[trigger] r[i] == b[s + 2 * i] + 256 * b[s + 2 * i + 1]
        },
        b.len() >= 10 && !(b[0] == 0x53 && b[1] == 0x54 && b[2] == 0x47 && b[3] == 0x52) ==> decoded(b, expected)
            == Err::<Seq<u16>, BackupFault>(BackupFault::BadMagic),
{
    if b.len() >= 10 && !(b[0] == 0x53 && b[1] == 0x54 && b[2] == 0x47 && b[3] == 0x52) {
        assert(b.subrange(0, 4) != magic()) by {
            if b.subrange(0, 4) == magic() {
                assert(b.subrange(0, 4)[0] == b[0] && b.subrange(0, 4)[1] == b[1]);
                assert(b.subrange(0, 4)[2] == b[2] && b.subrange(0, 4)[3] == b[3]);
            }
        }
    }
    if decoded(b, expected) is Ok {
        assert(b.subrange(0, 4) == magic());
        assert(b.subrange(0, 4)[0] == b[0] && b.subrange(0, 4)[1] == b[1]);
        assert(b.subrange(0, 4)[2] == b[2] && b.subrange(0, 4)[3] == b[3]);
        assert(le32_value(b[4], b[5], b[6], b[7]) == 1);
        assert(b[4] == 1 && b[5] == 0 && b[6] == 0 && b[7] == 0) by (nonlinear_arith)
            requires
                b[4] as nat + 256 * b[5] as nat + 65536 * b[6] as nat + 16777216 * b[7] as nat == 1,
        ;
    }

    if decoded(b, expected) is Ok {
        let s = 10 + id_len_of(b);
        let r = ramp_at(b, s);
        assert forall|i: int| 0 <= i < GAMMA_RAMP_LEN implies #[trigger] r[i] == b[s + 2 * i] + 256 * b[s + 2 * i + 1] by {
            assert(b[s + 2 * i] + 256 * b[s + 2 * i + 1] < 65536) by (nonlinear_arith)
                requires b[s + 2 * i] < 256, b[s + 2 * i + 1] < 256;
        }
    }
}

/// The digit of a value below 16 gives the value back.
proof fn lemma_hex_digit_injective(a: nat, b: nat)
    requires
        a < 16,
        b < 16,
        hex_digit(a) == hex_digit(b),
    ensures
        a == b,
{
    assert(('0' as u32) == 48);
    assert(('a' as u32) == 97);
    if a < 10 {
        assert((hex_digit(a) as u32) == 48 + a);
    } else {
        assert((hex_digit(a) as u32) == 97 + a - 10);
    }
    if b < 10 {
        assert((hex_digit(b) as u32) == 48 + b);
    } else {
        assert((hex_digit(b) as u32) == 97 + b - 10);
    }
}

/// Different monitor ids have different backup file names, and a backup
/// file name holds no path separator.
pub proof fn law_backup_names_distinct(a: Seq<char>, b: Seq<char>)
    ensures
        a != b ==> hex_text(encode_utf8(a)) + seq!['.', 'b', 'i', 'n'] != hex_text(encode_utf8(b))
            + seq!['.', 'b', 'i', 'n'],
        forall|j: int|
            0 <= j < hex_text(encode_utf8(a)).len() ==> #[trigger] hex_text(encode_utf8(a))[j] != '/'
                && hex_text(encode_utf8(a))[j] != '\\',
{
    let x = encode_utf8(a);
    let y = encode_utf8(b);
    let sx = hex_text(x) + seq!['.', 'b', 'i', 'n'];
    let sy = hex_text(y) + seq!['.', 'b', 'i', 'n'];
    assert forall|j: int| 0 <= j < hex_text(x).len() implies #[trigger] hex_text(x)[j] != '/'
        && hex_text(x)[j] != '\\' by {
        let d: nat = if j % 2 == 0 { x[j / 2] as nat / 16 } else { x[j / 2] as nat % 16 };
        assert(hex_text(x)[j] == hex_digit(d));
        assert(('0' as u32) == 48);
        assert(('a' as u32) == 97);
        assert(('/' as u32) == 47);
        assert(('\\' as u32) == 92);
        if d < 10 {
            assert((hex_digit(d) as u32) == 48 + d);
        } else {
            assert((hex_digit(d) as u32) == 97 + d - 10);
        }
    }
    if a != b && sx == sy {
        assert(seq!['.', 'b', 'i', 'n'].len() == 4);
        assert(sx.len() == sy.len());
        assert(hex_text(x).len() == hex_text(y).len());
        assert(hex_text(x) =~= sx.subrange(0, hex_text(x).len() as int));
        assert(hex_text(y) =~= sy.subrange(0, hex_text(y).len() as int));
        assert forall|i: int| 0 <= i < x.len() implies x[i] == y[i] by {
            assert(hex_text(x)[2 * i] == hex_text(y)[2 * i]);
            assert(hex_text(x)[2 * i + 1] == hex_text(y)[2 * i + 1]);
            assert((2 * i) / 2 == i && (2 * i) % 2 == 0);
            assert((2 * i + 1) / 2 == i && (2 * i + 1) % 2 == 1);
            lemma_hex_digit_injective(x[i] as nat / 16, y[i] as nat / 16);
            lemma_hex_digit_injective(x[i] as nat % 16, y[i] as nat % 16);
        }
        assert(x =~= y);
        vstd::utf8::encode_utf8_decode_utf8(a);
        vstd::utf8::encode_utf8_decode_utf8(b);
    }
}

} // verus!
