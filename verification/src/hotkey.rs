//! Global hotkey grammar: parsing hotkey strings such as `Ctrl+Alt+1` into
//! modifiers and a main key, and formatting them back in canonical form.

pub mod calls;
pub mod registry;

pub use registry::{HotkeyBinding, HotkeyPlatform, HotkeyRegistry, RegisterOutcome, Registration};

use vstd::prelude::*;
use vstd::string::*;
use crate::text::{
    all_ascii, all_graphic, chars_of, decimal, digit_char, digit_value, digits_value, lemma_digits_value_1, lemma_digits_value_2, is_alpha, is_digit, is_graphic,
    lower_ascii, lowercase, parse_u8, parse_u8_spec, string_of, str_eq, to_lowercase,
    to_uppercase, trim, trimmed, upper_ascii, uppercase, push_char,
};

verus! {

/// A main (non-modifier) key of a global hotkey: digits, letters and
/// function keys, named as in the keyboard `Code` table.
#[derive(Debug, Clone, Copy, PartialEq, Eq, Hash, Structural)]
pub enum KeyCode {
    Digit0,
    Digit1,
    Digit2,
    Digit3,
    Digit4,
    Digit5,
    Digit6,
    Digit7,
    Digit8,
    Digit9,
    KeyA,
    KeyB,
    KeyC,
    KeyD,
    KeyE,
    KeyF,
    KeyG,
    KeyH,
    KeyI,
    KeyJ,
    KeyK,
    KeyL,
    KeyM,
    KeyN,
    KeyO,
    KeyP,
    KeyQ,
    KeyR,
    KeyS,
    KeyT,
    KeyU,
    KeyV,
    KeyW,
    KeyX,
    KeyY,
    KeyZ,
    F1,
    F2,
    F3,
    F4,
    F5,
    F6,
    F7,
    F8,
    F9,
    F10,
    F11,
    F12,
    F13,
    F14,
    F15,
    F16,
    F17,
    F18,
    F19,
    F20,
    F21,
    F22,
    F23,
    F24,
}

/// The text of a key in a hotkey string (`1`, `A`, `F12`).
pub open spec fn key_label(k: KeyCode) -> Seq<char> {
    match k {
        KeyCode::Digit0 => seq!['0'],
        KeyCode::Digit1 => seq!['1'],
        KeyCode::Digit2 => seq!['2'],
        KeyCode::Digit3 => seq!['3'],
        KeyCode::Digit4 => seq!['4'],
        KeyCode::Digit5 => seq!['5'],
        KeyCode::Digit6 => seq!['6'],
        KeyCode::Digit7 => seq!['7'],
        KeyCode::Digit8 => seq!['8'],
        KeyCode::Digit9 => seq!['9'],
        KeyCode::KeyA => seq!['A'],
        KeyCode::KeyB => seq!['B'],
        KeyCode::KeyC => seq!['C'],
        KeyCode::KeyD => seq!['D'],
        KeyCode::KeyE => seq!['E'],
        KeyCode::KeyF => seq!['F'],
        KeyCode::KeyG => seq!['G'],
        KeyCode::KeyH => seq!['H'],
        KeyCode::KeyI => seq!['I'],
        KeyCode::KeyJ => seq!['J'],
        KeyCode::KeyK => seq!['K'],
        KeyCode::KeyL => seq!['L'],
        KeyCode::KeyM => seq!['M'],
        KeyCode::KeyN => seq!['N'],
        KeyCode::KeyO => seq!['O'],
        KeyCode::KeyP => seq!['P'],
        KeyCode::KeyQ => seq!['Q'],
        KeyCode::KeyR => seq!['R'],
        KeyCode::KeyS => seq!['S'],
        KeyCode::KeyT => seq!['T'],
        KeyCode::KeyU => seq!['U'],
        KeyCode::KeyV => seq!['V'],
        KeyCode::KeyW => seq!['W'],
        KeyCode::KeyX => seq!['X'],
        KeyCode::KeyY => seq!['Y'],
        KeyCode::KeyZ => seq!['Z'],
        KeyCode::F1 => seq!['F', '1'],
        KeyCode::F2 => seq!['F', '2'],
        KeyCode::F3 => seq!['F', '3'],
        KeyCode::F4 => seq!['F', '4'],
        KeyCode::F5 => seq!['F', '5'],
        KeyCode::F6 => seq!['F', '6'],
        KeyCode::F7 => seq!['F', '7'],
        KeyCode::F8 => seq!['F', '8'],
        KeyCode::F9 => seq!['F', '9'],
        KeyCode::F10 => seq!['F', '1', '0'],
        KeyCode::F11 => seq!['F', '1', '1'],
        KeyCode::F12 => seq!['F', '1', '2'],
        KeyCode::F13 => seq!['F', '1', '3'],
        KeyCode::F14 => seq!['F', '1', '4'],
        KeyCode::F15 => seq!['F', '1', '5'],
        KeyCode::F16 => seq!['F', '1', '6'],
        KeyCode::F17 => seq!['F', '1', '7'],
        KeyCode::F18 => seq!['F', '1', '8'],
        KeyCode::F19 => seq!['F', '1', '9'],
        KeyCode::F20 => seq!['F', '2', '0'],
        KeyCode::F21 => seq!['F', '2', '1'],
        KeyCode::F22 => seq!['F', '2', '2'],
        KeyCode::F23 => seq!['F', '2', '3'],
        KeyCode::F24 => seq!['F', '2', '4'],
    }
}

/// The key of a digit value; values above 9 give `Digit9`.
pub open spec fn num_key_spec(d: nat) -> KeyCode {
    if d == 0 {
        KeyCode::Digit0
    } else if d == 1 {
        KeyCode::Digit1
    } else if d == 2 {
        KeyCode::Digit2
    } else if d == 3 {
        KeyCode::Digit3
    } else if d == 4 {
        KeyCode::Digit4
    } else if d == 5 {
        KeyCode::Digit5
    } else if d == 6 {
        KeyCode::Digit6
    } else if d == 7 {
        KeyCode::Digit7
    } else if d == 8 {
        KeyCode::Digit8
    } else {
        KeyCode::Digit9
    }
}

/// The key of an upper-case letter; any other character gives `KeyZ`.
pub open spec fn letter_key_spec(c: char) -> KeyCode {
    if c == 'A' {
        KeyCode::KeyA
    } else if c == 'B' {
        KeyCode::KeyB
    } else if c == 'C' {
        KeyCode::KeyC
    } else if c == 'D' {
        KeyCode::KeyD
    } else if c == 'E' {
        KeyCode::KeyE
    } else if c == 'F' {
        KeyCode::KeyF
    } else if c == 'G' {
        KeyCode::KeyG
    } else if c == 'H' {
        KeyCode::KeyH
    } else if c == 'I' {
        KeyCode::KeyI
    } else if c == 'J' {
        KeyCode::KeyJ
    } else if c == 'K' {
        KeyCode::KeyK
    } else if c == 'L' {
        KeyCode::KeyL
    } else if c == 'M' {
        KeyCode::KeyM
    } else if c == 'N' {
        KeyCode::KeyN
    } else if c == 'O' {
        KeyCode::KeyO
    } else if c == 'P' {
        KeyCode::KeyP
    } else if c == 'Q' {
        KeyCode::KeyQ
    } else if c == 'R' {
        KeyCode::KeyR
    } else if c == 'S' {
        KeyCode::KeyS
    } else if c == 'T' {
        KeyCode::KeyT
    } else if c == 'U' {
        KeyCode::KeyU
    } else if c == 'V' {
        KeyCode::KeyV
    } else if c == 'W' {
        KeyCode::KeyW
    } else if c == 'X' {
        KeyCode::KeyX
    } else if c == 'Y' {
        KeyCode::KeyY
    } else {
        KeyCode::KeyZ
    }
}

/// The function key of a number; numbers outside 1..=23 give `F24`.
pub open spec fn f_key_spec(n: nat) -> KeyCode {
    if n == 1 {
        KeyCode::F1
    } else if n == 2 {
        KeyCode::F2
    } else if n == 3 {
        KeyCode::F3
    } else if n == 4 {
        KeyCode::F4
    } else if n == 5 {
        KeyCode::F5
    } else if n == 6 {
        KeyCode::F6
    } else if n == 7 {
        KeyCode::F7
    } else if n == 8 {
        KeyCode::F8
    } else if n == 9 {
        KeyCode::F9
    } else if n == 10 {
        KeyCode::F10
    } else if n == 11 {
        KeyCode::F11
    } else if n == 12 {
        KeyCode::F12
    } else if n == 13 {
        KeyCode::F13
    } else if n == 14 {
        KeyCode::F14
    } else if n == 15 {
        KeyCode::F15
    } else if n == 16 {
        KeyCode::F16
    } else if n == 17 {
        KeyCode::F17
    } else if n == 18 {
        KeyCode::F18
    } else if n == 19 {
        KeyCode::F19
    } else if n == 20 {
        KeyCode::F20
    } else if n == 21 {
        KeyCode::F21
    } else if n == 22 {
        KeyCode::F22
    } else if n == 23 {
        KeyCode::F23
    } else {
        KeyCode::F24
    }
}

/// Digit value → key code.
fn num_key(d: u8) -> (k: KeyCode)
    ensures
        k == num_key_spec(d as nat),
{
    match d {
        0 => KeyCode::Digit0,
        1 => KeyCode::Digit1,
        2 => KeyCode::Digit2,
        3 => KeyCode::Digit3,
        4 => KeyCode::Digit4,
        5 => KeyCode::Digit5,
        6 => KeyCode::Digit6,
        7 => KeyCode::Digit7,
        8 => KeyCode::Digit8,
        _ => KeyCode::Digit9,
    }
}

/// Upper-case letter → key code.
fn letter_key(c: char) -> (k: KeyCode)
    ensures
        k == letter_key_spec(c),
{
    match c {
        'A' => KeyCode::KeyA,
        'B' => KeyCode::KeyB,
        'C' => KeyCode::KeyC,
        'D' => KeyCode::KeyD,
        'E' => KeyCode::KeyE,
        'F' => KeyCode::KeyF,
        'G' => KeyCode::KeyG,
        'H' => KeyCode::KeyH,
        'I' => KeyCode::KeyI,
        'J' => KeyCode::KeyJ,
        'K' => KeyCode::KeyK,
        'L' => KeyCode::KeyL,
        'M' => KeyCode::KeyM,
        'N' => KeyCode::KeyN,
        'O' => KeyCode::KeyO,
        'P' => KeyCode::KeyP,
        'Q' => KeyCode::KeyQ,
        'R' => KeyCode::KeyR,
        'S' => KeyCode::KeyS,
        'T' => KeyCode::KeyT,
        'U' => KeyCode::KeyU,
        'V' => KeyCode::KeyV,
        'W' => KeyCode::KeyW,
        'X' => KeyCode::KeyX,
        'Y' => KeyCode::KeyY,
        _ => KeyCode::KeyZ,
    }
}

/// Function key number → key code.
fn f_key(n: u8) -> (k: KeyCode)
    ensures
        k == f_key_spec(n as nat),
{
    match n {
        1 => KeyCode::F1,
        2 => KeyCode::F2,
        3 => KeyCode::F3,
        4 => KeyCode::F4,
        5 => KeyCode::F5,
        6 => KeyCode::F6,
        7 => KeyCode::F7,
        8 => KeyCode::F8,
        9 => KeyCode::F9,
        10 => KeyCode::F10,
        11 => KeyCode::F11,
        12 => KeyCode::F12,
        13 => KeyCode::F13,
        14 => KeyCode::F14,
        15 => KeyCode::F15,
        16 => KeyCode::F16,
        17 => KeyCode::F17,
        18 => KeyCode::F18,
        19 => KeyCode::F19,
        20 => KeyCode::F20,
        21 => KeyCode::F21,
        22 => KeyCode::F22,
        23 => KeyCode::F23,
        _ => KeyCode::F24,
    }
}

/// Key code → its text in a hotkey string (the inverse of `parse_code`).
fn format_code(code: KeyCode) -> (r: String)
    ensures
        r@ == key_label(code),
{
    let cs: Vec<char> = match code {
        KeyCode::Digit0 => vec!['0'],
        KeyCode::Digit1 => vec!['1'],
        KeyCode::Digit2 => vec!['2'],
        KeyCode::Digit3 => vec!['3'],
        KeyCode::Digit4 => vec!['4'],
        KeyCode::Digit5 => vec!['5'],
        KeyCode::Digit6 => vec!['6'],
        KeyCode::Digit7 => vec!['7'],
        KeyCode::Digit8 => vec!['8'],
        KeyCode::Digit9 => vec!['9'],
        KeyCode::KeyA => vec!['A'],
        KeyCode::KeyB => vec!['B'],
        KeyCode::KeyC => vec!['C'],
        KeyCode::KeyD => vec!['D'],
        KeyCode::KeyE => vec!['E'],
        KeyCode::KeyF => vec!['F'],
        KeyCode::KeyG => vec!['G'],
        KeyCode::KeyH => vec!['H'],
        KeyCode::KeyI => vec!['I'],
        KeyCode::KeyJ => vec!['J'],
        KeyCode::KeyK => vec!['K'],
        KeyCode::KeyL => vec!['L'],
        KeyCode::KeyM => vec!['M'],
        KeyCode::KeyN => vec!['N'],
        KeyCode::KeyO => vec!['O'],
        KeyCode::KeyP => vec!['P'],
        KeyCode::KeyQ => vec!['Q'],
        KeyCode::KeyR => vec!['R'],
        KeyCode::KeyS => vec!['S'],
        KeyCode::KeyT => vec!['T'],
        KeyCode::KeyU => vec!['U'],
        KeyCode::KeyV => vec!['V'],
        KeyCode::KeyW => vec!['W'],
        KeyCode::KeyX => vec!['X'],
        KeyCode::KeyY => vec!['Y'],
        KeyCode::KeyZ => vec!['Z'],
        KeyCode::F1 => vec!['F', '1'],
        KeyCode::F2 => vec!['F', '2'],
        KeyCode::F3 => vec!['F', '3'],
        KeyCode::F4 => vec!['F', '4'],
        KeyCode::F5 => vec!['F', '5'],
        KeyCode::F6 => vec!['F', '6'],
        KeyCode::F7 => vec!['F', '7'],
        KeyCode::F8 => vec!['F', '8'],
        KeyCode::F9 => vec!['F', '9'],
        KeyCode::F10 => vec!['F', '1', '0'],
        KeyCode::F11 => vec!['F', '1', '1'],
        KeyCode::F12 => vec!['F', '1', '2'],
        KeyCode::F13 => vec!['F', '1', '3'],
        KeyCode::F14 => vec!['F', '1', '4'],
        KeyCode::F15 => vec!['F', '1', '5'],
        KeyCode::F16 => vec!['F', '1', '6'],
        KeyCode::F17 => vec!['F', '1', '7'],
        KeyCode::F18 => vec!['F', '1', '8'],
        KeyCode::F19 => vec!['F', '1', '9'],
        KeyCode::F20 => vec!['F', '2', '0'],
        KeyCode::F21 => vec!['F', '2', '1'],
        KeyCode::F22 => vec!['F', '2', '2'],
        KeyCode::F23 => vec!['F', '2', '3'],
        KeyCode::F24 => vec!['F', '2', '4'],
    };
    string_of(cs.as_slice())
}

/// A modifier key of a global hotkey.
#[derive(Debug, Clone, Copy, PartialEq, Eq, Hash, Structural)]
pub enum Modifier {
    /// Ctrl (the Command bit on macOS)
    Ctrl,
    /// Alt
    Alt,
    /// Shift
    Shift,
    /// Win / Super / Meta
    Win,
}

/// The text of a modifier in a hotkey string.
pub open spec fn modifier_name(m: Modifier) -> Seq<char> {
    match m {
        Modifier::Ctrl => seq!['C', 't', 'r', 'l'],
        Modifier::Alt => seq!['A', 'l', 't'],
        Modifier::Shift => seq!['S', 'h', 'i', 'f', 't'],
        Modifier::Win => seq!['W', 'i', 'n'],
    }
}

/// Which modifier a lower-cased word names, if any.
pub open spec fn modifier_from_lower_spec(s: Seq<char>) -> Option<Modifier> {
    if s == seq!['c', 't', 'r', 'l'] || s == seq!['c', 'o', 'n', 't', 'r', 'o', 'l'] {
        Some(Modifier::Ctrl)
    } else if s == seq!['a', 'l', 't'] || s == seq!['o', 'p', 't', 'i', 'o', 'n'] {
        Some(Modifier::Alt)
    } else if s == seq!['s', 'h', 'i', 'f', 't'] {
        Some(Modifier::Shift)
    } else if s == seq!['w', 'i', 'n'] || s == seq!['m', 'e', 't', 'a'] || s == seq![
        's',
        'u',
        'p',
        'e',
        'r',
    ] || s == seq!['c', 'm', 'd'] || s == seq!['c', 'o', 'm', 'm', 'a', 'n', 'd'] {
        Some(Modifier::Win)
    } else {
        None
    }
}

impl Modifier {
    /// The modifier's text in a hotkey string (such as `Ctrl`).
    pub fn name(self) -> (r: &'static str)
        ensures
            r@ == modifier_name(self),
    {
        proof {
            reveal_strlit("Ctrl");
            reveal_strlit("Alt");
            reveal_strlit("Shift");
            reveal_strlit("Win");
            assert("Ctrl"@ =~= seq!['C', 't', 'r', 'l']);
            assert("Alt"@ =~= seq!['A', 'l', 't']);
            assert("Shift"@ =~= seq!['S', 'h', 'i', 'f', 't']);
            assert("Win"@ =~= seq!['W', 'i', 'n']);
        }
        match self {
            Modifier::Ctrl => "Ctrl",
            Modifier::Alt => "Alt",
            Modifier::Shift => "Shift",
            Modifier::Win => "Win",
        }
    }
}

/// Which modifier an already lower-cased word names (`ctrl`, `control`,
/// `alt`, `option`, `shift`, `win`, `meta`, `super`, `cmd`, `command`).
pub fn modifier_from_lower(s: &str) -> (r: Option<Modifier>)
    ensures
        r == modifier_from_lower_spec(s@),
{
    proof {
        reveal_strlit("ctrl");
        reveal_strlit("control");
        reveal_strlit("alt");
        reveal_strlit("option");
        reveal_strlit("shift");
        reveal_strlit("win");
        reveal_strlit("meta");
        reveal_strlit("super");
        reveal_strlit("cmd");
        reveal_strlit("command");
        assert("ctrl"@ =~= seq!['c', 't', 'r', 'l']);
        assert("control"@ =~= seq!['c', 'o', 'n', 't', 'r', 'o', 'l']);
        assert("alt"@ =~= seq!['a', 'l', 't']);
        assert("option"@ =~= seq!['o', 'p', 't', 'i', 'o', 'n']);
        assert("shift"@ =~= seq!['s', 'h', 'i', 'f', 't']);
        assert("win"@ =~= seq!['w', 'i', 'n']);
        assert("meta"@ =~= seq!['m', 'e', 't', 'a']);
        assert("super"@ =~= seq!['s', 'u', 'p', 'e', 'r']);
        assert("cmd"@ =~= seq!['c', 'm', 'd']);
        assert("command"@ =~= seq!['c', 'o', 'm', 'm', 'a', 'n', 'd']);
    }
    if str_eq(s, "ctrl") || str_eq(s, "control") {
        Some(Modifier::Ctrl)
    } else if str_eq(s, "alt") || str_eq(s, "option") {
        Some(Modifier::Alt)
    } else if str_eq(s, "shift") {
        Some(Modifier::Shift)
    } else if str_eq(s, "win") || str_eq(s, "meta") || str_eq(s, "super") || str_eq(s, "cmd")
        || str_eq(s, "command") {
        Some(Modifier::Win)
    } else {
        None
    }
}

/// Parses a modifier name in any letter case; `None` when the word is not a
/// modifier.
pub fn parse_modifier(part: &str) -> (r: Option<Modifier>)
    ensures
        r == modifier_from_lower_spec(lowercase(part@)),
        all_ascii(part@) ==> r == modifier_from_lower_spec(lower_ascii(part@)),
{
    let lower = to_lowercase(part);
    modifier_from_lower(lower.as_str())
}

/// Which key an already upper-cased main-key text names: one digit, one
/// letter, or `F` followed by a number from 1 to 24.
pub open spec fn code_from_upper_spec(up: Seq<char>) -> Option<KeyCode> {
    if up.len() == 1 && is_digit(up[0]) {
        Some(num_key_spec(digit_value(up[0])))
    } else if up.len() == 1 && is_alpha(up[0]) {
        Some(letter_key_spec(up[0]))
    } else if up.len() > 1 && up[0] == 'F' {
        match parse_u8_spec(up.drop_first()) {
            Some(n) => if 1 <= n && n <= 24 {
                Some(f_key_spec(n as nat))
            } else {
                None
            },
            None => None,
        }
    } else {
        None
    }
}

/// Which key an already upper-cased main-key text names.
pub fn code_from_upper(up: &str) -> (r: Option<KeyCode>)
    ensures
        r == code_from_upper_spec(up@),
{
    let cs = chars_of(up);
    let n = cs.len();
    if n == 1 && '0' <= cs[0] && cs[0] <= '9' {
        let d = ((cs[0] as u32) - ('0' as u32)) as u8;
        Some(num_key(d))
    } else if n == 1 && (('A' <= cs[0] && cs[0] <= 'Z') || ('a' <= cs[0] && cs[0] <= 'z')) {
        Some(letter_key(cs[0]))
    } else if n > 1 && cs[0] == 'F' {
        let tail = up.substring_char(1, n);
        assert(tail@ =~= up@.drop_first());
        match parse_u8(tail) {
            Some(v) => if 1 <= v && v <= 24 {
                Some(f_key(v))
            } else {
                None
            },
            None => None,
        }
    } else {
        None
    }
}

/// Failure of hotkey parsing.
#[derive(Debug, Clone, PartialEq, Eq)]
pub enum HotkeyParseError {
    /// The hotkey text has no part at all.
    Empty,
    /// A modifier occurs twice (the offending part).
    DuplicateModifier(String),
    /// More than one part is not a modifier (the second such part).
    MultipleKeys(String),
    /// Only modifiers were given.
    MissingKey,
    /// The main key is not supported (its upper-cased text).
    UnsupportedKey(String),
}

/// Abstract form of `HotkeyParseError`.
pub enum ParseFailure {
    Empty,
    DuplicateModifier(Seq<char>),
    MultipleKeys(Seq<char>),
    MissingKey,
    UnsupportedKey(Seq<char>),
}

impl View for HotkeyParseError {
    type V = ParseFailure;

    open spec fn view(&self) -> ParseFailure {
        match self {
            HotkeyParseError::Empty => ParseFailure::Empty,
            HotkeyParseError::DuplicateModifier(s) => ParseFailure::DuplicateModifier(s@),
            HotkeyParseError::MultipleKeys(s) => ParseFailure::MultipleKeys(s@),
            HotkeyParseError::MissingKey => ParseFailure::MissingKey,
            HotkeyParseError::UnsupportedKey(s) => ParseFailure::UnsupportedKey(s@),
        }
    }
}

impl HotkeyParseError {
    /// The error message shown to the user.
    pub fn message(&self) -> (r: String)
        ensures
            r@ == parse_error_message(self@),
    {
        match self {
            HotkeyParseError::Empty => String::from_str("快捷键为空"),
            HotkeyParseError::DuplicateModifier(p) => {
                let mut s = String::from_str("重复的修饰键: ");
                s.append(p.as_str());
                s
            },
            HotkeyParseError::MultipleKeys(p) => {
                let mut s = String::from_str("存在多个主键: ");
                s.append(p.as_str());
                s
            },
            HotkeyParseError::MissingKey => String::from_str("缺少主键"),
            HotkeyParseError::UnsupportedKey(p) => {
                let mut s = String::from_str("不支持的主键: ");
                s.append(p.as_str());
                s
            },
        }
    }
}

/// The message of a parse failure.
pub open spec fn parse_error_message(e: ParseFailure) -> Seq<char> {
    match e {
        ParseFailure::Empty => "快捷键为空"@,
        ParseFailure::DuplicateModifier(p) => "重复的修饰键: "@ + p,
        ParseFailure::MultipleKeys(p) => "存在多个主键: "@ + p,
        ParseFailure::MissingKey => "缺少主键"@,
        ParseFailure::UnsupportedKey(p) => "不支持的主键: "@ + p,
    }
}

/// Parses the main key of a hotkey in any letter case.
pub fn parse_code(s: &str) -> (r: Result<KeyCode, HotkeyParseError>)
    ensures
        match r {
            Ok(k) => code_from_upper_spec(uppercase(s@)) == Some(k),
            Err(e) => code_from_upper_spec(uppercase(s@)) is None && e@ == ParseFailure::UnsupportedKey(uppercase(s@)),
        },
        all_ascii(s@) ==> uppercase(s@) == upper_ascii(s@),
{
    let up = to_uppercase(s);
    match code_from_upper(up.as_str()) {
        Some(k) => Ok(k),
        None => Err(HotkeyParseError::UnsupportedKey(up)),
    }
}

/// The separators of hotkey parts.
pub open spec fn is_sep(c: char) -> bool {
    c == '+' || c == '-' || c == ','
}

/// Splitting a text at every separator character (as `str::split` does:
/// `n` separators give `n + 1` parts, empty ones included).
pub open spec fn split_spec(s: Seq<char>) -> Seq<Seq<char>>
    decreases s.len(),
{
    if s.len() == 0 {
        seq![Seq::<char>::empty()]
    } else {
        let r = split_spec(s.drop_last());
        if is_sep(s.last()) {
            r.push(Seq::<char>::empty())
        } else {
            r.update(r.len() - 1, r.last().push(s.last()))
        }
    }
}

/// Joining parts with `+` between them.
pub open spec fn join_spec(parts: Seq<Seq<char>>) -> Seq<char>
    decreases parts.len(),
{
    if parts.len() == 0 {
        Seq::empty()
    } else if parts.len() == 1 {
        parts[0]
    } else {
        join_spec(parts.drop_last()).push('+') + parts.last()
    }
}

/// The texts of a list of strings.
pub open spec fn texts(v: Seq<String>) -> Seq<Seq<char>> {
    v.map_values(|s: String| s@)
}

/// `split_spec` always gives at least one part.
pub proof fn lemma_split_nonempty(s: Seq<char>)
    ensures
        split_spec(s).len() >= 1,
    decreases s.len(),
{
    if s.len() > 0 {
        lemma_split_nonempty(s.drop_last());
    }
}

/// Splits a hotkey text at `+`, `-` and `,`.
pub fn split_parts(spec: &str) -> (r: Vec<String>)
    ensures
        texts(r@) == split_spec(spec@),
{
    let cs = chars_of(spec);
    let mut parts: Vec<String> = Vec::new();
    let mut cur = String::new();
    let mut i: usize = 0;
    while i < cs.len()
        invariant
            i <= cs@.len(),
            cs@ == spec@,
            texts(parts@).push(cur@) == split_spec(cs@.take(i as int)),
        decreases cs@.len() - i,
    {
        let c = cs[i];
        proof {
            lemma_split_nonempty(cs@.take(i as int));
            assert(cs@.take(i as int + 1).drop_last() =~= cs@.take(i as int));
        }
        if c == '+' || c == '-' || c == ',' {
            let ghost before = texts(parts@).push(cur@);
            parts.push(cur);
            cur = String::new();
            assert(texts(parts@).push(cur@) =~= before.push(Seq::<char>::empty()));
        } else {
            let ghost before = texts(parts@).push(cur@);
            push_char(&mut cur, c);
            assert(texts(parts@).push(cur@) =~= before.update(
                before.len() - 1,
                before.last().push(c),
            ));
        }
        i = i + 1;
    }
    assert(cs@.take(cs@.len() as int) =~= cs@);
    parts.push(cur);
    parts
}

/// `m` occurs in `v`.
fn contains_modifier(v: &Vec<Modifier>, m: Modifier) -> (r: bool)
    ensures
        r == v@.contains(m),
{
    let mut i: usize = 0;
    while i < v.len()
        invariant
            i <= v@.len(),
            forall|j: int| 0 <= j < i ==> v@[j] != m,
        decreases v@.len() - i,
    {
        if v[i] == m {
            return true;
        }
        i = i + 1;
    }
    false
}

/// One step over the parts: the modifiers seen so far, and the index of the
/// main-key part if one was seen. `tp` are the trimmed parts and `lp` their
/// lower-cased forms.
pub open spec fn scan_parts(tp: Seq<Seq<char>>, lp: Seq<Seq<char>>) -> Result<
    (Seq<Modifier>, Option<int>),
    ParseFailure,
>
    decreases tp.len(),
{
    if tp.len() == 0 {
        Ok((Seq::empty(), None))
    } else {
        let n = tp.len() - 1;
        match scan_parts(tp.drop_last(), lp.drop_last()) {
            Err(e) => Err(e),
            Ok(st) => match modifier_from_lower_spec(lp[n]) {
                Some(m) => if st.0.contains(m) {
                    Err(ParseFailure::DuplicateModifier(tp[n]))
                } else {
                    Ok((st.0.push(m), st.1))
                },
                None => if st.1 is Some {
                    Err(ParseFailure::MultipleKeys(tp[n]))
                } else {
                    Ok((st.0, Some(n)))
                },
            },
        }
    }
}

/// The outcome of parsing, from the trimmed parts `tp`, their lower-cased
/// forms `lp` and their upper-cased forms `up`.
pub open spec fn finish_parse(tp: Seq<Seq<char>>, lp: Seq<Seq<char>>, up: Seq<Seq<char>>) -> Result<
    (Seq<Modifier>, KeyCode),
    ParseFailure,
> {
    if tp.len() == 0 {
        Err(ParseFailure::Empty)
    } else {
        match scan_parts(tp, lp) {
            Err(e) => Err(e),
            Ok(st) => match st.1 {
                None => Err(ParseFailure::MissingKey),
                Some(i) => match code_from_upper_spec(up[i]) {
                    Some(k) => Ok((st.0, k)),
                    None => Err(ParseFailure::UnsupportedKey(up[i])),
                },
            },
        }
    }
}

/// What `HotkeySpec::parse` gives for a text: split at separators, each part
/// trimmed, modifiers recognised in any letter case, exactly one main key.
pub open spec fn parse_spec(s: Seq<char>) -> Result<(Seq<Modifier>, KeyCode), ParseFailure> {
    let tp = trim_all(split_spec(s));
    finish_parse(tp, lower_all(tp), upper_all(tp))
}

/// `trimmed` applied to every part.
pub open spec fn trim_all(ps: Seq<Seq<char>>) -> Seq<Seq<char>> {
    ps.map_values(|p: Seq<char>| trimmed(p))
}

/// `lowercase` applied to every part.
pub open spec fn lower_all(ps: Seq<Seq<char>>) -> Seq<Seq<char>> {
    ps.map_values(|p: Seq<char>| lowercase(p))
}

/// `uppercase` applied to every part.
pub open spec fn upper_all(ps: Seq<Seq<char>>) -> Seq<Seq<char>> {
    ps.map_values(|p: Seq<char>| uppercase(p))
}

/// `lower_ascii` applied to every part.
pub open spec fn lower_ascii_all(ps: Seq<Seq<char>>) -> Seq<Seq<char>> {
    ps.map_values(|p: Seq<char>| lower_ascii(p))
}

/// `upper_ascii` applied to every part.
pub open spec fn upper_ascii_all(ps: Seq<Seq<char>>) -> Seq<Seq<char>> {
    ps.map_values(|p: Seq<char>| upper_ascii(p))
}

/// `parse_spec` on a text of visible ASCII characters, where trimming does
/// nothing and case conversion is the ASCII one.
pub open spec fn parse_plain(s: Seq<char>) -> Result<(Seq<Modifier>, KeyCode), ParseFailure> {
    let tp = split_spec(s);
    finish_parse(tp, lower_ascii_all(tp), upper_ascii_all(tp))
}

/// A parsed hotkey.
#[derive(Debug, Clone, PartialEq, Eq)]
pub struct HotkeySpec {
    /// Modifiers, in the order they were given.
    pub modifiers: Vec<Modifier>,
    /// Main key.
    pub code: KeyCode,
}

impl View for HotkeySpec {
    type V = (Seq<Modifier>, KeyCode);

    open spec fn view(&self) -> (Seq<Modifier>, KeyCode) {
        (self.modifiers@, self.code)
    }
}

/// Abstract form of a parse result.
pub open spec fn parse_result_view(r: Result<HotkeySpec, HotkeyParseError>) -> Result<
    (Seq<Modifier>, KeyCode),
    ParseFailure,
> {
    match r {
        Ok(h) => Ok(h@),
        Err(e) => Err(e@),
    }
}

/// The modifiers of `ms` in canonical order: Ctrl, Alt, Shift, Win.
pub open spec fn canonical_modifiers(ms: Seq<Modifier>) -> Seq<Modifier> {
    (if ms.contains(Modifier::Ctrl) { seq![Modifier::Ctrl] } else { Seq::empty() }) + (if ms.contains(
        Modifier::Alt,
    ) {
        seq![Modifier::Alt]
    } else {
        Seq::empty()
    }) + (if ms.contains(Modifier::Shift) { seq![Modifier::Shift] } else { Seq::empty() }) + (
    if ms.contains(Modifier::Win) {
        seq![Modifier::Win]
    } else {
        Seq::empty()
    })
}

/// The parts of the canonical text of a hotkey.
pub open spec fn format_parts(v: (Seq<Modifier>, KeyCode)) -> Seq<Seq<char>> {
    names_of(canonical_modifiers(v.0)).push(key_label(v.1))
}

/// The names of a list of modifiers.
pub open spec fn names_of(ms: Seq<Modifier>) -> Seq<Seq<char>> {
    ms.map_values(|m: Modifier| modifier_name(m))
}

/// The canonical text of a hotkey (such as `Ctrl+Alt+1`).
pub open spec fn format_spec(v: (Seq<Modifier>, KeyCode)) -> Seq<char> {
    join_spec(format_parts(v))
}


/// An optional index as a mathematical integer.
pub open spec fn opt_int(o: Option<usize>) -> Option<int> {
    match o {
        Some(c) => Some(c as int),
        None => None,
    }
}

/// Visible ASCII characters are ASCII.
pub proof fn lemma_graphic_ascii(s: Seq<char>)
    requires
        all_graphic(s),
    ensures
        all_ascii(s),
{
    assert forall|i: int| 0 <= i < s.len() implies (#[trigger] s[i] as u32) < 128 by {
        assert(is_graphic(s[i]));
    }
}

/// The parts of a visible ASCII text are visible ASCII texts.
pub proof fn lemma_split_graphic(s: Seq<char>)
    ensures
        all_graphic(s) ==> forall|k: int|
            0 <= k < split_spec(s).len() ==> all_graphic(#[trigger] split_spec(s)[k]),
    decreases s.len(),
{
    if s.len() > 0 {
        lemma_split_graphic(s.drop_last());
        lemma_split_nonempty(s.drop_last());
        if all_graphic(s) {
            assert(all_graphic(s.drop_last())) by {
                assert forall|i: int| 0 <= i < s.drop_last().len() implies is_graphic(
                    #[trigger] s.drop_last()[i],
                ) by {
                    assert(s.drop_last()[i] == s[i]);
                }
            }
            let r = split_spec(s.drop_last());
            assert(is_graphic(s[s.len() - 1]));
            if !is_sep(s.last()) {
                let last = r.last().push(s.last());
                assert(all_graphic(r.last()));
                assert(all_graphic(last)) by {
                    assert forall|i: int| 0 <= i < last.len() implies is_graphic(#[trigger] last[i]) by {
                        if i < last.len() - 1 {
                            assert(last[i] == r.last()[i]);
                        }
                    }
                }
            }
        }
    }
}

/// When parsing stops at an error on a prefix of the parts, the whole parse
/// gives that error.
pub proof fn lemma_scan_err_prefix(tp: Seq<Seq<char>>, lp: Seq<Seq<char>>, k: int)
    requires
        0 <= k <= tp.len(),
        tp.len() == lp.len(),
        scan_parts(tp.take(k), lp.take(k)) is Err,
    ensures
        scan_parts(tp, lp) == scan_parts(tp.take(k), lp.take(k)),
    decreases tp.len() - k,
{
    if k == tp.len() {
        assert(tp.take(k) =~= tp);
        assert(lp.take(k) =~= lp);
    } else {
        let tp2 = tp.drop_last();
        let lp2 = lp.drop_last();
        assert(tp2.take(k) =~= tp.take(k));
        assert(lp2.take(k) =~= lp.take(k));
        lemma_scan_err_prefix(tp2, lp2, k);
    }
}

impl HotkeySpec {
    /// Parses a hotkey text such as `Ctrl+Alt+1`: parts are separated by
    /// `+`, `-` or `,` and trimmed; modifiers are recognised in any letter
    /// case and order; exactly one part must be the main key.
    pub fn parse(spec: &str) -> (r: Result<HotkeySpec, HotkeyParseError>)
        ensures
            parse_result_view(r) == parse_spec(spec@),
            all_graphic(spec@) ==> parse_result_view(r) == parse_plain(spec@),
    {
        let raw = split_parts(spec);
        let ghost rawv = texts(raw@);
        proof {
            lemma_split_graphic(spec@);
        }
        let mut parts: Vec<String> = Vec::new();
        let mut lowers: Vec<String> = Vec::new();
        let mut j: usize = 0;
        while j < raw.len()
            invariant
                j <= raw@.len(),
                rawv == texts(raw@),
                rawv == split_spec(spec@),
                parts@.len() == j,
                lowers@.len() == j,
                forall|k: int|
                    0 <= k < j ==> (#[trigger] parts@[k])@ == trimmed(rawv[k]) && lowers@[k]@
                        == lowercase(parts@[k]@),
                all_graphic(spec@) ==> forall|k: int|
                    0 <= k < rawv.len() ==> all_graphic(#[trigger] rawv[k]),
                all_graphic(spec@) ==> forall|k: int|
                    0 <= k < j ==> (#[trigger] parts@[k])@ == rawv[k] && lowers@[k]@ == lower_ascii(
                        rawv[k],
                    ),
            decreases raw@.len() - j,
        {
            proof {
                if all_graphic(spec@) {
                    assert(all_graphic(rawv[j as int]));
                    lemma_graphic_ascii(rawv[j as int]);
                }
            }
            let t = trim(raw[j].as_str());
            let owned = String::from_str(t);
            let low = to_lowercase(t);
            parts.push(owned);
            lowers.push(low);
            j = j + 1;
        }
        let ghost tp = texts(parts@);
        let ghost lp = texts(lowers@);
        assert(tp =~= trim_all(split_spec(spec@)));
        assert(lp =~= lower_all(tp));
        proof {
            if all_graphic(spec@) {
                assert(tp =~= split_spec(spec@));
                assert(lp =~= lower_ascii_all(split_spec(spec@)));
            }
        }
        if parts.len() == 0 {
            return Err(HotkeyParseError::Empty);
        }
        let mut modifiers: Vec<Modifier> = Vec::new();
        let mut code_part: Option<usize> = None;
        let mut i: usize = 0;
        assert(tp.take(0) =~= Seq::<Seq<char>>::empty());
        assert(lp.take(0) =~= Seq::<Seq<char>>::empty());
        while i < parts.len()
            invariant
                i <= parts@.len(),
                tp == texts(parts@),
                lp == texts(lowers@),
                parts@.len() == lowers@.len(),
                scan_parts(tp.take(i as int), lp.take(i as int)) == Ok::<
                    (Seq<Modifier>, Option<int>),
                    ParseFailure,
                >((modifiers@, opt_int(code_part))),
                code_part matches Some(c) ==> c < i,
                tp == trim_all(split_spec(spec@)),
                lp == lower_all(tp),
                all_graphic(spec@) ==> tp == split_spec(spec@) && lp == lower_ascii_all(
                    split_spec(spec@),
                ),
            decreases parts@.len() - i,
        {
            assert(tp.take(i + 1).drop_last() =~= tp.take(i as int));
            assert(lp.take(i + 1).drop_last() =~= lp.take(i as int));
            match modifier_from_lower(lowers[i].as_str()) {
                Some(m) => {
                    if contains_modifier(&modifiers, m) {
                        let e = HotkeyParseError::DuplicateModifier(parts[i].clone());
                        proof {
                            assert(lp.take(i + 1)[i as int] == lp[i as int]);
                            assert(modifier_from_lower_spec(lp.take(i + 1)[i as int]) == Some(m));
                            assert(scan_parts(tp.take(i + 1), lp.take(i + 1)) == Err::<
                                (Seq<Modifier>, Option<int>),
                                ParseFailure,
                            >(ParseFailure::DuplicateModifier(tp[i as int])));
                            lemma_scan_err_prefix(tp, lp, i + 1);
                            assert(e@ == ParseFailure::DuplicateModifier(tp[i as int]));
                            assert(finish_parse(tp, lp, upper_all(tp)) == Err::<
                                (Seq<Modifier>, KeyCode),
                                ParseFailure,
                            >(ParseFailure::DuplicateModifier(tp[i as int])));
                        }
                        return Err(e);
                    }
                    modifiers.push(m);
                },
                None => {
                    if code_part.is_some() {
                        let e = HotkeyParseError::MultipleKeys(parts[i].clone());
                        proof {
                            assert(opt_int(code_part) is Some);
                            assert(modifier_from_lower_spec(lp.take(i + 1)[i as int]) is None);
                            assert(scan_parts(tp.take(i + 1), lp.take(i + 1)) == Err::<
                                (Seq<Modifier>, Option<int>),
                                ParseFailure,
                            >(ParseFailure::MultipleKeys(tp[i as int])));
                            lemma_scan_err_prefix(tp, lp, i + 1);
                        }
                        return Err(e);
                    }
                    code_part = Some(i);
                },
            }
            i = i + 1;
        }
        assert(tp.take(tp.len() as int) =~= tp);
        assert(lp.take(lp.len() as int) =~= lp);
        match code_part {
            None => Err(HotkeyParseError::MissingKey),
            Some(c) => {
                proof {
                    if all_graphic(spec@) {
                        lemma_graphic_ascii(tp[c as int]);
                    }
                }
                match parse_code(parts[c].as_str()) {
                    Ok(k) => Ok(HotkeySpec { modifiers, code: k }),
                    Err(e) => Err(e),
                }
            },
        }
    }

    /// The canonical text of the hotkey: modifiers in the order Ctrl, Alt,
    /// Shift, Win, then the main key, joined by `+`.
    pub fn format(&self) -> (r: String)
        ensures
            r@ == format_spec(self@),
    {
        let mut parts: Vec<String> = Vec::new();
        if contains_modifier(&self.modifiers, Modifier::Ctrl) {
            parts.push(String::from_str(Modifier::Ctrl.name()));
        }
        if contains_modifier(&self.modifiers, Modifier::Alt) {
            parts.push(String::from_str(Modifier::Alt.name()));
        }
        if contains_modifier(&self.modifiers, Modifier::Shift) {
            parts.push(String::from_str(Modifier::Shift.name()));
        }
        if contains_modifier(&self.modifiers, Modifier::Win) {
            parts.push(String::from_str(Modifier::Win.name()));
        }
        parts.push(format_code(self.code));
        assert(texts(parts@) =~= format_parts(self@));
        join_plus(&parts)
    }
}

/// Joins texts with `+` between them.
pub fn join_plus(parts: &Vec<String>) -> (r: String)
    ensures
        r@ == join_spec(texts(parts@)),
{
    let mut r = String::new();
    let mut i: usize = 0;
    assert(texts(parts@).take(0) =~= Seq::<Seq<char>>::empty());
    while i < parts.len()
        invariant
            i <= parts@.len(),
            r@ == join_spec(texts(parts@).take(i as int)),
        decreases parts@.len() - i,
    {
        let ghost t = texts(parts@);
        assert(t.take(i + 1).drop_last() =~= t.take(i as int));
        if i > 0 {
            push_char(&mut r, '+');
        }
        r.append(parts[i].as_str());
        proof {
            if i == 0 {
                assert(r@ =~= t[0]);
            }
        }
        i = i + 1;
    }
    assert(texts(parts@).take(parts@.len() as int) =~= texts(parts@));
    r
}

/// No character of `s` is a part separator.
pub open spec fn no_sep(s: Seq<char>) -> bool {
    forall|i: int| 0 <= i < s.len() ==> !is_sep(#[trigger] s[i])
}

/// What the round trip needs of a key label.
pub open spec fn key_label_facts(k: KeyCode) -> bool {
    &&& key_label(k).len() > 0
    &&& all_graphic(key_label(k))
    &&& no_sep(key_label(k))
    &&& modifier_from_lower_spec(lower_ascii(key_label(k))) is None
    &&& code_from_upper_spec(upper_ascii(key_label(k))) == Some(k)
}

/// The label of a digit key reads back as that key and names no modifier.
proof fn lemma_digit_key_label(k: KeyCode)
    requires
        k == KeyCode::Digit0 || k == KeyCode::Digit1 || k == KeyCode::Digit2 || k == KeyCode::Digit3 || k == KeyCode::Digit4 || k == KeyCode::Digit5 || k == KeyCode::Digit6 || k == KeyCode::Digit7 || k == KeyCode::Digit8 || k == KeyCode::Digit9,
    ensures
        key_label_facts(k),
{
    match k {
        KeyCode::Digit0 => {
            let l = seq!['0'];
            assert(key_label(k) == l);
            assert(lower_ascii(l) =~= seq!['0']);
            assert(upper_ascii(l) =~= l);
        },
        KeyCode::Digit1 => {
            let l = seq!['1'];
            assert(key_label(k) == l);
            assert(lower_ascii(l) =~= seq!['1']);
            assert(upper_ascii(l) =~= l);
        },
        KeyCode::Digit2 => {
            let l = seq!['2'];
            assert(key_label(k) == l);
            assert(lower_ascii(l) =~= seq!['2']);
            assert(upper_ascii(l) =~= l);
        },
        KeyCode::Digit3 => {
            let l = seq!['3'];
            assert(key_label(k) == l);
            assert(lower_ascii(l) =~= seq!['3']);
            assert(upper_ascii(l) =~= l);
        },
        KeyCode::Digit4 => {
            let l = seq!['4'];
            assert(key_label(k) == l);
            assert(lower_ascii(l) =~= seq!['4']);
            assert(upper_ascii(l) =~= l);
        },
        KeyCode::Digit5 => {
            let l = seq!['5'];
            assert(key_label(k) == l);
            assert(lower_ascii(l) =~= seq!['5']);
            assert(upper_ascii(l) =~= l);
        },
        KeyCode::Digit6 => {
            let l = seq!['6'];
            assert(key_label(k) == l);
            assert(lower_ascii(l) =~= seq!['6']);
            assert(upper_ascii(l) =~= l);
        },
        KeyCode::Digit7 => {
            let l = seq!['7'];
            assert(key_label(k) == l);
            assert(lower_ascii(l) =~= seq!['7']);
            assert(upper_ascii(l) =~= l);
        },
        KeyCode::Digit8 => {
            let l = seq!['8'];
            assert(key_label(k) == l);
            assert(lower_ascii(l) =~= seq!['8']);
            assert(upper_ascii(l) =~= l);
        },
        KeyCode::Digit9 => {
            let l = seq!['9'];
            assert(key_label(k) == l);
            assert(lower_ascii(l) =~= seq!['9']);
            assert(upper_ascii(l) =~= l);
        },
        _ => {},
    }
}

/// The label of a letter key reads back as that key and names no modifier.
proof fn lemma_letter_key_label(k: KeyCode)
    requires
        k == KeyCode::KeyA || k == KeyCode::KeyB || k == KeyCode::KeyC || k == KeyCode::KeyD || k == KeyCode::KeyE || k == KeyCode::KeyF || k == KeyCode::KeyG || k == KeyCode::KeyH || k == KeyCode::KeyI || k == KeyCode::KeyJ || k == KeyCode::KeyK || k == KeyCode::KeyL || k == KeyCode::KeyM || k == KeyCode::KeyN || k == KeyCode::KeyO || k == KeyCode::KeyP || k == KeyCode::KeyQ || k == KeyCode::KeyR || k == KeyCode::KeyS || k == KeyCode::KeyT || k == KeyCode::KeyU || k == KeyCode::KeyV || k == KeyCode::KeyW || k == KeyCode::KeyX || k == KeyCode::KeyY || k == KeyCode::KeyZ,
    ensures
        key_label_facts(k),
{
    match k {
        KeyCode::KeyA => {
            let l = seq!['A'];
            assert(key_label(k) == l);
            assert(lower_ascii(l) =~= seq!['a']);
            assert(upper_ascii(l) =~= l);
        },
        KeyCode::KeyB => {
            let l = seq!['B'];
            assert(key_label(k) == l);
            assert(lower_ascii(l) =~= seq!['b']);
            assert(upper_ascii(l) =~= l);
        },
        KeyCode::KeyC => {
            let l = seq!['C'];
            assert(key_label(k) == l);
            assert(lower_ascii(l) =~= seq!['c']);
            assert(upper_ascii(l) =~= l);
        },
        KeyCode::KeyD => {
            let l = seq!['D'];
            assert(key_label(k) == l);
            assert(lower_ascii(l) =~= seq!['d']);
            assert(upper_ascii(l) =~= l);
        },
        KeyCode::KeyE => {
            let l = seq!['E'];
            assert(key_label(k) == l);
            assert(lower_ascii(l) =~= seq!['e']);
            assert(upper_ascii(l) =~= l);
        },
        KeyCode::KeyF => {
            let l = seq!['F'];
            assert(key_label(k) == l);
            assert(lower_ascii(l) =~= seq!['f']);
            assert(upper_ascii(l) =~= l);
        },
        KeyCode::KeyG => {
            let l = seq!['G'];
            assert(key_label(k) == l);
            assert(lower_ascii(l) =~= seq!['g']);
            assert(upper_ascii(l) =~= l);
        },
        KeyCode::KeyH => {
            let l = seq!['H'];
            assert(key_label(k) == l);
            assert(lower_ascii(l) =~= seq!['h']);
            assert(upper_ascii(l) =~= l);
        },
        KeyCode::KeyI => {
            let l = seq!['I'];
            assert(key_label(k) == l);
            assert(lower_ascii(l) =~= seq!['i']);
            assert(upper_ascii(l) =~= l);
        },
        KeyCode::KeyJ => {
            let l = seq!['J'];
            assert(key_label(k) == l);
            assert(lower_ascii(l) =~= seq!['j']);
            assert(upper_ascii(l) =~= l);
        },
        KeyCode::KeyK => {
            let l = seq!['K'];
            assert(key_label(k) == l);
            assert(lower_ascii(l) =~= seq!['k']);
            assert(upper_ascii(l) =~= l);
        },
        KeyCode::KeyL => {
            let l = seq!['L'];
            assert(key_label(k) == l);
            assert(lower_ascii(l) =~= seq!['l']);
            assert(upper_ascii(l) =~= l);
        },
        KeyCode::KeyM => {
            let l = seq!['M'];
            assert(key_label(k) == l);
            assert(lower_ascii(l) =~= seq!['m']);
            assert(upper_ascii(l) =~= l);
        },
        KeyCode::KeyN => {
            let l = seq!['N'];
            assert(key_label(k) == l);
            assert(lower_ascii(l) =~= seq!['n']);
            assert(upper_ascii(l) =~= l);
        },
        KeyCode::KeyO => {
            let l = seq!['O'];
            assert(key_label(k) == l);
            assert(lower_ascii(l) =~= seq!['o']);
            assert(upper_ascii(l) =~= l);
        },
        KeyCode::KeyP => {
            let l = seq!['P'];
            assert(key_label(k) == l);
            assert(lower_ascii(l) =~= seq!['p']);
            assert(upper_ascii(l) =~= l);
        },
        KeyCode::KeyQ => {
            let l = seq!['Q'];
            assert(key_label(k) == l);
            assert(lower_ascii(l) =~= seq!['q']);
            assert(upper_ascii(l) =~= l);
        },
        KeyCode::KeyR => {
            let l = seq!['R'];
            assert(key_label(k) == l);
            assert(lower_ascii(l) =~= seq!['r']);
            assert(upper_ascii(l) =~= l);
        },
        KeyCode::KeyS => {
            let l = seq!['S'];
            assert(key_label(k) == l);
            assert(lower_ascii(l) =~= seq!['s']);
            assert(upper_ascii(l) =~= l);
        },
        KeyCode::KeyT => {
            let l = seq!['T'];
            assert(key_label(k) == l);
            assert(lower_ascii(l) =~= seq!['t']);
            assert(upper_ascii(l) =~= l);
        },
        KeyCode::KeyU => {
            let l = seq!['U'];
            assert(key_label(k) == l);
            assert(lower_ascii(l) =~= seq!['u']);
            assert(upper_ascii(l) =~= l);
        },
        KeyCode::KeyV => {
            let l = seq!['V'];
            assert(key_label(k) == l);
            assert(lower_ascii(l) =~= seq!['v']);
            assert(upper_ascii(l) =~= l);
        },
        KeyCode::KeyW => {
            let l = seq!['W'];
            assert(key_label(k) == l);
            assert(lower_ascii(l) =~= seq!['w']);
            assert(upper_ascii(l) =~= l);
        },
        KeyCode::KeyX => {
            let l = seq!['X'];
            assert(key_label(k) == l);
            assert(lower_ascii(l) =~= seq!['x']);
            assert(upper_ascii(l) =~= l);
        },
        KeyCode::KeyY => {
            let l = seq!['Y'];
            assert(key_label(k) == l);
            assert(lower_ascii(l) =~= seq!['y']);
            assert(upper_ascii(l) =~= l);
        },
        KeyCode::KeyZ => {
            let l = seq!['Z'];
            assert(key_label(k) == l);
            assert(lower_ascii(l) =~= seq!['z']);
            assert(upper_ascii(l) =~= l);
        },
        _ => {},
    }
}

/// The labels of function keys F1 to F6 read back as their keys.
proof fn lemma_function_key_label_0(k: KeyCode)
    requires
        k == KeyCode::F1 || k == KeyCode::F2 || k == KeyCode::F3 || k == KeyCode::F4 || k == KeyCode::F5 || k == KeyCode::F6,
    ensures
        key_label_facts(k),
{
    match k {
        KeyCode::F1 => {
            let l = seq!['F', '1'];
            assert(key_label(k) == l);
            assert(lower_ascii(l) =~= seq!['f', '1']);
            assert(upper_ascii(l) =~= l);
            assert(l.drop_first() =~= seq!['1']);
            lemma_digits_value_1('1');
            assert(parse_u8_spec(seq!['1']) == Some(1u8));
        },
        KeyCode::F2 => {
            let l = seq!['F', '2'];
            assert(key_label(k) == l);
            assert(lower_ascii(l) =~= seq!['f', '2']);
            assert(upper_ascii(l) =~= l);
            assert(l.drop_first() =~= seq!['2']);
            lemma_digits_value_1('2');
            assert(parse_u8_spec(seq!['2']) == Some(2u8));
        },
        KeyCode::F3 => {
            let l = seq!['F', '3'];
            assert(key_label(k) == l);
            assert(lower_ascii(l) =~= seq!['f', '3']);
            assert(upper_ascii(l) =~= l);
            assert(l.drop_first() =~= seq!['3']);
            lemma_digits_value_1('3');
            assert(parse_u8_spec(seq!['3']) == Some(3u8));
        },
        KeyCode::F4 => {
            let l = seq!['F', '4'];
            assert(key_label(k) == l);
            assert(lower_ascii(l) =~= seq!['f', '4']);
            assert(upper_ascii(l) =~= l);
            assert(l.drop_first() =~= seq!['4']);
            lemma_digits_value_1('4');
            assert(parse_u8_spec(seq!['4']) == Some(4u8));
        },
        KeyCode::F5 => {
            let l = seq!['F', '5'];
            assert(key_label(k) == l);
            assert(lower_ascii(l) =~= seq!['f', '5']);
            assert(upper_ascii(l) =~= l);
            assert(l.drop_first() =~= seq!['5']);
            lemma_digits_value_1('5');
            assert(parse_u8_spec(seq!['5']) == Some(5u8));
        },
        KeyCode::F6 => {
            let l = seq!['F', '6'];
            assert(key_label(k) == l);
            assert(lower_ascii(l) =~= seq!['f', '6']);
            assert(upper_ascii(l) =~= l);
            assert(l.drop_first() =~= seq!['6']);
            lemma_digits_value_1('6');
            assert(parse_u8_spec(seq!['6']) == Some(6u8));
        },
        _ => {},
    }
}

/// The labels of function keys F7 to F12 read back as their keys.
proof fn lemma_function_key_label_1(k: KeyCode)
    requires
        k == KeyCode::F7 || k == KeyCode::F8 || k == KeyCode::F9 || k == KeyCode::F10 || k == KeyCode::F11 || k == KeyCode::F12,
    ensures
        key_label_facts(k),
{
    match k {
        KeyCode::F7 => {
            let l = seq!['F', '7'];
            assert(key_label(k) == l);
            assert(lower_ascii(l) =~= seq!['f', '7']);
            assert(upper_ascii(l) =~= l);
            assert(l.drop_first() =~= seq!['7']);
            lemma_digits_value_1('7');
            assert(parse_u8_spec(seq!['7']) == Some(7u8));
        },
        KeyCode::F8 => {
            let l = seq!['F', '8'];
            assert(key_label(k) == l);
            assert(lower_ascii(l) =~= seq!['f', '8']);
            assert(upper_ascii(l) =~= l);
            assert(l.drop_first() =~= seq!['8']);
            lemma_digits_value_1('8');
            assert(parse_u8_spec(seq!['8']) == Some(8u8));
        },
        KeyCode::F9 => {
            let l = seq!['F', '9'];
            assert(key_label(k) == l);
            assert(lower_ascii(l) =~= seq!['f', '9']);
            assert(upper_ascii(l) =~= l);
            assert(l.drop_first() =~= seq!['9']);
            lemma_digits_value_1('9');
            assert(parse_u8_spec(seq!['9']) == Some(9u8));
        },
        KeyCode::F10 => {
            let l = seq!['F', '1', '0'];
            assert(key_label(k) == l);
            assert(lower_ascii(l) =~= seq!['f', '1', '0']);
            assert(upper_ascii(l) =~= l);
            assert(l.drop_first() =~= seq!['1', '0']);
            lemma_digits_value_2('1', '0');
            assert(parse_u8_spec(seq!['1', '0']) == Some(10u8));
        },
        KeyCode::F11 => {
            let l = seq!['F', '1', '1'];
            assert(key_label(k) == l);
            assert(lower_ascii(l) =~= seq!['f', '1', '1']);
            assert(upper_ascii(l) =~= l);
            assert(l.drop_first() =~= seq!['1', '1']);
            lemma_digits_value_2('1', '1');
            assert(parse_u8_spec(seq!['1', '1']) == Some(11u8));
        },
        KeyCode::F12 => {
            let l = seq!['F', '1', '2'];
            assert(key_label(k) == l);
            assert(lower_ascii(l) =~= seq!['f', '1', '2']);
            assert(upper_ascii(l) =~= l);
            assert(l.drop_first() =~= seq!['1', '2']);
            lemma_digits_value_2('1', '2');
            assert(parse_u8_spec(seq!['1', '2']) == Some(12u8));
        },
        _ => {},
    }
}

/// The labels of function keys F13 to F18 read back as their keys.
proof fn lemma_function_key_label_2(k: KeyCode)
    requires
        k == KeyCode::F13 || k == KeyCode::F14 || k == KeyCode::F15 || k == KeyCode::F16 || k == KeyCode::F17 || k == KeyCode::F18,
    ensures
        key_label_facts(k),
{
    match k {
        KeyCode::F13 => {
            let l = seq!['F', '1', '3'];
            assert(key_label(k) == l);
            assert(lower_ascii(l) =~= seq!['f', '1', '3']);
            assert(upper_ascii(l) =~= l);
            assert(l.drop_first() =~= seq!['1', '3']);
            lemma_digits_value_2('1', '3');
            assert(parse_u8_spec(seq!['1', '3']) == Some(13u8));
        },
        KeyCode::F14 => {
            let l = seq!['F', '1', '4'];
            assert(key_label(k) == l);
            assert(lower_ascii(l) =~= seq!['f', '1', '4']);
            assert(upper_ascii(l) =~= l);
            assert(l.drop_first() =~= seq!['1', '4']);
            lemma_digits_value_2('1', '4');
            assert(parse_u8_spec(seq!['1', '4']) == Some(14u8));
        },
        KeyCode::F15 => {
            let l = seq!['F', '1', '5'];
            assert(key_label(k) == l);
            assert(lower_ascii(l) =~= seq!['f', '1', '5']);
            assert(upper_ascii(l) =~= l);
            assert(l.drop_first() =~= seq!['1', '5']);
            lemma_digits_value_2('1', '5');
            assert(parse_u8_spec(seq!['1', '5']) == Some(15u8));
        },
        KeyCode::F16 => {
            let l = seq!['F', '1', '6'];
            assert(key_label(k) == l);
            assert(lower_ascii(l) =~= seq!['f', '1', '6']);
            assert(upper_ascii(l) =~= l);
            assert(l.drop_first() =~= seq!['1', '6']);
            lemma_digits_value_2('1', '6');
            assert(parse_u8_spec(seq!['1', '6']) == Some(16u8));
        },
        KeyCode::F17 => {
            let l = seq!['F', '1', '7'];
            assert(key_label(k) == l);
            assert(lower_ascii(l) =~= seq!['f', '1', '7']);
            assert(upper_ascii(l) =~= l);
            assert(l.drop_first() =~= seq!['1', '7']);
            lemma_digits_value_2('1', '7');
            assert(parse_u8_spec(seq!['1', '7']) == Some(17u8));
        },
        KeyCode::F18 => {
            let l = seq!['F', '1', '8'];
            assert(key_label(k) == l);
            assert(lower_ascii(l) =~= seq!['f', '1', '8']);
            assert(upper_ascii(l) =~= l);
            assert(l.drop_first() =~= seq!['1', '8']);
            lemma_digits_value_2('1', '8');
            assert(parse_u8_spec(seq!['1', '8']) == Some(18u8));
        },
        _ => {},
    }
}

/// The labels of function keys F19 to F24 read back as their keys.
proof fn lemma_function_key_label_3(k: KeyCode)
    requires
        k == KeyCode::F19 || k == KeyCode::F20 || k == KeyCode::F21 || k == KeyCode::F22 || k == KeyCode::F23 || k == KeyCode::F24,
    ensures
        key_label_facts(k),
{
    match k {
        KeyCode::F19 => {
            let l = seq!['F', '1', '9'];
            assert(key_label(k) == l);
            assert(lower_ascii(l) =~= seq!['f', '1', '9']);
            assert(upper_ascii(l) =~= l);
            assert(l.drop_first() =~= seq!['1', '9']);
            lemma_digits_value_2('1', '9');
            assert(parse_u8_spec(seq!['1', '9']) == Some(19u8));
        },
        KeyCode::F20 => {
            let l = seq!['F', '2', '0'];
            assert(key_label(k) == l);
            assert(lower_ascii(l) =~= seq!['f', '2', '0']);
            assert(upper_ascii(l) =~= l);
            assert(l.drop_first() =~= seq!['2', '0']);
            lemma_digits_value_2('2', '0');
            assert(parse_u8_spec(seq!['2', '0']) == Some(20u8));
        },
        KeyCode::F21 => {
            let l = seq!['F', '2', '1'];
            assert(key_label(k) == l);
            assert(lower_ascii(l) =~= seq!['f', '2', '1']);
            assert(upper_ascii(l) =~= l);
            assert(l.drop_first() =~= seq!['2', '1']);
            lemma_digits_value_2('2', '1');
            assert(parse_u8_spec(seq!['2', '1']) == Some(21u8));
        },
        KeyCode::F22 => {
            let l = seq!['F', '2', '2'];
            assert(key_label(k) == l);
            assert(lower_ascii(l) =~= seq!['f', '2', '2']);
            assert(upper_ascii(l) =~= l);
            assert(l.drop_first() =~= seq!['2', '2']);
            lemma_digits_value_2('2', '2');
            assert(parse_u8_spec(seq!['2', '2']) == Some(22u8));
        },
        KeyCode::F23 => {
            let l = seq!['F', '2', '3'];
            assert(key_label(k) == l);
            assert(lower_ascii(l) =~= seq!['f', '2', '3']);
            assert(upper_ascii(l) =~= l);
            assert(l.drop_first() =~= seq!['2', '3']);
            lemma_digits_value_2('2', '3');
            assert(parse_u8_spec(seq!['2', '3']) == Some(23u8));
        },
        KeyCode::F24 => {
            let l = seq!['F', '2', '4'];
            assert(key_label(k) == l);
            assert(lower_ascii(l) =~= seq!['f', '2', '4']);
            assert(upper_ascii(l) =~= l);
            assert(l.drop_first() =~= seq!['2', '4']);
            lemma_digits_value_2('2', '4');
            assert(parse_u8_spec(seq!['2', '4']) == Some(24u8));
        },
        _ => {},
    }
}

/// Every key label reads back as its key.
pub proof fn lemma_key_label(k: KeyCode)
    ensures
        key_label_facts(k),
{
    match k {
        KeyCode::Digit0 | KeyCode::Digit1 | KeyCode::Digit2 | KeyCode::Digit3 | KeyCode::Digit4
        | KeyCode::Digit5 | KeyCode::Digit6 | KeyCode::Digit7 | KeyCode::Digit8
        | KeyCode::Digit9 => lemma_digit_key_label(k),
        KeyCode::F1 | KeyCode::F2 | KeyCode::F3 | KeyCode::F4 | KeyCode::F5 | KeyCode::F6
        | KeyCode::F7 | KeyCode::F8 | KeyCode::F9 | KeyCode::F10 | KeyCode::F11 | KeyCode::F12
        | KeyCode::F13 | KeyCode::F14 | KeyCode::F15 | KeyCode::F16 | KeyCode::F17 | KeyCode::F18
        | KeyCode::F19 | KeyCode::F20 | KeyCode::F21 | KeyCode::F22 | KeyCode::F23
        | KeyCode::F24 => {
            if k == KeyCode::F1 || k == KeyCode::F2 || k == KeyCode::F3 || k == KeyCode::F4 || k
                == KeyCode::F5 || k == KeyCode::F6 {
                lemma_function_key_label_0(k);
            } else if k == KeyCode::F7 || k == KeyCode::F8 || k == KeyCode::F9 || k == KeyCode::F10
                || k == KeyCode::F11 || k == KeyCode::F12 {
                lemma_function_key_label_1(k);
            } else if k == KeyCode::F13 || k == KeyCode::F14 || k == KeyCode::F15 || k
                == KeyCode::F16 || k == KeyCode::F17 || k == KeyCode::F18 {
                lemma_function_key_label_2(k);
            } else {
                lemma_function_key_label_3(k);
            }
        },
        _ => lemma_letter_key_label(k),
    }
}

/// The function keys, in order: F1 to F24.
pub open spec fn function_keys() -> Seq<KeyCode> {
    seq![KeyCode::F1, KeyCode::F2, KeyCode::F3, KeyCode::F4, KeyCode::F5, KeyCode::F6, KeyCode::F7, KeyCode::F8, KeyCode::F9, KeyCode::F10, KeyCode::F11, KeyCode::F12, KeyCode::F13, KeyCode::F14, KeyCode::F15, KeyCode::F16, KeyCode::F17, KeyCode::F18, KeyCode::F19, KeyCode::F20, KeyCode::F21, KeyCode::F22, KeyCode::F23, KeyCode::F24]
}

/// The digit keys, in order: 0 to 9.
pub open spec fn digit_keys() -> Seq<KeyCode> {
    seq![KeyCode::Digit0, KeyCode::Digit1, KeyCode::Digit2, KeyCode::Digit3, KeyCode::Digit4, KeyCode::Digit5, KeyCode::Digit6, KeyCode::Digit7, KeyCode::Digit8, KeyCode::Digit9]
}

/// The letter keys, in order: A to Z.
pub open spec fn letter_keys() -> Seq<KeyCode> {
    seq![KeyCode::KeyA, KeyCode::KeyB, KeyCode::KeyC, KeyCode::KeyD, KeyCode::KeyE, KeyCode::KeyF, KeyCode::KeyG, KeyCode::KeyH, KeyCode::KeyI, KeyCode::KeyJ, KeyCode::KeyK, KeyCode::KeyL, KeyCode::KeyM, KeyCode::KeyN, KeyCode::KeyO, KeyCode::KeyP, KeyCode::KeyQ, KeyCode::KeyR, KeyCode::KeyS, KeyCode::KeyT, KeyCode::KeyU, KeyCode::KeyV, KeyCode::KeyW, KeyCode::KeyX, KeyCode::KeyY, KeyCode::KeyZ]
}

/// The capital letters, in order: A to Z.
pub open spec fn key_letters() -> Seq<char> {
    seq!['A', 'B', 'C', 'D', 'E', 'F', 'G', 'H', 'I', 'J', 'K', 'L', 'M', 'N', 'O', 'P', 'Q', 'R', 'S', 'T', 'U', 'V', 'W', 'X', 'Y', 'Z']
}

/// The n-th function key is written `F` and the number `n` in decimal, the
/// number `n` names it, and that text reads back as it.
pub proof fn law_function_key_labels(n: nat)
    requires
        1 <= n <= 24,
    ensures
        f_key_spec(n) == function_keys()[n - 1],
        key_label(function_keys()[n - 1]) == seq!['F'] + decimal(n),
        code_from_upper_spec(upper_ascii(seq!['F'] + decimal(n))) == Some(function_keys()[n - 1]),
{
    assert(1 <= n <= 24);
        if n == 1 {
            assert(decimal(1) == seq![digit_char(1)]);
            assert(seq!['F'] + decimal(1) =~= seq!['F', '1']);
            assert(function_keys()[0] == KeyCode::F1);
        }
        if n == 2 {
            assert(decimal(2) == seq![digit_char(2)]);
            assert(seq!['F'] + decimal(2) =~= seq!['F', '2']);
            assert(function_keys()[1] == KeyCode::F2);
        }
        if n == 3 {
            assert(decimal(3) == seq![digit_char(3)]);
            assert(seq!['F'] + decimal(3) =~= seq!['F', '3']);
            assert(function_keys()[2] == KeyCode::F3);
        }
        if n == 4 {
            assert(decimal(4) == seq![digit_char(4)]);
            assert(seq!['F'] + decimal(4) =~= seq!['F', '4']);
            assert(function_keys()[3] == KeyCode::F4);
        }
        if n == 5 {
            assert(decimal(5) == seq![digit_char(5)]);
            assert(seq!['F'] + decimal(5) =~= seq!['F', '5']);
            assert(function_keys()[4] == KeyCode::F5);
        }
        if n == 6 {
            assert(decimal(6) == seq![digit_char(6)]);
            assert(seq!['F'] + decimal(6) =~= seq!['F', '6']);
            assert(function_keys()[5] == KeyCode::F6);
        }
        if n == 7 {
            assert(decimal(7) == seq![digit_char(7)]);
            assert(seq!['F'] + decimal(7) =~= seq!['F', '7']);
            assert(function_keys()[6] == KeyCode::F7);
        }
        if n == 8 {
            assert(decimal(8) == seq![digit_char(8)]);
            assert(seq!['F'] + decimal(8) =~= seq!['F', '8']);
            assert(function_keys()[7] == KeyCode::F8);
        }
        if n == 9 {
            assert(decimal(9) == seq![digit_char(9)]);
            assert(seq!['F'] + decimal(9) =~= seq!['F', '9']);
            assert(function_keys()[8] == KeyCode::F9);
        }
        if n == 10 {
            assert(decimal(10) == decimal(1).push(digit_char(0)));
            assert(decimal(1) == seq![digit_char(1)]);
            assert(seq!['F'] + decimal(10) =~= seq!['F', '1', '0']);
            assert(function_keys()[9] == KeyCode::F10);
        }
        if n == 11 {
            assert(decimal(11) == decimal(1).push(digit_char(1)));
            assert(decimal(1) == seq![digit_char(1)]);
            assert(seq!['F'] + decimal(11) =~= seq!['F', '1', '1']);
            assert(function_keys()[10] == KeyCode::F11);
        }
        if n == 12 {
            assert(decimal(12) == decimal(1).push(digit_char(2)));
            assert(decimal(1) == seq![digit_char(1)]);
            assert(seq!['F'] + decimal(12) =~= seq!['F', '1', '2']);
            assert(function_keys()[11] == KeyCode::F12);
        }
        if n == 13 {
            assert(decimal(13) == decimal(1).push(digit_char(3)));
            assert(decimal(1) == seq![digit_char(1)]);
            assert(seq!['F'] + decimal(13) =~= seq!['F', '1', '3']);
            assert(function_keys()[12] == KeyCode::F13);
        }
        if n == 14 {
            assert(decimal(14) == decimal(1).push(digit_char(4)));
            assert(decimal(1) == seq![digit_char(1)]);
            assert(seq!['F'] + decimal(14) =~= seq!['F', '1', '4']);
            assert(function_keys()[13] == KeyCode::F14);
        }
        if n == 15 {
            assert(decimal(15) == decimal(1).push(digit_char(5)));
            assert(decimal(1) == seq![digit_char(1)]);
            assert(seq!['F'] + decimal(15) =~= seq!['F', '1', '5']);
            assert(function_keys()[14] == KeyCode::F15);
        }
        if n == 16 {
            assert(decimal(16) == decimal(1).push(digit_char(6)));
            assert(decimal(1) == seq![digit_char(1)]);
            assert(seq!['F'] + decimal(16) =~= seq!['F', '1', '6']);
            assert(function_keys()[15] == KeyCode::F16);
        }
        if n == 17 {
            assert(decimal(17) == decimal(1).push(digit_char(7)));
            assert(decimal(1) == seq![digit_char(1)]);
            assert(seq!['F'] + decimal(17) =~= seq!['F', '1', '7']);
            assert(function_keys()[16] == KeyCode::F17);
        }
        if n == 18 {
            assert(decimal(18) == decimal(1).push(digit_char(8)));
            assert(decimal(1) == seq![digit_char(1)]);
            assert(seq!['F'] + decimal(18) =~= seq!['F', '1', '8']);
            assert(function_keys()[17] == KeyCode::F18);
        }
        if n == 19 {
            assert(decimal(19) == decimal(1).push(digit_char(9)));
            assert(decimal(1) == seq![digit_char(1)]);
            assert(seq!['F'] + decimal(19) =~= seq!['F', '1', '9']);
            assert(function_keys()[18] == KeyCode::F19);
        }
        if n == 20 {
            assert(decimal(20) == decimal(2).push(digit_char(0)));
            assert(decimal(2) == seq![digit_char(2)]);
            assert(seq!['F'] + decimal(20) =~= seq!['F', '2', '0']);
            assert(function_keys()[19] == KeyCode::F20);
        }
        if n == 21 {
            assert(decimal(21) == decimal(2).push(digit_char(1)));
            assert(decimal(2) == seq![digit_char(2)]);
            assert(seq!['F'] + decimal(21) =~= seq!['F', '2', '1']);
            assert(function_keys()[20] == KeyCode::F21);
        }
        if n == 22 {
            assert(decimal(22) == decimal(2).push(digit_char(2)));
            assert(decimal(2) == seq![digit_char(2)]);
            assert(seq!['F'] + decimal(22) =~= seq!['F', '2', '2']);
            assert(function_keys()[21] == KeyCode::F22);
        }
        if n == 23 {
            assert(decimal(23) == decimal(2).push(digit_char(3)));
            assert(decimal(2) == seq![digit_char(2)]);
            assert(seq!['F'] + decimal(23) =~= seq!['F', '2', '3']);
            assert(function_keys()[22] == KeyCode::F23);
        }
        if n == 24 {
            assert(decimal(24) == decimal(2).push(digit_char(4)));
            assert(decimal(2) == seq![digit_char(2)]);
            assert(seq!['F'] + decimal(24) =~= seq!['F', '2', '4']);
            assert(function_keys()[23] == KeyCode::F24);
        }
    lemma_key_label(function_keys()[n - 1]);
}

/// The digit key of `d` is written as the digit `d`, the value `d` names
/// it, and that text reads back as it.
pub proof fn law_digit_key_labels(d: nat)
    requires
        d < 10,
    ensures
        num_key_spec(d) == digit_keys()[d as int],
        key_label(digit_keys()[d as int]) == decimal(d),
        code_from_upper_spec(upper_ascii(decimal(d))) == Some(digit_keys()[d as int]),
{
        if d == 0 {
            assert(decimal(0) =~= seq!['0']);
            assert(digit_keys()[0] == KeyCode::Digit0);
        }
        if d == 1 {
            assert(decimal(1) =~= seq!['1']);
            assert(digit_keys()[1] == KeyCode::Digit1);
        }
        if d == 2 {
            assert(decimal(2) =~= seq!['2']);
            assert(digit_keys()[2] == KeyCode::Digit2);
        }
        if d == 3 {
            assert(decimal(3) =~= seq!['3']);
            assert(digit_keys()[3] == KeyCode::Digit3);
        }
        if d == 4 {
            assert(decimal(4) =~= seq!['4']);
            assert(digit_keys()[4] == KeyCode::Digit4);
        }
        if d == 5 {
            assert(decimal(5) =~= seq!['5']);
            assert(digit_keys()[5] == KeyCode::Digit5);
        }
        if d == 6 {
            assert(decimal(6) =~= seq!['6']);
            assert(digit_keys()[6] == KeyCode::Digit6);
        }
        if d == 7 {
            assert(decimal(7) =~= seq!['7']);
            assert(digit_keys()[7] == KeyCode::Digit7);
        }
        if d == 8 {
            assert(decimal(8) =~= seq!['8']);
            assert(digit_keys()[8] == KeyCode::Digit8);
        }
        if d == 9 {
            assert(decimal(9) =~= seq!['9']);
            assert(digit_keys()[9] == KeyCode::Digit9);
        }
    lemma_key_label(digit_keys()[d as int]);
}

/// The i-th letter key is written as the i-th capital letter, that letter
/// names it, and the letter reads back as it.
pub proof fn law_letter_key_labels(i: int)
    requires
        0 <= i < 26,
    ensures
        letter_key_spec(key_letters()[i]) == letter_keys()[i],
        key_label(letter_keys()[i]) == seq![key_letters()[i]],
        code_from_upper_spec(upper_ascii(seq![key_letters()[i]])) == Some(letter_keys()[i]),
{
        if i == 0 {
            assert(letter_keys()[0] == KeyCode::KeyA && key_letters()[0] == 'A');
        }
        if i == 1 {
            assert(letter_keys()[1] == KeyCode::KeyB && key_letters()[1] == 'B');
        }
        if i == 2 {
            assert(letter_keys()[2] == KeyCode::KeyC && key_letters()[2] == 'C');
        }
        if i == 3 {
            assert(letter_keys()[3] == KeyCode::KeyD && key_letters()[3] == 'D');
        }
        if i == 4 {
            assert(letter_keys()[4] == KeyCode::KeyE && key_letters()[4] == 'E');
        }
        if i == 5 {
            assert(letter_keys()[5] == KeyCode::KeyF && key_letters()[5] == 'F');
        }
        if i == 6 {
            assert(letter_keys()[6] == KeyCode::KeyG && key_letters()[6] == 'G');
        }
        if i == 7 {
            assert(letter_keys()[7] == KeyCode::KeyH && key_letters()[7] == 'H');
        }
        if i == 8 {
            assert(letter_keys()[8] == KeyCode::KeyI && key_letters()[8] == 'I');
        }
        if i == 9 {
            assert(letter_keys()[9] == KeyCode::KeyJ && key_letters()[9] == 'J');
        }
        if i == 10 {
            assert(letter_keys()[10] == KeyCode::KeyK && key_letters()[10] == 'K');
        }
        if i == 11 {
            assert(letter_keys()[11] == KeyCode::KeyL && key_letters()[11] == 'L');
        }
        if i == 12 {
            assert(letter_keys()[12] == KeyCode::KeyM && key_letters()[12] == 'M');
        }
        if i == 13 {
            assert(letter_keys()[13] == KeyCode::KeyN && key_letters()[13] == 'N');
        }
        if i == 14 {
            assert(letter_keys()[14] == KeyCode::KeyO && key_letters()[14] == 'O');
        }
        if i == 15 {
            assert(letter_keys()[15] == KeyCode::KeyP && key_letters()[15] == 'P');
        }
        if i == 16 {
            assert(letter_keys()[16] == KeyCode::KeyQ && key_letters()[16] == 'Q');
        }
        if i == 17 {
            assert(letter_keys()[17] == KeyCode::KeyR && key_letters()[17] == 'R');
        }
        if i == 18 {
            assert(letter_keys()[18] == KeyCode::KeyS && key_letters()[18] == 'S');
        }
        if i == 19 {
            assert(letter_keys()[19] == KeyCode::KeyT && key_letters()[19] == 'T');
        }
        if i == 20 {
            assert(letter_keys()[20] == KeyCode::KeyU && key_letters()[20] == 'U');
        }
        if i == 21 {
            assert(letter_keys()[21] == KeyCode::KeyV && key_letters()[21] == 'V');
        }
        if i == 22 {
            assert(letter_keys()[22] == KeyCode::KeyW && key_letters()[22] == 'W');
        }
        if i == 23 {
            assert(letter_keys()[23] == KeyCode::KeyX && key_letters()[23] == 'X');
        }
        if i == 24 {
            assert(letter_keys()[24] == KeyCode::KeyY && key_letters()[24] == 'Y');
        }
        if i == 25 {
            assert(letter_keys()[25] == KeyCode::KeyZ && key_letters()[25] == 'Z');
        }
    lemma_key_label(letter_keys()[i]);
}

/// Every modifier name reads back as its modifier.
pub proof fn lemma_modifier_name(m: Modifier)
    ensures
        modifier_name(m).len() > 0,
        all_graphic(modifier_name(m)),
        no_sep(modifier_name(m)),
        modifier_from_lower_spec(lower_ascii(modifier_name(m))) == Some(m),
{
    match m {
        Modifier::Ctrl => {
            assert(lower_ascii(modifier_name(m)) =~= seq!['c', 't', 'r', 'l']);
        },
        Modifier::Alt => {
            assert(lower_ascii(modifier_name(m)) =~= seq!['a', 'l', 't']);
        },
        Modifier::Shift => {
            assert(lower_ascii(modifier_name(m)) =~= seq!['s', 'h', 'i', 'f', 't']);
        },
        Modifier::Win => {
            assert(lower_ascii(modifier_name(m)) =~= seq!['w', 'i', 'n']);
        },
    }
}

/// The canonical modifier list has no repeated modifier.
pub proof fn lemma_canonical_distinct(ms: Seq<Modifier>)
    ensures
        canonical_modifiers(ms).no_duplicates(),
{
    let cm = canonical_modifiers(ms);
    if ms.contains(Modifier::Ctrl) {
        if ms.contains(Modifier::Alt) {
            if ms.contains(Modifier::Shift) {
                if ms.contains(Modifier::Win) {
                    assert(cm =~= seq![Modifier::Ctrl, Modifier::Alt, Modifier::Shift, Modifier::Win]);
                } else {
                    assert(cm =~= seq![Modifier::Ctrl, Modifier::Alt, Modifier::Shift]);
                }
            } else {
                if ms.contains(Modifier::Win) {
                    assert(cm =~= seq![Modifier::Ctrl, Modifier::Alt, Modifier::Win]);
                } else {
                    assert(cm =~= seq![Modifier::Ctrl, Modifier::Alt]);
                }
            }
        } else {
            if ms.contains(Modifier::Shift) {
                if ms.contains(Modifier::Win) {
                    assert(cm =~= seq![Modifier::Ctrl, Modifier::Shift, Modifier::Win]);
                } else {
                    assert(cm =~= seq![Modifier::Ctrl, Modifier::Shift]);
                }
            } else {
                if ms.contains(Modifier::Win) {
                    assert(cm =~= seq![Modifier::Ctrl, Modifier::Win]);
                } else {
                    assert(cm =~= seq![Modifier::Ctrl]);
                }
            }
        }
    } else {
        if ms.contains(Modifier::Alt) {
            if ms.contains(Modifier::Shift) {
                if ms.contains(Modifier::Win) {
                    assert(cm =~= seq![Modifier::Alt, Modifier::Shift, Modifier::Win]);
                } else {
                    assert(cm =~= seq![Modifier::Alt, Modifier::Shift]);
                }
            } else {
                if ms.contains(Modifier::Win) {
                    assert(cm =~= seq![Modifier::Alt, Modifier::Win]);
                } else {
                    assert(cm =~= seq![Modifier::Alt]);
                }
            }
        } else {
            if ms.contains(Modifier::Shift) {
                if ms.contains(Modifier::Win) {
                    assert(cm =~= seq![Modifier::Shift, Modifier::Win]);
                } else {
                    assert(cm =~= seq![Modifier::Shift]);
                }
            } else {
                if ms.contains(Modifier::Win) {
                    assert(cm =~= seq![Modifier::Win]);
                } else {
                    assert(cm =~= Seq::<Modifier>::empty());
                }
            }
        }
    }
}

/// Appending text without separators extends the last part.
pub proof fn lemma_split_append(x: Seq<char>, y: Seq<char>)
    requires
        no_sep(y),
    ensures
        split_spec(x + y) == split_spec(x).update(
            split_spec(x).len() - 1,
            split_spec(x).last() + y,
        ),
    decreases y.len(),
{
    lemma_split_nonempty(x);
    let sx = split_spec(x);
    if y.len() == 0 {
        assert(x + y =~= x);
        assert(sx.last() + y =~= sx.last());
        assert(sx.update(sx.len() - 1, sx.last() + y) =~= sx);
    } else {
        let y2 = y.drop_last();
        assert(no_sep(y2)) by {
            assert forall|i: int| 0 <= i < y2.len() implies !is_sep(#[trigger] y2[i]) by {
                assert(y2[i] == y[i]);
            }
        }
        lemma_split_append(x, y2);
        assert((x + y).drop_last() =~= x + y2);
        assert((x + y).last() == y.last());
        assert(!is_sep(y[y.len() - 1]));
        let r = split_spec(x + y2);
        assert(r.last() == sx.last() + y2);
        assert(r.last().push(y.last()) =~= sx.last() + y);
        assert(split_spec(x + y) =~= sx.update(sx.len() - 1, sx.last() + y));
    }
}

/// Splitting joined separator-free parts gives the parts back.
pub proof fn lemma_split_join(parts: Seq<Seq<char>>)
    requires
        parts.len() >= 1,
        forall|i: int| 0 <= i < parts.len() ==> no_sep(#[trigger] parts[i]),
    ensures
        split_spec(join_spec(parts)) == parts,
    decreases parts.len(),
{
    if parts.len() == 1 {
        let e = Seq::<char>::empty();
        assert(no_sep(parts[0]));
        lemma_split_append(e, parts[0]);
        assert(e + parts[0] =~= parts[0]);
        assert(split_spec(e) == seq![e]);
        assert(split_spec(parts[0]) =~= parts);
    } else {
        let init = parts.drop_last();
        assert forall|i: int| 0 <= i < init.len() implies no_sep(#[trigger] init[i]) by {
            assert(init[i] == parts[i]);
        }
        lemma_split_join(init);
        let j = join_spec(init).push('+');
        assert(j.drop_last() =~= join_spec(init));
        assert(j.last() == '+');
        assert(split_spec(j) =~= init.push(Seq::<char>::empty()));
        assert(no_sep(parts[parts.len() - 1]));
        lemma_split_append(j, parts.last());
        assert(Seq::<char>::empty() + parts.last() =~= parts.last());
        assert(split_spec(join_spec(parts)) =~= parts);
    }
}

/// Joining visible ASCII parts gives a visible ASCII text.
pub proof fn lemma_join_graphic(parts: Seq<Seq<char>>)
    requires
        forall|i: int| 0 <= i < parts.len() ==> all_graphic(#[trigger] parts[i]),
    ensures
        all_graphic(join_spec(parts)),
    decreases parts.len(),
{
    if parts.len() == 1 {
        assert(all_graphic(parts[0]));
    } else if parts.len() > 1 {
        let init = parts.drop_last();
        assert forall|i: int| 0 <= i < init.len() implies all_graphic(#[trigger] init[i]) by {
            assert(init[i] == parts[i]);
        }
        lemma_join_graphic(init);
        let a = join_spec(init).push('+');
        let b = parts.last();
        assert(all_graphic(parts[parts.len() - 1]));
        assert forall|i: int| 0 <= i < (a + b).len() implies is_graphic(#[trigger] (a + b)[i]) by {
            if i < join_spec(init).len() {
                assert((a + b)[i] == join_spec(init)[i]);
            } else if i == join_spec(init).len() {
                assert((a + b)[i] == '+');
            } else {
                assert((a + b)[i] == b[i - a.len()]);
            }
        }
    }
}

/// Scanning the names of distinct modifiers recognises each of them and no
/// main key.
pub proof fn lemma_scan_modifiers(ms: Seq<Modifier>)
    requires
        ms.no_duplicates(),
    ensures
        scan_parts(names_of(ms), lower_ascii_all(names_of(ms))) == Ok::<
            (Seq<Modifier>, Option<int>),
            ParseFailure,
        >((ms, None)),
    decreases ms.len(),
{
    let tp = names_of(ms);
    if ms.len() == 0 {
        assert(tp.len() == 0);
        assert(ms =~= Seq::<Modifier>::empty());
    } else {
        let m0 = ms.drop_last();
        assert(m0.no_duplicates());
        lemma_scan_modifiers(m0);
        assert(tp.drop_last() =~= names_of(m0));
        assert(lower_ascii_all(tp).drop_last() =~= lower_ascii_all(names_of(m0)));
        lemma_modifier_name(ms.last());
        assert(lower_ascii_all(tp)[tp.len() - 1] == lower_ascii(modifier_name(ms.last())));
        assert(!m0.contains(ms.last()));
        assert(m0.push(ms.last()) =~= ms);
    }
}

/// Formatting a hotkey and parsing the text back gives the same main key
/// and the same modifiers, in canonical order (Ctrl, Alt, Shift, Win). The
/// formatted text is visible ASCII, so `parse` reads it as `parse_plain`
/// says.
pub proof fn law_format_then_parse(v: (Seq<Modifier>, KeyCode))
    ensures
        all_graphic(format_spec(v)),
        parse_plain(format_spec(v)) == Ok::<(Seq<Modifier>, KeyCode), ParseFailure>(
            (canonical_modifiers(v.0), v.1),
        ),
{
    let cm = canonical_modifiers(v.0);
    lemma_canonical_distinct(v.0);
    let parts = format_parts(v);
    let n = parts.len() - 1;
    lemma_key_label(v.1);
    assert forall|i: int| 0 <= i < parts.len() implies no_sep(#[trigger] parts[i]) && all_graphic(
        parts[i],
    ) by {
        if i < n {
            lemma_modifier_name(cm[i]);
            assert(parts[i] == modifier_name(cm[i]));
        } else {
            assert(parts[i] == key_label(v.1));
        }
    }
    lemma_split_join(parts);
    lemma_join_graphic(parts);
    lemma_scan_modifiers(cm);
    let lp = lower_ascii_all(parts);
    assert(parts.drop_last() =~= names_of(cm));
    assert(lp.drop_last() =~= lower_ascii_all(names_of(cm)));
    assert(lp[n] == lower_ascii(key_label(v.1)));
    assert(scan_parts(parts, lp) == Ok::<(Seq<Modifier>, Option<int>), ParseFailure>(
        (cm, Some(n)),
    ));
    assert(upper_ascii_all(parts)[n] == upper_ascii(key_label(v.1)));
}

/// A modifier occurs in the canonical list exactly when it occurs in the
/// list it was made from.
proof fn lemma_canonical_members(ms: Seq<Modifier>, m: Modifier)
    ensures
        canonical_modifiers(ms).contains(m) <==> ms.contains(m),
{
    let a = if ms.contains(Modifier::Ctrl) { seq![Modifier::Ctrl] } else { Seq::<Modifier>::empty() };
    let b = if ms.contains(Modifier::Alt) { seq![Modifier::Alt] } else { Seq::<Modifier>::empty() };
    let c = if ms.contains(Modifier::Shift) { seq![Modifier::Shift] } else { Seq::<Modifier>::empty() };
    let d = if ms.contains(Modifier::Win) { seq![Modifier::Win] } else { Seq::<Modifier>::empty() };
    let all = a + b + c + d;
    assert(canonical_modifiers(ms) == all);
    if ms.contains(m) {
        match m {
            Modifier::Ctrl => assert(all[0] == m),
            Modifier::Alt => assert(all[a.len() as int] == m),
            Modifier::Shift => assert(all[(a.len() + b.len()) as int] == m),
            Modifier::Win => assert(all[(a.len() + b.len() + c.len()) as int] == m),
        }
    }
    if all.contains(m) {
        let i = choose|i: int| 0 <= i < all.len() && all[i] == m;
        if i < a.len() {
            assert(a[i] == m);
        } else if i < a.len() + b.len() {
            assert(b[i - a.len()] == m);
        } else if i < a.len() + b.len() + c.len() {
            assert(c[i - a.len() - b.len()] == m);
        } else {
            assert(d[i - a.len() - b.len() - c.len()] == m);
        }
    }
}

/// Formatting is stable under a round trip: parsing a formatted hotkey and
/// formatting the result again gives the same text.
pub proof fn law_format_parse_format(v: (Seq<Modifier>, KeyCode))
    ensures
        parse_plain(format_spec(v)) is Ok,
        format_spec(parse_plain(format_spec(v))->Ok_0) == format_spec(v),
{
    law_format_then_parse(v);
    let c = canonical_modifiers(v.0);
    lemma_canonical_members(v.0, Modifier::Ctrl);
    lemma_canonical_members(v.0, Modifier::Alt);
    lemma_canonical_members(v.0, Modifier::Shift);
    lemma_canonical_members(v.0, Modifier::Win);
    assert(canonical_modifiers(c) =~= c);
}

} // verus!
