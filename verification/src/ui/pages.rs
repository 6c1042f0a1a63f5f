//! State of the interface pages and the small decisions they make: hotkey
//! recording, the monitor page's brightness cache, and the rule editor of
//! the settings page.

use vstd::prelude::*;
use crate::common::{DisplayParams, MonitorInfo};
use crate::config::{GameRule, HotkeyAction, Language, Profile, ProfileView};
use crate::ui::i18n::{entries_of, lookup, Tr};
use crate::profile::views;
use crate::hotkey::{
    canonical_modifiers, format_parts, format_spec, join_spec, key_label, law_format_parse_format,
    law_format_then_parse, lemma_key_label, modifier_name, names_of, parse_plain, KeyCode, Modifier,
    ParseFailure,
};
use crate::text::{
    all_graphic, chars_of, decimal, is_alpha, is_digit, lemma_digits_value_decimal, parse_u8, parse_u8_spec,
    push_char, push_decimal, str_eq, string_of,
};

verus! {

// ---------------------------------------------------------------
// Hotkey page
// ---------------------------------------------------------------

/// How the hotkey page names an action: its label, and for a profile the
/// profile's name (its id when the profile is gone) after a colon.
pub open spec fn action_text(lang: Language, action: HotkeyAction, name: Option<Seq<char>>) -> Seq<char> {
    match action {
        HotkeyAction::RestoreDefault => lookup(entries_of(lang), "hotkey.action.restore_default"@),
        HotkeyAction::ShowWindow => lookup(entries_of(lang), "hotkey.action.show_window"@),
        HotkeyAction::ApplyProfile { profile_id } => lookup(entries_of(lang), "hotkey.action.apply_profile"@)
            + ": "@ + match name {
            Some(n) => n,
            None => profile_id@,
        },
    }
}

/// The label of a binding's action; `profile_name` is the name of the
/// profile the action applies, when that profile exists.
pub fn action_label(tr: &Tr, action: &HotkeyAction, profile_name: Option<&str>) -> (r: String)
    ensures
        r@ == action_text(tr.language(), *action, match profile_name {
            Some(n) => Some(n@),
            None => None,
        }),
{
    match action {
        HotkeyAction::RestoreDefault => tr.t("hotkey.action.restore_default"),
        HotkeyAction::ShowWindow => tr.t("hotkey.action.show_window"),
        HotkeyAction::ApplyProfile { profile_id } => {
            let mut s = tr.t("hotkey.action.apply_profile");
            s.append(": ");
            match profile_name {
                Some(n) => s.append(n),
                None => s.append(profile_id.as_str()),
            }
            s
        },
    }
}

/// The display page's note on the profile in effect: its name (its id when
/// the profile is gone) after the label, or "custom" when parameters were
/// set by hand.
pub open spec fn current_text(lang: Language, current: Option<Seq<char>>, name: Option<Seq<char>>) -> Seq<char> {
    match current {
        Some(id) => lookup(entries_of(lang), "header.current_profile"@) + ": "@ + match name {
            Some(n) => n,
            None => id,
        },
        None => lookup(entries_of(lang), "header.custom"@),
    }
}

/// The note on the profile in effect; `profile_name` is that profile's
/// name, when it exists.
pub fn current_profile_label(tr: &Tr, current: Option<&str>, profile_name: Option<&str>) -> (r: String)
    ensures
        r@ == current_text(tr.language(), match current {
            Some(c) => Some(c@),
            None => None,
        }, match profile_name {
            Some(n) => Some(n@),
            None => None,
        }),
{
    match current {
        Some(id) => {
            let mut s = tr.t("header.current_profile");
            s.append(": ");
            match profile_name {
                Some(n) => s.append(n),
                None => s.append(id),
            }
            s
        },
        None => tr.t("header.custom"),
    }
}

/// What a key pressed while a hotkey is being recorded does.
#[derive(Debug, PartialEq, Eq)]
pub enum KeyPress {
    /// Escape: recording stops without a change.
    Cancel,
    /// A modifier alone, a key that has no hotkey name, or a key without
    /// any modifier: recording goes on.
    Skip,
    /// The hotkey text recorded.
    Record(String),
}

/// Whether a key name is that of a modifier key itself.
pub open spec fn is_modifier_name(name: Seq<char>) -> bool {
    name == "ControlLeft"@ || name == "ControlRight"@ || name == "AltLeft"@ || name == "AltRight"@
        || name == "ShiftLeft"@ || name == "ShiftRight"@ || name == "SuperLeft"@ || name == "SuperRight"@
}

/// What a key press does while recording: Escape cancels; a modifier key
/// alone, a key without a hotkey name, or a key pressed without Ctrl, Alt
/// or Shift is skipped; otherwise the hotkey text is recorded.
pub open spec fn key_press_spec(name: Seq<char>, ctrl: bool, alt: bool, shift: bool) -> Option<Option<Seq<char>>> {
    if name == "Escape"@ {
        None
    } else if is_modifier_name(name) {
        Some(None)
    } else {
        match main_key_spec(name) {
            None => Some(None),
            Some(k) => Some(recorded_spec(ctrl, alt, shift, k)),
        }
    }
}

/// What a key press does while a hotkey is being recorded, from the key's
/// name and the modifiers held (see `key_press_spec`: `None` cancels,
/// `Some(None)` skips).
pub fn key_press(name: &str, ctrl: bool, alt: bool, shift: bool) -> (r: KeyPress)
    ensures
        key_press_spec(name@, ctrl, alt, shift) == match r {
            KeyPress::Cancel => None,
            KeyPress::Skip => Some(None),
            KeyPress::Record(t) => Some(Some(t@)),
        },
{
    if str_eq(name, "Escape") {
        return KeyPress::Cancel;
    }
    if str_eq(name, "ControlLeft") || str_eq(name, "ControlRight") || str_eq(name, "AltLeft")
        || str_eq(name, "AltRight") || str_eq(name, "ShiftLeft") || str_eq(name, "ShiftRight")
        || str_eq(name, "SuperLeft") || str_eq(name, "SuperRight") {
        return KeyPress::Skip;
    }
    let main = match main_key_name(name) {
        None => {
            return KeyPress::Skip;
        },
        Some(m) => m,
    };
    match recorded_hotkey(ctrl, alt, shift, main.as_str()) {
        None => KeyPress::Skip,
        Some(t) => KeyPress::Record(t),
    }
}

/// Recording of a new hotkey for a binding.
#[derive(Debug, Clone, Copy, PartialEq, Eq, Structural)]
pub struct HotkeyEditState {
    /// Position of the binding being edited in the configured list.
    pub index: usize,
}

/// The name a hotkey uses for a key, from the key's name on the keyboard
/// (`A`, `Num1`, `F12`, ...): a single ASCII letter as it is, `Num` and a
/// digit as the digit, `F` and a number from 1 to 24 as it is. Other keys
/// have no hotkey name.
pub open spec fn main_key_spec(name: Seq<char>) -> Option<Seq<char>> {
    if name.len() == 1 && is_alpha(name[0]) {
        Some(name)
    } else if name.len() == 4 && name[0] == 'N' && name[1] == 'u' && name[2] == 'm' && is_digit(
        name[3],
    ) {
        Some(seq![name[3]])
    } else if name.len() > 1 && name[0] == 'F' && (parse_u8_spec(name.drop_first()) matches Some(n)
        && 1 <= n <= 24) {
        Some(name)
    } else {
        None
    }
}

/// The view of an optional text.
pub open spec fn opt_chars(s: Option<String>) -> Option<Seq<char>> {
    match s {
        Some(t) => Some(t@),
        None => None,
    }
}

/// The hotkey name of a key, from the key's name.
pub fn main_key_name(name: &str) -> (r: Option<String>)
    ensures
        opt_chars(r) == main_key_spec(name@),
{
    let cs = chars_of(name);
    let n = cs.len();
    if n == 1 && (('A' <= cs[0] && cs[0] <= 'Z') || ('a' <= cs[0] && cs[0] <= 'z')) {
        return Some(String::from_str(name));
    }
    if n == 4 && cs[0] == 'N' && cs[1] == 'u' && cs[2] == 'm' && '0' <= cs[3] && cs[3] <= '9' {
        let mut d = String::new();
        push_char(&mut d, cs[3]);
        assert(d@ =~= seq![name@[3]]);
        return Some(d);
    }
    if n > 1 && cs[0] == 'F' {
        let rest = string_of(vstd::slice::slice_subrange(cs.as_slice(), 1, n));
        assert(rest@ =~= name@.drop_first());
        match parse_u8(rest.as_str()) {
            Some(v) => {
                if 1 <= v && v <= 24 {
                    return Some(String::from_str(name));
                }
            },
            None => {},
        }
    }
    None
}

/// The hotkey text recorded from a key press: the pressed modifiers in the
/// order Ctrl, Alt, Shift, then the key, joined by `+`. Without any of
/// these modifiers nothing is recorded (a global hotkey without a modifier
/// would take the key from every program).
pub open spec fn recorded_spec(ctrl: bool, alt: bool, shift: bool, key: Seq<char>) -> Option<
    Seq<char>,
> {
    if !(ctrl || alt || shift) {
        None
    } else {
        Some(
            (if ctrl { "Ctrl+"@ } else { Seq::empty() }) + (if alt { "Alt+"@ } else { Seq::empty() })
                + (if shift { "Shift+"@ } else { Seq::empty() }) + key,
        )
    }
}

/// The hotkey text of a key press with the given modifiers.
pub fn recorded_hotkey(ctrl: bool, alt: bool, shift: bool, key: &str) -> (r: Option<String>)
    ensures
        opt_chars(r) == recorded_spec(ctrl, alt, shift, key@),
{
    if !(ctrl || alt || shift) {
        return None;
    }
    let mut s = String::new();
    if ctrl {
        s.append("Ctrl+");
    }
    if alt {
        s.append("Alt+");
    }
    if shift {
        s.append("Shift+");
    }
    s.append(key);
    assert(s@ =~= recorded_spec(ctrl, alt, shift, key@).unwrap());
    Some(s)
}

/// The modifiers of a recorded hotkey, in the order they are written:
/// Ctrl, Alt, Shift.
pub open spec fn recorded_modifiers(ctrl: bool, alt: bool, shift: bool) -> Seq<Modifier> {
    (if ctrl { seq![Modifier::Ctrl] } else { Seq::empty() }) + (if alt { seq![Modifier::Alt] } else {
        Seq::empty()
    }) + (if shift { seq![Modifier::Shift] } else { Seq::empty() })
}

/// A recorded hotkey text is canonical: when a key press with at least one
/// of Ctrl, Alt and Shift names a key by its label, the text recorded is
/// the canonical text of that hotkey, parsing it gives the modifiers and
/// the key back, and formatting the parsed hotkey gives the same text.
pub proof fn law_recorded_text_is_canonical(name: Seq<char>, ctrl: bool, alt: bool, shift: bool, k: KeyCode)
    requires
        ctrl || alt || shift,
        main_key_spec(name) == Some(key_label(k)),
    ensures
        key_press_spec(name, ctrl, alt, shift) == Some(Some(format_spec((recorded_modifiers(ctrl, alt, shift), k)))),
        all_graphic(format_spec((recorded_modifiers(ctrl, alt, shift), k))),
        parse_plain(format_spec((recorded_modifiers(ctrl, alt, shift), k))) == Ok::<
            (Seq<Modifier>, KeyCode),
            ParseFailure,
        >((recorded_modifiers(ctrl, alt, shift), k)),
        format_spec((recorded_modifiers(ctrl, alt, shift), k)) == format_spec(
            parse_plain(format_spec((recorded_modifiers(ctrl, alt, shift), k)))->Ok_0,
        ),
{
    let ms = recorded_modifiers(ctrl, alt, shift);
    let v = (ms, k);
    let key = key_label(k);
    reveal_strlit("Escape");
    reveal_strlit("ControlLeft");
    reveal_strlit("ControlRight");
    reveal_strlit("AltLeft");
    reveal_strlit("AltRight");
    reveal_strlit("ShiftLeft");
    reveal_strlit("ShiftRight");
    reveal_strlit("SuperLeft");
    reveal_strlit("SuperRight");
    reveal_strlit("Ctrl+");
    reveal_strlit("Alt+");
    reveal_strlit("Shift+");
    lemma_key_label(k);
    assert(name.len() == 1 || name.len() == 4 || name[0] == 'F');
    if name.len() == 4 {
        assert(name[0] == 'N');
    }
    assert(name != "Escape"@ && !is_modifier_name(name)) by {
        if name.len() > 1 {
            assert(name[0] == 'F' || name[0] == 'N');
        }
    }
    assert(canonical_modifiers(ms) =~= ms) by {
        lemma_recorded_contains(ctrl, alt, shift);
    }
    let n = names_of(ms);
    let parts = n.push(key);
    assert(format_parts(v) == parts);
    let text = recorded_spec(ctrl, alt, shift, key).unwrap();
    let c = modifier_name(Modifier::Ctrl);
    let l = modifier_name(Modifier::Alt);
    let h = modifier_name(Modifier::Shift);
    if ctrl && alt && shift {
        assert(parts =~= seq![c, l, h, key]);
        lemma_join_step(seq![c, l], h);
        lemma_join_step(seq![c, l, h], key);
        lemma_join_step(seq![c], l);
        assert(join_spec(seq![c]) == c);
        assert(seq![c, l].push(h) =~= seq![c, l, h]);
        assert(seq![c, l, h].push(key) =~= parts);
        assert(seq![c].push(l) =~= seq![c, l]);
    } else if ctrl && alt {
        assert(parts =~= seq![c, l, key]);
        lemma_join_step(seq![c], l);
        lemma_join_step(seq![c, l], key);
        assert(join_spec(seq![c]) == c);
        assert(seq![c, l].push(key) =~= parts);
        assert(seq![c].push(l) =~= seq![c, l]);
    } else if ctrl && shift {
        assert(parts =~= seq![c, h, key]);
        lemma_join_step(seq![c], h);
        lemma_join_step(seq![c, h], key);
        assert(join_spec(seq![c]) == c);
        assert(seq![c, h].push(key) =~= parts);
        assert(seq![c].push(h) =~= seq![c, h]);
    } else if alt && shift {
        assert(parts =~= seq![l, h, key]);
        lemma_join_step(seq![l], h);
        lemma_join_step(seq![l, h], key);
        assert(join_spec(seq![l]) == l);
        assert(seq![l, h].push(key) =~= parts);
        assert(seq![l].push(h) =~= seq![l, h]);
    } else if ctrl {
        assert(parts =~= seq![c, key]);
        lemma_join_step(seq![c], key);
        assert(join_spec(seq![c]) == c);
        assert(seq![c].push(key) =~= parts);
    } else if alt {
        assert(parts =~= seq![l, key]);
        lemma_join_step(seq![l], key);
        assert(join_spec(seq![l]) == l);
        assert(seq![l].push(key) =~= parts);
    } else {
        assert(parts =~= seq![h, key]);
        lemma_join_step(seq![h], key);
        assert(join_spec(seq![h]) == h);
        assert(seq![h].push(key) =~= parts);
    }
    assert(join_spec(parts) =~= text);
    law_format_then_parse(v);
    law_format_parse_format(v);
}

/// Joining one more part appends `+` and the part.
proof fn lemma_join_step(ps: Seq<Seq<char>>, x: Seq<char>)
    requires
        ps.len() > 0,
    ensures
        join_spec(ps.push(x)) == join_spec(ps).push('+') + x,
{
    assert(ps.push(x).drop_last() =~= ps);
}

/// Which modifiers the recorded list holds.
proof fn lemma_recorded_contains(ctrl: bool, alt: bool, shift: bool)
    ensures
        recorded_modifiers(ctrl, alt, shift).contains(Modifier::Ctrl) == ctrl,
        recorded_modifiers(ctrl, alt, shift).contains(Modifier::Alt) == alt,
        recorded_modifiers(ctrl, alt, shift).contains(Modifier::Shift) == shift,
        !recorded_modifiers(ctrl, alt, shift).contains(Modifier::Win),
{
    let a = if ctrl { seq![Modifier::Ctrl] } else { Seq::<Modifier>::empty() };
    let b = if alt { seq![Modifier::Alt] } else { Seq::<Modifier>::empty() };
    let c = if shift { seq![Modifier::Shift] } else { Seq::<Modifier>::empty() };
    let ms = a + b + c;
    assert(ms == recorded_modifiers(ctrl, alt, shift));
    if ctrl {
        assert(ms[0] == Modifier::Ctrl);
    }
    if alt {
        assert(ms[a.len() as int] == Modifier::Alt);
    }
    if shift {
        assert(ms[(a.len() + b.len()) as int] == Modifier::Shift);
    }
    assert forall|i: int| 0 <= i < ms.len() implies (ms[i] == Modifier::Ctrl ==> ctrl) && (ms[i] == Modifier::Alt
        ==> alt) && (ms[i] == Modifier::Shift ==> shift) && ms[i] != Modifier::Win by {
        if i < a.len() {
            assert(ms[i] == a[i]);
        } else if i < a.len() + b.len() {
            assert(ms[i] == b[i - a.len()]);
        } else {
            assert(ms[i] == c[i - a.len() - b.len()]);
        }
    }
}

// ---------------------------------------------------------------
// Monitor page
// ---------------------------------------------------------------

/// The brightness shown for a monitor: `current / maximum` when a reading
/// with a positive maximum exists, a dash otherwise.
pub open spec fn brightness_text(v: Option<(u32, u32)>) -> Seq<char> {
    match v {
        Some((cur, max)) => if max > 0 {
            decimal(cur as nat) + " / "@ + decimal(max as nat)
        } else {
            "—"@
        },
        None => "—"@,
    }
}

/// The brightness text of a monitor.
pub fn brightness_label(v: Option<(u32, u32)>) -> (r: String)
    ensures
        r@ == brightness_text(v),
{
    match v {
        Some((cur, max)) => {
            if max > 0 {
                let mut s = String::new();
                push_decimal(&mut s, cur as u128);
                s.append(" / ");
                push_decimal(&mut s, max as u128);
                s
            } else {
                String::from_str("—")
            }
        },
        None => String::from_str("—"),
    }
}

/// The monitor page's cache of brightness readings, by monitor id.
#[derive(Debug)]
pub struct MonitorsPageState {
    brightness_cache: Vec<(String, Option<(u32, u32)>)>,
}

/// The reading cached for the id in a list of entries: the last entry with
/// that id.
pub open spec fn cached_in(s: Seq<(String, Option<(u32, u32)>)>, id: Seq<char>) -> Option<
    Option<(u32, u32)>,
>
    decreases s.len(),
{
    if s.len() == 0 {
        None
    } else if s.last().0@ == id {
        Some(s.last().1)
    } else {
        cached_in(s.drop_last(), id)
    }
}

impl MonitorsPageState {
    /// The cached reading of a monitor id (`None`: nothing cached; the
    /// inner `None`: the monitor gave no reading).
    pub closed spec fn cached(&self, id: Seq<char>) -> Option<Option<(u32, u32)>> {
        cached_in(self.brightness_cache@, id)
    }

    /// Forgets every reading.
    pub fn clear(&mut self)
        ensures
            forall|id: Seq<char>| final(self).cached(id) is None,
    {
        self.brightness_cache = Vec::new();
    }

    /// Remembers the reading of a monitor.
    pub fn remember(&mut self, id: &str, reading: Option<(u32, u32)>)
        ensures
            final(self).cached(id@) == Some(reading),
            forall|other: Seq<char>| other != id@ ==> final(self).cached(other) == old(self).cached(
                other,
            ),
    {
        let ghost before = self.brightness_cache@;
        self.brightness_cache.push((String::from_str(id), reading));
        assert(self.brightness_cache@.drop_last() =~= before);
    }

    /// The cached reading of a monitor.
    pub fn lookup(&self, id: &str) -> (r: Option<Option<(u32, u32)>>)
        ensures
            r == self.cached(id@),
    {
        let mut k: usize = self.brightness_cache.len();
        assert(self.brightness_cache@.subrange(0, k as int) =~= self.brightness_cache@);
        while k > 0
            invariant
                k <= self.brightness_cache@.len(),
                cached_in(self.brightness_cache@, id@) == cached_in(
                    self.brightness_cache@.subrange(0, k as int),
                    id@,
                ),
            decreases k,
        {
            let ghost s = self.brightness_cache@.subrange(0, k as int);
            assert(s.drop_last() =~= self.brightness_cache@.subrange(0, k as int - 1));
            if str_eq(self.brightness_cache[k - 1].0.as_str(), id) {
                return Some(self.brightness_cache[k - 1].1);
            }
            k = k - 1;
        }
        assert(self.brightness_cache@.subrange(0, 0) =~= Seq::<(String, Option<(u32, u32)>)>::empty());
        None
    }
}

impl Default for MonitorsPageState {
    fn default() -> (r: MonitorsPageState)
        ensures
            forall|id: Seq<char>| r.cached(id) is None,
    {
        MonitorsPageState { brightness_cache: Vec::new() }
    }
}

// ---------------------------------------------------------------
// Settings page
// ---------------------------------------------------------------

/// The rule editor of the settings page: a working copy of the game rules,
/// loaded once when the page is first shown.
#[derive(Debug)]
pub struct SettingsPageState {
    /// Working copy of the game rules.
    pub rules: Vec<GameRule>,
    /// Whether the copy has been loaded.
    pub rules_loaded: bool,
}

impl Default for SettingsPageState {
    fn default() -> (r: SettingsPageState)
        ensures
            r.rules@.len() == 0,
            !r.rules_loaded,
    {
        SettingsPageState { rules: Vec::new(), rules_loaded: false }
    }
}

/// The id given to the rule added as the `n`-th: `rule:custom-n`.
pub open spec fn custom_rule_id(n: nat) -> Seq<char> {
    "rule:custom-"@ + decimal(n)
}

/// No two rules of a list share an id.
pub open spec fn rule_ids_distinct(rules: Seq<GameRule>) -> bool {
    forall|i: int, j: int| 0 <= i < j < rules.len() ==> #[trigger] rules[i].id@ != #[trigger] rules[j].id@
}

/// Whether some rule of a list has the id.
pub open spec fn rule_id_taken(rules: Seq<GameRule>, id: Seq<char>) -> bool {
    exists|i: int| 0 <= i < rules.len() && (#[trigger] rules[i]).id@ == id
}

/// The text `rule:custom-n`.
fn custom_rule_text(n: u128) -> (r: String)
    ensures
        r@ == custom_rule_id(n as nat),
{
    let mut id = String::from_str("rule:custom-");
    push_decimal(&mut id, n);
    id
}

/// Whether some rule of a list has the id.
fn rule_id_in(rules: &Vec<GameRule>, id: &str) -> (r: bool)
    ensures
        r == rule_id_taken(rules@, id@),
{
    let mut i: usize = 0;
    while i < rules.len()
        invariant
            i <= rules@.len(),
            forall|j: int| 0 <= j < i ==> (#[trigger] rules@[j]).id@ != id@,
        decreases rules@.len() - i,
    {
        if str_eq(rules[i].id.as_str(), id) {
            return true;
        }
        i = i + 1;
    }
    false
}

/// Different numbers give different custom rule ids.
proof fn lemma_custom_id_injective(a: nat, b: nat)
    requires
        custom_rule_id(a) == custom_rule_id(b),
    ensures
        a == b,
{
    let ra = custom_rule_id(a);
    let rb = custom_rule_id(b);
    let k = "rule:custom-"@.len();
    assert(ra.subrange(k as int, ra.len() as int) =~= decimal(a));
    assert(rb.subrange(k as int, rb.len() as int) =~= decimal(b));
    lemma_digits_value_decimal(a);
    lemma_digits_value_decimal(b);
}

/// If the custom ids numbered `lo` to `lo + count - 1` are all taken, the
/// list holds at least `count` rules.
proof fn lemma_custom_ids_bound(rules: Seq<GameRule>, lo: nat, count: nat)
    requires
        forall|m: nat| lo <= m < lo + count ==> rule_id_taken(rules, #[trigger] custom_rule_id(m)),
    ensures
        count <= rules.len(),
{
    let ids = rules.map_values(|r: GameRule| r.id@);
    let f = |m: int| custom_rule_id(m as nat);
    let range = vstd::set_lib::set_int_range(lo as int, (lo + count) as int);
    let cands = range.map(f);
    vstd::set_lib::lemma_int_range(lo as int, (lo + count) as int);
    assert forall|x: int, y: int| range.contains(x) && range.contains(y) && #[trigger] f(x) == #[trigger] f(
        y,
    ) implies x == y by {
        lemma_custom_id_injective(x as nat, y as nat);
    }
    vstd::set_lib::lemma_map_size(range, cands, f);
    assert forall|x: Seq<char>| cands.contains(x) implies ids.to_set().contains(x) by {
        let m = choose|m: int| range.contains(m) && f(m) == x;
        assert(rule_id_taken(rules, custom_rule_id(m as nat)));
        let i = choose|i: int| 0 <= i < rules.len() && (#[trigger] rules[i]).id@ == custom_rule_id(
            m as nat,
        );
        assert(ids[i] == x);
    }
    ids.lemma_cardinality_of_set();
    vstd::seq_lib::seq_to_set_is_finite(ids);
    vstd::set_lib::lemma_len_subset(cands, ids.to_set());
}

impl SettingsPageState {
    /// Takes a copy of the configured rules the first time; later calls
    /// keep the working copy.
    pub fn load_rules(&mut self, configured: &[GameRule])
        ensures
            old(self).rules_loaded ==> final(self).rules@ == old(self).rules@,
            !old(self).rules_loaded ==> final(self).rules@ == configured@,
            final(self).rules_loaded,
    {
        if !self.rules_loaded {
            let mut v: Vec<GameRule> = Vec::new();
            let mut i: usize = 0;
            while i < configured.len()
                invariant
                    i <= configured@.len(),
                    v@ == configured@.subrange(0, i as int),
                decreases configured@.len() - i,
            {
                v.push(configured[i].clone());
                assert(v@ =~= configured@.subrange(0, i as int + 1));
                i = i + 1;
            }
            assert(configured@.subrange(0, configured@.len() as int) =~= configured@);
            self.rules = v;
            self.rules_loaded = true;
        }
    }

    /// Appends an empty, enabled rule set to the first profile offered (or
    /// to no profile when none is). Its id is `rule:custom-n` for the
    /// smallest `n` above the number of rules that no rule uses yet.
    pub fn add_rule(&mut self, first_profile_id: Option<&str>)
        ensures
            final(self).rules@.len() == old(self).rules@.len() + 1,
            final(self).rules@.drop_last() == old(self).rules@,
            exists|n: nat|
                #![trigger custom_rule_id(n)]
                n > old(self).rules@.len() && final(self).rules@.last().id@ == custom_rule_id(n)
                    && !rule_id_taken(old(self).rules@, custom_rule_id(n)) && forall|m: nat|
                    old(self).rules@.len() < m < n ==> rule_id_taken(
                        old(self).rules@,
                        #[trigger] custom_rule_id(m),
                    ),
            final(self).rules@.last().exe_name@ == Seq::<char>::empty(),
            final(self).rules@.last().profile_id@ == match first_profile_id {
                Some(p) => p@,
                None => Seq::<char>::empty(),
            },
            final(self).rules@.last().enabled,
            final(self).rules_loaded == old(self).rules_loaded,
            rule_ids_distinct(old(self).rules@) ==> rule_ids_distinct(final(self).rules@),
    {
        let len = self.rules.len() as u128;
        let mut n: u128 = len + 1;
        let mut id = custom_rule_text(n);
        while rule_id_in(&self.rules, id.as_str())
            invariant
                len == self.rules@.len(),
                len <= usize::MAX,
                len < n,
                id@ == custom_rule_id(n as nat),
                forall|m: nat| len < m < n ==> rule_id_taken(self.rules@, #[trigger] custom_rule_id(m)),
            decreases 2 * len + 2 - n,
        {
            proof {
                assert forall|m: nat| len < m < n + 1 implies rule_id_taken(
                    self.rules@,
                    #[trigger] custom_rule_id(m),
                ) by {
                    if m == n {
                        assert(custom_rule_id(m) == id@);
                    }
                }
                lemma_custom_ids_bound(self.rules@, len as nat + 1, (n - len) as nat);
            }
            n = n + 1;
            id = custom_rule_text(n);
        }
        let profile = match first_profile_id {
            Some(p) => String::from_str(p),
            None => String::new(),
        };
        let exe = String::new();
        let rule = GameRule::new(id.as_str(), exe.as_str(), profile.as_str());
        let ghost before = self.rules@;
        self.rules.push(rule);
        assert(self.rules@.drop_last() =~= before);
        proof {
            if rule_ids_distinct(before) {
                assert forall|i: int, j: int| 0 <= i < j < self.rules@.len() implies #[trigger] self.rules@[i].id@
                    != #[trigger] self.rules@[j].id@ by {
                    if j == before.len() {
                        assert(before[i] == self.rules@[i]);
                    } else {
                        assert(before[i] == self.rules@[i] && before[j] == self.rules@[j]);
                    }
                }
            }
        }
    }

    /// Removes the rule at the given position.
    pub fn remove_rule(&mut self, index: usize)
        requires
            index < old(self).rules@.len(),
        ensures
            final(self).rules@ == old(self).rules@.remove(index as int),
            final(self).rules_loaded == old(self).rules_loaded,
            rule_ids_distinct(old(self).rules@) ==> rule_ids_distinct(final(self).rules@),
    {
        let ghost before = self.rules@;
        self.rules.remove(index);
        proof {
            if rule_ids_distinct(before) {
                assert forall|i: int, j: int| 0 <= i < j < self.rules@.len() implies #[trigger] self.rules@[i].id@
                    != #[trigger] self.rules@[j].id@ by {
                    let a: int = if i < index { i } else { i + 1 };
                    let b: int = if j < index { j } else { j + 1 };
                    assert(self.rules@[i] == before[a] && self.rules@[j] == before[b]);
                }
            }
        }
    }
}

// ---------------------------------------------------------------
// Display page and header
// ---------------------------------------------------------------

/// The monitor selected after the monitor list changed: none when there is
/// no monitor, the first one when the selected one is gone, otherwise the
/// same (`None`: keep the selection).
pub open spec fn reselection(ids: Seq<Seq<char>>, selected: Seq<char>) -> Option<Seq<char>> {
    if ids.len() == 0 {
        Some(Seq::empty())
    } else if !ids.contains(selected) {
        Some(ids[0])
    } else {
        None
    }
}

/// Which monitor to select after the monitor list changed.
pub fn reselect_monitor(monitors: &[MonitorInfo], selected: &str) -> (r: Option<String>)
    ensures
        opt_chars(r) == reselection(monitors@.map_values(|m: MonitorInfo| m.id@), selected@),
{
    let ghost ids = monitors@.map_values(|m: MonitorInfo| m.id@);
    if monitors.len() == 0 {
        return Some(String::new());
    }
    let mut i: usize = 0;
    while i < monitors.len()
        invariant
            i <= monitors@.len(),
            ids == monitors@.map_values(|m: MonitorInfo| m.id@),
            forall|j: int| 0 <= j < i ==> ids[j] != selected@,
        decreases monitors@.len() - i,
    {
        if str_eq(monitors[i].id.as_str(), selected) {
            assert(ids[i as int] == selected@);
            return None;
        }
        i = i + 1;
    }
    Some(monitors[0].id.clone())
}

/// The name shown for a monitor: the primary one is starred.
pub fn monitor_label(info: &MonitorInfo) -> (r: String)
    ensures
        r@ == if info.is_primary { info.name@ + " ★"@ } else { info.name@ },
{
    let mut s = info.name.clone();
    if info.is_primary {
        s.append(" ★");
    }
    s
}

// ---------------------------------------------------------------
// Profile page
// ---------------------------------------------------------------

/// The profile page: the selected profile and its editable copy, the
/// import text, and the changes to apply once the page is drawn.
#[derive(Debug)]
pub struct ProfilePageState {
    /// Id of the selected profile (empty: none).
    pub selected_id: String,
    /// Editable copy of the selected profile.
    pub edit_buf: Option<Profile>,
    /// How many new profiles have been drafted (their ids count up).
    pub new_counter: u32,
    /// The JSON text typed for import.
    pub import_text: String,
    /// The profile to select once the page is drawn.
    pub pending_replace: Option<Profile>,
    /// Whether to clear the selection once the page is drawn.
    pub pending_clear: bool,
}

impl Default for ProfilePageState {
    fn default() -> (r: ProfilePageState)
        ensures
            r.selected_id@.len() == 0,
            r.edit_buf is None,
            r.drafts() == 0,
            r.import_text@.len() == 0,
            r.pending() is None,
            !r.clearing(),
    {
        ProfilePageState {
            selected_id: String::new(),
            edit_buf: None,
            new_counter: 0,
            import_text: String::new(),
            pending_replace: None,
            pending_clear: false,
        }
    }
}

/// A new profile drafted on the profile page: id `custom-n`, name 新方案,
/// default parameters.
pub open spec fn draft_view(n: nat, params: DisplayParams) -> ProfileView {
    ProfileView {
        id: "custom-"@ + decimal(n),
        name: "新方案"@,
        description: Seq::empty(),
        params,
        hotkey: None,
        builtin: false,
    }
}

/// Whether a profile of the list has the id.
fn holds_id(profiles: &[Profile], id: &str) -> (r: bool)
    ensures
        r == views(profiles@).map_values(|p: ProfileView| p.id).contains(id@),
{
    let ghost ids = views(profiles@).map_values(|p: ProfileView| p.id);
    let mut i: usize = 0;
    while i < profiles.len()
        invariant
            i <= profiles@.len(),
            ids == views(profiles@).map_values(|p: ProfileView| p.id),
            forall|j: int| 0 <= j < i ==> ids[j] != id@,
        decreases profiles@.len() - i,
    {
        if str_eq(profiles[i].id.as_str(), id) {
            assert(ids[i as int] == id@);
            return true;
        }
        i = i + 1;
    }
    false
}

/// The profile drafted as the `n`-th new one on the profile page.
pub fn draft_profile(n: u32) -> (r: Profile)
    ensures
        r@ == draft_view(n as nat, crate::common::default_params()),
{
    let mut id = String::from_str("custom-");
    push_decimal(&mut id, n as u128);
    Profile::new(id.as_str(), "新方案", DisplayParams::default())
}

impl ProfilePageState {
    /// How many new profiles have been drafted.
    pub open spec fn drafts(&self) -> nat {
        self.new_counter as nat
    }

    /// The profile to select once the page is drawn.
    pub open spec fn pending(&self) -> Option<ProfileView> {
        match self.pending_replace {
            Some(p) => Some(p@),
            None => None,
        }
    }

    /// Whether the selection is cleared once the page is drawn.
    pub open spec fn clearing(&self) -> bool {
        self.pending_clear
    }

    /// Makes the selection valid: when nothing or a vanished profile is
    /// selected, the first profile is selected and copied for editing.
    pub fn ensure_selection(&mut self, profiles: &[Profile])
        requires
            profiles@.len() > 0,
        ensures
            (old(self).selected_id@.len() == 0 || !views(profiles@).map_values(|p: ProfileView| p.id).contains(
                old(self).selected_id@,
            )) ==> final(self).selected_id@ == profiles@[0].id@ && final(self).edit_buf == Some(
                profiles@[0],
            ),
            !(old(self).selected_id@.len() == 0 || !views(profiles@).map_values(|p: ProfileView| p.id).contains(
                old(self).selected_id@,
            )) ==> final(self).selected_id == old(self).selected_id && final(self).edit_buf
                == old(self).edit_buf,
            final(self).drafts() == old(self).drafts(),
            final(self).pending() == old(self).pending(),
            final(self).clearing() == old(self).clearing(),
            final(self).import_text == old(self).import_text,
    {
        let found = self.selected_id.as_str().unicode_len() > 0 && holds_id(
            profiles,
            self.selected_id.as_str(),
        );
        if !found {
            self.selected_id = profiles[0].id.clone();
            self.edit_buf = Some(profiles[0].clone());
        }
    }

    /// Selects a profile and copies it for editing.
    pub fn select(&mut self, profile: &Profile)
        ensures
            final(self).selected_id@ == profile.id@,
            final(self).edit_buf == Some(*profile),
            final(self).drafts() == old(self).drafts(),
            final(self).pending() == old(self).pending(),
            final(self).clearing() == old(self).clearing(),
    {
        self.selected_id = profile.id.clone();
        self.edit_buf = Some(profile.clone());
    }

    /// Drafts a new profile: the next number, id `custom-n`, name 新方案,
    /// default parameters.
    pub fn new_draft(&mut self) -> (r: Profile)
        requires
            old(self).drafts() < u32::MAX,
        ensures
            final(self).drafts() == old(self).drafts() + 1,
            r@ == draft_view(final(self).drafts(), crate::common::default_params()),
            final(self).selected_id == old(self).selected_id,
            final(self).edit_buf == old(self).edit_buf,
            final(self).pending() == old(self).pending(),
            final(self).clearing() == old(self).clearing(),
    {
        self.new_counter = self.new_counter + 1;
        draft_profile(self.new_counter)
    }

    /// After the page is drawn, selects this profile.
    pub fn replace_later(&mut self, profile: Profile)
        ensures
            final(self).pending() == Some(profile@),
            final(self).drafts() == old(self).drafts(),
            final(self).clearing() == old(self).clearing(),
            final(self).selected_id == old(self).selected_id,
            final(self).edit_buf == old(self).edit_buf,
    {
        self.pending_replace = Some(profile);
    }

    /// After the page is drawn, clears the selection.
    pub fn clear_later(&mut self)
        ensures
            final(self).clearing(),
            final(self).pending() == old(self).pending(),
            final(self).drafts() == old(self).drafts(),
            final(self).selected_id == old(self).selected_id,
            final(self).edit_buf == old(self).edit_buf,
    {
        self.pending_clear = true;
    }

    /// Applies the changes left for after drawing: a pending profile is
    /// selected, then a pending clear empties the selection.
    pub fn settle(&mut self)
        ensures
            final(self).pending() is None,
            !final(self).clearing(),
            final(self).drafts() == old(self).drafts(),
            old(self).clearing() ==> final(self).selected_id@.len() == 0 && final(self).edit_buf is None,
            !old(self).clearing() && old(self).pending() is Some ==> final(self).selected_id@ == old(
                self,
            ).pending().unwrap().id && (final(self).edit_buf matches Some(p) && p@ == old(
                self,
            ).pending().unwrap()),
            !old(self).clearing() && old(self).pending() is None ==> final(self).selected_id
                == old(self).selected_id && final(self).edit_buf == old(self).edit_buf,
    {
        let pending = self.pending_replace.take();
        match pending {
            Some(p) => {
                self.selected_id = p.id.clone();
                self.edit_buf = Some(p);
            },
            None => {},
        }
        if self.pending_clear {
            self.pending_clear = false;
            self.edit_buf = None;
            self.selected_id = String::new();
        }
    }
}

} // verus!
