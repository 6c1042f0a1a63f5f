//! Configuration data: interface language and theme, game auto-switch
//! rules, hotkey bindings, profiles, and the defaults of each.

use vstd::prelude::*;
use crate::common::DisplayParams;
use crate::text::{all_ascii, lower_ascii, lowercase, to_lowercase};

verus! {

/// Interface language.
#[derive(Debug, Clone, Copy, PartialEq, Eq, Structural)]
pub enum Language {
    /// Simplified Chinese (the default).
    Zh,
    /// English.
    En,
}

impl Default for Language {
    fn default() -> (r: Language)
        ensures
            r == Language::Zh,
    {
        Language::Zh
    }
}

/// Theme preference.
#[derive(Debug, Clone, Copy, PartialEq, Eq, Structural)]
pub enum ThemePref {
    /// Dark (the default).
    Dark,
    /// Light.
    Light,
}

impl Default for ThemePref {
    fn default() -> (r: ThemePref)
        ensures
            r == ThemePref::Dark,
    {
        ThemePref::Dark
    }
}

/// A rule: while the named process runs, apply the named profile.
#[derive(Debug, PartialEq, Eq)]
pub struct GameRule {
    /// Unique rule identifier.
    pub id: String,
    /// Executable file name, compared without regard to letter case.
    pub exe_name: String,
    /// Profile applied while the process runs.
    pub profile_id: String,
    /// Whether the rule takes part in matching.
    pub enabled: bool,
}

/// Whether a rule matches a process name: the rule is enabled and both
/// names are equal after lower-casing.
pub open spec fn rule_matches(r: GameRule, exe: Seq<char>) -> bool {
    r.enabled && lowercase(r.exe_name@) == lowercase(exe)
}

impl Clone for GameRule {
    fn clone(&self) -> (r: GameRule)
        ensures
            r == *self,
    {
        GameRule {
            id: self.id.clone(),
            exe_name: self.exe_name.clone(),
            profile_id: self.profile_id.clone(),
            enabled: self.enabled,
        }
    }
}

impl GameRule {
    /// An enabled rule.
    pub fn new(id: &str, exe_name: &str, profile_id: &str) -> (r: GameRule)
        ensures
            r.id@ == id@,
            r.exe_name@ == exe_name@,
            r.profile_id@ == profile_id@,
            r.enabled,
    {
        GameRule {
            id: String::from_str(id),
            exe_name: String::from_str(exe_name),
            profile_id: String::from_str(profile_id),
            enabled: true,
        }
    }

    /// Whether the given process name matches this rule (letter case
    /// ignored; a disabled rule matches nothing).
    pub fn matches(&self, exe_name: &str) -> (r: bool)
        ensures
            r == rule_matches(*self, exe_name@),
            all_ascii(self.exe_name@) && all_ascii(exe_name@) ==> r == (self.enabled && lower_ascii(
                self.exe_name@,
            ) == lower_ascii(exe_name@)),
    {
        if !self.enabled {
            return false;
        }
        let a = to_lowercase(self.exe_name.as_str());
        let b = to_lowercase(exe_name);
        a.eq(&b)
    }
}

/// What a hotkey triggers.
#[derive(Debug, PartialEq, Eq)]
pub enum HotkeyAction {
    /// Restore the default display parameters.
    RestoreDefault,
    /// Apply the given profile.
    ApplyProfile { profile_id: String },
    /// Show the main window.
    ShowWindow,
}

impl Clone for HotkeyAction {
    fn clone(&self) -> (r: HotkeyAction)
        ensures
            r == *self,
    {
        match self {
            HotkeyAction::RestoreDefault => HotkeyAction::RestoreDefault,
            HotkeyAction::ApplyProfile { profile_id } => HotkeyAction::ApplyProfile {
                profile_id: profile_id.clone(),
            },
            HotkeyAction::ShowWindow => HotkeyAction::ShowWindow,
        }
    }
}

/// The localisation key describing an action.
pub open spec fn description_key_spec(a: HotkeyAction) -> Seq<char> {
    match a {
        HotkeyAction::RestoreDefault => "hotkey.action.restore_default"@,
        HotkeyAction::ApplyProfile { .. } => "hotkey.action.apply_profile"@,
        HotkeyAction::ShowWindow => "hotkey.action.show_window"@,
    }
}

impl HotkeyAction {
    /// The localisation key describing the action (for the interface).
    pub fn description_key(&self) -> (r: &'static str)
        ensures
            r@ == description_key_spec(*self),
    {
        match self {
            HotkeyAction::RestoreDefault => "hotkey.action.restore_default",
            HotkeyAction::ApplyProfile { .. } => "hotkey.action.apply_profile",
            HotkeyAction::ShowWindow => "hotkey.action.show_window",
        }
    }
}

/// A persisted hotkey binding: hotkey text and the action it triggers.
#[derive(Debug, PartialEq, Eq)]
pub struct HotkeyBinding {
    /// Unique binding identifier (`restore_default`, `profile:rust`, ...).
    pub id: String,
    /// Hotkey text such as `Ctrl+Alt+1`.
    pub spec: String,
    /// Action triggered.
    pub action: HotkeyAction,
}

impl Clone for HotkeyBinding {
    fn clone(&self) -> (r: HotkeyBinding)
        ensures
            r == *self,
    {
        HotkeyBinding { id: self.id.clone(), spec: self.spec.clone(), action: self.action.clone() }
    }
}

impl HotkeyBinding {
    /// A binding with the given fields.
    pub fn new(id: &str, spec: &str, action: HotkeyAction) -> (r: HotkeyBinding)
        ensures
            r.id@ == id@,
            r.spec@ == spec@,
            r.action == action,
    {
        HotkeyBinding { id: String::from_str(id), spec: String::from_str(spec), action }
    }
}

/// An action that applies the profile with the given id.
pub open spec fn applies(a: HotkeyAction, profile_id: Seq<char>) -> bool {
    a matches HotkeyAction::ApplyProfile { profile_id: p } && p@ == profile_id
}

/// The default hotkeys: Ctrl+Alt+1 restores the defaults, Ctrl+Alt+2..4
/// apply the Rust, CS2 and PUBG profiles.
pub fn default_hotkeys() -> (r: Vec<HotkeyBinding>)
    ensures
        r@.len() == 4,
        r@[0].id@ == "restore_default"@ && r@[0].spec@ == "Ctrl+Alt+1"@ && r@[0].action
            == HotkeyAction::RestoreDefault,
        r@[1].id@ == "profile:rust"@ && r@[1].spec@ == "Ctrl+Alt+2"@ && applies(
            r@[1].action,
            "rust"@,
        ),
        r@[2].id@ == "profile:cs2"@ && r@[2].spec@ == "Ctrl+Alt+3"@ && applies(
            r@[2].action,
            "cs2"@,
        ),
        r@[3].id@ == "profile:pubg"@ && r@[3].spec@ == "Ctrl+Alt+4"@ && applies(
            r@[3].action,
            "pubg"@,
        ),
{
    let mut v: Vec<HotkeyBinding> = Vec::new();
    v.push(HotkeyBinding::new("restore_default", "Ctrl+Alt+1", HotkeyAction::RestoreDefault));
    v.push(
        HotkeyBinding::new(
            "profile:rust",
            "Ctrl+Alt+2",
            HotkeyAction::ApplyProfile { profile_id: String::from_str("rust") },
        ),
    );
    v.push(
        HotkeyBinding::new(
            "profile:cs2",
            "Ctrl+Alt+3",
            HotkeyAction::ApplyProfile { profile_id: String::from_str("cs2") },
        ),
    );
    v.push(
        HotkeyBinding::new(
            "profile:pubg",
            "Ctrl+Alt+4",
            HotkeyAction::ApplyProfile { profile_id: String::from_str("pubg") },
        ),
    );
    v
}

/// The default game rules: `rust.exe`, `cs2.exe` and `PUBG.exe` apply the
/// profiles of the same games.
pub fn default_game_rules() -> (r: Vec<GameRule>)
    ensures
        r@.len() == 3,
        r@[0].id@ == "rule:rust"@ && r@[0].exe_name@ == "rust.exe"@ && r@[0].profile_id@
            == "rust"@ && r@[0].enabled,
        r@[1].id@ == "rule:cs2"@ && r@[1].exe_name@ == "cs2.exe"@ && r@[1].profile_id@
            == "cs2"@ && r@[1].enabled,
        r@[2].id@ == "rule:pubg"@ && r@[2].exe_name@ == "PUBG.exe"@ && r@[2].profile_id@
            == "pubg"@ && r@[2].enabled,
{
    let mut v: Vec<GameRule> = Vec::new();
    v.push(GameRule::new("rule:rust", "rust.exe", "rust"));
    v.push(GameRule::new("rule:cs2", "cs2.exe", "cs2"));
    v.push(GameRule::new("rule:pubg", "PUBG.exe", "pubg"));
    v
}

/// A profile: a named snapshot of display parameters.
#[derive(Debug, PartialEq, Eq)]
pub struct Profile {
    /// Unique identifier (also the file name `{id}.json`).
    pub id: String,
    /// Display name.
    pub name: String,
    /// Optional description.
    pub description: String,
    /// Display parameters of the profile.
    pub params: DisplayParams,
    /// Optional hotkey text of the profile.
    pub hotkey: Option<String>,
    /// Whether the profile is built in (built-in profiles cannot be
    /// deleted).
    pub builtin: bool,
}

/// The mathematical value of a profile: its texts as character sequences.
pub struct ProfileView {
    pub id: Seq<char>,
    pub name: Seq<char>,
    pub description: Seq<char>,
    pub params: DisplayParams,
    pub hotkey: Option<Seq<char>>,
    pub builtin: bool,
}

/// The character sequence of an optional text.
pub open spec fn opt_text(t: Option<String>) -> Option<Seq<char>> {
    match t {
        Some(s) => Some(s@),
        None => None,
    }
}

impl View for Profile {
    type V = ProfileView;

    open spec fn view(&self) -> ProfileView {
        ProfileView {
            id: self.id@,
            name: self.name@,
            description: self.description@,
            params: self.params,
            hotkey: opt_text(self.hotkey),
            builtin: self.builtin,
        }
    }
}

impl Clone for Profile {
    fn clone(&self) -> (r: Profile)
        ensures
            r == *self,
    {
        let hotkey = match &self.hotkey {
            Some(h) => Some(h.clone()),
            None => None,
        };
        Profile {
            id: self.id.clone(),
            name: self.name.clone(),
            description: self.description.clone(),
            params: self.params,
            hotkey,
            builtin: self.builtin,
        }
    }
}

impl Profile {
    /// A user profile with an empty description and no hotkey.
    pub fn new(id: &str, name: &str, params: DisplayParams) -> (r: Profile)
        ensures
            r.id@ == id@,
            r.name@ == name@,
            r.description@ == Seq::<char>::empty(),
            r.params == params,
            r.hotkey is None,
            !r.builtin,
    {
        Profile {
            id: String::from_str(id),
            name: String::from_str(name),
            description: String::new(),
            params,
            hotkey: None,
            builtin: false,
        }
    }
}

} // verus!
