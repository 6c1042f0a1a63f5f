//! What an external trigger (a hotkey, a tray entry, game detection, the
//! launch-at-login switch) asks the application to do, and which events it
//! reports to the interface.

use vstd::prelude::*;
use crate::config::HotkeyAction;
use crate::detector::DetectorEvent;
use crate::hotkey::HotkeyBinding;
use crate::tray::TrayCommand;
use crate::config::Language;
use crate::text::{push_char, str_eq};
use crate::ui::i18n::{entries_of, lookup, Tr};

verus! {

/// Navigation page.
#[derive(Debug, Clone, Copy, PartialEq, Eq, Structural)]
pub enum Page {
    /// Display adjustment.
    Display,
    /// Profiles.
    Profiles,
    /// Global hotkeys.
    Hotkeys,
    /// Settings.
    Settings,
    /// Monitors.
    Monitors,
}

/// An event for the interface.
#[derive(Debug, PartialEq, Eq)]
pub enum AppEvent {
    /// Show the main window.
    ShowWindow,
    /// Quit the application.
    Quit,
    /// A profile was applied (`None`: the defaults were restored).
    ProfileApplied { profile_id: Option<String> },
    /// Game detection applied a profile.
    GameProfileApplied(String),
    /// The game exited and the defaults were restored.
    GameProfileExited,
    /// Launching at login was switched.
    StartupChanged(bool),
    /// A short message for the user.
    Toast(String),
}

/// An interface event as a value.
pub enum Notice {
    ShowWindow,
    Quit,
    ProfileApplied(Option<Seq<char>>),
    GameProfileApplied(Seq<char>),
    GameProfileExited,
    StartupChanged(bool),
    Toast(Seq<char>),
}

impl View for AppEvent {
    type V = Notice;

    open spec fn view(&self) -> Notice {
        match self {
            AppEvent::ShowWindow => Notice::ShowWindow,
            AppEvent::Quit => Notice::Quit,
            AppEvent::ProfileApplied { profile_id } => Notice::ProfileApplied(
                match profile_id {
                    Some(p) => Some(p@),
                    None => None,
                },
            ),
            AppEvent::GameProfileApplied(p) => Notice::GameProfileApplied(p@),
            AppEvent::GameProfileExited => Notice::GameProfileExited,
            AppEvent::StartupChanged(b) => Notice::StartupChanged(*b),
            AppEvent::Toast(t) => Notice::Toast(t@),
        }
    }
}

/// What the application is asked to do.
#[derive(Debug, PartialEq, Eq)]
pub enum CoreAction {
    /// Nothing beyond reporting the events.
    Nothing,
    /// Restore the default parameters on every monitor (and remember the
    /// default profile as the last one used).
    RestoreDefault,
    /// Apply a profile to every monitor; `persist` remembers it as the last
    /// profile used.
    ApplyProfile { profile_id: String, persist: bool },
    /// Switch launching at login.
    ToggleStartup,
}

/// A requested action as a value.
pub enum Request {
    Nothing,
    RestoreDefault,
    ApplyProfile(Seq<char>, bool),
    ToggleStartup,
}

impl View for CoreAction {
    type V = Request;

    open spec fn view(&self) -> Request {
        match self {
            CoreAction::Nothing => Request::Nothing,
            CoreAction::RestoreDefault => Request::RestoreDefault,
            CoreAction::ApplyProfile { profile_id, persist } => Request::ApplyProfile(
                profile_id@,
                *persist,
            ),
            CoreAction::ToggleStartup => Request::ToggleStartup,
        }
    }
}

/// The events of a list, as values.
pub open spec fn notices(v: Seq<AppEvent>) -> Seq<Notice> {
    v.map_values(|e: AppEvent| e@)
}

/// What a hotkey asks for: restoring the defaults (reported as a profile
/// event without a profile), applying a profile (remembered as last used), or
/// showing the window.
pub open spec fn hotkey_plan(a: HotkeyAction) -> (Request, Seq<Notice>) {
    match a {
        HotkeyAction::RestoreDefault => (
            Request::RestoreDefault,
            seq![Notice::ProfileApplied(None)],
        ),
        HotkeyAction::ApplyProfile { profile_id } => (
            Request::ApplyProfile(profile_id@, true),
            seq![Notice::ProfileApplied(Some(profile_id@))],
        ),
        HotkeyAction::ShowWindow => (Request::Nothing, seq![Notice::ShowWindow]),
    }
}

/// What a tray entry asks for; switching launch at login reports nothing
/// by itself.
pub open spec fn tray_plan(c: TrayCommand) -> (Request, Seq<Notice>) {
    match c {
        TrayCommand::ShowWindow => (Request::Nothing, seq![Notice::ShowWindow]),
        TrayCommand::RestoreDefault => (
            Request::RestoreDefault,
            seq![Notice::ProfileApplied(None)],
        ),
        TrayCommand::ApplyProfile(p) => (
            Request::ApplyProfile(p@, true),
            seq![Notice::ProfileApplied(Some(p@))],
        ),
        TrayCommand::ToggleStartup => (Request::ToggleStartup, Seq::empty()),
        TrayCommand::Quit => (Request::Nothing, seq![Notice::Quit]),
    }
}

/// A tray entry or a hotkey announces exactly what it asks for: the
/// defaults-restored event comes with a request to restore the defaults,
/// and a profile-applied event with a request to apply that profile (kept
/// as the last one used), and the other way round.
pub proof fn law_plans_announce_their_request(c: TrayCommand, a: HotkeyAction)
    ensures
        tray_plan(c).1.contains(Notice::ProfileApplied(None)) <==> tray_plan(c).0 == Request::RestoreDefault,
        hotkey_plan(a).1.contains(Notice::ProfileApplied(None)) <==> hotkey_plan(a).0 == Request::RestoreDefault,
        forall|p: Seq<char>|
            #[trigger] tray_plan(c).1.contains(Notice::ProfileApplied(Some(p))) <==> tray_plan(c).0
                == Request::ApplyProfile(p, true),
        forall|p: Seq<char>|
            #[trigger] hotkey_plan(a).1.contains(Notice::ProfileApplied(Some(p))) <==> hotkey_plan(a).0
                == Request::ApplyProfile(p, true),
{
    let t = tray_plan(c).1;
    let h = hotkey_plan(a).1;
    assert(t.len() <= 1 && h.len() == 1);
    if t.len() == 1 {
        assert(t.contains(t[0]));
    }
    assert(h.contains(h[0]));
    assert forall|p: Seq<char>| #[trigger] t.contains(Notice::ProfileApplied(Some(p))) <==> tray_plan(c).0
        == Request::ApplyProfile(p, true) by {
        if t.len() == 1 {
            assert(t.contains(t[0]));
        }
    }
}

/// The tray's restore, apply and show entries ask for and report the same
/// as the hotkeys with those actions.
pub proof fn law_tray_entries_agree_with_hotkeys(p: String)
    ensures
        tray_plan(TrayCommand::RestoreDefault) == hotkey_plan(HotkeyAction::RestoreDefault),
        tray_plan(TrayCommand::ApplyProfile(p)) == hotkey_plan(HotkeyAction::ApplyProfile { profile_id: p }),
        tray_plan(TrayCommand::ShowWindow) == hotkey_plan(HotkeyAction::ShowWindow),
{
}

/// The event that the defaults were restored.
fn default_applied() -> (r: AppEvent)
    ensures
        r@ == Notice::ProfileApplied(None),
{
    AppEvent::ProfileApplied { profile_id: None }
}

/// What a triggered hotkey asks for, and the events it reports.
pub fn plan_hotkey(action: &HotkeyAction) -> (r: (CoreAction, Vec<AppEvent>))
    ensures
        (r.0@, notices(r.1@)) == hotkey_plan(*action),
{
    let r = match action {
        HotkeyAction::RestoreDefault => (CoreAction::RestoreDefault, vec![default_applied()]),
        HotkeyAction::ApplyProfile { profile_id } => (
            CoreAction::ApplyProfile { profile_id: profile_id.clone(), persist: true },
            vec![AppEvent::ProfileApplied { profile_id: Some(profile_id.clone()) }],
        ),
        HotkeyAction::ShowWindow => (CoreAction::Nothing, vec![AppEvent::ShowWindow]),
    };
    assert(notices(r.1@) =~= hotkey_plan(*action).1);
    r
}

/// What a chosen tray entry asks for, and the events it reports.
pub fn plan_tray(cmd: &TrayCommand) -> (r: (CoreAction, Vec<AppEvent>))
    ensures
        (r.0@, notices(r.1@)) == tray_plan(*cmd),
{
    let r = match cmd {
        TrayCommand::ShowWindow => (CoreAction::Nothing, vec![AppEvent::ShowWindow]),
        TrayCommand::RestoreDefault => (CoreAction::RestoreDefault, vec![default_applied()]),
        TrayCommand::ApplyProfile(p) => (
            CoreAction::ApplyProfile { profile_id: p.clone(), persist: true },
            vec![AppEvent::ProfileApplied { profile_id: Some(p.clone()) }],
        ),
        TrayCommand::ToggleStartup => (CoreAction::ToggleStartup, Vec::new()),
        TrayCommand::Quit => (CoreAction::Nothing, vec![AppEvent::Quit]),
    };
    assert(notices(r.1@) =~= tray_plan(*cmd).1);
    r
}

/// What a game detection event asks for, with automatic switching `enabled`
/// or not: a game that started has its profile applied (not remembered as
/// last used); a game that exited has the defaults restored. With switching
/// off, nothing is done and nothing reported.
pub fn plan_game_event(event: &DetectorEvent, enabled: bool) -> (r: (CoreAction, Option<AppEvent>))
    ensures
        !enabled ==> r.0@ == Request::Nothing && r.1 is None,
        enabled ==> match *event {
            DetectorEvent::Entered { profile_id, .. } => r.0@ == Request::ApplyProfile(
                profile_id@,
                false,
            ) && r.1 == Some(AppEvent::GameProfileApplied(profile_id)),
            DetectorEvent::Exited { .. } => r.0@ == Request::RestoreDefault && r.1 == Some(
                AppEvent::GameProfileExited,
            ),
        },
{
    if !enabled {
        return (CoreAction::Nothing, None);
    }
    match event {
        DetectorEvent::Entered { profile_id, .. } => (
            CoreAction::ApplyProfile { profile_id: profile_id.clone(), persist: false },
            Some(AppEvent::GameProfileApplied(profile_id.clone())),
        ),
        DetectorEvent::Exited { .. } => (CoreAction::RestoreDefault, Some(AppEvent::GameProfileExited)),
    }
}

/// After an attempt to switch launching at login from `current`: the
/// setting to keep and the event to report. On success the setting is
/// switched and the change reported; on failure it is kept and the
/// failure shown.
pub fn startup_switched(current: bool, result: &Result<(), String>) -> (r: (bool, AppEvent))
    ensures
        match result {
            Ok(()) => r.0 == !current && r.1@ == Notice::StartupChanged(!current),
            Err(e) => r.0 == current && r.1@ == Notice::Toast("开机自启设置失败: "@ + e@),
        },
{
    match result {
        Ok(()) => (!current, AppEvent::StartupChanged(!current)),
        Err(e) => {
            let mut t = String::from_str("开机自启设置失败: ");
            t.append(e.as_str());
            (current, AppEvent::Toast(t))
        },
    }
}

/// Where global hotkeys are not available at all, every binding is
/// reported as refused, with the reason "平台不支持".
pub fn unsupported_conflicts(bindings: &[HotkeyBinding]) -> (r: Vec<(String, String)>)
    ensures
        r@.len() == bindings@.len(),
        forall|i: int|
            0 <= i < bindings@.len() ==> (#[trigger] r@[i]).0@ == bindings@[i].id@ && r@[i].1@
                == "平台不支持"@,
{
    let mut v: Vec<(String, String)> = Vec::new();
    let mut i: usize = 0;
    while i < bindings.len()
        invariant
            i <= bindings@.len(),
            v@.len() == i,
            forall|j: int|
                0 <= j < i ==> (#[trigger] v@[j]).0@ == bindings@[j].id@ && v@[j].1@ == "平台不支持"@,
        decreases bindings@.len() - i,
    {
        v.push((bindings[i].id.clone(), String::from_str("平台不支持")));
        i = i + 1;
    }
    v
}

/// The message the interface shows for an event, in a language: the
/// defaults restored (or the default profile applied), a game profile applied (with the
/// profile's name, or its id when it has none), a game exited, or a given
/// message; other events show nothing.
pub open spec fn toast_text(e: Notice, lang: Language, name: Option<Seq<char>>) -> Option<Seq<char>> {
    match e {
        Notice::ProfileApplied(None) => Some(lookup(entries_of(lang), "toast.restored"@)),
        Notice::ProfileApplied(Some(p)) => if p == "default"@ {
            Some(lookup(entries_of(lang), "toast.restored"@))
        } else {
            None
        },
        Notice::GameProfileApplied(id) => Some(
            lookup(entries_of(lang), "toast.game_profile"@) + seq![' '] + match name {
                Some(n) => n,
                None => id,
            },
        ),
        Notice::GameProfileExited => Some(lookup(entries_of(lang), "toast.game_exited"@)),
        Notice::Toast(m) => Some(m),
        _ => None,
    }
}

/// The message shown for an event; `profile_name` is the name of the
/// profile a game event applied, when the profile exists.
pub fn event_toast(event: &AppEvent, tr: &Tr, profile_name: Option<&str>) -> (r: Option<String>)
    ensures
        match r {
            Some(t) => toast_text(event@, tr.language(), match profile_name {
                Some(n) => Some(n@),
                None => None,
            }) == Some(t@),
            None => toast_text(event@, tr.language(), match profile_name {
                Some(n) => Some(n@),
                None => None,
            }) is None,
        },
{
    match event {
        AppEvent::ProfileApplied { profile_id: None } => Some(tr.t("toast.restored")),
        AppEvent::ProfileApplied { profile_id: Some(p) } => {
            if str_eq(p.as_str(), "default") {
                Some(tr.t("toast.restored"))
            } else {
                None
            }
        },
        AppEvent::GameProfileApplied(id) => {
            let mut s = tr.t("toast.game_profile");
            push_char(&mut s, ' ');
            match profile_name {
                Some(n) => s.append(n),
                None => s.append(id.as_str()),
            }
            Some(s)
        },
        AppEvent::GameProfileExited => Some(tr.t("toast.game_exited")),
        AppEvent::Toast(m) => Some(m.clone()),
        _ => None,
    }
}

} // verus!
