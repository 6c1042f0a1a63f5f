//! The system tray: the menu it shows and what each menu entry asks for.
//!
//! The menu holds: open, restore defaults, one entry per profile, launch at
//! login (checked when on), check for updates (inactive), quit.

use vstd::prelude::*;
use crate::config::{Profile, ProfileView};
use crate::profile::views;
use crate::text::{chars_of, str_eq, string_of};

verus! {

/// What a tray menu entry asks for.
#[derive(Debug, PartialEq, Eq)]
pub enum TrayCommand {
    /// Show the main window.
    ShowWindow,
    /// Restore the default display parameters.
    RestoreDefault,
    /// Apply the profile with this id.
    ApplyProfile(String),
    /// Switch launching at login.
    ToggleStartup,
    /// Quit the application.
    Quit,
}

/// A tray command as a value.
pub enum TrayRequest {
    ShowWindow,
    RestoreDefault,
    ApplyProfile(Seq<char>),
    ToggleStartup,
    Quit,
}

impl View for TrayCommand {
    type V = TrayRequest;

    open spec fn view(&self) -> TrayRequest {
        match self {
            TrayCommand::ShowWindow => TrayRequest::ShowWindow,
            TrayCommand::RestoreDefault => TrayRequest::RestoreDefault,
            TrayCommand::ApplyProfile(id) => TrayRequest::ApplyProfile(id@),
            TrayCommand::ToggleStartup => TrayRequest::ToggleStartup,
            TrayCommand::Quit => TrayRequest::Quit,
        }
    }
}

impl Clone for TrayCommand {
    fn clone(&self) -> (r: TrayCommand)
        ensures
            r == *self,
    {
        match self {
            TrayCommand::ShowWindow => TrayCommand::ShowWindow,
            TrayCommand::RestoreDefault => TrayCommand::RestoreDefault,
            TrayCommand::ApplyProfile(id) => TrayCommand::ApplyProfile(id.clone()),
            TrayCommand::ToggleStartup => TrayCommand::ToggleStartup,
            TrayCommand::Quit => TrayCommand::Quit,
        }
    }
}

/// The prefix of the menu ids of profile entries.
pub open spec fn profile_prefix() -> Seq<char> {
    seq!['p', 'r', 'o', 'f', 'i', 'l', 'e', ':']
}

/// What the menu entry with this id asks for: the four fixed entries, then
/// `profile:<id>` for a profile; nothing for any other id.
pub open spec fn command_for_id(id: Seq<char>) -> Option<TrayRequest> {
    if id == "open"@ {
        Some(TrayRequest::ShowWindow)
    } else if id == "restore"@ {
        Some(TrayRequest::RestoreDefault)
    } else if id == "startup"@ {
        Some(TrayRequest::ToggleStartup)
    } else if id == "quit"@ {
        Some(TrayRequest::Quit)
    } else if profile_prefix().is_prefix_of(id) {
        Some(TrayRequest::ApplyProfile(id.subrange(8, id.len() as int)))
    } else {
        None
    }
}

/// The view of an optional command.
pub open spec fn opt_request(c: Option<TrayCommand>) -> Option<TrayRequest> {
    match c {
        Some(c) => Some(c@),
        None => None,
    }
}

/// The command of a tray menu entry, from the entry's id.
pub fn command_for_menu_id(id: &str) -> (r: Option<TrayCommand>)
    ensures
        opt_request(r) == command_for_id(id@),
{
    if str_eq(id, "open") {
        return Some(TrayCommand::ShowWindow);
    }
    if str_eq(id, "restore") {
        return Some(TrayCommand::RestoreDefault);
    }
    if str_eq(id, "startup") {
        return Some(TrayCommand::ToggleStartup);
    }
    if str_eq(id, "quit") {
        return Some(TrayCommand::Quit);
    }
    let cs = chars_of(id);
    if cs.len() >= 8 && cs[0] == 'p' && cs[1] == 'r' && cs[2] == 'o' && cs[3] == 'f' && cs[4] == 'i'
        && cs[5] == 'l' && cs[6] == 'e' && cs[7] == ':' {
        assert(profile_prefix() =~= id@.subrange(0, 8));
        let rest = string_of(vstd::slice::slice_subrange(cs.as_slice(), 8, cs.len()));
        return Some(TrayCommand::ApplyProfile(rest));
    }
    assert(!profile_prefix().is_prefix_of(id@)) by {
        if profile_prefix().is_prefix_of(id@) {
            assert(id@.len() >= 8);
            assert(id@[0] == profile_prefix()[0]);
            assert(id@[1] == profile_prefix()[1]);
            assert(id@[2] == profile_prefix()[2]);
            assert(id@[3] == profile_prefix()[3]);
            assert(id@[4] == profile_prefix()[4]);
            assert(id@[5] == profile_prefix()[5]);
            assert(id@[6] == profile_prefix()[6]);
            assert(id@[7] == profile_prefix()[7]);
        }
    }
    None
}

/// One line of the tray menu.
pub enum MenuEntry {
    /// A plain entry: its id and text.
    Item { id: String, text: String },
    /// A check entry: its id, text and whether it is checked.
    Check { id: String, text: String, checked: bool },
    /// An entry shown greyed out, with no id.
    Inactive { text: String },
    /// A separator line.
    Separator,
}

/// A menu line as a value.
pub enum MenuLine {
    Item(Seq<char>, Seq<char>),
    Check(Seq<char>, Seq<char>, bool),
    Inactive(Seq<char>),
    Separator,
}

impl View for MenuEntry {
    type V = MenuLine;

    open spec fn view(&self) -> MenuLine {
        match self {
            MenuEntry::Item { id, text } => MenuLine::Item(id@, text@),
            MenuEntry::Check { id, text, checked } => MenuLine::Check(id@, text@, *checked),
            MenuEntry::Inactive { text } => MenuLine::Inactive(text@),
            MenuEntry::Separator => MenuLine::Separator,
        }
    }
}

/// The menu entry of a profile: id `profile:<id>`, text
/// `应用方案：<name>`.
pub open spec fn profile_line(p: ProfileView) -> MenuLine {
    MenuLine::Item(profile_prefix() + p.id, "应用方案："@ + p.name)
}

/// The whole tray menu for these profiles and launch-at-login setting.
pub open spec fn menu_lines(profiles: Seq<ProfileView>, startup_enabled: bool) -> Seq<MenuLine> {
    seq![
        MenuLine::Item("open"@, "打开 ScreenTune"@),
        MenuLine::Item("restore"@, "恢复默认"@),
        MenuLine::Separator,
    ] + profiles.map_values(|p: ProfileView| profile_line(p)) + seq![
        MenuLine::Separator,
        MenuLine::Check("startup"@, "开机自动启动"@, startup_enabled),
        MenuLine::Inactive("检查更新（敬请期待）"@),
        MenuLine::Separator,
        MenuLine::Item("quit"@, "退出"@),
    ]
}

/// The lines of a list of menu entries.
pub open spec fn lines(v: Seq<MenuEntry>) -> Seq<MenuLine> {
    v.map_values(|e: MenuEntry| e@)
}

/// The tray menu entries, in order.
pub fn menu_entries(profiles: &[Profile], startup_enabled: bool) -> (r: Vec<MenuEntry>)
    ensures
        lines(r@) == menu_lines(views(profiles@), startup_enabled),
{
    let mut v: Vec<MenuEntry> = Vec::new();
    v.push(MenuEntry::Item { id: String::from_str("open"), text: String::from_str("打开 ScreenTune") });
    v.push(MenuEntry::Item { id: String::from_str("restore"), text: String::from_str("恢复默认") });
    v.push(MenuEntry::Separator);
    let ghost head = lines(v@);
    proof {
        reveal_strlit("profile:");
    }
    let mut i: usize = 0;
    while i < profiles.len()
        invariant
            i <= profiles@.len(),
            "profile:"@ == profile_prefix(),
            lines(v@) == head + views(profiles@).subrange(0, i as int).map_values(
                |p: ProfileView| profile_line(p),
            ),
        decreases profiles@.len() - i,
    {
        let mut id = String::from_str("profile:");
        id.append(profiles[i].id.as_str());
        let mut text = String::from_str("应用方案：");
        text.append(profiles[i].name.as_str());
        let ghost before = lines(v@);
        let ghost line = MenuLine::Item(id@, text@);
        assert(line == profile_line(profiles@[i as int]@));
        v.push(MenuEntry::Item { id, text });
        assert(lines(v@) =~= before.push(line));
        assert(views(profiles@).subrange(0, i as int + 1).map_values(|p: ProfileView| profile_line(p))
            =~= views(profiles@).subrange(0, i as int).map_values(|p: ProfileView| profile_line(p)).push(
            profile_line(profiles@[i as int]@),
        ));
        assert(lines(v@) =~= head + views(profiles@).subrange(0, i as int + 1).map_values(
            |p: ProfileView| profile_line(p),
        ));
        i = i + 1;
    }
    let ghost middle = lines(v@);
    v.push(MenuEntry::Separator);
    v.push(
        MenuEntry::Check {
            id: String::from_str("startup"),
            text: String::from_str("开机自动启动"),
            checked: startup_enabled,
        },
    );
    v.push(MenuEntry::Inactive { text: String::from_str("检查更新（敬请期待）") });
    v.push(MenuEntry::Separator);
    v.push(MenuEntry::Item { id: String::from_str("quit"), text: String::from_str("退出") });
    assert(views(profiles@).subrange(0, profiles@.len() as int) =~= views(profiles@));
    assert(lines(v@) =~= middle + seq![
        MenuLine::Separator,
        MenuLine::Check("startup"@, "开机自动启动"@, startup_enabled),
        MenuLine::Inactive("检查更新（敬请期待）"@),
        MenuLine::Separator,
        MenuLine::Item("quit"@, "退出"@),
    ]);
    assert(lines(v@) =~= menu_lines(views(profiles@), startup_enabled));
    v
}

/// Choosing a profile's entry of the menu asks for applying that profile.
pub proof fn law_profile_entry_applies(p: ProfileView)
    ensures
        command_for_id(profile_prefix() + p.id) == Some(TrayRequest::ApplyProfile(p.id)),
{
    reveal_strlit("open");
    reveal_strlit("restore");
    reveal_strlit("startup");
    reveal_strlit("quit");
    let id = profile_prefix() + p.id;
    assert(id[0] == 'p');
    assert(id != "open"@ && id != "restore"@ && id != "startup"@ && id != "quit"@) by {
        assert("open"@[0] == 'o');
        assert("restore"@[0] == 'r');
        assert("startup"@[0] == 's');
        assert("quit"@[0] == 'q');
    }
    assert(profile_prefix().is_prefix_of(id)) by {
        assert(id.subrange(0, 8) =~= profile_prefix());
    }
    assert(id.subrange(8, id.len() as int) =~= p.id);
}

} // verus!
