//! The decisions behind the user interface: navigation pages, the events
//! shown to the user and what hotkeys, tray entries and game detection ask
//! the application to do, page state, and the interface texts.

pub mod dispatch;
pub mod pages;
pub mod i18n;
pub mod session;

pub use dispatch::{AppEvent, CoreAction, Page};


pub use pages::{HotkeyEditState, MonitorsPageState, SettingsPageState};
pub use i18n::Tr;
