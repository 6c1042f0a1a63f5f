//! Verified core of ScreenTune: the rules, parsers and state machines behind
//! a display-tuning tool (hotkey grammar, game detection, profile
//! management, LUT backup format, tray and hotkey dispatch).

pub mod text;
pub mod keyed;
pub mod hotkey;
pub mod common;
pub mod config;
pub mod detector;
pub mod profile;
pub mod display;
pub mod startup;
pub mod tray;
pub mod ui;
