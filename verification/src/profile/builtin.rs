//! Ids of the built-in profiles.

use vstd::prelude::*;

verus! {

/// Id of the "default" profile (no adjustment).
pub const DEFAULT: &'static str = "default";

/// Id of the profile for Rust.
pub const RUST: &'static str = "rust";

/// Id of the profile for CS2.
pub const CS2: &'static str = "cs2";

/// Id of the profile for PUBG.
pub const PUBG: &'static str = "pubg";

/// Id of the office profile.
pub const OFFICE: &'static str = "office";

/// Id of the night profile.
pub const NIGHT: &'static str = "night";

} // verus!
