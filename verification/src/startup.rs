//! Launch at login: the backend interface, and the in-memory backend used
//! where the system's own mechanism is not available.

use vstd::prelude::*;

verus! {

/// Switches launching at login on and off. Nothing is assumed of what its
/// methods return.
pub trait StartupBackend: Send + Sync {
    /// Whether launching at login is on.
    fn is_enabled(&self) -> bool;

    /// Turns launching at login on or off.
    fn set_enabled(&mut self, enabled: bool) -> Result<(), String>;
}

/// An in-memory backend: it only remembers the setting.
#[derive(Debug)]
pub struct MockStartup {
    enabled: bool,
}

impl MockStartup {
    /// The remembered setting.
    pub closed spec fn on(&self) -> bool {
        self.enabled
    }
}

impl Default for MockStartup {
    /// Starts switched off.
    fn default() -> (r: MockStartup)
        ensures
            !r.on(),
    {
        MockStartup { enabled: false }
    }
}

impl StartupBackend for MockStartup {
    fn is_enabled(&self) -> (r: bool)
        ensures
            r == self.on(),
    {
        self.enabled
    }

    fn set_enabled(&mut self, enabled: bool) -> (r: Result<(), String>)
        ensures
            r is Ok,
            final(self).on() == enabled,
    {
        self.enabled = enabled;
        Ok(())
    }
}

} // verus!
