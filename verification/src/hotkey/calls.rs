//! The operating system's hotkey service, as a registration round reaches
//! it: each call goes through a method of [`PlatformLog`], which makes the
//! call and records it, with the hotkey handed over and the answer, in a
//! ghost log that nothing else can write.

use vstd::prelude::*;
use crate::hotkey::registry::HotkeyPlatform;
use crate::hotkey::{HotkeySpec, KeyCode, Modifier};

verus! {

/// A call made on the platform: releasing every hotkey, or registering a
/// hotkey (modifiers and key) with the platform's answer (its id for the
/// hotkey, or its message).
pub enum PlatformCall {
    UnregisterAll,
    Register((Seq<Modifier>, KeyCode), Result<u32, Seq<char>>),
}

/// The answer of a registration, as logged.
pub open spec fn answer_view(r: Result<u32, String>) -> Result<u32, Seq<char>> {
    match r {
        Ok(pid) => Ok(pid),
        Err(m) => Err(m@),
    }
}

/// The log of the calls made on the platform.
pub(crate) struct PlatformLog {
    log: Ghost<Seq<PlatformCall>>,
}

impl PlatformLog {
    /// The calls made so far, in order.
    pub(crate) closed spec fn calls(&self) -> Seq<PlatformCall> {
        self.log@
    }

    /// No call made yet.
    pub(crate) fn new() -> (r: PlatformLog)
        ensures
            r.calls() == Seq::<PlatformCall>::empty(),
    {
        PlatformLog { log: Ghost(Seq::empty()) }
    }

    /// Calls `HotkeyPlatform::unregister_all` on the platform; logged.
    pub(crate) fn unregister_all<P: HotkeyPlatform>(&mut self, platform: &mut P)
        ensures
            final(self).calls() == old(self).calls().push(PlatformCall::UnregisterAll),
    {
        platform.unregister_all();
        proof {
            self.log@ = self.log@.push(PlatformCall::UnregisterAll);
        }
    }

    /// Calls `HotkeyPlatform::register` on the platform with the hotkey;
    /// logged with the answer.
    pub(crate) fn register<P: HotkeyPlatform>(&mut self, platform: &mut P, spec: &HotkeySpec) -> (r: Result<u32, String>)
        ensures
            final(self).calls() == old(self).calls().push(PlatformCall::Register(spec@, answer_view(r))),
    {
        let r = platform.register(spec);
        proof {
            self.log@ = self.log@.push(PlatformCall::Register(spec@, answer_view(r)));
        }
        r
    }
}

} // verus!
