//! The platform's display interface and the baseline backup files, as the
//! display manager reaches them: each call goes through one method of
//! [`Devices`], which makes the call and records it, with its arguments
//! and its answer, in a ghost log that nothing else can write.

use vstd::prelude::*;
use crate::common::MonitorInfo;
use crate::display::GAMMA_RAMP_LEN;

verus! {

/// A gamma ramp: 256 entries for each of red, green and blue.
pub type Ramp = [u16; GAMMA_RAMP_LEN];

/// The platform's display interface. Nothing is assumed of what its
/// methods return.
pub trait DisplayBackend {
    /// The platform's handle of a monitor.
    type Handle;

    /// The monitors connected now.
    fn list_monitors(&self) -> Result<Vec<(Self::Handle, MonitorInfo)>, String>;

    /// The gamma ramp a monitor uses now.
    fn get_gamma_ramp(&self, handle: &Self::Handle) -> Result<Ramp, String>;

    /// Sets a monitor's gamma ramp.
    fn set_gamma_ramp(&self, handle: &Self::Handle, ramp: &Ramp) -> Result<(), String>;

    /// Sets the DDC/CI brightness; `None` when the monitor has no DDC/CI.
    fn set_ddc_brightness(&self, handle: &Self::Handle, value: u32) -> Result<Option<()>, String>;

    /// The DDC/CI brightness and its maximum; `None` without DDC/CI.
    fn get_ddc_brightness(&self, handle: &Self::Handle) -> Result<Option<(u32, u32)>, String>;
}

/// The backup files of the baselines. Nothing is assumed of what its
/// methods return.
pub trait BaselineStore {
    /// Whether a backup of the monitor exists.
    fn has_backup(&self, monitor_id: &str) -> bool;

    /// The backup of the monitor, when it can be read.
    fn load(&self, monitor_id: &str) -> Option<Ramp>;

    /// Writes (or overwrites) the backup of the monitor.
    fn save(&self, monitor_id: &str, ramp: &Ramp) -> Result<(), String>;

    /// Removes the backup of the monitor, if there is one.
    fn remove(&self, monitor_id: &str);
}

/// A call made on the backend or the backup store, with its arguments and
/// its answer. Calls on a monitor name it by its handle; calls on the
/// backup files name it by its id.
pub enum DisplayOp<H> {
    /// The monitors were listed: handles and descriptions, or `None` when
    /// listing failed.
    Listed(Option<Seq<(H, MonitorInfo)>>),
    /// Whether a backup of the monitor exists.
    BackupFound(Seq<char>, bool),
    /// The backup read for the monitor.
    BackupLoaded(Seq<char>, Option<Ramp>),
    /// A ramp written to the monitor, and whether that succeeded.
    RampWritten(H, Ramp, bool),
    /// The ramp read from the monitor (`None`: reading failed).
    RampRead(H, Option<Ramp>),
    /// The backup of the monitor written, and whether that succeeded.
    BackupSaved(Seq<char>, Ramp, bool),
    /// The backup of the monitor removed.
    BackupRemoved(Seq<char>),
    /// The DDC/CI brightness and maximum read from the monitor (`None`:
    /// no DDC/CI, or reading failed).
    DdcRead(H, Option<(u32, u32)>),
    /// A DDC/CI brightness written to the monitor, and whether that
    /// succeeded.
    DdcWritten(H, u32, bool),
    /// The DDC/CI brightness asked of the monitor, with the whole answer:
    /// the reading, `Ok(None)` without DDC/CI, or the error text.
    DdcQueried(H, Result<Option<(u32, u32)>, Seq<char>>),
}

/// The listing a call answered, as logged.
pub open spec fn listing_of<H>(r: Result<Vec<(H, MonitorInfo)>, String>) -> Option<Seq<(H, MonitorInfo)>> {
    match r {
        Ok(v) => Some(v@),
        Err(_) => None,
    }
}

/// The ramp a read answered, as logged.
pub open spec fn ramp_of(r: Result<Ramp, String>) -> Option<Ramp> {
    match r {
        Ok(b) => Some(b),
        Err(_) => None,
    }
}

/// The DDC/CI reading a call answered, as logged.
pub open spec fn reading_of(r: Result<Option<(u32, u32)>, String>) -> Option<(u32, u32)> {
    match r {
        Ok(Some(p)) => Some(p),
        _ => None,
    }
}

/// The answer of a DDC/CI query, as logged.
pub open spec fn answer_of(r: Result<Option<(u32, u32)>, String>) -> Result<Option<(u32, u32)>, Seq<char>> {
    match r {
        Ok(v) => Ok(v),
        Err(e) => Err(e@),
    }
}

/// The backend and the backup store, with the log of the calls made on
/// them.
pub(crate) struct Devices<B: DisplayBackend, S: BaselineStore> {
    backend: B,
    store: S,
    log: Ghost<Seq<DisplayOp<B::Handle>>>,
}

impl<B: DisplayBackend, S: BaselineStore> Devices<B, S> {
    /// The calls made so far, in order.
    pub(crate) closed spec fn calls(&self) -> Seq<DisplayOp<B::Handle>> {
        self.log@
    }

    /// The backend and the store, no call made yet.
    pub(crate) fn new(backend: B, store: S) -> (r: Self)
        ensures
            r.calls() == Seq::<DisplayOp<B::Handle>>::empty(),
    {
        Devices { backend, store, log: Ghost(Seq::empty()) }
    }

    /// Calls `DisplayBackend::list_monitors`; the call is logged with its
    /// answer.
    pub(crate) fn list_monitors(&mut self) -> (r: Result<Vec<(B::Handle, MonitorInfo)>, String>)
        ensures
            final(self).calls() == old(self).calls().push(DisplayOp::Listed(listing_of(r))),
    {
        let r = self.backend.list_monitors();
        proof {
            self.log@ = self.log@.push(DisplayOp::Listed(listing_of(r)));
        }
        r
    }

    /// Calls `DisplayBackend::get_gamma_ramp` on the handle; logged with
    /// its answer.
    pub(crate) fn read_ramp(&mut self, handle: &B::Handle) -> (r: Result<Ramp, String>)
        ensures
            final(self).calls() == old(self).calls().push(DisplayOp::RampRead(*handle, ramp_of(r))),
    {
        let r = self.backend.get_gamma_ramp(handle);
        proof {
            self.log@ = self.log@.push(DisplayOp::RampRead(*handle, ramp_of(r)));
        }
        r
    }

    /// Calls `DisplayBackend::set_gamma_ramp` with the handle and the
    /// ramp; logged with whether it succeeded.
    pub(crate) fn write_ramp(&mut self, handle: &B::Handle, ramp: &Ramp) -> (r: Result<(), String>)
        ensures
            final(self).calls() == old(self).calls().push(DisplayOp::RampWritten(*handle, *ramp, r is Ok)),
    {
        let r = self.backend.set_gamma_ramp(handle, ramp);
        proof {
            self.log@ = self.log@.push(DisplayOp::RampWritten(*handle, *ramp, r is Ok));
        }
        r
    }

    /// Calls `DisplayBackend::set_ddc_brightness` with the handle and the
    /// value; logged with whether it succeeded.
    pub(crate) fn write_ddc(&mut self, handle: &B::Handle, value: u32) -> (r: Result<Option<()>, String>)
        ensures
            final(self).calls() == old(self).calls().push(DisplayOp::DdcWritten(*handle, value, r is Ok)),
    {
        let r = self.backend.set_ddc_brightness(handle, value);
        proof {
            self.log@ = self.log@.push(DisplayOp::DdcWritten(*handle, value, r is Ok));
        }
        r
    }

    /// Calls `DisplayBackend::get_ddc_brightness` on the handle; logged
    /// with its answer.
    pub(crate) fn read_ddc(&mut self, handle: &B::Handle) -> (r: Result<Option<(u32, u32)>, String>)
        ensures
            final(self).calls() == old(self).calls().push(DisplayOp::DdcRead(*handle, reading_of(r))),
    {
        let r = self.backend.get_ddc_brightness(handle);
        proof {
            self.log@ = self.log@.push(DisplayOp::DdcRead(*handle, reading_of(r)));
        }
        r
    }

    /// Calls `DisplayBackend::get_ddc_brightness` on the handle; logged
    /// with its whole answer, an error included.
    pub(crate) fn query_ddc(&mut self, handle: &B::Handle) -> (r: Result<Option<(u32, u32)>, String>)
        ensures
            final(self).calls() == old(self).calls().push(DisplayOp::DdcQueried(*handle, answer_of(r))),
    {
        let r = self.backend.get_ddc_brightness(handle);
        proof {
            self.log@ = self.log@.push(DisplayOp::DdcQueried(*handle, answer_of(r)));
        }
        r
    }

    /// Calls `BaselineStore::has_backup` for the id; logged with its
    /// answer.
    pub(crate) fn has_backup(&mut self, monitor_id: &str) -> (r: bool)
        ensures
            final(self).calls() == old(self).calls().push(DisplayOp::BackupFound(monitor_id@, r)),
    {
        let r = self.store.has_backup(monitor_id);
        proof {
            self.log@ = self.log@.push(DisplayOp::BackupFound(monitor_id@, r));
        }
        r
    }

    /// Calls `BaselineStore::load` for the id; logged with its answer.
    pub(crate) fn load_backup(&mut self, monitor_id: &str) -> (r: Option<Ramp>)
        ensures
            final(self).calls() == old(self).calls().push(DisplayOp::BackupLoaded(monitor_id@, r)),
    {
        let r = self.store.load(monitor_id);
        proof {
            self.log@ = self.log@.push(DisplayOp::BackupLoaded(monitor_id@, r));
        }
        r
    }

    /// Calls `BaselineStore::save` with the id and the ramp; logged with
    /// whether it succeeded.
    pub(crate) fn save_backup(&mut self, monitor_id: &str, ramp: &Ramp) -> (r: Result<(), String>)
        ensures
            final(self).calls() == old(self).calls().push(DisplayOp::BackupSaved(monitor_id@, *ramp, r is Ok)),
    {
        let r = self.store.save(monitor_id, ramp);
        proof {
            self.log@ = self.log@.push(DisplayOp::BackupSaved(monitor_id@, *ramp, r is Ok));
        }
        r
    }

    /// Calls `BaselineStore::remove` for the id; logged.
    pub(crate) fn remove_backup(&mut self, monitor_id: &str)
        ensures
            final(self).calls() == old(self).calls().push(DisplayOp::BackupRemoved(monitor_id@)),
    {
        self.store.remove(monitor_id);
        proof {
            self.log@ = self.log@.push(DisplayOp::BackupRemoved(monitor_id@));
        }
    }
}

} // verus!
