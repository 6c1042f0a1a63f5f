//! The display manager: each monitor's original gamma ramp (its baseline),
//! kept in memory and in a backup file while the application runs, and the
//! parameters applied to it. A backup left over by an abnormal exit is
//! written back before a monitor's baseline is read; a monitor that goes
//! away, or every monitor at exit, gets its baseline back.
//!
//! The platform's display interface and the backup files are reached
//! through [`Devices`], whose methods make each call and log it with its
//! arguments and answer; the manager's contracts speak of that log,
//! [`DisplayManager::ops`].

use vstd::prelude::*;
use crate::common::{default_params, DisplayParams, MonitorInfo};
use crate::display::GAMMA_RAMP_LEN;
use crate::display::plan::ddc_write_needed;
use crate::profile::{bytes_lt, str_less};
use crate::profile::laws::{lemma_bytes_lt_total, lemma_bytes_lt_transitive};
use crate::text::str_eq;
use vstd::utf8::encode_utf8;

verus! {

pub use crate::display::devices::{BaselineStore, DisplayBackend, DisplayOp, Ramp};
use crate::display::devices::{answer_of, reading_of, Devices};

/// What the manager knows of a monitor.
pub struct MonitorView<H> {
    pub handle: H,
    pub info: MonitorInfo,
    pub params: DisplayParams,
    pub baseline: Ramp,
    pub ddc_baseline: Option<u32>,
}

/// One monitor: its handle, description, parameters, baseline ramp and
/// DDC/CI brightness at start.
pub struct MonitorState<H> {
    handle: H,
    info: MonitorInfo,
    params: DisplayParams,
    baseline: Ramp,
    ddc_baseline: Option<u32>,
}

impl<H> MonitorState<H> {
    pub closed spec fn view(&self) -> MonitorView<H> {
        MonitorView {
            handle: self.handle,
            info: self.info,
            params: self.params,
            baseline: self.baseline,
            ddc_baseline: self.ddc_baseline,
        }
    }
}

/// The views of a list of monitors.
pub open spec fn views_of<H>(s: Seq<MonitorState<H>>) -> Seq<MonitorView<H>> {
    s.map_values(|m: MonitorState<H>| m.view())
}

/// The id of a monitor view.
pub open spec fn id_of<H>(m: MonitorView<H>) -> Seq<char> {
    m.info.id@
}

/// Whether some monitor of the list has the id.
pub open spec fn holds<H>(s: Seq<MonitorView<H>>, id: Seq<char>) -> bool {
    exists|i: int| 0 <= i < s.len() && id_of(#[trigger] s[i]) == id
}

/// No id occurs twice.
pub open spec fn distinct_ids<H>(s: Seq<MonitorView<H>>) -> bool {
    forall|i: int, j: int| 0 <= i < j < s.len() ==> id_of(#[trigger] s[i]) != id_of(#[trigger] s[j])
}

/// The calls that recover a monitor from an abnormal exit: whether a
/// backup was found and, if so, the backup read, written back to the
/// monitor when it could be read, and removed.
pub open spec fn recovery_ops<H>(h: H, id: Seq<char>, found: bool, loaded: Option<Ramp>, written: bool) -> Seq<
    DisplayOp<H>,
> {
    if !found {
        seq![DisplayOp::BackupFound(id, false)]
    } else {
        seq![DisplayOp::BackupFound(id, true), DisplayOp::BackupLoaded(id, loaded)] + match loaded {
            Some(b) => seq![DisplayOp::RampWritten(h, b, written)],
            None => Seq::empty(),
        } + seq![DisplayOp::BackupRemoved(id)]
    }
}

/// The calls that set a monitor up: recovery, then its ramp read (the
/// baseline), backed up, and its DDC/CI brightness read.
pub open spec fn setup_ops<H>(
    h: H,
    id: Seq<char>,
    found: bool,
    loaded: Option<Ramp>,
    written: bool,
    baseline: Ramp,
    saved: bool,
    ddc: Option<(u32, u32)>,
) -> Seq<DisplayOp<H>> {
    recovery_ops(h, id, found, loaded, written) + seq![
        DisplayOp::RampRead(h, Some(baseline)),
        DisplayOp::BackupSaved(id, baseline, saved),
        DisplayOp::DdcRead(h, ddc),
    ]
}

/// The brightness of a DDC/CI reading.
pub open spec fn current_of(ddc: Option<(u32, u32)>) -> Option<u32> {
    match ddc {
        Some((cur, _)) => Some(cur),
        None => None,
    }
}

/// The calls that give a monitor its baseline back: the ramp written, the
/// DDC/CI brightness at start written back (when it had one), the backup
/// removed.
pub open spec fn restore_ops<H>(h: H, id: Seq<char>, baseline: Ramp, ddc: Option<u32>, ramp_ok: bool, ddc_ok: bool) -> Seq<
    DisplayOp<H>,
> {
    seq![DisplayOp::RampWritten(h, baseline, ramp_ok)] + match ddc {
        Some(b) => seq![DisplayOp::DdcWritten(h, b, ddc_ok)],
        None => Seq::empty(),
    } + seq![DisplayOp::BackupRemoved(id)]
}

/// `piece` occurs in `ops` as a contiguous run.
pub open spec fn has_run<H>(ops: Seq<DisplayOp<H>>, piece: Seq<DisplayOp<H>>) -> bool {
    exists|j: int| 0 <= j && j + piece.len() <= ops.len() && #[trigger] ops.subrange(j, j + piece.len()) == piece
}

/// The calls that set up this monitor (through its handle, with its
/// baseline and DDC/CI brightness) occur in `ops`.
pub open spec fn set_up_in<H>(ops: Seq<DisplayOp<H>>, x: MonitorView<H>) -> bool {
    exists|found: bool, loaded: Option<Ramp>, written: bool, saved: bool, ddc: Option<(u32, u32)>|
        #[trigger] has_run(ops, setup_ops(x.handle, id_of(x), found, loaded, written, x.baseline, saved, ddc))
            && current_of(ddc) == x.ddc_baseline
}

/// A run in a list is still a run after more is appended.
proof fn lemma_run_kept<H>(ops: Seq<DisplayOp<H>>, more: Seq<DisplayOp<H>>, piece: Seq<DisplayOp<H>>)
    requires
        has_run(ops, piece),
    ensures
        has_run(ops + more, piece),
{
    let j = choose|j: int| 0 <= j && j + piece.len() <= ops.len() && #[trigger] ops.subrange(j, j + piece.len()) == piece;
    assert((ops + more).subrange(j, j + piece.len()) =~= ops.subrange(j, j + piece.len()));
}

/// The appended part is a run.
proof fn lemma_run_appended<H>(ops: Seq<DisplayOp<H>>, piece: Seq<DisplayOp<H>>)
    ensures
        has_run(ops + piece, piece),
{
    assert((ops + piece).subrange(ops.len() as int, (ops.len() + piece.len()) as int) =~= piece);
}

/// The calls that give a monitor that went away its baseline back: the
/// ramp written, the backup removed.
pub open spec fn release_ops<H>(h: H, id: Seq<char>, baseline: Ramp, ok: bool) -> Seq<DisplayOp<H>> {
    seq![DisplayOp::RampWritten(h, baseline, ok), DisplayOp::BackupRemoved(id)]
}

/// The ids of a listing, in order.
pub open spec fn listed_ids<H>(listing: Seq<(H, MonitorInfo)>) -> Seq<Seq<char>> {
    listing.map_values(|e: (H, MonitorInfo)| e.1.id@)
}

/// The monitors of a list whose id a scan still lists, in order.
pub open spec fn kept<H>(s: Seq<MonitorView<H>>, scan: Seq<Seq<char>>) -> Seq<MonitorView<H>>
    decreases s.len(),
{
    if s.len() == 0 {
        s
    } else if scan.contains(id_of(s.last())) {
        kept(s.drop_last(), scan).push(s.last())
    } else {
        kept(s.drop_last(), scan)
    }
}

proof fn lemma_kept<H>(s: Seq<MonitorView<H>>, scan: Seq<Seq<char>>)
    ensures
        forall|x: MonitorView<H>| #[trigger] kept(s, scan).contains(x) <==> (s.contains(x) && scan.contains(id_of(x))),
        distinct_ids(s) ==> distinct_ids(kept(s, scan)),
    decreases s.len(),
{
    if s.len() > 0 {
        let u = s.drop_last();
        let l = s.last();
        lemma_kept(u, scan);
        assert forall|x: MonitorView<H>| #[trigger] s.contains(x) <==> (u.contains(x) || x == l) by {
            if s.contains(x) {
                let i = choose|i: int| 0 <= i < s.len() && s[i] == x;
                if i < u.len() {
                    assert(u[i] == x);
                }
            }
            if u.contains(x) {
                let i = choose|i: int| 0 <= i < u.len() && u[i] == x;
                assert(s[i] == x);
            }
            if x == l {
                assert(s[s.len() - 1] == x);
            }
        }
        let k = kept(u, scan);
        if scan.contains(id_of(l)) {
            assert forall|x: MonitorView<H>| #[trigger] k.push(l).contains(x) <==> (k.contains(x) || x == l) by {
                if k.push(l).contains(x) {
                    let i = choose|i: int| 0 <= i < k.push(l).len() && k.push(l)[i] == x;
                    if i < k.len() {
                        assert(k[i] == x);
                    }
                }
                if k.contains(x) {
                    let i = choose|i: int| 0 <= i < k.len() && k[i] == x;
                    assert(k.push(l)[i] == x);
                }
                if x == l {
                    assert(k.push(l)[k.len() as int] == x);
                }
            }
        }
        if distinct_ids(s) {
            assert(distinct_ids(u)) by {
                assert forall|i: int, j: int| 0 <= i < j < u.len() implies id_of(#[trigger] u[i]) != id_of(
                    #[trigger] u[j],
                ) by {
                    assert(u[i] == s[i] && u[j] == s[j]);
                }
            }
            if scan.contains(id_of(l)) {
                let t = k.push(l);
                assert forall|i: int, j: int| 0 <= i < j < t.len() implies id_of(#[trigger] t[i]) != id_of(
                    #[trigger] t[j],
                ) by {
                    if j == k.len() {
                        assert(k.contains(t[i]));
                        assert(u.contains(t[i]));
                        let a = choose|a: int| 0 <= a < u.len() && u[a] == t[i];
                        assert(s[a] == t[i]);
                        assert(s[s.len() - 1] == l);
                    } else {
                        assert(t[i] == k[i] && t[j] == k[j]);
                    }
                }
            }
        }
    }
}

/// Keeps each monitor's baseline and parameters and applies changes.
pub struct DisplayManager<B: DisplayBackend, S: BaselineStore> {
    devices: Devices<B, S>,
    monitors: Vec<MonitorState<B::Handle>>,
}

impl<B: DisplayBackend, S: BaselineStore> DisplayManager<B, S> {
    /// The monitors, in the order they were set up.
    pub closed spec fn monitors(&self) -> Seq<MonitorView<B::Handle>> {
        views_of(self.monitors@)
    }

    /// The calls made on the backend and the backup store, in order.
    pub closed spec fn ops(&self) -> Seq<DisplayOp<B::Handle>> {
        self.devices.calls()
    }

    /// Every monitor id occurs once.
    pub closed spec fn wf(&self) -> bool {
        distinct_ids(self.monitors())
    }

    /// A manager that knows no monitor yet and has made no call.
    pub fn new(backend: B, store: S) -> (r: Self)
        ensures
            r.wf(),
            r.monitors() == Seq::<MonitorView<B::Handle>>::empty(),
            r.ops() == Seq::<DisplayOp<B::Handle>>::empty(),
    {
        let r = DisplayManager { devices: Devices::new(backend, store), monitors: Vec::new() };
        assert(r.monitors() =~= Seq::<MonitorView<B::Handle>>::empty());
        r
    }

    /// The position of a monitor.
    fn position(&self, monitor_id: &str) -> (r: Option<usize>)
        ensures
            match r {
                Some(k) => k < self.monitors().len() && id_of(self.monitors()[k as int]) == monitor_id@,
                None => !holds(self.monitors(), monitor_id@),
            },
    {
        let mut i: usize = 0;
        while i < self.monitors.len()
            invariant
                i <= self.monitors@.len(),
                forall|j: int| 0 <= j < i ==> id_of(#[trigger] self.monitors()[j]) != monitor_id@,
            decreases self.monitors@.len() - i,
        {
            if str_eq(self.monitors[i].info.id.as_str(), monitor_id) {
                return Some(i);
            }
            i = i + 1;
        }
        None
    }

    /// Sets a new monitor up: a backup left over by an abnormal exit is
    /// written back to the monitor and removed first; then the monitor's
    /// ramp is read as its baseline and backed up, and its DDC/CI
    /// brightness read. When the ramp cannot be read, the monitor is not
    /// added.
    fn setup_monitor(&mut self, handle: B::Handle, info: MonitorInfo) -> (r: Result<(), String>)
        requires
            old(self).wf(),
            !holds(old(self).monitors(), info.id@),
        ensures
            final(self).wf(),
            exists|found: bool, loaded: Option<Ramp>, written: bool|
                #![trigger recovery_ops(handle, info.id@, found, loaded, written)]
                match r {
                    Err(_) => final(self).ops() == old(self).ops() + recovery_ops(handle, info.id@, found, loaded, written)
                        + seq![DisplayOp::RampRead(handle, None)] && final(self).monitors() == old(self).monitors(),
                    Ok(()) => exists|baseline: Ramp, saved: bool, ddc: Option<(u32, u32)>|
                        final(self).ops() == old(self).ops() + (recovery_ops(handle, info.id@, found, loaded, written)
                            + seq![
                            DisplayOp::RampRead(handle, Some(baseline)),
                            DisplayOp::BackupSaved(info.id@, baseline, saved),
                            DisplayOp::DdcRead(handle, ddc),
                        ]) && final(self).monitors() == old(self).monitors().push(
                            MonitorView {
                                handle,
                                info,
                                params: default_params(),
                                baseline,
                                ddc_baseline: current_of(ddc),
                            },
                        ),
                },
    {
        let ghost start = self.devices.calls();
        let ghost id = info.id@;
        let found = self.devices.has_backup(info.id.as_str());
        let mut loaded: Option<Ramp> = None;
        let mut written = false;
        if found {
            loaded = self.devices.load_backup(info.id.as_str());
            if let Some(b) = loaded {
                written = self.devices.write_ramp(&handle, &b).is_ok();
            }
            self.devices.remove_backup(info.id.as_str());
        }
        assert(self.devices.calls() =~= start + recovery_ops(handle, id, found, loaded, written));
        let read = self.devices.read_ramp(&handle);
        let baseline = match read {
            Err(e) => {
                assert(self.devices.calls() =~= start + recovery_ops(handle, id, found, loaded, written) + seq![
                    DisplayOp::RampRead(handle, None),
                ]);
                return Err(e);
            },
            Ok(b) => b,
        };
        let saved = self.devices.save_backup(info.id.as_str(), &baseline).is_ok();
        let reading = self.devices.read_ddc(&handle);
        let ddc = match reading {
            Ok(Some((cur, _))) => Some(cur),
            _ => None,
        };
        assert(self.devices.calls() =~= start + (recovery_ops(handle, id, found, loaded, written) + seq![
            DisplayOp::RampRead(handle, Some(baseline)),
            DisplayOp::BackupSaved(id, baseline, saved),
            DisplayOp::DdcRead(handle, reading_of(reading)),
        ]));
        assert(ddc == current_of(reading_of(reading)));
        let ghost before = self.monitors();
        let m = MonitorState { handle, info, params: default_params_value(), baseline, ddc_baseline: ddc };
        let ghost mv = m.view();
        self.monitors.push(m);
        assert(self.monitors() =~= before.push(mv));
        assert(distinct_ids(self.monitors())) by {
            assert forall|i: int, j: int| 0 <= i < j < self.monitors().len() implies id_of(
                #[trigger] self.monitors()[i],
            ) != id_of(#[trigger] self.monitors()[j]) by {
                if j == before.len() {
                    assert(self.monitors()[i] == before[i]);
                } else {
                    assert(self.monitors()[i] == before[i] && self.monitors()[j] == before[j]);
                }
            }
        }
        Ok(())
    }

    /// Gives the monitor at `k`, which went away, its baseline back
    /// through its handle, removes its backup, and forgets it.
    fn release_at(&mut self, k: usize)
        requires
            old(self).wf(),
            k < old(self).monitors().len(),
        ensures
            final(self).wf(),
            final(self).monitors() == old(self).monitors().remove(k as int),
            exists|ok: bool|
                final(self).ops() == old(self).ops() + release_ops(
                    old(self).monitors()[k as int].handle,
                    id_of(old(self).monitors()[k as int]),
                    old(self).monitors()[k as int].baseline,
                    ok,
                ),
    {
        let ghost start = self.devices.calls();
        let ghost before = self.monitors();
        let baseline = self.monitors[k].baseline;
        assert(baseline == before[k as int].baseline);
        let ok = self.devices.write_ramp(&self.monitors[k].handle, &baseline).is_ok();
        self.devices.remove_backup(self.monitors[k].info.id.as_str());
        assert(self.devices.calls() =~= start + release_ops(
            before[k as int].handle,
            id_of(before[k as int]),
            baseline,
            ok,
        ));
        self.monitors.remove(k);
        assert(self.monitors() =~= before.remove(k as int));
        assert(distinct_ids(self.monitors())) by {
            assert forall|i: int, j: int| 0 <= i < j < self.monitors().len() implies id_of(
                #[trigger] self.monitors()[i],
            ) != id_of(#[trigger] self.monitors()[j]) by {
                let a = if i < k { i } else { i + 1 };
                let b = if j < k { j } else { j + 1 };
                assert(self.monitors()[i] == before[a] && self.monitors()[j] == before[b]);
            }
        }
    }

    /// Rescans the monitors. Each listed monitor that is not known yet is
    /// set up (after crash recovery, see `setup_monitor`) through the handle
    /// the listing gave; each known monitor that is no longer listed gets its
    /// baseline back through its handle and is forgotten. Fails, stopping
    /// there, exactly when listing fails or a new monitor's ramp cannot be
    /// read.
    #[verifier::spinoff_prover]
    #[verifier::rlimit(100)]
    pub fn refresh_monitors(&mut self) -> (r: Result<(), String>)
        requires
            old(self).wf(),
        ensures
            final(self).wf(),
            final(self).ops().len() > old(self).ops().len(),
            final(self).ops().subrange(0, old(self).ops().len() as int) == old(self).ops(),
            final(self).ops()[old(self).ops().len() as int] is Listed,
            final(self).ops()[old(self).ops().len() as int] == DisplayOp::<B::Handle>::Listed(None) ==> r is Err
                && final(self).ops().len() == old(self).ops().len() + 1 && final(self).monitors() == old(self).monitors(),
            r is Err ==> final(self).ops()[old(self).ops().len() as int] == DisplayOp::<B::Handle>::Listed(None)
                || exists|h: B::Handle| #[trigger] final(self).ops()[final(self).ops().len() - 1] == DisplayOp::<
                    B::Handle,
                >::RampRead(h, None),
            r is Ok ==> exists|listing: Seq<(B::Handle, MonitorInfo)>|
                {
                    &&& final(self).ops()[old(self).ops().len() as int] == DisplayOp::Listed(Some(listing))
                    &&& forall|id: Seq<char>| #[trigger] holds(final(self).monitors(), id) <==> listed_ids(listing).contains(id)
                    &&& forall|x: MonitorView<B::Handle>|
                        #[trigger] old(self).monitors().contains(x) && listed_ids(listing).contains(id_of(x))
                            ==> final(self).monitors().contains(x)
                    &&& forall|x: MonitorView<B::Handle>|
                        #[trigger] final(self).monitors().contains(x) && !holds(old(self).monitors(), id_of(x))
                            ==> listing.contains((x.handle, x.info)) && x.params == default_params()
                            && set_up_in(final(self).ops(), x)
                    &&& forall|x: MonitorView<B::Handle>|
                        #[trigger] old(self).monitors().contains(x) && !listed_ids(listing).contains(id_of(x))
                            ==> exists|ok: bool| has_run(final(self).ops(), release_ops(x.handle, id_of(x), x.baseline, ok))
                },
    {
        let ghost start = self.devices.calls();
        let ghost old_mons = self.monitors();
        let listed = self.devices.list_monitors();
        let mut list = match listed {
            Err(e) => {
                return Err(e);
            },
            Ok(list) => list,
        };
        let ghost all = list@;
        let ghost scan_ids = listed_ids(all);
        let mut scan: Vec<String> = Vec::new();
        let mut q: usize = 0;
        while q < list.len()
            invariant
                q <= list@.len(),
                list@ == all,
                scan@.len() == q,
                forall|j: int| 0 <= j < q ==> (#[trigger] scan@[j])@ == list@[j].1.id@,
            decreases list@.len() - q,
        {
            scan.push(list[q].1.id.clone());
            q = q + 1;
        }
        assert(scan@.map_values(|t: String| t@) =~= scan_ids);
        let ghost prefix = self.devices.calls();
        // New monitors, in the order listed.
        let mut p: usize = 0;
        while list.len() > 0
            invariant
                self.wf(),
                start == old(self).ops(),
                old_mons == old(self).monitors(),
                prefix == start.push(DisplayOp::Listed(Some(all))),
                scan_ids == listed_ids(all),
                all.len() <= usize::MAX,
                p + list@.len() == all.len(),
                list@ == all.subrange(p as int, all.len() as int),
                self.ops().len() >= prefix.len(),
                self.ops().subrange(0, prefix.len() as int) == prefix,
                self.monitors().len() >= old_mons.len(),
                self.monitors().subrange(0, old_mons.len() as int) == old_mons,
                forall|id: Seq<char>| #[trigger] holds(self.monitors(), id) <==> (holds(old_mons, id)
                    || scan_ids.subrange(0, p as int).contains(id)),
                forall|x: MonitorView<B::Handle>|
                    #[trigger] self.monitors().contains(x) && !holds(old_mons, id_of(x)) ==> all.contains(
                        (x.handle, x.info),
                    ) && x.params == default_params() && set_up_in(self.ops(), x),
            decreases list@.len(),
        {
            assert(p < all.len());
            let (handle, info) = list.remove(0);
            let ghost id = info.id@;
            assert(all[p as int] == (handle, info));
            assert(id == scan_ids[p as int]);
            let ghost mons = self.monitors();
            let ghost log0 = self.ops();
            if self.position(info.id.as_str()).is_none() {
                let res = self.setup_monitor(handle, info);
                if let Err(e) = res {
                    proof {
                        let (found, loaded, written) = choose|found: bool, loaded: Option<Ramp>, written: bool|
                            #![trigger recovery_ops(handle, id, found, loaded, written)]
                            self.ops() == log0 + recovery_ops(handle, id, found, loaded, written) + seq![
                                DisplayOp::RampRead(handle, None),
                            ] && self.monitors() == mons;
                        assert(self.ops().subrange(0, prefix.len() as int) =~= log0.subrange(0, prefix.len() as int));
                        assert(self.ops()[self.ops().len() - 1] == DisplayOp::<B::Handle>::RampRead(handle, None));
                        assert(self.ops()[start.len() as int] == prefix[start.len() as int]);
                        assert(self.ops().subrange(0, start.len() as int) =~= prefix.subrange(0, start.len() as int));
                    }
                    return Err(e);
                }
                proof {
                    let (found, loaded, written) = choose|found: bool, loaded: Option<Ramp>, written: bool|
                        #![trigger recovery_ops(handle, id, found, loaded, written)]
                        exists|baseline: Ramp, saved: bool, ddc: Option<(u32, u32)>|
                            self.ops() == log0 + (recovery_ops(handle, id, found, loaded, written) + seq![
                                DisplayOp::RampRead(handle, Some(baseline)),
                                DisplayOp::BackupSaved(id, baseline, saved),
                                DisplayOp::DdcRead(handle, ddc),
                            ]) && self.monitors() == mons.push(
                                MonitorView {
                                    handle,
                                    info: info,
                                    params: default_params(),
                                    baseline,
                                    ddc_baseline: current_of(ddc),
                                },
                            );
                    let (baseline, saved, ddc) = choose|baseline: Ramp, saved: bool, ddc: Option<(u32, u32)>|
                        self.ops() == log0 + (recovery_ops(handle, id, found, loaded, written) + seq![
                            DisplayOp::RampRead(handle, Some(baseline)),
                            DisplayOp::BackupSaved(id, baseline, saved),
                            DisplayOp::DdcRead(handle, ddc),
                        ]) && self.monitors() == mons.push(
                            MonitorView {
                                handle,
                                info: info,
                                params: default_params(),
                                baseline,
                                ddc_baseline: current_of(ddc),
                            },
                        );
                    let piece = setup_ops(handle, id, found, loaded, written, baseline, saved, ddc);
                    assert(self.ops() == log0 + piece);
                    lemma_run_appended(log0, piece);
                    let added = MonitorView {
                        handle,
                        info: info,
                        params: default_params(),
                        baseline,
                        ddc_baseline: current_of(ddc),
                    };
                    assert(has_run(self.ops(), setup_ops(added.handle, id_of(added), found, loaded, written, added.baseline, saved, ddc)));
                    assert(set_up_in(self.ops(), added));
                    assert(self.ops().subrange(0, prefix.len() as int) =~= log0.subrange(0, prefix.len() as int));
                    assert(self.monitors().subrange(0, old_mons.len() as int) =~= mons.subrange(0, old_mons.len() as int));
                    assert(all.contains((handle, info)));
                    assert forall|x: MonitorView<B::Handle>|
                        #[trigger] self.monitors().contains(x) && !holds(old_mons, id_of(x)) implies all.contains(
                            (x.handle, x.info),
                        ) && x.params == default_params() && set_up_in(self.ops(), x) by {
                        let i = choose|i: int| 0 <= i < self.monitors().len() && self.monitors()[i] == x;
                        if i < mons.len() {
                            assert(mons[i] == x);
                            assert(mons.contains(x));
                            let (f2, l2, w2, s2, d2) = choose|f2: bool, l2: Option<Ramp>, w2: bool, s2: bool, d2: Option<(u32, u32)>|
                                #[trigger] has_run(log0, setup_ops(x.handle, id_of(x), f2, l2, w2, x.baseline, s2, d2))
                                    && current_of(d2) == x.ddc_baseline;
                            lemma_run_kept(log0, piece, setup_ops(x.handle, id_of(x), f2, l2, w2, x.baseline, s2, d2));
                        } else {
                            assert(x == added);
                        }
                    }
                    assert forall|k: Seq<char>| #[trigger] holds(self.monitors(), k) <==> (holds(old_mons, k)
                        || scan_ids.subrange(0, p as int + 1).contains(k)) by {
                        assert(scan_ids.subrange(0, p as int + 1) =~= scan_ids.subrange(0, p as int).push(id));
                        lemma_push_contains(scan_ids.subrange(0, p as int), id, k);
                        if holds(self.monitors(), k) {
                            let i = choose|i: int| 0 <= i < self.monitors().len() && id_of(#[trigger] self.monitors()[i]) == k;
                            if i < mons.len() {
                                assert(holds(mons, k));
                            }
                        }
                        if holds(mons, k) {
                            let i = choose|i: int| 0 <= i < mons.len() && id_of(#[trigger] mons[i]) == k;
                            assert(self.monitors()[i] == mons[i]);
                        }
                        if k == id {
                            assert(id_of(self.monitors()[mons.len() as int]) == k);
                        }
                    }
                }
            } else {
                proof {
                    assert forall|k: Seq<char>| #[trigger] holds(self.monitors(), k) <==> (holds(old_mons, k)
                        || scan_ids.subrange(0, p as int + 1).contains(k)) by {
                        assert(scan_ids.subrange(0, p as int + 1) =~= scan_ids.subrange(0, p as int).push(id));
                        lemma_push_contains(scan_ids.subrange(0, p as int), id, k);
                    }
                }
            }
            p = p + 1;
            assert(list@ =~= all.subrange(p as int, all.len() as int));
        }
        assert(scan_ids.subrange(0, p as int) =~= scan_ids);
        let ghost mid = self.monitors();
        let ghost log1 = self.ops();
        // Monitors that went away.
        let mut i: usize = 0;
        let ghost mut c: int = 0;
        while i < self.monitors.len()
            invariant
                distinct_ids(mid),
                start == old(self).ops(),
                old_mons == old(self).monitors(),
                prefix == start.push(DisplayOp::Listed(Some(all))),
                scan_ids == listed_ids(all),
                log1.len() >= prefix.len(),
                log1.subrange(0, prefix.len() as int) == prefix,
                mid.len() >= old_mons.len(),
                mid.subrange(0, old_mons.len() as int) == old_mons,
                forall|id: Seq<char>| #[trigger] holds(mid, id) <==> (holds(old_mons, id) || scan_ids.contains(id)),
                forall|x: MonitorView<B::Handle>|
                    #[trigger] mid.contains(x) && !holds(old_mons, id_of(x)) ==> all.contains((x.handle, x.info))
                        && x.params == default_params() && set_up_in(log1, x),
                0 <= c <= mid.len(),
                i as int == kept(mid.subrange(0, c), scan_ids).len(),
                self.monitors() == kept(mid.subrange(0, c), scan_ids) + mid.subrange(c, mid.len() as int),
                scan@.map_values(|t: String| t@) == scan_ids,
                self.ops().len() >= log1.len(),
                self.ops().subrange(0, log1.len() as int) == log1,
                forall|j: int|
                    0 <= j < c && !scan_ids.contains(id_of(#[trigger] mid[j])) ==> exists|ok: bool|
                        has_run(self.ops(), release_ops(mid[j].handle, id_of(mid[j]), mid[j].baseline, ok)),
            decreases self.monitors@.len() - i,
        {
            assert(self.monitors()[i as int] == mid[c]);
            let ghost sub = mid.subrange(0, c + 1);
            assert(sub.drop_last() =~= mid.subrange(0, c));
            assert(sub.last() == mid[c]);
            proof {
                lemma_kept(mid.subrange(0, c), scan_ids);
                lemma_kept(mid, scan_ids);
            }
            if contains_text(&scan, self.monitors[i].info.id.as_str()) {
                assert(self.monitors() =~= kept(sub, scan_ids) + mid.subrange(c + 1, mid.len() as int));
                i = i + 1;
            } else {
                proof {
                    lemma_kept_then_rest(mid, c, scan_ids);
                }
                let ghost log2 = self.ops();
                let ghost gone = mid[c];
                self.release_at(i);
                proof {
                    let ok = choose|ok: bool| self.ops() == log2 + release_ops(gone.handle, id_of(gone), gone.baseline, ok);
                    lemma_run_appended(log2, release_ops(gone.handle, id_of(gone), gone.baseline, ok));
                    assert(self.ops().subrange(0, log1.len() as int) =~= log2.subrange(0, log1.len() as int));
                    assert forall|j: int|
                        0 <= j < c + 1 && !scan_ids.contains(id_of(#[trigger] mid[j])) implies exists|ok2: bool|
                            has_run(self.ops(), release_ops(mid[j].handle, id_of(mid[j]), mid[j].baseline, ok2)) by {
                        if j < c {
                            let ok2 = choose|ok2: bool| has_run(log2, release_ops(mid[j].handle, id_of(mid[j]), mid[j].baseline, ok2));
                            lemma_run_kept(
                                log2,
                                release_ops(gone.handle, id_of(gone), gone.baseline, ok),
                                release_ops(mid[j].handle, id_of(mid[j]), mid[j].baseline, ok2),
                            );
                        }
                    }
                    assert(self.monitors() =~= kept(sub, scan_ids) + mid.subrange(c + 1, mid.len() as int));
                }
            }
            proof {
                c = c + 1;
            }
        }
        proof {
            assert(mid.subrange(c, mid.len() as int).len() == 0);
            assert(c == mid.len());
            assert(mid.subrange(0, c) =~= mid);
            assert(self.monitors() =~= kept(mid, scan_ids));
            lemma_kept(mid, scan_ids);
            assert(self.ops().subrange(0, prefix.len() as int) =~= log1.subrange(0, prefix.len() as int));
            assert(self.ops()[start.len() as int] == prefix[start.len() as int]);
            assert(self.ops().subrange(0, start.len() as int) =~= prefix.subrange(0, start.len() as int));
            let fin = self.monitors();
            let rest = self.ops().subrange(log1.len() as int, self.ops().len() as int);
            assert(self.ops() =~= log1 + rest);
            assert forall|k: Seq<char>| #[trigger] holds(fin, k) <==> scan_ids.contains(k) by {
                if holds(fin, k) {
                    let i = choose|i: int| 0 <= i < fin.len() && id_of(#[trigger] fin[i]) == k;
                    assert(fin.contains(fin[i]));
                }
                if scan_ids.contains(k) {
                    assert(holds(mid, k));
                    let i = choose|i: int| 0 <= i < mid.len() && id_of(#[trigger] mid[i]) == k;
                    assert(mid.contains(mid[i]));
                    assert(fin.contains(mid[i]));
                    let j = choose|j: int| 0 <= j < fin.len() && fin[j] == mid[i];
                    assert(id_of(fin[j]) == k);
                }
            }
            assert forall|x: MonitorView<B::Handle>|
                #[trigger] old_mons.contains(x) && scan_ids.contains(id_of(x)) implies fin.contains(x) by {
                let i = choose|i: int| 0 <= i < old_mons.len() && old_mons[i] == x;
                assert(mid.subrange(0, old_mons.len() as int)[i] == x);
                assert(mid[i] == x);
                assert(mid.contains(x));
            }
            assert forall|x: MonitorView<B::Handle>|
                #[trigger] fin.contains(x) && !holds(old_mons, id_of(x)) implies all.contains((x.handle, x.info))
                    && x.params == default_params() && set_up_in(self.ops(), x) by {
                assert(mid.contains(x));
                let (f2, l2, w2, s2, d2) = choose|f2: bool, l2: Option<Ramp>, w2: bool, s2: bool, d2: Option<(u32, u32)>|
                    #[trigger] has_run(log1, setup_ops(x.handle, id_of(x), f2, l2, w2, x.baseline, s2, d2))
                        && current_of(d2) == x.ddc_baseline;
                lemma_run_kept(log1, rest, setup_ops(x.handle, id_of(x), f2, l2, w2, x.baseline, s2, d2));
            }
            assert forall|x: MonitorView<B::Handle>|
                #[trigger] old_mons.contains(x) && !scan_ids.contains(id_of(x)) implies exists|ok: bool|
                    has_run(self.ops(), release_ops(x.handle, id_of(x), x.baseline, ok)) by {
                let i = choose|i: int| 0 <= i < old_mons.len() && old_mons[i] == x;
                assert(mid.subrange(0, old_mons.len() as int)[i] == x);
                assert(mid[i] == x);
            }
        }
        Ok(())
    }

    /// Every monitor's description and parameters, ordered by id (the
    /// byte order of the ids' UTF-8 text).
    pub fn snapshot(&self) -> (r: Vec<(MonitorInfo, DisplayParams)>)
        requires
            self.wf(),
        ensures
            r@.len() == self.monitors().len(),
            forall|i: int, j: int| 0 <= i < j < r@.len() ==> id_lt(#[trigger] r@[i].0.id@, #[trigger] r@[j].0.id@),
            forall|i: int| 0 <= i < r@.len() ==> #[trigger] describes(r@[i], self.monitors()),
    {
        let n = self.monitors.len();
        let mut remaining: Vec<usize> = Vec::new();
        let mut q: usize = 0;
        while q < n
            invariant
                q <= n,
                n == self.monitors@.len(),
                remaining@.len() == q,
                forall|j: int| 0 <= j < q ==> remaining@[j] == j,
            decreases n - q,
        {
            remaining.push(q);
            q = q + 1;
        }
        let mut out: Vec<(MonitorInfo, DisplayParams)> = Vec::new();
        let ghost mut order: Seq<int> = Seq::empty();
        while remaining.len() > 0
            invariant
                n == self.monitors@.len(),
                self.monitors().len() == n,
                distinct_ids(self.monitors()),
                out@.len() + remaining@.len() == n,
                forall|j: int| 0 <= j < remaining@.len() ==> #[trigger] remaining@[j] < n,
                forall|a: int, b: int| 0 <= a < b < remaining@.len() ==> #[trigger] remaining@[a] != #[trigger] remaining@[b],
                forall|i: int, j: int| 0 <= i < j < out@.len() ==> id_lt(#[trigger] out@[i].0.id@, #[trigger] out@[j].0.id@),
                forall|i: int, j: int|
                    0 <= i < out@.len() && 0 <= j < remaining@.len() ==> id_lt(
                        #[trigger] out@[i].0.id@,
                        id_of(self.monitors()[#[trigger] remaining@[j] as int]),
                    ),
                order.len() == out@.len(),
                forall|i: int|
                    0 <= i < out@.len() ==> 0 <= #[trigger] order[i] < n && same_info(out@[i].0, self.monitors()[order[i]].info)
                        && out@[i].1 == self.monitors()[order[i]].params,
            decreases remaining@.len(),
        {
            // the remaining monitor with the smallest id
            let mut best: usize = 0;
            let mut j: usize = 1;
            while j < remaining.len()
                invariant
                    n == self.monitors@.len(),
                    self.monitors().len() == n,
                    distinct_ids(self.monitors()),
                    best < j <= remaining@.len(),
                    forall|t: int| 0 <= t < remaining@.len() ==> #[trigger] remaining@[t] < n,
                    forall|a: int, b: int| 0 <= a < b < remaining@.len() ==> #[trigger] remaining@[a] != #[trigger] remaining@[b],
                    forall|t: int|
                        0 <= t < j && t != best ==> id_lt(
                            id_of(self.monitors()[remaining@[best as int] as int]),
                            id_of(self.monitors()[#[trigger] remaining@[t] as int]),
                        ),
                decreases remaining@.len() - j,
            {
                let cand = remaining[j];
                let cur = remaining[best];
                if str_less(self.monitors[cand].info.id.as_str(), self.monitors[cur].info.id.as_str()) {
                    proof {
                        let c = id_of(self.monitors()[cand as int]);
                        assert forall|t: int|
                            0 <= t < j + 1 && t != j implies id_lt(c, id_of(self.monitors()[#[trigger] remaining@[t] as int])) by {
                            let o = id_of(self.monitors()[remaining@[t] as int]);
                            let b0 = id_of(self.monitors()[cur as int]);
                            if t != best {
                                lemma_bytes_lt_transitive(encode_utf8(c), encode_utf8(b0), encode_utf8(o));
                            }
                        }
                    }
                    best = j;
                } else {
                    proof {
                        let c = id_of(self.monitors()[cand as int]);
                        let b0 = id_of(self.monitors()[cur as int]);
                        assert(cand != cur);
                        assert(c != b0);
                        lemma_ids_ordered(c, b0);
                    }
                }
                j = j + 1;
            }
            let k = remaining.remove(best);
            let m = &self.monitors[k].info;
            let info = MonitorInfo::new(m.id.as_str(), m.name.as_str(), m.is_primary, m.supports_ddc, m.width, m.height);
            let ghost old_out = out@;
            let ghost old_rem = remaining@;
            out.push((info, self.monitors[k].params));
            proof {
                assert(out@[old_out.len() as int].0.id@ == id_of(self.monitors()[k as int]));
                assert forall|i: int, j2: int| 0 <= i < j2 < out@.len() implies id_lt(
                    #[trigger] out@[i].0.id@,
                    #[trigger] out@[j2].0.id@,
                ) by {
                    if j2 == old_out.len() {
                        assert(out@[i] == old_out[i]);
                    }
                }
                order = order.push(k as int);
                assert forall|i: int|
                    0 <= i < out@.len() implies 0 <= #[trigger] order[i] < n && same_info(out@[i].0, self.monitors()[order[i]].info)
                        && out@[i].1 == self.monitors()[order[i]].params by {
                    if i < old_out.len() {
                        assert(out@[i] == old_out[i]);
                    }
                }
            }
        }
        assert forall|i: int| 0 <= i < out@.len() implies #[trigger] describes(out@[i], self.monitors()) by {
            let k = order[i];
            assert(0 <= k < self.monitors().len());
        }
        out
    }

    /// The parameters of a monitor.
    pub fn params_of(&self, monitor_id: &str) -> (r: Option<DisplayParams>)
        requires
            self.wf(),
        ensures
            !holds(self.monitors(), monitor_id@) ==> r is None,
            forall|i: int|
                0 <= i < self.monitors().len() && id_of(#[trigger] self.monitors()[i]) == monitor_id@
                    ==> r == Some(self.monitors()[i].params),
    {
        match self.position(monitor_id) {
            Some(k) => Some(self.monitors[k].params),
            None => None,
        }
    }

    /// What the ramp of a monitor is computed from: its baseline, and
    /// whether its brightness is set over DDC/CI.
    pub fn ramp_inputs(&self, monitor_id: &str) -> (r: Option<(Ramp, bool)>)
        requires
            self.wf(),
        ensures
            !holds(self.monitors(), monitor_id@) ==> r is None,
            forall|i: int|
                0 <= i < self.monitors().len() && id_of(#[trigger] self.monitors()[i]) == monitor_id@
                    ==> r == Some((self.monitors()[i].baseline, self.monitors()[i].info.supports_ddc)),
    {
        match self.position(monitor_id) {
            Some(k) => Some((self.monitors[k].baseline, self.monitors[k].info.supports_ddc)),
            None => None,
        }
    }

    /// The DDC/CI brightness of a monitor and its maximum, as the backend
    /// reports them for the monitor's handle (`Ok(None)` without DDC/CI);
    /// an error for an unknown monitor, without asking the backend.
    pub fn ddc_brightness(&mut self, monitor_id: &str) -> (r: Result<Option<(u32, u32)>, String>)
        requires
            old(self).wf(),
        ensures
            final(self).wf(),
            final(self).monitors() == old(self).monitors(),
            !holds(old(self).monitors(), monitor_id@) ==> (r matches Err(e) && e@ == unknown_monitor(monitor_id@))
                && final(self).ops() == old(self).ops(),
            forall|k: int|
                0 <= k < old(self).monitors().len() && id_of(#[trigger] old(self).monitors()[k]) == monitor_id@
                    ==> final(self).ops() == old(self).ops().push(
                    DisplayOp::DdcQueried(old(self).monitors()[k].handle, answer_of(r)),
                ),
    {
        match self.position(monitor_id) {
            Some(k) => self.devices.query_ddc(&self.monitors[k].handle),
            None => Err(unknown_monitor_text(monitor_id)),
        }
    }

    /// Applies parameters to a monitor: `ramp` (computed from its baseline
    /// and the parameters) is written, then, on a monitor with DDC/CI, the
    /// brightness `ddc_target` unless it is the brightness the monitor had
    /// at start. The parameters are recorded when both succeeded.
    pub fn set_params(&mut self, monitor_id: &str, params: DisplayParams, ramp: &Ramp, ddc_target: u32) -> (r:
        Result<(), String>)
        requires
            old(self).wf(),
        ensures
            final(self).wf(),
            !holds(old(self).monitors(), monitor_id@) ==> (r matches Err(e) && e@ == unknown_monitor(monitor_id@))
                && final(self).ops() == old(self).ops() && final(self).monitors() == old(self).monitors(),
            forall|k: int|
                0 <= k < old(self).monitors().len() && id_of(#[trigger] old(self).monitors()[k]) == monitor_id@
                    ==> {
                    let m = old(self).monitors()[k];
                    let ddc = m.info.supports_ddc && match m.ddc_baseline {
                        Some(b) => b != ddc_target,
                        None => true,
                    };
                    &&& (r is Ok ==> final(self).monitors() == old(self).monitors().update(k, MonitorView { params, ..m })
                        && final(self).ops() == old(self).ops() + seq![DisplayOp::RampWritten(m.handle, *ramp, true)]
                        + if ddc { seq![DisplayOp::DdcWritten(m.handle, ddc_target, true)] } else { Seq::empty() })
                    &&& (r is Err ==> final(self).monitors() == old(self).monitors() && (final(self).ops()
                        == old(self).ops() + seq![DisplayOp::RampWritten(m.handle, *ramp, false)] || (ddc
                        && final(self).ops() == old(self).ops() + seq![
                        DisplayOp::RampWritten(m.handle, *ramp, true),
                        DisplayOp::DdcWritten(m.handle, ddc_target, false),
                    ])))
                },
    {
        let k = match self.position(monitor_id) {
            Some(k) => k,
            None => {
                return Err(unknown_monitor_text(monitor_id));
            },
        };
        let ghost before = self.monitors();
        let ghost start = self.ops();
        let ghost m0 = before[k as int];
        let written = self.devices.write_ramp(&self.monitors[k].handle, ramp);
        if let Err(e) = written {
            return Err(e);
        }
        if self.monitors[k].info.supports_ddc && ddc_write_needed(self.monitors[k].ddc_baseline, ddc_target) {
            let set = self.devices.write_ddc(&self.monitors[k].handle, ddc_target);
            if let Err(e) = set {
                assert(self.ops() =~= start + seq![
                    DisplayOp::RampWritten(m0.handle, *ramp, true),
                    DisplayOp::DdcWritten(m0.handle, ddc_target, false),
                ]);
                return Err(e);
            }
            assert(self.ops() =~= start + seq![DisplayOp::RampWritten(m0.handle, *ramp, true)] + seq![
                DisplayOp::DdcWritten(m0.handle, ddc_target, true),
            ]);
        } else {
            assert(self.ops() =~= start + seq![DisplayOp::RampWritten(m0.handle, *ramp, true)] + Seq::<
                DisplayOp<B::Handle>,
            >::empty());
        }
        let mut m = self.monitors.remove(k);
        m.params = params;
        self.monitors.insert(k, m);
        proof {
            assert(self.monitors() =~= before.update(k as int, MonitorView { params, ..before[k as int] }));
            assert forall|i: int, j: int| 0 <= i < j < self.monitors().len() implies id_of(
                #[trigger] self.monitors()[i],
            ) != id_of(#[trigger] self.monitors()[j]) by {
                assert(id_of(self.monitors()[i]) == id_of(before[i]));
                assert(id_of(self.monitors()[j]) == id_of(before[j]));
            }
        }
        Ok(())
    }

    /// Gives a monitor its original picture back: its baseline ramp, then
    /// the DDC/CI brightness it had at start (when it had one; a failure
    /// there is ignored); its backup is removed and its parameters become
    /// the defaults. Fails when the monitor is unknown or the ramp cannot
    /// be written.
    pub fn restore_baseline(&mut self, monitor_id: &str) -> (r: Result<(), String>)
        requires
            old(self).wf(),
        ensures
            final(self).wf(),
            !holds(old(self).monitors(), monitor_id@) ==> (r matches Err(e) && e@ == unknown_monitor(monitor_id@))
                && final(self).ops() == old(self).ops() && final(self).monitors() == old(self).monitors(),
            forall|k: int|
                0 <= k < old(self).monitors().len() && id_of(#[trigger] old(self).monitors()[k]) == monitor_id@
                    ==> {
                    let m = old(self).monitors()[k];
                    &&& (r is Ok ==> final(self).monitors() == old(self).monitors().update(
                        k,
                        MonitorView { params: default_params(), ..m },
                    ) && exists|ddc_ok: bool|
                        final(self).ops() == old(self).ops() + restore_ops(m.handle, monitor_id@, m.baseline, m.ddc_baseline, true, ddc_ok))
                    &&& (r is Err ==> final(self).monitors() == old(self).monitors() && final(self).ops()
                        == old(self).ops() + seq![DisplayOp::RampWritten(m.handle, m.baseline, false)])
                },
    {
        let k = match self.position(monitor_id) {
            Some(k) => k,
            None => {
                return Err(unknown_monitor_text(monitor_id));
            },
        };
        let ghost before = self.monitors();
        let ghost start = self.ops();
        let baseline = self.monitors[k].baseline;
        assert(baseline == before[k as int].baseline);
        let written = self.devices.write_ramp(&self.monitors[k].handle, &baseline);
        if let Err(e) = written {
            return Err(e);
        }
        let mut ddc_ok = true;
        if let Some(base) = self.monitors[k].ddc_baseline {
            ddc_ok = self.devices.write_ddc(&self.monitors[k].handle, base).is_ok();
        }
        self.devices.remove_backup(monitor_id);
        assert(self.ops() =~= start + restore_ops(
            before[k as int].handle,
            monitor_id@,
            baseline,
            before[k as int].ddc_baseline,
            true,
            ddc_ok,
        ));
        let mut m = self.monitors.remove(k);
        m.params = default_params_value();
        self.monitors.insert(k, m);
        proof {
            assert(self.monitors() =~= before.update(
                k as int,
                MonitorView { params: default_params(), ..before[k as int] },
            ));
            assert forall|i: int, j: int| 0 <= i < j < self.monitors().len() implies id_of(
                #[trigger] self.monitors()[i],
            ) != id_of(#[trigger] self.monitors()[j]) by {
                assert(id_of(self.monitors()[i]) == id_of(before[i]));
                assert(id_of(self.monitors()[j]) == id_of(before[j]));
            }
        }
        Ok(())
    }

    /// Gives every monitor its original picture back at exit (see
    /// `restore_baseline`), in order; a monitor whose ramp cannot be
    /// written keeps its parameters.
    pub fn shutdown(&mut self)
        requires
            old(self).wf(),
        ensures
            final(self).wf(),
            final(self).monitors().len() == old(self).monitors().len(),
            forall|i: int|
                0 <= i < old(self).monitors().len() ==> {
                    let m = old(self).monitors()[i];
                    ||| (#[trigger] final(self).monitors()[i] == MonitorView { params: default_params(), ..m }
                        && exists|ddc_ok: bool|
                        has_run(final(self).ops(), restore_ops(m.handle, id_of(m), m.baseline, m.ddc_baseline, true, ddc_ok)))
                    ||| (final(self).monitors()[i] == m && has_run(
                        final(self).ops(),
                        seq![DisplayOp::RampWritten(m.handle, m.baseline, false)],
                    ))
                },
    {
        let ghost orig = self.monitors();
        let mut i: usize = 0;
        while i < self.monitors.len()
            invariant
                self.wf(),
                orig == old(self).monitors(),
                self.monitors().len() == orig.len(),
                self.monitors@.len() == orig.len(),
                forall|j: int| 0 <= j < orig.len() ==> id_of(#[trigger] self.monitors()[j]) == id_of(orig[j]),
                forall|j: int| i <= j < orig.len() ==> #[trigger] self.monitors()[j] == orig[j],
                forall|j: int|
                    0 <= j < i ==> {
                        let m = orig[j];
                        ||| (#[trigger] self.monitors()[j] == MonitorView { params: default_params(), ..m }
                            && exists|ddc_ok: bool|
                            has_run(self.ops(), restore_ops(m.handle, id_of(m), m.baseline, m.ddc_baseline, true, ddc_ok)))
                        ||| (self.monitors()[j] == m && has_run(
                            self.ops(),
                            seq![DisplayOp::RampWritten(m.handle, m.baseline, false)],
                        ))
                    },
            decreases orig.len() - i,
        {
            let id = String::from_str(self.monitors[i].info.id.as_str());
            let ghost log0 = self.ops();
            let ghost mons = self.monitors();
            proof {
                assert forall|a: int, b: int| 0 <= a < b < mons.len() implies #[trigger] id_of(mons[a]) != #[trigger] id_of(mons[b]) by {}
            }
            let res = self.restore_baseline(id.as_str());
            assert(views_of(self.monitors@).len() == self.monitors@.len());
            proof {
                assert(id_of(mons[i as int]) == id@);
                let m = orig[i as int];
                assert(mons[i as int] == m);
                if res is Ok {
                    assert(self.monitors()[i as int] == MonitorView { params: default_params(), ..m });
                } else {
                    assert(self.monitors()[i as int] == m);
                    assert(self.ops() == log0 + seq![DisplayOp::RampWritten(m.handle, m.baseline, false)]);
                }
                let more = self.ops().subrange(log0.len() as int, self.ops().len() as int);
                assert(self.ops() =~= log0 + more);
                assert forall|j: int|
                    0 <= j < i + 1 implies {
                        let m = orig[j];
                        ||| (#[trigger] self.monitors()[j] == MonitorView { params: default_params(), ..m }
                            && exists|ddc_ok: bool|
                            has_run(self.ops(), restore_ops(m.handle, id_of(m), m.baseline, m.ddc_baseline, true, ddc_ok)))
                        ||| (self.monitors()[j] == m && has_run(
                            self.ops(),
                            seq![DisplayOp::RampWritten(m.handle, m.baseline, false)],
                        ))
                    } by {
                    let m = orig[j];
                    if j < i {
                        assert(self.monitors()[j] == mons[j]);
                        if mons[j] == (MonitorView { params: default_params(), ..m }) && exists|ddc_ok: bool|
                            has_run(log0, restore_ops(m.handle, id_of(m), m.baseline, m.ddc_baseline, true, ddc_ok)) {
                            let d = choose|ddc_ok: bool|
                                has_run(log0, restore_ops(m.handle, id_of(m), m.baseline, m.ddc_baseline, true, ddc_ok));
                            lemma_run_kept(log0, more, restore_ops(m.handle, id_of(m), m.baseline, m.ddc_baseline, true, d));
                        } else {
                            lemma_run_kept(log0, more, seq![DisplayOp::RampWritten(m.handle, m.baseline, false)]);
                        }
                    } else {
                        assert(mons[j] == m);
                        if res is Err {
                            lemma_run_appended(log0, seq![DisplayOp::RampWritten(m.handle, m.baseline, false)]);
                        } else {
                            let d = choose|ddc_ok: bool|
                                self.ops() == log0 + restore_ops(m.handle, id_of(m), m.baseline, m.ddc_baseline, true, ddc_ok);
                            lemma_run_appended(log0, restore_ops(m.handle, id_of(m), m.baseline, m.ddc_baseline, true, d));
                        }
                    }
                }
            }
            i = i + 1;
        }
    }
}

/// The monitors kept so far followed by those not yet looked at still
/// have distinct ids.
proof fn lemma_kept_then_rest<H>(mid: Seq<MonitorView<H>>, c: int, scan: Seq<Seq<char>>)
    requires
        distinct_ids(mid),
        0 <= c <= mid.len(),
    ensures
        distinct_ids(kept(mid.subrange(0, c), scan) + mid.subrange(c, mid.len() as int)),
{
    let head = mid.subrange(0, c);
    let kk = kept(head, scan);
    let cur = kk + mid.subrange(c, mid.len() as int);
    lemma_kept(head, scan);
    assert(distinct_ids(head)) by {
        assert forall|a: int, b: int| 0 <= a < b < head.len() implies id_of(#[trigger] head[a]) != id_of(
            #[trigger] head[b],
        ) by {
            assert(head[a] == mid[a] && head[b] == mid[b]);
        }
    }
    assert forall|a: int, b: int| 0 <= a < b < cur.len() implies id_of(#[trigger] cur[a]) != id_of(
        #[trigger] cur[b],
    ) by {
        if a < kk.len() && b < kk.len() {
            assert(kk[a] == cur[a] && kk[b] == cur[b]);
        } else if a >= kk.len() {
            assert(cur[a] == mid[c + a - kk.len()] && cur[b] == mid[c + b - kk.len()]);
        } else {
            assert(kk.contains(cur[a]));
            assert(head.contains(cur[a]));
            let z = choose|z: int| 0 <= z < head.len() && head[z] == cur[a];
            assert(mid[z] == cur[a]);
            assert(cur[b] == mid[c + b - kk.len()]);
        }
    }
}

proof fn lemma_push_contains(s: Seq<Seq<char>>, x: Seq<char>, k: Seq<char>)
    ensures
        s.push(x).contains(k) <==> (s.contains(k) || k == x),
{
    let t = s.push(x);
    if t.contains(k) {
        let j = choose|j: int| 0 <= j < t.len() && #[trigger] t[j] == k;
        if j < s.len() {
            assert(s[j] == k);
        }
    }
    if s.contains(k) {
        let j = choose|j: int| 0 <= j < s.len() && #[trigger] s[j] == k;
        assert(t[j] == k);
    }
    if k == x {
        assert(t[s.len() as int] == k);
    }
}

/// The order of monitor ids: the byte order of their UTF-8 text.
pub open spec fn id_lt(a: Seq<char>, b: Seq<char>) -> bool {
    bytes_lt(encode_utf8(a), encode_utf8(b))
}

/// Two different ids are ordered one way or the other.
proof fn lemma_ids_ordered(a: Seq<char>, b: Seq<char>)
    requires
        a != b,
    ensures
        id_lt(a, b) || id_lt(b, a),
{
    vstd::utf8::encode_utf8_decode_utf8(a);
    vstd::utf8::encode_utf8_decode_utf8(b);
    lemma_bytes_lt_total(encode_utf8(a), encode_utf8(b));
}

/// An entry of a snapshot describes one of the monitors: its description
/// and parameters.
pub open spec fn describes<H>(e: (MonitorInfo, DisplayParams), ms: Seq<MonitorView<H>>) -> bool {
    exists|k: int| 0 <= k < ms.len() && same_info(e.0, #[trigger] ms[k].info) && e.1 == ms[k].params
}

/// Two monitor descriptions say the same.
pub open spec fn same_info(a: MonitorInfo, b: MonitorInfo) -> bool {
    &&& a.id@ == b.id@
    &&& a.name@ == b.name@
    &&& a.is_primary == b.is_primary
    &&& a.supports_ddc == b.supports_ddc
    &&& a.width == b.width
    &&& a.height == b.height
}

/// The message for an unknown monitor.
pub open spec fn unknown_monitor(id: Seq<char>) -> Seq<char> {
    "显示器不存在: "@ + id
}

fn unknown_monitor_text(id: &str) -> (r: String)
    ensures
        r@ == unknown_monitor(id@),
{
    let mut s = String::from_str("显示器不存在: ");
    s.append(id);
    s
}

/// Whether one of the texts is `t`.
fn contains_text(v: &Vec<String>, t: &str) -> (r: bool)
    ensures
        r == v@.map_values(|s: String| s@).contains(t@),
{
    let mut i: usize = 0;
    while i < v.len()
        invariant
            i <= v@.len(),
            forall|j: int| 0 <= j < i ==> (#[trigger] v@[j])@ != t@,
        decreases v@.len() - i,
    {
        if str_eq(v[i].as_str(), t) {
            assert(v@.map_values(|s: String| s@)[i as int] == t@);
            return true;
        }
        i = i + 1;
    }
    proof {
        let w = v@.map_values(|s: String| s@);
        if w.contains(t@) {
            let j = choose|j: int| 0 <= j < w.len() && #[trigger] w[j] == t@;
            assert(v@[j]@ == t@);
        }
    }
    false
}

/// The default parameters, as a value.
fn default_params_value() -> (r: DisplayParams)
    ensures
        r == default_params(),
{
    DisplayParams::default()
}

} // verus!
