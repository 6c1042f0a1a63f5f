//! The in-memory displays used where no real monitor can be reached: two
//! monitors, `mock-0` (DDC/CI capable, primary) and `mock-1` (gamma only,
//! no DDC/CI), whose gamma ramps and DDC/CI values live in memory.

use vstd::prelude::*;
use crate::common::MonitorInfo;
use crate::display::GAMMA_RAMP_LEN;
use crate::keyed::Table;
use crate::text::{decimal, push_decimal};

verus! {

/// Number of in-memory monitors.
pub const MOCK_MONITOR_COUNT: usize = 2;

/// The id of the in-memory monitor at position `i`: `mock-` and `i`.
pub open spec fn mock_id(i: nat) -> Seq<char> {
    "mock-"@ + decimal(i)
}

/// The name of the in-memory monitor at position `i`: `Mock Monitor ` and
/// `i + 1`.
pub open spec fn mock_name(i: nat) -> Seq<char> {
    "Mock Monitor "@ + decimal(i + 1)
}

/// Whether a text is the id of one of the in-memory monitors.
pub open spec fn is_mock_id(k: Seq<char>) -> bool {
    exists|i: nat| i < MOCK_MONITOR_COUNT && k == #[trigger] mock_id(i)
}

/// The DDC/CI values of an in-memory monitor.
#[derive(Debug, Clone, Copy, PartialEq, Eq, Structural)]
pub struct DdcValues {
    /// Brightness, 0 to 100.
    pub brightness: u32,
    /// Contrast, 0 to 100.
    pub contrast: u32,
}

/// The DDC/CI values a fresh monitor reports: brightness 80, contrast 50.
pub open spec fn initial_ddc() -> DdcValues {
    DdcValues { brightness: 80, contrast: 50 }
}

fn mock_id_text(i: usize) -> (r: String)
    ensures
        r@ == mock_id(i as nat),
{
    let mut s = String::from_str("mock-");
    push_decimal(&mut s, i as u128);
    s
}

/// Two in-memory monitors: a gamma ramp per monitor id, and the DDC/CI
/// values (brightness, contrast) of the monitor that has DDC/CI.
#[derive(Debug, PartialEq)]
pub struct MockDisplays {
    ramps: Table<[u16; GAMMA_RAMP_LEN]>,
    ddc: Table<DdcValues>,
}

impl MockDisplays {
    /// Every in-memory monitor has a ramp, and exactly the first one has
    /// DDC/CI values.
    pub closed spec fn wf(&self) -> bool {
        &&& forall|k: Seq<char>| is_mock_id(k) ==> #[trigger] self.ramps.map().contains_key(k)
        &&& forall|k: Seq<char>| #[trigger] self.ddc.map().contains_key(k) <==> k == mock_id(0)
    }

    /// The gamma ramp of each monitor id written so far.
    pub closed spec fn ramps(&self) -> Map<Seq<char>, [u16; GAMMA_RAMP_LEN]> {
        self.ramps.map()
    }

    /// The DDC/CI values (brightness, contrast) of each in-memory monitor
    /// that has DDC/CI.
    pub closed spec fn ddc(&self) -> Map<Seq<char>, DdcValues> {
        self.ddc.map()
    }

    /// Both monitors with the given ramp; the first one with DDC/CI values
    /// 80 and 50, the second one without DDC/CI.
    pub fn new(identity: [u16; GAMMA_RAMP_LEN]) -> (r: MockDisplays)
        ensures
            r.wf(),
            r.ramps() == Map::new(|k: Seq<char>| is_mock_id(k), |k: Seq<char>| identity),
            r.ddc() == Map::<Seq<char>, DdcValues>::empty().insert(mock_id(0), initial_ddc()),
    {
        let mut ramps: Table<[u16; GAMMA_RAMP_LEN]> = Table::new();
        let mut i: usize = 0;
        while i < MOCK_MONITOR_COUNT
            invariant
                i <= MOCK_MONITOR_COUNT,
                ramps.map() == Map::new(
                    |k: Seq<char>| exists|j: nat| j < i && k == #[trigger] mock_id(j),
                    |k: Seq<char>| identity,
                ),
            decreases MOCK_MONITOR_COUNT - i,
        {
            let id = mock_id_text(i);
            ramps.set(id.as_str(), identity);
            proof {
                let was = |k: Seq<char>| exists|j: nat| j < i && k == #[trigger] mock_id(j);
                let now = |k: Seq<char>| exists|j: nat| j < i + 1 && k == #[trigger] mock_id(j);
                assert forall|k: Seq<char>| #[trigger] now(k) <==> (was(k) || k == mock_id(i as nat)) by {
                    if now(k) {
                        let j = choose|j: nat| j < i + 1 && k == #[trigger] mock_id(j);
                        if j < i {
                            assert(was(k));
                        }
                    }
                    if was(k) {
                        let j = choose|j: nat| j < i && k == #[trigger] mock_id(j);
                        assert(j < i + 1);
                    }
                }
                assert(ramps.map() =~= Map::new(now, |k: Seq<char>| identity));
            }
            i = i + 1;
        }
        let mut ddc: Table<DdcValues> = Table::new();
        let first = mock_id_text(0);
        ddc.set(first.as_str(), DdcValues { brightness: 80, contrast: 50 });
        MockDisplays { ramps, ddc }
    }

    /// The monitors: `mock-0`, primary and DDC/CI capable, 1920 x 1080, and
    /// `mock-1`, gamma only, 2560 x 1080.
    pub fn monitors(&self) -> (r: Vec<MonitorInfo>)
        ensures
            r@.len() == MOCK_MONITOR_COUNT,
            forall|i: int|
                0 <= i < MOCK_MONITOR_COUNT ==> {
                    &&& (#[trigger] r@[i]).id@ == mock_id(i as nat)
                    &&& r@[i].name@ == mock_name(i as nat)
                    &&& r@[i].is_primary == (i == 0)
                    &&& r@[i].supports_ddc == (i == 0)
                    &&& r@[i].width == 1920 + i * 640
                    &&& r@[i].height == 1080
                },
    {
        let mut out: Vec<MonitorInfo> = Vec::new();
        let mut i: usize = 0;
        while i < MOCK_MONITOR_COUNT
            invariant
                i <= MOCK_MONITOR_COUNT,
                out@.len() == i,
                forall|j: int|
                    0 <= j < i ==> {
                        &&& (#[trigger] out@[j]).id@ == mock_id(j as nat)
                        &&& out@[j].name@ == mock_name(j as nat)
                        &&& out@[j].is_primary == (j == 0)
                        &&& out@[j].supports_ddc == (j == 0)
                        &&& out@[j].width == 1920 + j * 640
                        &&& out@[j].height == 1080
                    },
            decreases MOCK_MONITOR_COUNT - i,
        {
            let id = mock_id_text(i);
            let mut name = String::from_str("Mock Monitor ");
            push_decimal(&mut name, i as u128 + 1);
            let width: u32 = 1920 + i as u32 * 640;
            let info = MonitorInfo::new(id.as_str(), name.as_str(), i == 0, i == 0, width, 1080);
            out.push(info);
            i = i + 1;
        }
        out
    }

    /// The gamma ramp last written for a monitor id.
    pub fn gamma_ramp(&self, id: &str) -> (r: Option<[u16; GAMMA_RAMP_LEN]>)
        ensures
            r == (if self.ramps().contains_key(id@) {
                Some(self.ramps()[id@])
            } else {
                None
            }),
    {
        self.ramps.get(id)
    }

    /// Writes the gamma ramp of a monitor id.
    pub fn set_gamma_ramp(&mut self, id: &str, ramp: [u16; GAMMA_RAMP_LEN])
        requires
            old(self).wf(),
        ensures
            final(self).wf(),
            final(self).ramps() == old(self).ramps().insert(id@, ramp),
            final(self).ddc() == old(self).ddc(),
    {
        self.ramps.set(id, ramp);
    }

    /// Sets the DDC/CI brightness of a monitor, brought into [0, 100];
    /// `false` when the id is not an in-memory monitor with DDC/CI.
    pub fn set_ddc_brightness(&mut self, id: &str, value: u32) -> (r: bool)
        requires
            old(self).wf(),
        ensures
            final(self).wf(),
            r == old(self).ddc().contains_key(id@),
            final(self).ddc() == if r {
                old(self).ddc().insert(id@, DdcValues { brightness: if value > 100 { 100 } else { value }, ..old(self).ddc()[id@] })
            } else {
                old(self).ddc()
            },
            final(self).ramps() == old(self).ramps(),
    {
        match self.ddc.get(id) {
            Some(values) => {
                let v = if value > 100 { 100 } else { value };
                self.ddc.set(id, DdcValues { brightness: v, ..values });
                true
            },
            None => false,
        }
    }

    /// Sets the DDC/CI contrast of a monitor, brought into [0, 100];
    /// `false` when the id is not an in-memory monitor with DDC/CI.
    pub fn set_ddc_contrast(&mut self, id: &str, value: u32) -> (r: bool)
        requires
            old(self).wf(),
        ensures
            final(self).wf(),
            r == old(self).ddc().contains_key(id@),
            final(self).ddc() == if r {
                old(self).ddc().insert(id@, DdcValues { contrast: if value > 100 { 100 } else { value }, ..old(self).ddc()[id@] })
            } else {
                old(self).ddc()
            },
            final(self).ramps() == old(self).ramps(),
    {
        match self.ddc.get(id) {
            Some(values) => {
                let v = if value > 100 { 100 } else { value };
                self.ddc.set(id, DdcValues { contrast: v, ..values });
                true
            },
            None => false,
        }
    }

    /// The DDC/CI brightness of a monitor and its maximum, 100.
    pub fn ddc_brightness(&self, id: &str) -> (r: Option<(u32, u32)>)
        ensures
            r == (if self.ddc().contains_key(id@) {
                Some((self.ddc()[id@].brightness, 100u32))
            } else {
                None
            }),
    {
        match self.ddc.get(id) {
            Some(values) => Some((values.brightness, 100)),
            None => None,
        }
    }

    /// The DDC/CI contrast of a monitor and its maximum, 100.
    pub fn ddc_contrast(&self, id: &str) -> (r: Option<(u32, u32)>)
        ensures
            r == (if self.ddc().contains_key(id@) {
                Some((self.ddc()[id@].contrast, 100u32))
            } else {
                None
            }),
    {
        match self.ddc.get(id) {
            Some(values) => Some((values.contrast, 100)),
            None => None,
        }
    }

    /// The ramps and DDC/CI values (`None` without DDC/CI) of the
    /// monitors, in order.
    pub fn snapshot(&self) -> (r: (Vec<[u16; GAMMA_RAMP_LEN]>, Vec<Option<(u32, u32)>>))
        requires
            self.wf(),
        ensures
            r.0@.len() == MOCK_MONITOR_COUNT,
            r.1@.len() == MOCK_MONITOR_COUNT,
            forall|i: int|
                0 <= i < MOCK_MONITOR_COUNT ==> #[trigger] r.0@[i] == self.ramps()[mock_id(i as nat)]
                    && r.1@[i] == (if self.ddc().contains_key(mock_id(i as nat)) {
                    Some((self.ddc()[mock_id(i as nat)].brightness, self.ddc()[mock_id(i as nat)].contrast))
                } else {
                    None
                }),
    {
        let mut ramps: Vec<[u16; GAMMA_RAMP_LEN]> = Vec::new();
        let mut ddc: Vec<Option<(u32, u32)>> = Vec::new();
        let mut i: usize = 0;
        while i < MOCK_MONITOR_COUNT
            invariant
                i <= MOCK_MONITOR_COUNT,
                ramps@.len() == i,
                ddc@.len() == i,
                forall|k: Seq<char>| is_mock_id(k) ==> #[trigger] self.ramps.map().contains_key(k),
                forall|j: int|
                    0 <= j < i ==> #[trigger] ramps@[j] == self.ramps()[mock_id(j as nat)] && ddc@[j]
                        == (if self.ddc().contains_key(mock_id(j as nat)) {
                        Some((self.ddc()[mock_id(j as nat)].brightness, self.ddc()[mock_id(j as nat)].contrast))
                    } else {
                        None
                    }),
            decreases MOCK_MONITOR_COUNT - i,
        {
            let id = mock_id_text(i);
            assert(is_mock_id(id@));
            let ramp = match self.ramps.get(id.as_str()) {
                Some(ramp) => ramp,
                None => {
                    proof {
                        assert(false);
                    }
                    [0u16; GAMMA_RAMP_LEN]
                },
            };
            ramps.push(ramp);
            match self.ddc.get(id.as_str()) {
                Some(values) => ddc.push(Some((values.brightness, values.contrast))),
                None => ddc.push(None),
            }
            assert(ramps@[i as int] == self.ramps()[mock_id(i as nat)]);
            assert(ddc@[i as int] == (if self.ddc().contains_key(mock_id(i as nat)) {
                Some((self.ddc()[mock_id(i as nat)].brightness, self.ddc()[mock_id(i as nat)].contrast))
            } else {
                None
            }));
            i = i + 1;
        }
        assert forall|j: int| 0 <= j < MOCK_MONITOR_COUNT implies #[trigger] ramps@[j] == self.ramps()[mock_id(
            j as nat,
        )] && ddc@[j] == (if self.ddc().contains_key(mock_id(j as nat)) {
            Some((self.ddc()[mock_id(j as nat)].brightness, self.ddc()[mock_id(j as nat)].contrast))
        } else {
            None
        }) by {
            assert(0 <= j < i);
        }
        (ramps, ddc)
    }
}

} // verus!
