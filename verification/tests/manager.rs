use std::cell::RefCell;
use std::rc::Rc;

use screen_tune::common::{DisplayParams, MonitorInfo};
use screen_tune::display::manager::{BaselineStore, DisplayBackend, DisplayManager};
use screen_tune::display::GAMMA_RAMP_LEN;

type Ramp = [u16; GAMMA_RAMP_LEN];

fn flat(v: u16) -> Ramp {
    [v; GAMMA_RAMP_LEN]
}

/// Monitors in memory; every call is written to a journal.
#[derive(Default, Clone)]
struct FakeBackend {
    monitors: Rc<RefCell<Vec<(String, bool, Ramp, Option<u32>)>>>,
    journal: Rc<RefCell<Vec<String>>>,
    fail_list: Rc<RefCell<bool>>,
}

impl FakeBackend {
    fn with(monitors: &[(&str, bool, u16)]) -> Self {
        let b = FakeBackend::default();
        for (id, ddc, v) in monitors {
            b.monitors.borrow_mut().push((id.to_string(), *ddc, flat(*v), if *ddc { Some(70) } else { None }));
        }
        b
    }
    fn ramp(&self, id: &str) -> Ramp {
        self.monitors.borrow().iter().find(|m| m.0 == id).unwrap().2
    }
}

impl DisplayBackend for FakeBackend {
    type Handle = String;
    fn list_monitors(&self) -> Result<Vec<(String, MonitorInfo)>, String> {
        if *self.fail_list.borrow() {
            return Err("no monitors".into());
        }
        Ok(self
            .monitors
            .borrow()
            .iter()
            .map(|m| (m.0.clone(), MonitorInfo::new(&m.0, &m.0, false, m.1, 1920, 1080)))
            .collect())
    }
    fn get_gamma_ramp(&self, h: &String) -> Result<Ramp, String> {
        self.journal.borrow_mut().push(format!("read {h}"));
        Ok(self.ramp(h))
    }
    fn set_gamma_ramp(&self, h: &String, ramp: &Ramp) -> Result<(), String> {
        self.journal.borrow_mut().push(format!("write {h} {}", ramp[0]));
        for m in self.monitors.borrow_mut().iter_mut() {
            if &m.0 == h {
                m.2 = *ramp;
            }
        }
        Ok(())
    }
    fn set_ddc_brightness(&self, h: &String, value: u32) -> Result<Option<()>, String> {
        self.journal.borrow_mut().push(format!("ddc {h} {value}"));
        Ok(Some(()))
    }
    fn get_ddc_brightness(&self, h: &String) -> Result<Option<(u32, u32)>, String> {
        Ok(self.monitors.borrow().iter().find(|m| &m.0 == h).and_then(|m| m.3).map(|v| (v, 100)))
    }
}

#[derive(Default)]
struct FakeBackups {
    files: RefCell<Vec<(String, Ramp)>>,
}

impl BaselineStore for FakeBackups {
    fn has_backup(&self, id: &str) -> bool {
        self.files.borrow().iter().any(|f| f.0 == id)
    }
    fn load(&self, id: &str) -> Option<Ramp> {
        self.files.borrow().iter().find(|f| f.0 == id).map(|f| f.1)
    }
    fn save(&self, id: &str, ramp: &Ramp) -> Result<(), String> {
        self.remove(id);
        self.files.borrow_mut().push((id.to_string(), *ramp));
        Ok(())
    }
    fn remove(&self, id: &str) {
        self.files.borrow_mut().retain(|f| f.0 != id);
    }
}

#[test]
fn leftover_backup_is_written_back_before_reading() {
    let backend = FakeBackend::with(&[("a", true, 5), ("b", false, 6)]);
    let store = FakeBackups::default();
    store.save("a", &flat(1)).unwrap();
    let journal = backend.journal.clone();
    let mut m = DisplayManager::new(backend, store);
    assert_eq!(m.refresh_monitors(), Ok(()));
    assert_eq!(journal.borrow()[0], "write a 1");
    assert_eq!(journal.borrow()[1], "read a");
    let snap = m.snapshot();
    assert_eq!(snap.len(), 2);
    assert_eq!(snap[0].0.id, "a");
    assert_eq!(snap[0].1, DisplayParams::default());
    // the baseline of "a" is the recovered ramp, not the one in use
    assert_eq!(m.ramp_inputs("a"), Some((flat(1), true)));
    assert_eq!(m.ramp_inputs("b"), Some((flat(6), false)));
    assert_eq!(m.ramp_inputs("c"), None);
}

#[test]
fn vanished_monitor_gets_its_baseline_back() {
    let backend = FakeBackend::with(&[("a", false, 5), ("b", false, 6)]);
    let mut m = DisplayManager::new(backend, FakeBackups::default());
    m.refresh_monitors().unwrap();
    let p = DisplayParams { temperature_k: 4000, ..DisplayParams::default() };
    m.set_params("b", p, &flat(9), 100).unwrap();
    assert_eq!(m.params_of("b"), Some(p));
    assert_eq!(m.set_params("zz", p, &flat(9), 100), Err("显示器不存在: zz".to_string()));
    assert_eq!(m.ddc_brightness("zz"), Err("显示器不存在: zz".to_string()));
    assert_eq!(m.ddc_brightness("a"), Ok(None));
    assert_eq!(m.restore_baseline("zz"), Err("显示器不存在: zz".to_string()));
    assert_eq!(m.params_of("zz"), None);
}

#[test]
fn manager_rescan_sets_up_and_releases() {
    let backend = FakeBackend::with(&[("a", false, 5)]);
    let shared = backend.clone();
    let mut m = DisplayManager::new(backend, FakeBackups::default());
    m.refresh_monitors().unwrap();
    assert_eq!(m.snapshot().len(), 1);
    m.set_params("a", DisplayParams { temperature_k: 3000, ..DisplayParams::default() }, &flat(9), 100).unwrap();
    assert_eq!(shared.ramp("a"), flat(9));
    // "a" goes away, "c" arrives
    shared.monitors.borrow_mut().clear();
    shared.monitors.borrow_mut().push(("c".into(), false, flat(3), None));
    shared.journal.borrow_mut().clear();
    assert_eq!(m.refresh_monitors(), Ok(()));
    let ids: Vec<String> = m.snapshot().into_iter().map(|(i, _)| i.id).collect();
    assert_eq!(ids, vec!["c".to_string()]);
    assert_eq!(*shared.journal.borrow(), vec!["read c".to_string(), "write a 5".to_string()]);
}

#[test]
fn ddc_brightness_is_written_only_when_changed() {
    let backend = FakeBackend::with(&[("a", true, 5)]);
    let journal = backend.journal.clone();
    let mut m = DisplayManager::new(backend, FakeBackups::default());
    m.refresh_monitors().unwrap();
    assert_eq!(m.ddc_brightness("a"), Ok(Some((70, 100))));
    let p = DisplayParams::default();
    journal.borrow_mut().clear();
    m.set_params("a", p, &flat(9), 70).unwrap();
    m.set_params("a", p, &flat(9), 40).unwrap();
    assert_eq!(*journal.borrow(), vec!["write a 9".to_string(), "write a 9".to_string(), "ddc a 40".to_string()]);
    journal.borrow_mut().clear();
    m.restore_baseline("a").unwrap();
    assert_eq!(*journal.borrow(), vec!["write a 5".to_string(), "ddc a 70".to_string()]);
    m.shutdown();
    assert_eq!(m.params_of("a"), Some(DisplayParams::default()));
}

#[test]
fn failed_listing_changes_nothing() {
    let backend = FakeBackend::with(&[("a", false, 5)]);
    *backend.fail_list.borrow_mut() = true;
    let mut m = DisplayManager::new(backend, FakeBackups::default());
    assert_eq!(m.refresh_monitors(), Err("no monitors".to_string()));
    assert!(m.snapshot().is_empty());
}

#[test]
fn ddc_brightness_asks_the_monitor_itself() {
    let backend = FakeBackend::with(&[("a", false, 5), ("b", true, 6)]);
    let mut m = DisplayManager::new(backend, FakeBackups::default());
    m.refresh_monitors().unwrap();
    assert_eq!(m.ddc_brightness("b"), Ok(Some((70, 100))));
    assert_eq!(m.ddc_brightness("a"), Ok(None));
    assert!(m.ddc_brightness("zz").is_err());
}
