use screen_tune::config::GameRule;
use screen_tune::detector::{DetectorEvent, GameDetector, MockLister, ProcessLister};

fn detector(rules: Vec<GameRule>) -> GameDetector {
    GameDetector::new(Box::new(MockLister::new(Vec::new())), rules)
}

#[test]
fn detect_enter_and_exit() {
    let mut detector = detector(vec![GameRule::new("r1", "rust.exe", "rust")]);
    assert_eq!(detector.tick(), None, "无进程时无事件");

    detector.set_lister(Box::new(MockLister::new(vec![
        "notepad.exe".into(),
        "rust.exe".into(),
    ])));
    let ev = detector.tick().unwrap();
    assert_eq!(
        ev,
        DetectorEvent::Entered {
            rule_id: "r1".into(),
            profile_id: "rust".into()
        }
    );
    assert_eq!(detector.tick(), None);

    detector.set_lister(Box::new(MockLister::new(vec!["notepad.exe".into()])));
    let ev = detector.tick().unwrap();
    assert_eq!(
        ev,
        DetectorEvent::Exited {
            rule_id: "r1".into()
        }
    );
    assert_eq!(detector.tick(), None);
}

#[test]
fn rule_priority_and_update() {
    let rules = vec![
        GameRule::new("r1", "rust.exe", "rust"),
        GameRule::new("r2", "cs2.exe", "cs2"),
    ];
    let mut detector = detector(rules);

    detector.set_lister(Box::new(MockLister::new(vec![
        "cs2.exe".into(),
        "rust.exe".into(),
    ])));
    let ev = detector.tick().unwrap();
    assert_eq!(
        ev,
        DetectorEvent::Entered {
            rule_id: "r1".into(),
            profile_id: "rust".into()
        }
    );

    detector.set_rules(vec![
        GameRule::new("r2", "cs2.exe", "cs2"),
        GameRule::new("r1", "rust.exe", "rust"),
    ]);
    let ev = detector.tick().unwrap();
    assert_eq!(
        ev,
        DetectorEvent::Entered {
            rule_id: "r2".into(),
            profile_id: "cs2".into()
        }
    );

    detector.set_lister(Box::new(MockLister::new(Vec::new())));
    let ev = detector.tick().unwrap();
    assert_eq!(
        ev,
        DetectorEvent::Exited {
            rule_id: "r2".into()
        }
    );
}

#[test]
fn case_insensitive_matching() {
    let mut detector = detector(vec![GameRule::new("pubg", "PUBG.exe", "pubg")]);
    detector.set_lister(Box::new(MockLister::new(vec!["PUBG.exe".into()])));
    let ev = detector.tick().unwrap();
    assert_eq!(
        ev,
        DetectorEvent::Entered {
            rule_id: "pubg".into(),
            profile_id: "pubg".into()
        }
    );
}

#[test]
fn active_rule_follows_events() {
    let mut d = detector(vec![GameRule::new("r1", "rust.exe", "rust")]);
    assert_eq!(d.active_rule(), None);
    d.set_lister(Box::new(MockLister::new(vec!["RUST.EXE".into()])));
    d.tick();
    assert_eq!(d.active_rule(), Some(("r1".to_string(), "rust".to_string())));
    let mut disabled = GameRule::new("r1", "rust.exe", "rust");
    disabled.enabled = false;
    d.set_rules(vec![disabled]);
    assert_eq!(d.tick(), Some(DetectorEvent::Exited { rule_id: "r1".into() }));
    assert_eq!(d.active_rule(), None);
}

#[test]
fn mock_lister_lowercases_names() {
    let mut l = MockLister::new(vec!["PUBG.exe".into()]);
    assert_eq!(l.running_exes(), vec!["pubg.exe".to_string()]);
    l.set_processes(vec!["A.EXE".into(), "b.exe".into()]);
    assert_eq!(l.running_exes(), vec!["a.exe".to_string(), "b.exe".to_string()]);
}
