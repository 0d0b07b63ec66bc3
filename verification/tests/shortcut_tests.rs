use clip_service::logger::{LogHistory, LogLevel};
use clip_service::shortcut::{read_shortcut, ShortcutSync, SyncAction, SyncEvent, SyncPhase};

fn begin(sync: &mut ShortcutSync, h: &mut LogHistory, accelerator: &str) -> SyncAction {
    let shortcut = read_shortcut(accelerator);
    sync.step(h, SyncEvent::Begin { accelerator: accelerator.to_string(), shortcut }).0
}

#[test]
fn unreadable_shortcut_is_refused() {
    let mut sync = ShortcutSync::new();
    let mut h = LogHistory::new();
    assert!(read_shortcut("Ctrl+").is_err());
    match begin(&mut sync, &mut h, "Ctrl+") {
        SyncAction::Done(Err(e)) => assert!(!e.is_empty()),
        _ => panic!("expected a refusal"),
    }
    assert!(sync.active.is_none());
    assert!(matches!(sync.phase, SyncPhase::Idle));
}

#[test]
fn first_registration_becomes_active() {
    let mut sync = ShortcutSync::new();
    let mut h = LogHistory::new();
    let wanted = read_shortcut("Ctrl+F10").unwrap();
    assert!(matches!(begin(&mut sync, &mut h, "Ctrl+F10"), SyncAction::Register(k) if k == wanted.hotkey));
    let (a, events) = sync.step(&mut h, SyncEvent::Registered(Ok(())));
    assert!(matches!(a, SyncAction::Done(Ok(()))));
    assert_eq!(sync.active.unwrap().id, wanted.id);
    assert_eq!(events[0].level, LogLevel::Info);
    assert_eq!(events[0].source, "shortcut");
    assert_eq!(events[0].message, "registered Ctrl+F10");
    // The same shortcut again needs no registration.
    assert!(matches!(begin(&mut sync, &mut h, "Ctrl+F10"), SyncAction::Done(Ok(()))));
}

#[test]
fn failed_registration_keeps_the_active_shortcut() {
    let mut sync = ShortcutSync::new();
    let mut h = LogHistory::new();
    let _ = begin(&mut sync, &mut h, "Ctrl+F10");
    let _ = sync.step(&mut h, SyncEvent::Registered(Ok(())));
    let _ = begin(&mut sync, &mut h, "Ctrl+F9");
    let (a, events) = sync.step(&mut h, SyncEvent::Registered(Err("taken".to_string())));
    match a {
        SyncAction::Done(Err(e)) => assert_eq!(e, "failed to register Ctrl+F9: taken"),
        _ => panic!("expected a failure"),
    }
    assert!(events.is_empty());
    assert_eq!(sync.active.unwrap().id, read_shortcut("Ctrl+F10").unwrap().id);
}

#[test]
fn replacing_unregisters_the_old_and_rolls_back_on_failure() {
    let mut sync = ShortcutSync::new();
    let mut h = LogHistory::new();
    let old = read_shortcut("Ctrl+F10").unwrap();
    let new = read_shortcut("Alt+F9").unwrap();
    let _ = begin(&mut sync, &mut h, "Ctrl+F10");
    let _ = sync.step(&mut h, SyncEvent::Registered(Ok(())));

    let _ = begin(&mut sync, &mut h, "Alt+F9");
    let (a, _) = sync.step(&mut h, SyncEvent::Registered(Ok(())));
    assert!(matches!(a, SyncAction::Unregister(k) if k == old.hotkey));
    let (a, _) = sync.step(&mut h, SyncEvent::Unregistered(Err("busy".to_string())));
    match a {
        SyncAction::Abandon { unregister, error } => {
            assert!(unregister == new.hotkey);
            assert_eq!(error, "busy");
        }
        _ => panic!("expected a rollback"),
    }
    assert_eq!(sync.active.unwrap().id, old.id);

    let _ = begin(&mut sync, &mut h, "Alt+F9");
    let _ = sync.step(&mut h, SyncEvent::Registered(Ok(())));
    let (a, events) = sync.step(&mut h, SyncEvent::Unregistered(Ok(())));
    assert!(matches!(a, SyncAction::Done(Ok(()))));
    assert_eq!(sync.active.unwrap().id, new.id);
    assert_eq!(events[0].message, "registered Alt+F9");
}

#[test]
fn ids_follow_the_accelerator() {
    let a = read_shortcut("Ctrl+F10").unwrap();
    let b = read_shortcut("Ctrl+F9").unwrap();
    let c = read_shortcut("control + f10").unwrap();
    assert_ne!(a.id, b.id);
    assert_eq!(a.id, c.id);
    assert_ne!(a.id, 0);
}
