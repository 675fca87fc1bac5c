use jacquewm::isolation::{mark_alive, panic_payload_to_string, subsystem_thread_name, Health, SubsystemHealth};

#[test]
fn dead_subsystem_is_listed() {
    let mut h = SubsystemHealth::new();
    h.register("panel");
    h.mark_dead("panel", "kaboom".into(), Some("jacquewm-panel".into()));
    let snap = h.snapshot();
    assert_eq!(snap.len(), 1);
    assert_eq!(snap[0].name, "panel");
    assert_eq!(snap[0].health, Health::Dead);
    assert_eq!(snap[0].last_error.as_deref(), Some("kaboom"));
}

#[test]
fn snapshot_is_sorted_and_one_row_per_name() {
    let mut h = SubsystemHealth::new();
    h.register("tray");
    h.register_disabled("launcher");
    h.register("panel");
    mark_alive("tray", &mut h);
    let snap = h.snapshot();
    let names: Vec<&str> = snap.iter().map(|e| e.name.as_str()).collect();
    assert_eq!(names, vec!["launcher", "panel", "tray"]);
    assert_eq!(snap[0].health, Health::Disabled);
}

#[test]
fn thread_names_and_payloads() {
    assert_eq!(subsystem_thread_name("panel"), "jacquewm-panel");
    assert_eq!(panic_payload_to_string(Some("oops")), "oops");
    assert_eq!(panic_payload_to_string(None), "<unknown>");
    assert_eq!(Health::Alive.glyph(), "\u{25cf}");
    assert_eq!(Health::Stopping.glyph(), "~");
}

#[test]
fn snapshot_is_sorted_and_mark_alive_keeps_rows() {
    let mut h = SubsystemHealth::new();
    h.register("tray");
    h.register("launcher");
    h.mark_dead("panel", "kaboom".into(), None);
    let n = h.snapshot().len();
    h.mark_alive("panel");
    let snap = h.snapshot();
    assert_eq!(snap.len(), n);
    let names: Vec<&str> = snap.iter().map(|e| e.name.as_str()).collect();
    assert_eq!(names, vec!["launcher", "panel", "tray"]);
    assert_eq!(snap[1].last_error, None);
}

#[test]
fn boot_registers_subsystems_by_toggle() {
    let mut cfg = jacquewm::config::Config::defaults();
    cfg.tray.enabled = false;
    let mut h = SubsystemHealth::new();
    jacquewm::isolation::register_subsystems(&mut h, &cfg);
    let snap = h.snapshot();
    let rows: Vec<(&str, Health)> = snap.iter().map(|e| (e.name.as_str(), e.health)).collect();
    assert_eq!(
        rows,
        vec![
            ("debug", Health::Alive),
            ("launcher", Health::Alive),
            ("notifications", Health::Alive),
            ("settings", Health::Alive),
            ("tray", Health::Disabled),
        ]
    );
}
