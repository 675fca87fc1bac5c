use jacquewm::config::{Config, ConfigManager};
use jacquewm::debug::{DebugManager, DebugSnapshot};
use jacquewm::isolation::SubsystemHealth;

#[test]
fn disabled_manager_returns_no_subsystems() {
    let cfg = ConfigManager::new(Config::defaults(), "jacquewm-test-disabled.toml".into());
    let h = SubsystemHealth::new();
    let m = DebugManager::new(cfg, h);
    assert!(!m.is_enabled());
    let s = m.snapshot();
    assert!(!s.debug_mode);
    assert!(s.subsystems.is_empty());
    assert_eq!(s.config_path, "jacquewm-test-disabled.toml");
}

#[test]
fn enabled_manager_exposes_subsystems() {
    let mut cfg_data = Config::defaults();
    cfg_data.debug.debug_mode = true;
    let cfg = ConfigManager::new(cfg_data, "jacquewm-test-enabled.toml".into());
    let mut h = SubsystemHealth::new();
    h.register("panel");
    h.register_disabled("tray");
    let m = DebugManager::new(cfg, h);
    assert!(m.is_enabled());
    let s = m.snapshot();
    assert!(s.debug_mode);
    assert_eq!(s.subsystems.len(), 2);
    assert_eq!(s.active_theme_palette_background, 0xE611_1111);
}

#[test]
fn record_no_op_when_disabled() {
    let cfg = ConfigManager::new(Config::defaults(), "jacquewm-test-record-disabled.toml".into());
    let mut m = DebugManager::new(cfg, SubsystemHealth::new());
    m.record(|mut s: DebugSnapshot| {
        s.window_count = 99;
        s
    });
    assert_eq!(m.snapshot().window_count, 0);
}

#[test]
fn empty_snapshot_is_zeroed() {
    let s = DebugSnapshot::empty();
    assert!(s.config_path.is_empty());
    assert_eq!(s.window_count, 0);
    assert!(s.workspace_tile_counts.is_empty());
}
