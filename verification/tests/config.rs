use jacquewm::config::{
    Config, ConfigManager, DebugSection, LauncherSection, NotificationSection, PanelSection, PluginSection,
    RawConfig, StartupSection, ThemeSection, TilingSection, TraySection,
};
use jacquewm::error::JacqueError;
use jacquewm::workspace::WorkspaceIndex;

fn raw(startup_desktop: u8, workspace_count: u8) -> RawConfig {
    RawConfig {
        startup_desktop,
        workspace_count,
        follow_moved_windows: false,
        enable_logging: true,
        log_filter: String::new(),
        panel: PanelSection::default(),
        tiling: TilingSection::default(),
        theme: ThemeSection::default(),
        launcher: LauncherSection::default(),
        tray: TraySection::default(),
        notifications: NotificationSection::default(),
        startup: StartupSection::default(),
        debug: DebugSection::default(),
        plugins: PluginSection::default(),
    }
}

#[test]
fn defaults_round_trip() {
    let cfg = Config::defaults();
    cfg.validate().unwrap();
    assert_eq!(cfg.startup_desktop.get(), 1);
    assert_eq!(cfg.workspace_count, WorkspaceIndex::COUNT);
    assert!(!cfg.follow_moved_windows);
    assert!(cfg.enable_logging);
    assert_eq!(cfg.panel.height, 32);
    assert!(cfg.launcher.enabled);
    assert!(cfg.tray.enabled);
    assert!(!cfg.debug.debug_mode);
    assert!(cfg.plugins.allow.is_empty());
}

// The file `startup_desktop = 99\nworkspace_count = 9` parses to these values.
#[test]
fn invalid_index_falls_back() {
    let cfg = Config::from_raw(raw(99, 9));
    assert_eq!(cfg.startup_desktop.get(), 1);
}

#[test]
fn validate_rejects_out_of_range() {
    let mut cfg = Config::defaults();
    cfg.workspace_count = 0;
    assert!(cfg.validate().is_err());
}

#[test]
fn validate_reports_message() {
    let mut cfg = Config::defaults();
    cfg.workspace_count = 10;
    assert_eq!(cfg.validate(), Err(JacqueError::ConfigValidation("workspace_count must be 1..=9".into())));
}

#[test]
fn clamps_panel_height_to_default_window() {
    let mut cfg = Config::defaults();
    cfg.panel.height = 999;
    let cfg = cfg.clamped();
    assert_eq!(cfg.panel.height, 32);
}

#[test]
fn clamps_negative_gap_to_zero() {
    let mut cfg = Config::defaults();
    cfg.tiling.inner_gap = -3;
    let cfg = cfg.clamped();
    assert_eq!(cfg.tiling.inner_gap, 0);
}

#[test]
fn clamps_opacity_and_divider() {
    let mut cfg = Config::defaults();
    cfg.panel.opacity_bits = 1.5f32.to_bits();
    cfg.tiling.divider_thickness_px = 1;
    cfg.tiling.outer_gap = -1;
    let cfg = cfg.clamped();
    assert_eq!(f32::from_bits(cfg.panel.opacity_bits), 0.92);
    assert_eq!(cfg.tiling.divider_thickness_px, 2);
    assert_eq!(cfg.tiling.outer_gap, 0);
    let mut nan = Config::defaults();
    nan.panel.opacity_bits = f32::NAN.to_bits();
    assert_eq!(nan.clamped().panel.opacity_bits, 0.92f32.to_bits());
    let mut keep = Config::defaults();
    keep.panel.opacity_bits = 0.5f32.to_bits();
    keep.panel.height = 30;
    let keep = keep.clamped();
    assert_eq!(keep.panel.opacity_bits, 0.5f32.to_bits());
    assert_eq!(keep.panel.height, 30);
}

// The minimal file of the first release parses to these values.
#[test]
fn backward_compatible_minimal_config() {
    let cfg = Config::from_raw(raw(3, 9));
    assert_eq!(cfg.startup_desktop.get(), 3);
    assert_eq!(cfg.panel.height, 32);
    assert_eq!(cfg.theme.name, "omarchy-dark");
    assert!(cfg.launcher.enabled);
}

#[test]
fn raw_workspace_count_falls_back_to_nine() {
    let cfg = Config::from_raw(raw(2, 0));
    assert_eq!(cfg.workspace_count, 9);
    assert_eq!(cfg.startup_desktop.get(), 2);
}

#[test]
fn loaded_config_falls_back_on_malformed_file() {
    let cfg = ConfigManager::loaded_config(None);
    assert_eq!(cfg.panel.height, 32);
    assert_eq!(cfg.workspace_count, 9);
    let mut r = raw(4, 5);
    r.panel.height = 100;
    let cfg = ConfigManager::loaded_config(Some(r));
    assert_eq!(cfg.startup_desktop.get(), 4);
    assert_eq!(cfg.workspace_count, 5);
    assert_eq!(cfg.panel.height, 32);
    let first = ConfigManager::first_run_config().unwrap();
    assert_eq!(first.panel.opacity_bits, 0.92f32.to_bits());
}

#[test]
fn canonical_path_resolution_order() {
    let p = ConfigManager::canonical_path_parts(Some("C:\\cfg.toml".into()), Some("A".into()), None).unwrap();
    assert_eq!(p, vec!["C:\\cfg.toml".to_string()]);
    let p = ConfigManager::canonical_path_parts(Some(String::new()), Some("A".into()), Some("B".into())).unwrap();
    assert_eq!(p, vec!["A".to_string(), "JacqueWM".to_string(), "config.toml".to_string()]);
    let p = ConfigManager::canonical_path_parts(None, None, Some("B".into())).unwrap();
    assert_eq!(p[0], "B");
    let e = ConfigManager::canonical_path_parts(None, None, None).unwrap_err();
    assert_eq!(e, JacqueError::ConfigLoad("could not resolve APPDATA".into()));
}

#[test]
fn manager_replace_validates() {
    let mut m = ConfigManager::new(Config::defaults(), "cfg.toml".into());
    assert_eq!(m.path(), "cfg.toml");
    let mut bad = Config::defaults();
    bad.workspace_count = 0;
    assert!(m.replace(bad).is_err());
    assert_eq!(m.snapshot().workspace_count, 9);
    let mut good = Config::defaults();
    good.panel.height = 500;
    good.workspace_count = 4;
    m.replace(good).unwrap();
    assert_eq!(m.snapshot().workspace_count, 4);
    assert_eq!(m.snapshot().panel.height, 32);
}

#[test]
fn default_log_filter_is_info() {
    assert_eq!(Config::default_log_filter(), "jacquewm=info");
}
