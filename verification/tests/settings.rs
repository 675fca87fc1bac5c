use jacquewm::config::{Config, ConfigManager};
use jacquewm::settings::SettingsManager;
use std::cell::Cell;
use std::rc::Rc;

type Callback = Box<dyn Fn(&Config)>;

#[test]
fn subscriber_receives_apply() {
    let cfg = ConfigManager::new(Config::defaults(), "jacquewm-test-not-here.toml".into());
    let mut sm: SettingsManager<Callback> = SettingsManager::new(cfg);
    let counter = Rc::new(Cell::new(0u32));
    let inside = counter.clone();
    sm.subscribe(Box::new(move |_new| inside.set(inside.get() + 1)));
    let new = Config::defaults().clamped();
    sm.apply_new(new).unwrap();
    let snap = sm.snapshot();
    for (_, cb) in sm.subscribers() {
        cb(&snap);
    }
    assert_eq!(counter.get(), 1);
}

#[test]
fn report_failure_flips_flag() {
    let cfg = ConfigManager::new(Config::defaults(), "jacquewm-test-not-here-2.toml".into());
    let mut sm: SettingsManager<Callback> = SettingsManager::new(cfg);
    assert!(sm.last_reload_succeeded());
    sm.report_failure();
    assert!(!sm.last_reload_succeeded());
}

#[test]
fn invalid_reload_keeps_old_config() {
    let cfg = ConfigManager::new(Config::defaults(), "x.toml".into());
    let mut sm: SettingsManager<u8> = SettingsManager::new(cfg);
    let id = sm.subscribe(7);
    sm.report_failure();
    let mut bad = Config::defaults();
    bad.workspace_count = 0;
    assert!(sm.apply_new(bad).is_err());
    assert!(!sm.last_reload_succeeded());
    assert_eq!(sm.snapshot().workspace_count, 9);
    sm.unsubscribe(id);
    assert!(sm.subscribers().is_empty());
    assert_eq!(sm.manager().path(), "x.toml");
}
