use jacquewm::apps::RulesEngine;
use jacquewm::tiling::rules::{LayoutRule, WindowDisposition};
use jacquewm::wm::{MonitorId, ProcessInfo, Rect, WindowId, WindowMetadata, WindowState, WindowTitle};
use jacquewm::workspace::WorkspaceIndex;

fn meta(name: &str, class: &str) -> WindowMetadata {
    WindowMetadata {
        id: WindowId::new(99),
        process: ProcessInfo { pid: 1, exe_path: None, exe_basename: name.into() },
        title: WindowTitle::new("Untitled".to_string()),
        class: class.into(),
        state: WindowState::visible(),
        rect: Rect::new(0, 0, 100, 100),
        workspace: WorkspaceIndex::new_unchecked(1),
        monitor: MonitorId::primary(),
        z_order: 0,
        tiled: false,
    }
}

#[test]
fn default_tile_when_no_rule_matches() {
    let e = RulesEngine::new();
    let d = e.evaluate(&meta("code.exe", "Window"));
    assert_eq!(d.disposition, WindowDisposition::Tile);
}

#[test]
fn basename_match_floats_calculator() {
    let mut e = RulesEngine::new();
    e.add(LayoutRule::Basename("calculator.exe".into(), WindowDisposition::Float), 0);
    let d = e.evaluate(&meta("Calculator.exe", "Calc"));
    assert_eq!(d.disposition, WindowDisposition::Float);
    assert!(d.engaged());
}

#[test]
fn lower_order_rule_wins() {
    let mut e = RulesEngine::new();
    e.add(LayoutRule::Class("Calc".into(), WindowDisposition::Fullscreen), 5);
    e.add(LayoutRule::Basename("calculator.exe".into(), WindowDisposition::Float), 1);
    let d = e.evaluate(&meta("Calculator.exe", "Calc"));
    assert_eq!(d.disposition, WindowDisposition::Float);
    let rules = e.rules();
    assert!(rules.windows(2).all(|w| w[0].0 <= w[1].0));
    assert!(rules.iter().any(|r| r.0 == 1));
    assert!(rules.iter().any(|r| r.0 == 5));
}

#[test]
fn decision_lookup_names_its_window() {
    let pair = (
        WindowId(77),
        jacquewm::tiling::rules::RuleDecision { window: WindowId(77), disposition: WindowDisposition::Tile, matched_rule: None },
    );
    assert_eq!(jacquewm::apps::DecisionLookup::id(&pair), WindowId(77));
}
