use jacquewm::floatbits::HALF_BITS;
use jacquewm::tiling::engine::TilingEngineImpl;
use jacquewm::tiling::rules::{LayoutRule, RuleDecision, WindowDisposition};
use jacquewm::tiling::tree::{insert_next_to, Direction, SplitNodeId, TreeNode, WindowNode};
use jacquewm::tiling::{compute_workspace_origin, rects_overlap, split_rect, Gaps};
use jacquewm::wm::{MonitorDef, MonitorId, Rect, WindowId};
use jacquewm::workspace::WorkspaceIndex;

fn side(total: i32, ratio_bits: u32) -> i32 {
    ((total as f32) * f32::from_bits(ratio_bits)).floor() as i32
}

fn ws1() -> WorkspaceIndex {
    WorkspaceIndex::new_unchecked(1)
}

#[test]
fn no_overlap_when_split_is_clean() {
    let total = Rect::new(0, 0, 1920, 1080);
    let (l, r) = split_rect(total, Direction::Horizontal, 0.5f32.to_bits(), 0, &side);
    assert!(!rects_overlap(l, r));
    assert_eq!(l.left(), 0);
    assert_eq!(l.right(), 960);
    assert_eq!(r.left(), 960);
    assert_eq!(r.right(), 1920);
}

#[test]
fn inner_gaps_do_not_leak_pixels() {
    let total = Rect::new(0, 0, 1920, 1080);
    let (l, r) = split_rect(total, Direction::Horizontal, 0.5f32.to_bits(), 6, &side);
    assert!(!rects_overlap(l, r));
    assert_eq!(l.left(), 0);
    assert_eq!(l.right(), 957);
    assert_eq!(r.left(), 963);
    assert_eq!(r.right(), 1920);
}

#[test]
fn compute_workspace_origin_reserves_panel_stripe() {
    let rect = Rect::new(0, 0, 1920, 1080);
    let out = compute_workspace_origin(rect, &Gaps::hyprland_defaults(), 34);
    assert_eq!(out.x, 6);
    assert_eq!(out.y, 34);
    assert_eq!(out.width, 1908);
    assert_eq!(out.height, 1040);
}

#[test]
fn rule_decision_reports_engaged() {
    let d = RuleDecision {
        window: WindowId::new(5),
        disposition: WindowDisposition::Float,
        matched_rule: Some(LayoutRule::Transient(WindowDisposition::Float)),
    };
    assert!(d.engaged());
}

#[test]
fn rule_decision_without_rule_is_not_engaged() {
    let d = RuleDecision { window: WindowId::new(5), disposition: WindowDisposition::Tile, matched_rule: None };
    assert!(!d.engaged());
}

#[test]
fn simple_split_lays_two_windows_out() {
    let root = insert_next_to(WindowId::new(1), WindowId::new(2), Direction::Horizontal, SplitNodeId(1));
    let (leaves, bars) = match &root {
        TreeNode::Split(s) => s.layout(Rect::new(0, 0, 1920, 1080), 0, &side),
        TreeNode::Window(_) => panic!("a pair is a split"),
    };
    assert_eq!(leaves.len(), 2);
    assert_eq!(leaves[0], (WindowId::new(1), Rect::new(0, 0, 960, 1080)));
    assert_eq!(leaves[1], (WindowId::new(2), Rect::new(960, 0, 960, 1080)));
    assert_eq!(bars.len(), 1);
}

#[test]
fn replaces_window_in_place() {
    let mut root = insert_next_to(WindowId::new(1), WindowId::new(2), Direction::Vertical, SplitNodeId(1));
    assert!(root.replace_window(WindowId::new(2), WindowNode::new(WindowId::new(3))));
    assert!(root.contains(WindowId::new(3)));
    assert!(!root.contains(WindowId::new(2)));
    assert_eq!(root.leaf_count(), 2);
}

#[test]
fn remove_collapses_split_to_sibling() {
    let mut engine = TilingEngineImpl::new(34);
    engine.insert_window(ws1(), WindowId::new(7));
    engine.insert_window(ws1(), WindowId::new(8));
    let before = engine.recalculate_for_workspace(ws1(), &side);
    assert_eq!(before.windows.len(), 2);
    engine.remove_window(WindowId::new(8));
    let after = engine.recalculate_for_workspace(ws1(), &side);
    assert_eq!(after.windows.len(), 1);
    assert_eq!(after.windows[0].0.get(), 7);
    assert!(after.dividers.is_empty());
}

// A lone window is a leaf with no split, so its layout has no divider.
// A vertical divider here would contradict `remove_collapses_split_to_sibling`,
// where a lone window left after a removal has no divider either.
#[test]
fn insert_first_window_creates_leaf() {
    let mut engine = TilingEngineImpl::new(34);
    engine.insert_window(ws1(), WindowId::new(7));
    let sol = engine.recalculate_for_workspace(ws1(), &side);
    assert_eq!(sol.windows.len(), 1);
    assert_eq!(sol.windows[0].0.get(), 7);
    assert!(sol.dividers.is_empty());
}

#[test]
fn replace_monitors_moves_to_primary() {
    let mut engine = TilingEngineImpl::new(34);
    engine.insert_window(ws1(), WindowId::new(1));
    engine.insert_window(ws1(), WindowId::new(2));
    engine.replace_monitors(vec![MonitorDef {
        id: MonitorId::primary(),
        friendly_name: "Primary".into(),
        rect: Rect::new(0, 0, 1920, 1080),
        dpi: 96,
        primary: true,
    }]);
    let sol = engine.recalculate_for_workspace(ws1(), &side);
    assert_eq!(sol.windows.len(), 2);
}

#[test]
fn drag_changes_ratio() {
    let mut engine = TilingEngineImpl::new(34);
    engine.insert_window(ws1(), WindowId::new(1));
    engine.insert_window(ws1(), WindowId::new(2));
    let before = engine.recalculate_for_workspace(ws1(), &side);
    let bar = before.dividers[0];
    engine.drag_divider(ws1(), bar.split_node_id, 0.75f32.to_bits());
    let after = engine.recalculate_for_workspace(ws1(), &side);
    assert!(after.windows[0].1.width > after.windows[1].1.width);
}

#[test]
fn drag_ratio_is_clamped() {
    let mut engine = TilingEngineImpl::new(34);
    engine.insert_window(ws1(), WindowId::new(1));
    engine.insert_window(ws1(), WindowId::new(2));
    let before = engine.recalculate_for_workspace(ws1(), &side);
    let bar = before.dividers[0];
    engine.drag_divider(ws1(), bar.split_node_id, 2.0f32.to_bits());
    let after = engine.recalculate_for_workspace(ws1(), &side);
    let total = after.windows[0].1.width + after.windows[1].1.width;
    assert!(after.windows[0].1.width <= total * 96 / 100);
}

#[test]
fn half_bits_is_one_half() {
    assert_eq!(f32::from_bits(HALF_BITS), 0.5);
}

#[test]
fn inserting_keeps_every_tiled_window() {
    let mut engine = TilingEngineImpl::new(34);
    engine.insert_window(ws1(), WindowId::new(1));
    engine.insert_window(ws1(), WindowId::new(2));
    engine.insert_window(ws1(), WindowId::new(3));
    let sol = engine.snapshot(ws1(), &side);
    let ids: Vec<u64> = sol.windows.iter().map(|(w, _)| w.get()).collect();
    assert_eq!(ids, vec![1, 2, 3]);
    assert_eq!(sol.dividers.len(), 2);
}
