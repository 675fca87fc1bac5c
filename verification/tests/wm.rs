use jacquewm::wm::{
    MonitorId, ProcessInfo, Rect, Registry, WindowEvent, WindowId, WindowMetadata, WindowState, WindowTitle,
};
use jacquewm::workspace::WorkspaceIndex;

fn make_meta(id: u64, title: &str, ws: WorkspaceIndex) -> WindowMetadata {
    WindowMetadata {
        id: WindowId::new(id),
        process: ProcessInfo { pid: id as u32, exe_path: None, exe_basename: format!("proc{}.exe", id) },
        title: WindowTitle::new(title.to_string()),
        class: "Foo".into(),
        state: WindowState::visible(),
        rect: Rect::new(0, 0, 100, 100),
        workspace: ws,
        monitor: MonitorId::primary(),
        z_order: 0,
        tiled: false,
    }
}

fn ws1() -> WorkspaceIndex {
    WorkspaceIndex::new_unchecked(1)
}

#[test]
fn registry_tracks_create_destroy() {
    let mut r = Registry::new();
    r.apply(WindowEvent::Created(make_meta(101, "A", ws1())));
    r.apply(WindowEvent::Created(make_meta(102, "B", ws1())));
    assert_eq!(r.snapshot_for(ws1()).len(), 2);
    r.apply(WindowEvent::Destroyed { id: WindowId::new(101) });
    let snap = r.snapshot_for(ws1());
    assert_eq!(snap.len(), 1);
    assert_eq!(snap[0].id.get(), 102);
}

#[test]
fn focused_pointer_follows_event_order() {
    let mut r = Registry::new();
    r.apply(WindowEvent::Created(make_meta(10, "A", ws1())));
    r.apply(WindowEvent::Created(make_meta(20, "B", ws1())));
    r.apply(WindowEvent::Focused { id: WindowId::new(20) });
    assert_eq!(r.focused().unwrap().id.get(), 20);
    r.apply(WindowEvent::Destroyed { id: WindowId::new(20) });
    assert_eq!(r.focused().unwrap().id.get(), 10);
}

#[test]
fn window_id_handles_zero() {
    assert!(WindowId::new(0).is_none());
    assert_eq!(WindowId::new(0), WindowId::none());
}

#[test]
fn hidden_from_panel_filters_snapshot() {
    let mut r = Registry::new();
    r.apply(WindowEvent::Created(make_meta(11, "A", ws1())));
    r.mark_hidden_from_panel(WindowId::new(11), true);
    assert!(r.snapshot_for(ws1()).is_empty());
}

#[test]
fn window_title_truncates_long_input() {
    let long = "x".repeat(800);
    let t = WindowTitle::new(long);
    assert!(t.as_str().chars().count() <= 512);
}

#[test]
fn window_title_keeps_short_input() {
    let t = WindowTitle::new("Notepad".to_string());
    assert_eq!(t.as_str(), "Notepad");
    assert_eq!(WindowTitle::new("x".repeat(513)).as_str().chars().count(), 511);
    assert_eq!(WindowTitle::new("x".repeat(512)).as_str().chars().count(), 512);
}

#[test]
fn rect_edges_and_area() {
    let r = Rect::new(10, 20, 30, 40);
    assert_eq!(r.left(), 10);
    assert_eq!(r.top(), 20);
    assert_eq!(r.right(), 40);
    assert_eq!(r.bottom(), 60);
    assert_eq!(r.area(), 1200);
    assert!(r.is_valid());
    assert!(!Rect::new(0, 0, 0, 5).is_valid());
    assert_eq!(Rect::from_ltrb(1, 2, 11, 22), Rect::new(1, 2, 10, 20));
}

#[test]
fn state_flags_combine() {
    let mut s = WindowState::visible().union(WindowState::tiled());
    assert!(s.contains(WindowState::visible()));
    assert!(s.contains(WindowState::tiled()));
    s.set(WindowState::tiled(), false);
    assert!(!s.contains(WindowState::tiled()));
    assert_eq!(WindowState::empty().bits(), 0);
}

#[test]
fn latest_created_window_is_on_top() {
    let mut r = Registry::new();
    for id in [1u64, 2, 3] {
        r.apply(WindowEvent::Created(make_meta(id, "W", ws1())));
    }
    let snap = r.snapshot_for(ws1());
    let top = snap.iter().max_by_key(|w| w.z_order).unwrap();
    assert_eq!(top.id.get(), 3);
    assert!(snap.iter().filter(|w| w.id.get() != 3).all(|w| w.z_order < top.z_order));
}
