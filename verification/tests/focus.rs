use jacquewm::focus::{FocusEntry, FocusTracker};
use jacquewm::wm::{WindowId, WindowTitle};

#[test]
fn desktop_is_default() {
    let f = FocusTracker::new();
    let entry = f.current();
    assert!(entry.is_desktop());
    assert_eq!(entry.title.as_str(), "Desktop");
}

#[test]
fn set_focused_round_trips() {
    let mut f = FocusTracker::new();
    let prev = f.set_focused(FocusEntry {
        id: WindowId::new(42),
        pid: 100,
        class: "Notepad".into(),
        title: WindowTitle::new("Notepad".to_string()),
        fullscreen: false,
    });
    assert!(prev.is_desktop());
    assert_eq!(f.current().id.get(), 42);
    let prev = f.clear();
    assert_eq!(prev.id.get(), 42);
    assert!(f.current().is_desktop());
    assert!(f.previous().is_none());
}
