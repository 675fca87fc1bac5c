use jacquewm::startup::{Phase, Startup};
use jacquewm::tray::{TrayAction, TrayState};
use std::cell::Cell;
use std::rc::Rc;

type Sink = Rc<dyn Fn(TrayAction)>;

#[test]
fn sink_receives_dispatch() {
    let count = Rc::new(Cell::new(0u32));
    let inner = count.clone();
    let mut s: TrayState<Sink> = TrayState::new();
    s.set_sink(Rc::new(move |_| inner.set(inner.get() + 1)));
    if let Some(sink) = s.dispatch_target() {
        sink(TrayAction::Exit);
    }
    assert_eq!(count.get(), 1);
}

#[test]
fn mark_install_round_trips() {
    let mut s: TrayState<Sink> = TrayState::new();
    assert!(!s.is_installed_value());
    assert!(!s.mark_installed());
    assert!(s.is_installed_value());
    assert!(s.mark_installed());
    s.mark_removed();
    assert!(!s.is_installed_value());
    assert!(s.dispatch_target().is_none());
}

#[test]
fn startup_phases_advance() {
    let mut st = Startup::new();
    assert_eq!(st.phase(), Phase::Boot);
    assert_eq!(st.advance(Phase::Running), Phase::Running);
    assert!(st.is_running());
    st.shutdown();
    assert_eq!(st.phase(), Phase::ShuttingDown);
    assert!(!st.is_running());
    assert_eq!(Phase::default(), Phase::Boot);
}
