use jacquewm::error::JacqueError;
use jacquewm::virtual_desktop::{DesktopId, VirtualDesktopAdapter};
use jacquewm::windows::{WindowEnumerator, WindowManager, WindowSnapshot};
use jacquewm::workspaces::{WorkspaceEngine, WorkspaceState};
use jacquewm::workspace::WorkspaceIndex;
use std::cell::RefCell;

struct MockAdapter {
    desktops: RefCell<Vec<DesktopId>>,
    current_idx: RefCell<u8>,
    moved: RefCell<Vec<(u64, u8)>>,
}

impl MockAdapter {
    fn new(initial: u8) -> Self {
        let mut desktops: Vec<DesktopId> = (0..initial).map(|i| DesktopId([i; 16])).collect();
        desktops.truncate(9);
        MockAdapter { desktops: RefCell::new(desktops), current_idx: RefCell::new(1), moved: RefCell::new(vec![]) }
    }
}

impl VirtualDesktopAdapter for MockAdapter {
    // The mock makes no promise beyond its code: every answer is possible.
    fn listed(&self, _answer: Result<Vec<DesktopId>, JacqueError>) -> bool {
        true
    }
    fn current_answer(&self, _answer: Result<DesktopId, JacqueError>) -> bool {
        true
    }
    fn switch_answer(&self, _index: WorkspaceIndex, _answer: Result<(), JacqueError>) -> bool {
        true
    }
    fn create_answer(&self, _answer: Result<DesktopId, JacqueError>) -> bool {
        true
    }
    fn move_answer(&self, _hwnd: u64, _index: WorkspaceIndex, _answer: Result<(), JacqueError>) -> bool {
        true
    }
    fn desktop_answer(&self, _hwnd: u64, _answer: Result<DesktopId, JacqueError>) -> bool {
        true
    }
    fn enumerate(&self) -> Result<Vec<DesktopId>, JacqueError> {
        Ok(self.desktops.borrow().clone())
    }
    fn current(&self) -> Result<DesktopId, JacqueError> {
        let idx = *self.current_idx.borrow() as usize;
        Ok(self.desktops.borrow()[idx - 1])
    }
    fn switch_to(&self, index: WorkspaceIndex) -> Result<(), JacqueError> {
        let pos = (index.get() - 1) as usize;
        if pos >= self.desktops.borrow().len() {
            return Err(JacqueError::DesktopSwitch { index: index.get(), reason: "out of range".into() });
        }
        *self.current_idx.borrow_mut() = index.get();
        Ok(())
    }
    fn create(&self) -> Result<DesktopId, JacqueError> {
        let mut g = self.desktops.borrow_mut();
        let id = DesktopId([g.len() as u8; 16]);
        g.push(id);
        Ok(id)
    }
    fn move_window(&self, hwnd: u64, index: WorkspaceIndex) -> Result<(), JacqueError> {
        self.moved.borrow_mut().push((hwnd, index.get()));
        Ok(())
    }
    fn window_desktop(&self, _hwnd: u64) -> Result<DesktopId, JacqueError> {
        self.current()
    }
}

#[test]
fn engine_creates_missing_desktops() {
    let mut engine = WorkspaceEngine::new(MockAdapter::new(3)).unwrap();
    assert_eq!(engine.snapshot().count, 3);
    assert_eq!(engine.ensure_workspace_count(9).unwrap(), 9);
    assert_eq!(engine.snapshot().count, 9);
    assert!(engine.snapshot().is_complete());
}

#[test]
fn engine_refuses_invalid_target() {
    let mut engine = WorkspaceEngine::new(MockAdapter::new(5)).unwrap();
    assert_eq!(engine.ensure_workspace_count(0), Err(JacqueError::InvalidWorkspaceIndex(0)));
    assert_eq!(engine.ensure_workspace_count(10), Err(JacqueError::InvalidWorkspaceIndex(10)));
}

#[test]
fn switch_to_updates_state() {
    let mut engine = WorkspaceEngine::new(MockAdapter::new(9)).unwrap();
    engine.switch_to(WorkspaceIndex::new_unchecked(5)).unwrap();
    assert_eq!(engine.current().get(), 5);
}

#[test]
fn switch_beyond_known_desktops_is_refused() {
    let mut engine = WorkspaceEngine::new(MockAdapter::new(3)).unwrap();
    let e = engine.switch_to(WorkspaceIndex::new_unchecked(5)).unwrap_err();
    assert_eq!(
        e,
        JacqueError::DesktopSwitch {
            index: 5,
            reason: "engine only knows 3 desktops; index 5 is out of range".into()
        }
    );
    assert_eq!(
        e.describe(),
        "failed to switch to desktop index 5: engine only knows 3 desktops; index 5 is out of range"
    );
}

#[test]
fn adapter_switches_to_window_desktop() {
    let a = MockAdapter::new(4);
    *a.current_idx.borrow_mut() = 3;
    assert_eq!(a.count().unwrap(), 4);
    a.switch_to_window(7).unwrap();
    assert_eq!(*a.current_idx.borrow(), 3);
}

#[test]
fn synced_state_locates_current_desktop() {
    let ds: Vec<DesktopId> = (0..4u8).map(|i| DesktopId([i; 16])).collect();
    let st = WorkspaceState::synced(ds.clone(), DesktopId([2; 16]));
    assert_eq!(st.current.get(), 3);
    assert_eq!(st.count, 4);
    let st = WorkspaceState::synced(ds, DesktopId([9; 16]));
    assert_eq!(st.current.get(), 1);
    assert!(!st.is_complete());
}

#[test]
fn desktop_ids_print_as_hex() {
    let mut bytes = [0u8; 16];
    bytes[0] = 0xAB;
    bytes[15] = 0x01;
    let id = DesktopId(bytes);
    assert_eq!(id.text(), "AB-00-00-00-00-00-00-00-00-00-00-00-00-00-00-01");
    assert!(DesktopId::unknown().is_unknown());
    assert!(!id.is_unknown());
}

struct MockEnum;

impl WindowEnumerator for MockEnum {
    // Every answer is possible.
    fn windows_answer(&self, _answer: Result<Vec<WindowSnapshot>, JacqueError>) -> bool {
        true
    }
    fn foreground_answer(&self, _answer: Result<Option<WindowSnapshot>, JacqueError>) -> bool {
        true
    }
    fn window_answer(&self, _hwnd: u64, _answer: bool) -> bool {
        true
    }
    fn enumerate(&self) -> Result<Vec<WindowSnapshot>, JacqueError> {
        Ok(vec![])
    }
    fn foreground(&self) -> Result<Option<WindowSnapshot>, JacqueError> {
        Ok(Some(WindowSnapshot { hwnd: 42, pid: 100, title: "Notepad".into(), class: "Notepad".into(), visible: true }))
    }
    fn is_window(&self, hwnd: u64) -> bool {
        hwnd == 42
    }
}

struct NoForeground;

impl WindowEnumerator for NoForeground {
    // Every answer is possible.
    fn windows_answer(&self, _answer: Result<Vec<WindowSnapshot>, JacqueError>) -> bool {
        true
    }
    fn foreground_answer(&self, _answer: Result<Option<WindowSnapshot>, JacqueError>) -> bool {
        true
    }
    fn window_answer(&self, _hwnd: u64, _answer: bool) -> bool {
        true
    }
    fn enumerate(&self) -> Result<Vec<WindowSnapshot>, JacqueError> {
        Ok(vec![])
    }
    fn foreground(&self) -> Result<Option<WindowSnapshot>, JacqueError> {
        Ok(None)
    }
    fn is_window(&self, _hwnd: u64) -> bool {
        false
    }
}

#[test]
fn move_foreground_uses_cached_hwnd() {
    let mut mgr = WindowManager::new(MockEnum, MockAdapter::new(9));
    mgr.move_foreground_to(WorkspaceIndex::new_unchecked(3)).unwrap();
    mgr.move_foreground_to(WorkspaceIndex::new_unchecked(4)).unwrap();
    assert!(mgr.list_windows().unwrap().is_empty());
}

#[test]
fn move_without_foreground_fails() {
    let mut mgr = WindowManager::new(NoForeground, MockAdapter::new(9));
    let e = mgr.move_foreground_to(WorkspaceIndex::new_unchecked(2)).unwrap_err();
    assert_eq!(e, JacqueError::WindowMove { hwnd: 0, index: 2, reason: "no foreground window".into() });
}

#[test]
fn window_move_error_names_window_and_target() {
    let e = jacquewm::windows::window_move_error(42, WorkspaceIndex::new(3).unwrap(), &JacqueError::Other("busy".into()));
    match e {
        JacqueError::WindowMove { hwnd, index, reason } => {
            assert_eq!(hwnd, 42);
            assert_eq!(index, 3);
            assert_eq!(reason, "busy");
        }
        other => panic!("unexpected {other:?}"),
    }
}

#[test]
fn no_foreground_window_is_reported_with_handle_zero() {
    let ws = WorkspaceIndex::new(4).unwrap();
    match jacquewm::windows::foreground_to_move(ws, Ok(None)) {
        Err(JacqueError::WindowMove { hwnd, index, reason }) => {
            assert_eq!((hwnd, index), (0, 4));
            assert_eq!(reason, "no foreground window");
        }
        other => panic!("unexpected {other:?}"),
    }
    let w = WindowSnapshot { hwnd: 9, pid: 1, title: "T".into(), class: "C".into(), visible: true };
    assert_eq!(jacquewm::windows::foreground_to_move(ws, Ok(Some(w.clone()))), Ok(w));
    assert_eq!(
        jacquewm::windows::foreground_to_move(ws, Err(JacqueError::Other("x".into()))),
        Err(JacqueError::Other("x".into()))
    );
}

#[test]
fn desktops_are_created_below_the_target_only() {
    assert!(jacquewm::workspaces::needs_desktop(3, 9));
    assert!(!jacquewm::workspaces::needs_desktop(9, 9));
    assert!(!jacquewm::workspaces::needs_desktop(12, 9));
}

#[test]
fn failed_switch_names_the_workspace() {
    let e = jacquewm::workspaces::switch_error(WorkspaceIndex::new(2).unwrap(), &JacqueError::Other("busy".into()));
    match e {
        JacqueError::DesktopSwitch { index, reason } => {
            assert_eq!(index, 2);
            assert_eq!(reason, "busy");
        }
        other => panic!("unexpected {other:?}"),
    }
}

struct StuckAdapter;

impl VirtualDesktopAdapter for StuckAdapter {
    // Every answer is possible.
    fn listed(&self, _answer: Result<Vec<DesktopId>, JacqueError>) -> bool {
        true
    }
    fn current_answer(&self, _answer: Result<DesktopId, JacqueError>) -> bool {
        true
    }
    fn switch_answer(&self, _index: WorkspaceIndex, _answer: Result<(), JacqueError>) -> bool {
        true
    }
    fn create_answer(&self, _answer: Result<DesktopId, JacqueError>) -> bool {
        true
    }
    fn move_answer(&self, _hwnd: u64, _index: WorkspaceIndex, _answer: Result<(), JacqueError>) -> bool {
        true
    }
    fn desktop_answer(&self, _hwnd: u64, _answer: Result<DesktopId, JacqueError>) -> bool {
        true
    }
    fn enumerate(&self) -> Result<Vec<DesktopId>, JacqueError> {
        Ok(vec![DesktopId([1; 16])])
    }
    fn current(&self) -> Result<DesktopId, JacqueError> {
        Ok(DesktopId([1; 16]))
    }
    fn switch_to(&self, _index: WorkspaceIndex) -> Result<(), JacqueError> {
        Ok(())
    }
    fn create(&self) -> Result<DesktopId, JacqueError> {
        Ok(DesktopId([2; 16]))
    }
    fn move_window(&self, _hwnd: u64, _index: WorkspaceIndex) -> Result<(), JacqueError> {
        Ok(())
    }
    fn window_desktop(&self, _hwnd: u64) -> Result<DesktopId, JacqueError> {
        Ok(DesktopId([1; 16]))
    }
}

#[test]
fn engine_gives_up_when_desktops_never_appear() {
    let mut engine = match WorkspaceEngine::new(StuckAdapter) {
        Ok(e) => e,
        Err(_) => panic!("engine did not start"),
    };
    let before = engine.snapshot().count;
    match engine.ensure_workspace_count(9) {
        Err(JacqueError::DesktopCreate(m)) => assert_eq!(m, "desktop count did not reach the target"),
        other => panic!("unexpected {:?}", other.map(|_| ())),
    }
    assert_eq!(engine.snapshot().count, before);
}
