use jacquewm::hotkeys::action::{perform, Action, ActionOutcome};
use jacquewm::hotkeys::keys::{Hotkey, HotkeyPress, KeyCode, Modifiers};
use jacquewm::hotkeys::register::{channel_pair, ChannelSink, HotkeySink};
use jacquewm::hotkeys::{default_keymap, HotkeyManager};
use jacquewm::workspace::WorkspaceIndex;

fn ws(n: u8) -> WorkspaceIndex {
    WorkspaceIndex::new_unchecked(n)
}

#[test]
fn super_one_switches_to_workspace_one() {
    let mut hot = HotkeyManager::new();
    let action = hot.dispatch_press(HotkeyPress::new(KeyCode::Digit(1), Modifiers::super_key(), false));
    assert_eq!(action, Some(Action::SwitchDesktop(ws(1))));
}

#[test]
fn super_shift_two_moves_window() {
    let mut hot = HotkeyManager::new();
    let action = hot.dispatch_press(HotkeyPress::new(
        KeyCode::Digit(2),
        Modifiers::super_key().union(Modifiers::shift()),
        false,
    ));
    assert_eq!(action, Some(Action::MoveWindowToDesktop(ws(2))));
}

#[test]
fn auto_repeat_of_same_press_is_throttled() {
    let mut hot = HotkeyManager::new();
    let press = HotkeyPress::new(KeyCode::Digit(3), Modifiers::super_key(), true);
    assert_eq!(hot.dispatch_press(press), Some(Action::SwitchDesktop(ws(3))));
    assert_eq!(hot.dispatch_press(press), None);
    let fresh = HotkeyPress::new(KeyCode::Digit(3), Modifiers::super_key(), false);
    assert_eq!(hot.dispatch_press(fresh), Some(Action::SwitchDesktop(ws(3))));
}

#[test]
fn unbound_press_does_nothing() {
    let mut hot = HotkeyManager::new();
    assert_eq!(hot.dispatch_press(HotkeyPress::new(KeyCode::Letter('q'), Modifiers::ctrl(), false)), None);
    let mut custom = HotkeyManager::with_keymap(vec![(
        Hotkey::new(KeyCode::Letter('q'), Modifiers::ctrl()).unwrap(),
        Action::Quit,
    )]);
    assert_eq!(custom.dispatch_press(HotkeyPress::new(KeyCode::Letter('q'), Modifiers::ctrl(), false)), Some(Action::Quit));
}

#[test]
fn default_keymap_has_eighteen_bindings() {
    let map = default_keymap();
    assert_eq!(map.len(), 18);
    assert_eq!(map[0].0.modifiers.bits(), 0b1000);
    assert_eq!(map[1].0.modifiers.bits(), 0b1010);
    assert_eq!(map[17].1, Action::MoveWindowToDesktop(ws(9)));
}

#[test]
fn hotkey_needs_a_modifier() {
    assert!(Hotkey::new(KeyCode::Digit(1), Modifiers::empty()).is_none());
    let hk = Hotkey::new(KeyCode::digit(1), Modifiers::alt()).unwrap();
    assert!(hk.matches(&HotkeyPress::new(KeyCode::Digit(1), Modifiers::alt(), true)));
    assert!(!hk.matches(&HotkeyPress::new(KeyCode::Digit(1), Modifiers::alt().union(Modifiers::caps()), false)));
    assert_eq!(Modifiers::from_bits_truncate(0xff).bits(), 0x1f);
    assert!(Modifiers::from_bits_truncate(0xff).contains(Modifiers::ctrl()));
}

#[test]
fn channel_sink_delivers_presses() {
    let (tx, rx) = channel_pair(4);
    let sink = ChannelSink::new(tx);
    let press = HotkeyPress::new(KeyCode::Virtual(0x41), Modifiers::ctrl(), false);
    sink.push(press);
    assert_eq!(rx.try_recv().unwrap(), press);
}

struct FixedEngine(Result<(), jacquewm::error::JacqueError>);
impl jacquewm::workspaces::WorkspaceEngineTrait for FixedEngine {
    fn switch_answer(&self, _index: jacquewm::workspace::WorkspaceIndex, answer: Result<(), jacquewm::error::JacqueError>) -> bool {
        answer == self.0
    }
    fn switch_to(&self, _index: jacquewm::workspace::WorkspaceIndex) -> Result<(), jacquewm::error::JacqueError> {
        self.0.clone()
    }
    fn current(&self) -> jacquewm::workspace::WorkspaceIndex {
        jacquewm::workspace::WorkspaceIndex::new(1).unwrap()
    }
}

struct RefusingWindows;
impl jacquewm::windows::WindowManagerTrait for RefusingWindows {
    fn move_answer(&self, _idx: jacquewm::workspace::WorkspaceIndex, answer: Result<(), jacquewm::error::JacqueError>) -> bool {
        answer.is_err()
    }
    fn move_foreground_to(&self, _idx: jacquewm::workspace::WorkspaceIndex) -> Result<(), jacquewm::error::JacqueError> {
        Err(jacquewm::error::JacqueError::Other("no window".into()))
    }
}

#[test]
fn perform_routes_actions() {
    let ws3 = jacquewm::workspace::WorkspaceIndex::new(3).unwrap();
    let ok = FixedEngine(Ok(()));
    assert!(matches!(perform(Action::SwitchDesktop(ws3), &RefusingWindows, &ok), ActionOutcome::Done));
    assert!(matches!(
        perform(Action::MoveWindowToDesktop(ws3), &RefusingWindows, &ok),
        ActionOutcome::Failed(jacquewm::error::JacqueError::Other(_))
    ));
    assert!(matches!(perform(Action::Quit, &RefusingWindows, &ok), ActionOutcome::Quit));
    assert!(matches!(perform(Action::ReloadConfig, &RefusingWindows, &ok), ActionOutcome::Reload));
}
