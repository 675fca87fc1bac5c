//! Hotkeys: the actions, the key model, the platform traits, the default
//! keymap and the dispatcher that turns a press into at most one action.

pub mod action;
pub mod keys;
pub mod register;

use vstd::prelude::*;
use crate::hotkeys::action::Action;
use crate::hotkeys::keys::{Hotkey, HotkeyPress, KeyCode, Modifiers};
use crate::workspace::WorkspaceIndex;

verus! {

/// The default binding at position `k`: Super + digit switches, Super +
/// Shift + digit moves the focused window, for digits 1 to 9 in turn.
pub open spec fn default_binding(k: int) -> (Hotkey, Action) {
    let n = (k / 2 + 1) as u8;
    let idx = WorkspaceIndex::with_value(n);
    if k % 2 == 0 {
        (Hotkey { key: KeyCode::Digit(n), modifiers: Modifiers { bits: 0b1000 } }, Action::SwitchDesktop(idx))
    } else {
        (Hotkey { key: KeyCode::Digit(n), modifiers: Modifiers { bits: 0b1010 } }, Action::MoveWindowToDesktop(idx))
    }
}

/// The default keymap: Super + 1..9 switches, Super + Shift + 1..9 moves.
pub fn default_keymap() -> (map: Vec<(Hotkey, Action)>)
    ensures
        map@.len() == 18,
        forall|k: int| 0 <= k < 18 ==> #[trigger] map@[k] == default_binding(k),
{
    let mut map: Vec<(Hotkey, Action)> = Vec::new();
    let mut n: u8 = 1;
    while n <= 9
        invariant
            1 <= n <= 10,
            map@.len() == 2 * (n - 1),
            forall|k: int| 0 <= k < map@.len() ==> #[trigger] map@[k] == default_binding(k),
        decreases 10 - n,
    {
        let key = KeyCode::Digit(n);
        let idx = WorkspaceIndex::new_unchecked(n);
        proof {
            WorkspaceIndex::lemma_with_value(n);
            WorkspaceIndex::lemma_value_injective(idx, WorkspaceIndex::with_value(n));
        }
        let ghost k0 = map@.len() as int;
        map.push((Hotkey { key, modifiers: Modifiers::super_key() }, Action::SwitchDesktop(idx)));
        map.push((Hotkey { key, modifiers: Modifiers::super_key().union(Modifiers::shift()) }, Action::MoveWindowToDesktop(idx)));
        proof {
            assert(0b1000u8 | 0b0010u8 == 0b1010u8) by (bit_vector);
            assert(k0 / 2 + 1 == n);
            assert((k0 + 1) / 2 + 1 == n);
            assert(map@[k0] == default_binding(k0));
            assert(map@[k0 + 1] == default_binding(k0 + 1));
        }
        n = n + 1;
    }
    map
}

/// A dispatcher that performs the actions it is handed; the platform's
/// hotkey service implements it.
pub trait HotkeyManagerTrait {
    /// Handle one press.
    fn dispatch(&self, press: HotkeyPress);
}

/// The binding's hotkey is the press.
pub open spec fn binds(press: HotkeyPress) -> spec_fn((Hotkey, Action)) -> bool {
    |b: (Hotkey, Action)| b.0.spec_matches(press)
}

/// The position of the first binding that the press matches, or `-1`.
pub open spec fn first_binding(keymap: Seq<(Hotkey, Action)>, press: HotkeyPress) -> int {
    crate::seqs::first_index(keymap, binds(press))
}

/// The dispatcher's decisions: the keymap and the last press seen.
pub struct HotkeyManager {
    keymap: Vec<(Hotkey, Action)>,
    last_press: Option<HotkeyPress>,
}

impl HotkeyManager {
    /// The bindings, searched in order.
    pub closed spec fn bindings(&self) -> Seq<(Hotkey, Action)> {
        self.keymap@
    }

    /// The last press handed to the dispatcher.
    pub closed spec fn last(&self) -> Option<HotkeyPress> {
        self.last_press
    }

    /// A dispatcher over the default keymap.
    pub fn new() -> (r: Self)
        ensures
            r.bindings().len() == 18,
            forall|k: int| 0 <= k < 18 ==> #[trigger] r.bindings()[k] == default_binding(k),
            r.last() is None,
    {
        HotkeyManager { keymap: default_keymap(), last_press: None }
    }

    /// A dispatcher over the given keymap.
    pub fn with_keymap(keymap: Vec<(Hotkey, Action)>) -> (r: Self)
        ensures
            r.bindings() == keymap@,
            r.last() is None,
    {
        HotkeyManager { keymap, last_press: None }
    }

    /// Decide what a press does. An auto-repeat of the very press seen
    /// last does nothing and leaves the last press as it was; otherwise the
    /// press becomes the last one, and the action of the first binding it
    /// matches is returned, if any.
    pub fn dispatch_press(&mut self, press: HotkeyPress) -> (r: Option<Action>)
        ensures
            final(self).bindings() == old(self).bindings(),
            (old(self).last() == Some(press) && press.auto_repeat) ==> r is None && final(self).last()
                == old(self).last(),
            !(old(self).last() == Some(press) && press.auto_repeat) ==> {
                let i = first_binding(old(self).bindings(), press);
                &&& final(self).last() == Some(press)
                &&& r == (if i < 0 { None } else { Some(old(self).bindings()[i].1) })
            },
    {
        if let Some(prev) = self.last_press {
            if prev == press && prev.auto_repeat {
                return None;
            }
        }
        self.last_press = Some(press);
        proof {
            crate::seqs::lemma_first_index(self.keymap@, binds(press));
        }
        let mut i: usize = 0;
        while i < self.keymap.len()
            invariant
                self.keymap@ == old(self).keymap@,
                self.last_press == Some(press),
                !(old(self).last_press == Some(press) && press.auto_repeat),
                i <= self.keymap@.len(),
                forall|k: int| 0 <= k < i ==> !binds(press)(#[trigger] self.keymap@[k]),
            decreases self.keymap@.len() - i,
        {
            if self.keymap[i].0.matches(&press) {
                proof {
                    crate::seqs::lemma_first_index_at(self.keymap@, binds(press), i as int);
                }
                return Some(self.keymap[i].1);
            }
            i = i + 1;
        }
        proof {
            crate::seqs::lemma_first_index_none(self.keymap@, binds(press));
        }
        None
    }
}

} // verus!
