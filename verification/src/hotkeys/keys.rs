//! Key codes, modifier masks and hotkey definitions, independent of the
//! platform's virtual-key numbering.

use vstd::prelude::*;

verus! {

/// A set of modifier keys, as a bit mask with Win32 names.
#[derive(Clone, Copy, Debug, PartialEq, Eq, Hash, Structural)]
pub struct Modifiers {
    /// The mask; only the low five bits are used.
    pub bits: u8,
}

impl Modifiers {
    /// No modifier.
    pub fn empty() -> (r: Modifiers)
        ensures
            r.bits == 0,
    {
        Modifiers { bits: 0 }
    }

    /// Either Control key.
    pub fn ctrl() -> (r: Modifiers)
        ensures
            r.bits == 0b0000_0001,
    {
        Modifiers { bits: 0b0000_0001 }
    }

    /// Either Shift key.
    pub fn shift() -> (r: Modifiers)
        ensures
            r.bits == 0b0000_0010,
    {
        Modifiers { bits: 0b0000_0010 }
    }

    /// Either Alt key.
    pub fn alt() -> (r: Modifiers)
        ensures
            r.bits == 0b0000_0100,
    {
        Modifiers { bits: 0b0000_0100 }
    }

    /// The Windows key.
    pub fn super_key() -> (r: Modifiers)
        ensures
            r.bits == 0b0000_1000,
    {
        Modifiers { bits: 0b0000_1000 }
    }

    /// Caps Lock.
    pub fn caps() -> (r: Modifiers)
        ensures
            r.bits == 0b0001_0000,
    {
        Modifiers { bits: 0b0001_0000 }
    }

    /// The mask.
    pub fn bits(self) -> (r: u8)
        ensures
            r == self.bits,
    {
        self.bits
    }

    /// The mask with the unknown bits dropped.
    pub fn from_bits_truncate(bits: u8) -> (r: Modifiers)
        ensures
            r.bits == bits & 0b0001_1111,
    {
        Modifiers { bits: bits & 0b0001_1111 }
    }

    /// No modifier is set.
    pub fn is_empty(self) -> (r: bool)
        ensures
            r == (self.bits == 0),
    {
        self.bits == 0
    }

    /// Every modifier of `other` is set in `self`.
    pub fn contains(self, other: Modifiers) -> (r: bool)
        ensures
            r == (self.bits & other.bits == other.bits),
    {
        self.bits & other.bits == other.bits
    }

    /// The modifiers of both masks.
    pub fn union(self, other: Modifiers) -> (r: Modifiers)
        ensures
            r.bits == self.bits | other.bits,
    {
        Modifiers { bits: self.bits | other.bits }
    }
}

/// A key, independent of the platform's numbering.
#[derive(Clone, Copy, Debug, PartialEq, Eq, Hash, Structural)]
pub enum KeyCode {
    /// A digit key of the main row.
    Digit(u8),
    /// A letter key.
    Letter(char),
    /// Any other key, by virtual-key code.
    Virtual(u16),
}

impl KeyCode {
    /// The main-row digit key `n`.
    pub fn digit(n: u8) -> (r: KeyCode)
        ensures
            r == KeyCode::Digit(n),
    {
        KeyCode::Digit(n)
    }
}

/// A key with the modifiers that must be held.
#[derive(Clone, Copy, Debug, PartialEq, Eq, Hash, Structural)]
pub struct Hotkey {
    pub key: KeyCode,
    /// At least one modifier, so that ordinary typing is never taken.
    pub modifiers: Modifiers,
}

/// A key press as the platform hook reports it.
#[derive(Clone, Copy, Debug, PartialEq, Eq, Hash, Structural)]
pub struct HotkeyPress {
    pub key_code: KeyCode,
    /// The modifiers held at the time of the press.
    pub modifiers: Modifiers,
    /// An auto-repeat of a held key rather than a first press.
    pub auto_repeat: bool,
}

impl Hotkey {
    /// A hotkey, refused (`None`) when no modifier is given.
    pub fn new(key: KeyCode, modifiers: Modifiers) -> (r: Option<Hotkey>)
        ensures
            r == (if modifiers.bits == 0 {
                None
            } else {
                Some(Hotkey { key, modifiers })
            }),
    {
        if modifiers.is_empty() {
            None
        } else {
            Some(Hotkey { key, modifiers })
        }
    }

    /// The press is this hotkey: same key, exactly the same modifiers.
    pub open spec fn spec_matches(self, press: HotkeyPress) -> bool {
        self.key == press.key_code && self.modifiers == press.modifiers
    }

    /// Whether the press is this hotkey.
    pub fn matches(&self, press: &HotkeyPress) -> (r: bool)
        ensures
            r == self.spec_matches(*press),
    {
        self.key == press.key_code && self.modifiers == press.modifiers
    }
}

impl HotkeyPress {
    /// A press event.
    pub fn new(key_code: KeyCode, modifiers: Modifiers, auto_repeat: bool) -> (r: HotkeyPress)
        ensures
            r == (HotkeyPress { key_code, modifiers, auto_repeat }),
    {
        HotkeyPress { key_code, modifiers, auto_repeat }
    }
}

} // verus!
