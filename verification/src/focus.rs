//! Focus tracking: which window the panel names as focused.

use vstd::prelude::*;
use crate::text::owned;
use crate::wm::{truncated_title, WindowId, WindowTitle};

verus! {

/// The focused window as the panel shows it.
#[derive(Debug, PartialEq, Eq)]
pub struct FocusEntry {
    /// The window; the sentinel stands for the desktop.
    pub id: WindowId,
    /// Process id of the owner.
    pub pid: u32,
    /// Window class name.
    pub class: String,
    /// Window title.
    pub title: WindowTitle,
    /// Shown fullscreen by the tiling engine.
    pub fullscreen: bool,
}

impl Clone for FocusEntry {
    fn clone(&self) -> (r: Self)
        ensures
            r == *self,
    {
        FocusEntry {
            id: self.id,
            pid: self.pid,
            class: self.class.clone(),
            title: self.title.clone(),
            fullscreen: self.fullscreen,
        }
    }
}

/// The entry stands for the desktop: no window, titled "Desktop".
pub open spec fn is_desktop_entry(e: FocusEntry) -> bool {
    &&& e.id.raw() == 0
    &&& e.pid == 0
    &&& e.class@ == Seq::<char>::empty()
    &&& e.title.chars() == "Desktop"@
    &&& !e.fullscreen
}

impl FocusEntry {
    /// The "nothing focused" entry.
    pub fn desktop() -> (r: Self)
        ensures
            is_desktop_entry(r),
    {
        let title = WindowTitle::new(owned("Desktop"));
        proof {
            reveal_strlit("Desktop");
            assert(truncated_title("Desktop"@) == "Desktop"@);
        }
        FocusEntry { id: WindowId::none(), pid: 0, class: String::new(), title, fullscreen: false }
    }

    /// No window is focused.
    pub fn is_desktop(&self) -> (r: bool)
        ensures
            r == (self.id.raw() == 0),
    {
        self.id.is_none()
    }
}

/// The focused entry.
pub struct FocusTracker {
    entry: FocusEntry,
}

impl FocusTracker {
    /// The focused entry.
    pub closed spec fn focused(&self) -> FocusEntry {
        self.entry
    }

    /// A tracker with the desktop focused.
    pub fn new() -> (r: Self)
        ensures
            is_desktop_entry(r.focused()),
    {
        FocusTracker { entry: FocusEntry::desktop() }
    }

    /// Replace the focused entry and return the one it replaces.
    pub fn set_focused(&mut self, entry: FocusEntry) -> (prev: FocusEntry)
        ensures
            prev == old(self).focused(),
            final(self).focused() == entry,
    {
        let mut prev = entry;
        std::mem::swap(&mut prev, &mut self.entry);
        prev
    }

    /// Focus the desktop and return the entry it replaces.
    pub fn clear(&mut self) -> (prev: FocusEntry)
        ensures
            prev == old(self).focused(),
            is_desktop_entry(final(self).focused()),
    {
        self.set_focused(FocusEntry::desktop())
    }

    /// A copy of the focused entry.
    pub fn current(&self) -> (r: FocusEntry)
        ensures
            r == self.focused(),
    {
        self.entry.clone()
    }

    /// The entry focused before the current one; not tracked, so always
    /// `None`.
    pub fn previous(&self) -> (r: Option<FocusEntry>)
        ensures
            r is None,
    {
        None
    }
}

impl Clone for FocusTracker {
    fn clone(&self) -> (r: Self)
        ensures
            r.focused() == self.focused(),
    {
        FocusTracker { entry: self.entry.clone() }
    }
}

impl Default for FocusTracker {
    fn default() -> (r: Self)
        ensures
            is_desktop_entry(r.focused()),
    {
        Self::new()
    }
}

} // verus!
