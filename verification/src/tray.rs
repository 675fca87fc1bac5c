//! System-tray integration: the menu actions, the trait the platform
//! implements, and the install state with the click subscriber.

use vstd::prelude::*;

verus! {

/// The actions the tray menu offers.
#[derive(Clone, Copy, Debug, PartialEq, Eq, Hash, Structural)]
pub enum TrayAction {
    /// Quit cleanly.
    Exit,
    /// Restart.
    Restart,
    /// Open the log directory.
    OpenLogs,
    /// Pause or resume hotkey processing.
    TogglePause,
}

/// A tray icon; the platform layer implements it.
pub trait TrayManager {
    /// Add the icon; repeated calls do nothing.
    fn install(&self);
    /// Remove the icon.
    fn remove(&self);
    /// Whether the icon is installed.
    fn is_installed(&self) -> bool;
}

/// Whether the icon is installed, and the subscriber (of type `S`) that
/// tray clicks go to; a new subscriber replaces the old one.
pub struct TrayState<S> {
    installed: bool,
    sink: Option<S>,
}

impl<S> TrayState<S> {
    /// Whether the icon is installed.
    pub closed spec fn installed_flag(&self) -> bool {
        self.installed
    }

    /// The subscriber, if any.
    pub closed spec fn subscriber(&self) -> Option<S> {
        self.sink
    }

    /// Not installed, no subscriber.
    pub fn new() -> (r: Self)
        ensures
            !r.installed_flag(),
            r.subscriber() is None,
    {
        TrayState { installed: false, sink: None }
    }

    /// Mark installed; returns whether it already was.
    pub fn mark_installed(&mut self) -> (prev: bool)
        ensures
            prev == old(self).installed_flag(),
            final(self).installed_flag(),
            final(self).subscriber() == old(self).subscriber(),
    {
        let prev = self.installed;
        self.installed = true;
        prev
    }

    /// Mark removed.
    pub fn mark_removed(&mut self)
        ensures
            !final(self).installed_flag(),
            final(self).subscriber() == old(self).subscriber(),
    {
        self.installed = false;
    }

    /// Whether the icon is installed.
    pub fn is_installed_value(&self) -> (r: bool)
        ensures
            r == self.installed_flag(),
    {
        self.installed
    }

    /// Set the subscriber, replacing any previous one.
    pub fn set_sink(&mut self, sink: S)
        ensures
            final(self).subscriber() == Some(sink),
            final(self).installed_flag() == old(self).installed_flag(),
    {
        self.sink = Some(sink);
    }

    /// Where a click goes: the subscriber, or nowhere.
    pub fn dispatch_target(&self) -> (r: Option<&S>)
        ensures
            match self.subscriber() {
                Some(s) => r == Some(&s),
                None => r is None,
            },
    {
        match &self.sink {
            Some(s) => Some(s),
            None => None,
        }
    }
}

} // verus!
