//! Start-up orchestration: the lifecycle phase the process is in.

use vstd::prelude::*;

verus! {

/// The lifecycle phases, in boot order.
#[derive(Clone, Copy, Debug, PartialEq, Eq, Structural)]
pub enum Phase {
    /// Nothing is initialised yet.
    Boot,
    /// Explorer is ready.
    ExplorerReady,
    /// The logger is wired up.
    LoggerReady,
    /// The configuration is loaded.
    ConfigReady,
    /// The workspace engine is synchronised.
    EngineReady,
    /// The virtual desktop adapter is wired in.
    AdapterReady,
    /// The desktops are enumerated.
    DesktopsReady,
    /// The hotkeys are registered.
    HotkeysReady,
    /// The event loop runs.
    Running,
    /// A graceful shutdown was requested.
    ShuttingDown,
}

impl Default for Phase {
    fn default() -> (r: Self)
        ensures
            r == Phase::Boot,
    {
        Phase::Boot
    }
}

/// The current phase.
pub struct Startup {
    phase: Phase,
}

impl Startup {
    /// The current phase.
    pub closed spec fn current(&self) -> Phase {
        self.phase
    }

    /// A tracker in [`Phase::Boot`].
    pub fn new() -> (r: Self)
        ensures
            r.current() == Phase::Boot,
    {
        Startup { phase: Phase::Boot }
    }

    /// The current phase.
    pub fn phase(&self) -> (r: Phase)
        ensures
            r == self.current(),
    {
        self.phase
    }

    /// Move to `next` and return it.
    pub fn advance(&mut self, next: Phase) -> (r: Phase)
        ensures
            r == next,
            final(self).current() == next,
    {
        self.phase = next;
        next
    }

    /// The system is fully online.
    pub fn is_running(&self) -> (r: bool)
        ensures
            r == (self.current() == Phase::Running),
    {
        self.phase == Phase::Running
    }

    /// Request shutdown.
    pub fn shutdown(&mut self)
        ensures
            final(self).current() == Phase::ShuttingDown,
    {
        self.advance(Phase::ShuttingDown);
    }
}

impl Default for Startup {
    fn default() -> (r: Self)
        ensures
            r.current() == Phase::Boot,
    {
        Self::new()
    }
}

} // verus!
