//! The debug surface: a snapshot of the live state, closed unless the
//! configuration sets `debug_mode`.

use vstd::prelude::*;
use crate::config::ConfigManager;
use crate::isolation::{by_entry_name, entry_states, EntryState, SubsystemEntry, SubsystemHealth};
use crate::panel::state::{omarchy_dark_palette, ThemePalette};
use crate::seqs::sort_by;

verus! {

/// The live state as the debug dump shows it.
#[derive(Debug)]
pub struct DebugSnapshot {
    /// Path of the settings file.
    pub config_path: String,
    /// Whether `debug_mode` is on.
    pub debug_mode: bool,
    /// One row per registered subsystem.
    pub subsystems: Vec<SubsystemEntry>,
    /// Number of known windows.
    pub window_count: usize,
    /// Tile count of each workspace.
    pub workspace_tile_counts: Vec<u8>,
    /// Background colour of the active palette.
    pub active_theme_palette_background: u32,
    /// Number of visible notifications.
    pub active_notifications: usize,
}

/// The abstract value of a [`DebugSnapshot`].
pub struct DebugView {
    pub config_path: Seq<char>,
    pub debug_mode: bool,
    pub subsystems: Seq<EntryState>,
    pub window_count: usize,
    pub workspace_tile_counts: Seq<u8>,
    pub active_theme_palette_background: u32,
    pub active_notifications: usize,
}

impl View for DebugSnapshot {
    type V = DebugView;

    open spec fn view(&self) -> DebugView {
        DebugView {
            config_path: self.config_path@,
            debug_mode: self.debug_mode,
            subsystems: entry_states(self.subsystems@),
            window_count: self.window_count,
            workspace_tile_counts: self.workspace_tile_counts@,
            active_theme_palette_background: self.active_theme_palette_background,
            active_notifications: self.active_notifications,
        }
    }
}

/// The snapshot with every field empty or zero.
pub open spec fn empty_view() -> DebugView {
    DebugView {
        config_path: Seq::empty(),
        debug_mode: false,
        subsystems: Seq::empty(),
        window_count: 0,
        workspace_tile_counts: Seq::empty(),
        active_theme_palette_background: 0,
        active_notifications: 0,
    }
}

impl DebugSnapshot {
    /// The empty snapshot.
    pub fn empty() -> (r: Self)
        ensures
            r@ == empty_view(),
    {
        let r = DebugSnapshot {
            config_path: String::new(),
            debug_mode: false,
            subsystems: Vec::new(),
            window_count: 0,
            workspace_tile_counts: Vec::new(),
            active_theme_palette_background: 0,
            active_notifications: 0,
        };
        assert(r@ =~= empty_view()) by {
            assert(entry_states(r.subsystems@) =~= Seq::<EntryState>::empty());
            assert(r.workspace_tile_counts@ =~= Seq::<u8>::empty());
        }
        r
    }
}

impl Default for DebugSnapshot {
    fn default() -> (r: Self)
        ensures
            r@ == empty_view(),
    {
        Self::empty()
    }
}

/// The debug manager: open only when the configuration it was built with
/// set `debug_mode`.
pub struct DebugManager {
    enabled: bool,
    config: ConfigManager,
    health: SubsystemHealth,
    inner: DebugSnapshot,
}

impl DebugManager {
    /// Whether the manager is open.
    pub closed spec fn open(&self) -> bool {
        self.enabled
    }

    /// The configuration manager it reads.
    pub closed spec fn config_manager(&self) -> ConfigManager {
        self.config
    }

    /// The health registry it reads.
    pub closed spec fn registry(&self) -> SubsystemHealth {
        self.health
    }

    /// The state last written through [`Self::record`].
    pub closed spec fn recorded(&self) -> DebugSnapshot {
        self.inner
    }

    /// The registry is well formed.
    pub closed spec fn wf(&self) -> bool {
        self.health.wf()
    }

    /// A manager, open exactly when the configuration sets `debug_mode`.
    pub fn new(config: ConfigManager, health: SubsystemHealth) -> (r: Self)
        requires
            health.wf(),
        ensures
            r.wf(),
            r.open() == config.current().debug.debug_mode,
            r.config_manager() == config,
            r.registry() == health,
            r.recorded()@ == empty_view(),
    {
        let debug_mode = config.snapshot().debug.debug_mode;
        DebugManager { enabled: debug_mode, config, health, inner: DebugSnapshot::empty() }
    }

    /// Whether the manager is open.
    pub fn is_enabled(&self) -> (r: bool)
        ensures
            r == self.open(),
    {
        self.enabled
    }

    /// Update the recorded state with `update`; nothing happens while the
    /// manager is closed.
    pub fn record<F: FnOnce(DebugSnapshot) -> DebugSnapshot>(&mut self, update: F)
        requires
            old(self).open() ==> call_requires(update, (old(self).recorded(),)),
        ensures
            final(self).open() == old(self).open(),
            final(self).config_manager() == old(self).config_manager(),
            final(self).registry() == old(self).registry(),
            !old(self).open() ==> final(self).recorded() == old(self).recorded(),
            old(self).open() ==> call_ensures(update, (old(self).recorded(),), final(self).recorded()),
    {
        if !self.enabled {
            return;
        }
        let mut current = DebugSnapshot::empty();
        std::mem::swap(&mut current, &mut self.inner);
        self.inner = update(current);
    }

    /// A fresh snapshot. Closed: only the settings file's path. Open: the
    /// path, `debug_mode` as configured, the subsystems in name order and
    /// the built-in palette's background.
    pub fn snapshot(&self) -> (r: DebugSnapshot)
        requires
            self.wf(),
        ensures
            !self.open() ==> r@ == (DebugView { config_path: self.config_manager().file(), ..empty_view() }),
            self.open() ==> r@ == (DebugView {
                config_path: self.config_manager().file(),
                debug_mode: self.config_manager().current().debug.debug_mode,
                subsystems: sort_by(self.registry().rows(), by_entry_name()),
                active_theme_palette_background: omarchy_dark_palette().background.0,
                ..empty_view()
            }),
    {
        let mut snap = DebugSnapshot::empty();
        snap.config_path = crate::text::owned(self.config.path());
        if !self.enabled {
            return snap;
        }
        let cfg = self.config.snapshot();
        snap.debug_mode = cfg.debug.debug_mode;
        snap.subsystems = self.health.snapshot();
        snap.active_theme_palette_background = ThemePalette::omarchy_dark().background.0;
        snap
    }
}

} // verus!
