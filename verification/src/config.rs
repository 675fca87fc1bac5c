//! Configuration: the sections of the settings file, their defaults, the
//! validation and clamping rules, the mapping from the file's raw form,
//! the fallback decision after a load, and where the file lives.
//!
//! Floating-point settings are carried as their IEEE-754 single-precision
//! bit patterns (`*_bits` fields); see [`crate::floatbits`].

use vstd::prelude::*;
use crate::error::JacqueError;
use crate::floatbits::{f32_in_range, in_range_bits, ONE_BITS, ZERO_BITS};
use crate::text::owned;
use crate::workspace::WorkspaceIndex;

verus! {

/// Bit pattern of the default panel opacity, `0.92_f32`.
pub const DEFAULT_OPACITY_BITS: u32 = 0x3f6b_851f;

/// Default panel height in pixels.
pub const DEFAULT_PANEL_HEIGHT: i32 = 32;

/// Panel placement, transparency and refresh.
pub struct PanelSection {
    /// Height in pixels; `30..=34` is accepted.
    pub height: i32,
    /// Opacity in `0..=1`, as `f32` bits.
    pub opacity_bits: u32,
    /// Whether the panel overlays fullscreen windows.
    pub visible_in_fullscreen: bool,
    /// Refresh interval of the metrics section, in milliseconds.
    pub metrics_refresh_ms: u32,
    /// Workspace names shown in the left section; empty means "1".."9".
    pub custom_names: Vec<String>,
}

/// The abstract value of a [`PanelSection`].
pub struct PanelView {
    pub height: i32,
    pub opacity_bits: u32,
    pub visible_in_fullscreen: bool,
    pub metrics_refresh_ms: u32,
    pub custom_names: Seq<String>,
}

impl View for PanelSection {
    type V = PanelView;

    open spec fn view(&self) -> PanelView {
        PanelView {
            height: self.height,
            opacity_bits: self.opacity_bits,
            visible_in_fullscreen: self.visible_in_fullscreen,
            metrics_refresh_ms: self.metrics_refresh_ms,
            custom_names: self.custom_names@,
        }
    }
}

/// Copy of a vector of strings.
fn clone_strings(v: &Vec<String>) -> (r: Vec<String>)
    ensures
        r@ == v@,
{
    let r = v.clone();
    assert(r@ =~= v@);
    r
}

impl Clone for PanelSection {
    fn clone(&self) -> (r: Self)
        ensures
            r@ == self@,
    {
        PanelSection {
            height: self.height,
            opacity_bits: self.opacity_bits,
            visible_in_fullscreen: self.visible_in_fullscreen,
            metrics_refresh_ms: self.metrics_refresh_ms,
            custom_names: clone_strings(&self.custom_names),
        }
    }
}

impl Default for PanelSection {
    fn default() -> (r: Self)
        ensures
            r@ == (PanelView {
                height: 32,
                opacity_bits: DEFAULT_OPACITY_BITS,
                visible_in_fullscreen: true,
                metrics_refresh_ms: 1000,
                custom_names: Seq::empty(),
            }),
    {
        let r = PanelSection {
            height: DEFAULT_PANEL_HEIGHT,
            opacity_bits: DEFAULT_OPACITY_BITS,
            visible_in_fullscreen: true,
            metrics_refresh_ms: 1000,
            custom_names: Vec::new(),
        };
        assert(r.custom_names@ =~= Seq::<String>::empty());
        r
    }
}

/// Tiling gaps and divider appearance.
#[derive(Clone, Copy, Debug, PartialEq, Eq, Structural)]
pub struct TilingSection {
    /// Gap between the work area and the tiles.
    pub outer_gap: i32,
    /// Gap between neighbouring tiles.
    pub inner_gap: i32,
    /// Drop the outer gap when a single window is tiled.
    pub smart_gaps: bool,
    /// Thickness of the drag divider in pixels.
    pub divider_thickness_px: i32,
    /// Divider colour (`0xAARRGGBB`); 0 uses the theme.
    pub divider_color_override: u32,
}

impl Default for TilingSection {
    fn default() -> (r: Self)
        ensures
            r == (TilingSection {
                outer_gap: 6,
                inner_gap: 6,
                smart_gaps: true,
                divider_thickness_px: 6,
                divider_color_override: 0,
            }),
    {
        TilingSection { outer_gap: 6, inner_gap: 6, smart_gaps: true, divider_thickness_px: 6, divider_color_override: 0 }
    }
}

/// Which named theme is active.
pub struct ThemeSection {
    /// Theme name; `"omarchy-dark"` is the built-in one.
    pub name: String,
    /// Animation speed multiplier, as `f32` bits (1.0 is stock).
    pub animation_speed_bits: u32,
}

/// The abstract value of a [`ThemeSection`].
pub struct ThemeView {
    pub name: Seq<char>,
    pub animation_speed_bits: u32,
}

impl View for ThemeSection {
    type V = ThemeView;

    open spec fn view(&self) -> ThemeView {
        ThemeView { name: self.name@, animation_speed_bits: self.animation_speed_bits }
    }
}

impl Clone for ThemeSection {
    fn clone(&self) -> (r: Self)
        ensures
            r@ == self@,
    {
        ThemeSection { name: self.name.clone(), animation_speed_bits: self.animation_speed_bits }
    }
}

impl Default for ThemeSection {
    fn default() -> (r: Self)
        ensures
            r@ == (ThemeView { name: "omarchy-dark"@, animation_speed_bits: ONE_BITS }),
    {
        ThemeSection { name: owned("omarchy-dark"), animation_speed_bits: ONE_BITS }
    }
}

/// Launcher window size and behaviour.
#[derive(Clone, Copy, Debug, PartialEq, Eq, Structural)]
pub struct LauncherSection {
    /// Whether the launcher is available.
    pub enabled: bool,
    /// Width of the launcher panel in pixels.
    pub width: i32,
    /// Height of the launcher panel in pixels.
    pub height: i32,
    /// Maximum number of displayed results.
    pub max_results: usize,
    /// Seconds of inactivity before dismissal; 0 never dismisses.
    pub auto_dismiss_seconds: u32,
}

impl Default for LauncherSection {
    fn default() -> (r: Self)
        ensures
            r == (LauncherSection { enabled: true, width: 640, height: 360, max_results: 32, auto_dismiss_seconds: 0 }),
    {
        LauncherSection { enabled: true, width: 640, height: 360, max_results: 32, auto_dismiss_seconds: 0 }
    }
}

/// System-tray toggles.
#[derive(Clone, Copy, Debug, PartialEq, Eq, Structural)]
pub struct TraySection {
    pub enabled: bool,
    pub show_icon: bool,
    pub allow_exit: bool,
    pub allow_restart: bool,
    pub allow_open_logs: bool,
}

impl Default for TraySection {
    fn default() -> (r: Self)
        ensures
            r == (TraySection { enabled: true, show_icon: true, allow_exit: true, allow_restart: true, allow_open_logs: true }),
    {
        TraySection { enabled: true, show_icon: true, allow_exit: true, allow_restart: true, allow_open_logs: true }
    }
}

/// Notification duration, stacking and sound.
#[derive(Clone, Copy, Debug, PartialEq, Eq, Structural)]
pub struct NotificationSection {
    pub enabled: bool,
    pub duration_ms: u32,
    pub max_visible: usize,
    pub play_sound: bool,
}

impl Default for NotificationSection {
    fn default() -> (r: Self)
        ensures
            r == (NotificationSection { enabled: true, duration_ms: 3500, max_visible: 4, play_sound: false }),
    {
        NotificationSection { enabled: true, duration_ms: 3500, max_visible: 4, play_sound: false }
    }
}

/// Start-up behaviour.
#[derive(Clone, Copy, Debug, PartialEq, Eq, Structural)]
pub struct StartupSection {
    /// Register for start at login.
    pub auto_start: bool,
    /// Wait for Explorer before bringing up the panel.
    pub wait_for_explorer: bool,
    /// Longest wait for Explorer, in seconds.
    pub explorer_wait_timeout_secs: u64,
    /// Respawn after a crash of the previous run.
    pub crash_watchdog: bool,
}

impl Default for StartupSection {
    fn default() -> (r: Self)
        ensures
            r == (StartupSection {
                auto_start: false,
                wait_for_explorer: true,
                explorer_wait_timeout_secs: 30,
                crash_watchdog: false,
            }),
    {
        StartupSection { auto_start: false, wait_for_explorer: true, explorer_wait_timeout_secs: 30, crash_watchdog: false }
    }
}

/// Debug toggles; the debug surface stays closed unless `debug_mode` is set.
#[derive(Clone, Copy, Debug, PartialEq, Eq, Structural)]
pub struct DebugSection {
    pub debug_mode: bool,
    pub log_to_stdout: bool,
    pub layout_visualization: bool,
}

impl Default for DebugSection {
    fn default() -> (r: Self)
        ensures
            r == (DebugSection { debug_mode: false, log_to_stdout: false, layout_visualization: false }),
    {
        DebugSection { debug_mode: false, log_to_stdout: false, layout_visualization: false }
    }
}

/// Plugin hooks; no plugin is ever loaded.
pub struct PluginSection {
    /// Directory hint, unused.
    pub plugin_dir: String,
    /// Allow-list; empty means no plugin.
    pub allow: Vec<String>,
    /// Deny-list.
    pub deny: Vec<String>,
}

/// The abstract value of a [`PluginSection`].
pub struct PluginView {
    pub plugin_dir: Seq<char>,
    pub allow: Seq<String>,
    pub deny: Seq<String>,
}

impl View for PluginSection {
    type V = PluginView;

    open spec fn view(&self) -> PluginView {
        PluginView { plugin_dir: self.plugin_dir@, allow: self.allow@, deny: self.deny@ }
    }
}

impl Clone for PluginSection {
    fn clone(&self) -> (r: Self)
        ensures
            r@ == self@,
    {
        PluginSection {
            plugin_dir: self.plugin_dir.clone(),
            allow: clone_strings(&self.allow),
            deny: clone_strings(&self.deny),
        }
    }
}

impl Default for PluginSection {
    fn default() -> (r: Self)
        ensures
            r@ == (PluginView { plugin_dir: Seq::empty(), allow: Seq::empty(), deny: Seq::empty() }),
    {
        let r = PluginSection { plugin_dir: String::new(), allow: Vec::new(), deny: Vec::new() };
        assert(r.allow@ =~= Seq::<String>::empty());
        assert(r.deny@ =~= Seq::<String>::empty());
        r
    }
}

/// The runtime configuration.
pub struct Config {
    /// Desktop switched to at start-up.
    pub startup_desktop: WorkspaceIndex,
    /// Number of workspaces kept alive; `1..=9`.
    pub workspace_count: u8,
    /// Follow a window moved to another desktop.
    pub follow_moved_windows: bool,
    /// Write the log files.
    pub enable_logging: bool,
    /// Log filter in `RUST_LOG` syntax; empty selects the default.
    pub log_filter: String,
    pub panel: PanelSection,
    pub tiling: TilingSection,
    pub theme: ThemeSection,
    pub launcher: LauncherSection,
    pub tray: TraySection,
    pub notifications: NotificationSection,
    pub startup: StartupSection,
    pub debug: DebugSection,
    pub plugins: PluginSection,
}

/// The abstract value of a [`Config`].
pub struct ConfigView {
    pub startup_desktop: WorkspaceIndex,
    pub workspace_count: u8,
    pub follow_moved_windows: bool,
    pub enable_logging: bool,
    pub log_filter: Seq<char>,
    pub panel: PanelView,
    pub tiling: TilingSection,
    pub theme: ThemeView,
    pub launcher: LauncherSection,
    pub tray: TraySection,
    pub notifications: NotificationSection,
    pub startup: StartupSection,
    pub debug: DebugSection,
    pub plugins: PluginView,
}

impl View for Config {
    type V = ConfigView;

    open spec fn view(&self) -> ConfigView {
        ConfigView {
            startup_desktop: self.startup_desktop,
            workspace_count: self.workspace_count,
            follow_moved_windows: self.follow_moved_windows,
            enable_logging: self.enable_logging,
            log_filter: self.log_filter@,
            panel: self.panel@,
            tiling: self.tiling,
            theme: self.theme@,
            launcher: self.launcher,
            tray: self.tray,
            notifications: self.notifications,
            startup: self.startup,
            debug: self.debug,
            plugins: self.plugins@,
        }
    }
}

impl Clone for Config {
    fn clone(&self) -> (r: Self)
        ensures
            r@ == self@,
    {
        Config {
            startup_desktop: self.startup_desktop,
            workspace_count: self.workspace_count,
            follow_moved_windows: self.follow_moved_windows,
            enable_logging: self.enable_logging,
            log_filter: self.log_filter.clone(),
            panel: self.panel.clone(),
            tiling: self.tiling,
            theme: self.theme.clone(),
            launcher: self.launcher,
            tray: self.tray,
            notifications: self.notifications,
            startup: self.startup,
            debug: self.debug,
            plugins: self.plugins.clone(),
        }
    }
}

/// The default configuration.
pub open spec fn default_view() -> ConfigView {
    ConfigView {
        startup_desktop: WorkspaceIndex::first(),
        workspace_count: 9,
        follow_moved_windows: false,
        enable_logging: true,
        log_filter: Seq::empty(),
        panel: PanelView {
            height: 32,
            opacity_bits: DEFAULT_OPACITY_BITS,
            visible_in_fullscreen: true,
            metrics_refresh_ms: 1000,
            custom_names: Seq::empty(),
        },
        tiling: TilingSection {
            outer_gap: 6,
            inner_gap: 6,
            smart_gaps: true,
            divider_thickness_px: 6,
            divider_color_override: 0,
        },
        theme: ThemeView { name: "omarchy-dark"@, animation_speed_bits: ONE_BITS },
        launcher: LauncherSection { enabled: true, width: 640, height: 360, max_results: 32, auto_dismiss_seconds: 0 },
        tray: TraySection { enabled: true, show_icon: true, allow_exit: true, allow_restart: true, allow_open_logs: true },
        notifications: NotificationSection { enabled: true, duration_ms: 3500, max_visible: 4, play_sound: false },
        startup: StartupSection {
            auto_start: false,
            wait_for_explorer: true,
            explorer_wait_timeout_secs: 30,
            crash_watchdog: false,
        },
        debug: DebugSection { debug_mode: false, log_to_stdout: false, layout_visualization: false },
        plugins: PluginView { plugin_dir: Seq::empty(), allow: Seq::empty(), deny: Seq::empty() },
    }
}

/// The panel section with its out-of-range values replaced: a height
/// outside `30..=34` becomes 32 and an opacity outside `0..=1` (or NaN)
/// becomes 0.92.
pub open spec fn clamp_panel_view(p: PanelView) -> PanelView {
    PanelView {
        height: if 30 <= p.height <= 34 { p.height } else { 32 },
        opacity_bits: if f32_in_range(p.opacity_bits, ZERO_BITS, ONE_BITS) {
            p.opacity_bits
        } else {
            DEFAULT_OPACITY_BITS
        },
        ..p
    }
}

/// The tiling section with negative gaps raised to 0 and a divider
/// thinner than 2 raised to 2.
pub open spec fn clamp_tiling(t: TilingSection) -> TilingSection {
    TilingSection {
        inner_gap: if t.inner_gap < 0 { 0 } else { t.inner_gap },
        outer_gap: if t.outer_gap < 0 { 0 } else { t.outer_gap },
        divider_thickness_px: if t.divider_thickness_px < 2 { 2 } else { t.divider_thickness_px },
        ..t
    }
}

/// The configuration with its out-of-range panel and tiling values
/// replaced; everything else stays.
pub open spec fn clamp_view(c: ConfigView) -> ConfigView {
    ConfigView { panel: clamp_panel_view(c.panel), tiling: clamp_tiling(c.tiling), ..c }
}

/// The configuration passes validation: the workspace count lies in `1..=9`.
pub open spec fn valid_view(c: ConfigView) -> bool {
    1 <= c.workspace_count <= 9
}

fn clamp_panel(p: PanelSection) -> (r: PanelSection)
    ensures
        r@ == clamp_panel_view(p@),
{
    let mut p = p;
    if !(30 <= p.height && p.height <= 34) {
        p.height = DEFAULT_PANEL_HEIGHT;
    }
    if !in_range_bits(p.opacity_bits, ZERO_BITS, ONE_BITS) {
        p.opacity_bits = DEFAULT_OPACITY_BITS;
    }
    p
}

fn clamp_tiling_exec(t: TilingSection) -> (r: TilingSection)
    ensures
        r == clamp_tiling(t),
{
    let mut t = t;
    if t.inner_gap < 0 {
        t.inner_gap = 0;
    }
    if t.outer_gap < 0 {
        t.outer_gap = 0;
    }
    if t.divider_thickness_px < 2 {
        t.divider_thickness_px = 2;
    }
    t
}

impl Config {
    /// The default configuration.
    pub fn defaults() -> (r: Self)
        ensures
            r@ == default_view(),
    {
        let first = WorkspaceIndex::new_unchecked(1);
        proof {
            WorkspaceIndex::lemma_with_value(1);
            WorkspaceIndex::lemma_value_injective(first, WorkspaceIndex::first());
        }
        Config {
            startup_desktop: first,
            workspace_count: WorkspaceIndex::COUNT,
            follow_moved_windows: false,
            enable_logging: true,
            log_filter: String::new(),
            panel: PanelSection::default(),
            tiling: TilingSection::default(),
            theme: ThemeSection::default(),
            launcher: LauncherSection::default(),
            tray: TraySection::default(),
            notifications: NotificationSection::default(),
            startup: StartupSection::default(),
            debug: DebugSection::default(),
            plugins: PluginSection::default(),
        }
    }

    /// The log filter used when none is configured.
    pub fn default_log_filter() -> (r: &'static str)
        ensures
            r@ == "jacquewm=info"@,
    {
        "jacquewm=info"
    }

    /// Check the values that must hold: the start-up desktop and the
    /// workspace count each lie in `1..=9`.
    pub fn validate(&self) -> (r: Result<(), JacqueError>)
        ensures
            r is Ok <==> valid_view(self@),
            r matches Err(e) ==> (e matches JacqueError::ConfigValidation(m) && m@
                == "workspace_count must be 1..=9"@),
    {
        let d = self.startup_desktop.get();
        if !(1 <= d && d <= WorkspaceIndex::COUNT) {
            return Err(JacqueError::ConfigValidation(owned("startup_desktop must be 1..=9")));
        }
        if self.workspace_count == 0 || self.workspace_count > WorkspaceIndex::COUNT {
            return Err(JacqueError::ConfigValidation(owned("workspace_count must be 1..=9")));
        }
        Ok(())
    }

    /// Replace out-of-range values (see [`clamp_view`]).
    pub fn clamped(self) -> (r: Self)
        ensures
            r@ == clamp_view(self@),
    {
        let Config {
            startup_desktop,
            workspace_count,
            follow_moved_windows,
            enable_logging,
            log_filter,
            panel,
            tiling,
            theme,
            launcher,
            tray,
            notifications,
            startup,
            debug,
            plugins,
        } = self;
        Config {
            startup_desktop,
            workspace_count,
            follow_moved_windows,
            enable_logging,
            log_filter,
            panel: clamp_panel(panel),
            tiling: clamp_tiling_exec(tiling),
            theme,
            launcher,
            tray,
            notifications,
            startup,
            debug,
            plugins,
        }
    }

    /// The configuration a parsed file describes: a start-up desktop
    /// outside `1..=9` becomes 1, a workspace count outside `1..=9`
    /// becomes 9, everything else is taken as written.
    pub fn from_raw(raw: RawConfig) -> (r: Self)
        ensures
            r@ == raw_view(raw@),
    {
        let startup_desktop = match WorkspaceIndex::new(raw.startup_desktop) {
            Ok(w) => w,
            Err(_) => WorkspaceIndex::new_unchecked(1),
        };
        proof {
            WorkspaceIndex::lemma_with_value(1);
            WorkspaceIndex::lemma_with_value(raw.startup_desktop);
            WorkspaceIndex::lemma_value_injective(startup_desktop, WorkspaceIndex::first());
            WorkspaceIndex::lemma_value_injective(startup_desktop, WorkspaceIndex::with_value(raw.startup_desktop));
        }
        let workspace_count = if 1 <= raw.workspace_count && raw.workspace_count <= WorkspaceIndex::COUNT {
            raw.workspace_count
        } else {
            WorkspaceIndex::COUNT
        };
        Config {
            startup_desktop,
            workspace_count,
            follow_moved_windows: raw.follow_moved_windows,
            enable_logging: raw.enable_logging,
            log_filter: raw.log_filter,
            panel: raw.panel,
            tiling: raw.tiling,
            theme: raw.theme,
            launcher: raw.launcher,
            tray: raw.tray,
            notifications: raw.notifications,
            startup: raw.startup,
            debug: raw.debug,
            plugins: raw.plugins,
        }
    }
}

/// The settings file as written: plain integers where [`Config`] has
/// checked types.
pub struct RawConfig {
    pub startup_desktop: u8,
    pub workspace_count: u8,
    pub follow_moved_windows: bool,
    pub enable_logging: bool,
    pub log_filter: String,
    pub panel: PanelSection,
    pub tiling: TilingSection,
    pub theme: ThemeSection,
    pub launcher: LauncherSection,
    pub tray: TraySection,
    pub notifications: NotificationSection,
    pub startup: StartupSection,
    pub debug: DebugSection,
    pub plugins: PluginSection,
}

/// The abstract value of a [`RawConfig`].
pub struct RawView {
    pub startup_desktop: u8,
    pub workspace_count: u8,
    pub follow_moved_windows: bool,
    pub enable_logging: bool,
    pub log_filter: Seq<char>,
    pub panel: PanelView,
    pub tiling: TilingSection,
    pub theme: ThemeView,
    pub launcher: LauncherSection,
    pub tray: TraySection,
    pub notifications: NotificationSection,
    pub startup: StartupSection,
    pub debug: DebugSection,
    pub plugins: PluginView,
}

impl View for RawConfig {
    type V = RawView;

    open spec fn view(&self) -> RawView {
        RawView {
            startup_desktop: self.startup_desktop,
            workspace_count: self.workspace_count,
            follow_moved_windows: self.follow_moved_windows,
            enable_logging: self.enable_logging,
            log_filter: self.log_filter@,
            panel: self.panel@,
            tiling: self.tiling,
            theme: self.theme@,
            launcher: self.launcher,
            tray: self.tray,
            notifications: self.notifications,
            startup: self.startup,
            debug: self.debug,
            plugins: self.plugins@,
        }
    }
}

/// The configuration a raw file value maps to.
pub open spec fn raw_view(r: RawView) -> ConfigView {
    ConfigView {
        startup_desktop: if 1 <= r.startup_desktop <= 9 {
            WorkspaceIndex::with_value(r.startup_desktop)
        } else {
            WorkspaceIndex::first()
        },
        workspace_count: if 1 <= r.workspace_count <= 9 { r.workspace_count } else { 9 },
        follow_moved_windows: r.follow_moved_windows,
        enable_logging: r.enable_logging,
        log_filter: r.log_filter,
        panel: r.panel,
        tiling: r.tiling,
        theme: r.theme,
        launcher: r.launcher,
        tray: r.tray,
        notifications: r.notifications,
        startup: r.startup,
        debug: r.debug,
        plugins: r.plugins,
    }
}

/// Loading a parsed file keeps every setting as written except the
/// start-up desktop and the workspace count: a start-up desktop in `1..=9`
/// is kept (otherwise desktop 1 is used), and a workspace count in `1..=9`
/// is kept (otherwise 9).
pub proof fn lemma_raw_view_keeps_settings(r: RawView)
    ensures
        raw_view(r).follow_moved_windows == r.follow_moved_windows,
        raw_view(r).enable_logging == r.enable_logging,
        raw_view(r).log_filter == r.log_filter,
        raw_view(r).panel == r.panel,
        raw_view(r).tiling == r.tiling,
        raw_view(r).theme == r.theme,
        raw_view(r).launcher == r.launcher,
        raw_view(r).tray == r.tray,
        raw_view(r).notifications == r.notifications,
        raw_view(r).startup == r.startup,
        raw_view(r).debug == r.debug,
        raw_view(r).plugins == r.plugins,
        raw_view(r).startup_desktop.value() == (if 1 <= r.startup_desktop <= 9 { r.startup_desktop } else { 1u8 }),
        raw_view(r).workspace_count == (if 1 <= r.workspace_count <= 9 { r.workspace_count } else { 9u8 }),
{
    WorkspaceIndex::lemma_with_value(r.startup_desktop);
    WorkspaceIndex::lemma_with_value(1);
}

impl Default for RawConfig {
    fn default() -> (r: Self)
        ensures
            raw_view(r@) == default_view(),
            r.startup_desktop == 1,
            r.workspace_count == 9,
    {
        RawConfig {
            startup_desktop: 1,
            workspace_count: WorkspaceIndex::COUNT,
            follow_moved_windows: false,
            enable_logging: true,
            log_filter: String::new(),
            panel: PanelSection::default(),
            tiling: TilingSection::default(),
            theme: ThemeSection::default(),
            launcher: LauncherSection::default(),
            tray: TraySection::default(),
            notifications: NotificationSection::default(),
            startup: StartupSection::default(),
            debug: DebugSection::default(),
            plugins: PluginSection::default(),
        }
    }
}

/// The configuration held after reading the settings file: the file's
/// values mapped and clamped when it parsed and the result validates,
/// otherwise the clamped defaults.
pub open spec fn loaded_view(parsed: Option<RawView>) -> ConfigView {
    match parsed {
        Some(r) => {
            let c = clamp_view(raw_view(r));
            if valid_view(c) { c } else { clamp_view(default_view()) }
        },
        None => clamp_view(default_view()),
    }
}

/// The components of the settings file's path, to be joined in order.
pub open spec fn path_parts(env_config: Option<Seq<char>>, appdata: Option<Seq<char>>, config_dir: Option<Seq<char>>) -> Option<Seq<Seq<char>>> {
    match env_config {
        Some(p) if p.len() > 0 => Some(seq![p]),
        _ => match appdata {
            Some(base) => Some(seq![base, "JacqueWM"@, "config.toml"@]),
            None => match config_dir {
                Some(base) => Some(seq![base, "JacqueWM"@, "config.toml"@]),
                None => None,
            },
        },
    }
}

/// The string views of an optional string.
pub open spec fn opt_view(o: Option<String>) -> Option<Seq<char>> {
    match o {
        Some(s) => Some(s@),
        None => None,
    }
}

/// The live configuration and the path of its file.
pub struct ConfigManager {
    config: Config,
    path: String,
}

impl ConfigManager {
    /// The held configuration.
    pub closed spec fn current(&self) -> ConfigView {
        self.config@
    }

    /// The settings file's path.
    pub closed spec fn file(&self) -> Seq<char> {
        self.path@
    }

    /// A manager holding an already parsed configuration.
    pub fn new(config: Config, path: String) -> (r: Self)
        ensures
            r.current() == config@,
            r.file() == path@,
    {
        ConfigManager { config, path }
    }

    /// Where the settings file lives: the `JACQUEWM_CONFIG` value when set
    /// and non-empty, otherwise `JacqueWM\config.toml` under `APPDATA` or,
    /// failing that, under the platform's configuration directory. With
    /// neither, [`JacqueError::ConfigLoad`].
    pub fn canonical_path_parts(
        env_config: Option<String>,
        appdata: Option<String>,
        config_dir: Option<String>,
    ) -> (r: Result<Vec<String>, JacqueError>)
        ensures
            match path_parts(opt_view(env_config), opt_view(appdata), opt_view(config_dir)) {
                Some(parts) => r matches Ok(v) && v@.map_values(|s: String| s@) == parts,
                None => r matches Err(e) && e matches JacqueError::ConfigLoad(m) && m@
                    == "could not resolve APPDATA"@,
            },
    {
        if let Some(p) = env_config {
            if p.unicode_len() > 0 {
                let mut v: Vec<String> = Vec::new();
                let ghost pv = p@;
                v.push(p);
                assert(v@.map_values(|s: String| s@) =~= seq![pv]);
                return Ok(v);
            }
        }
        let base = match appdata {
            Some(b) => b,
            None => match config_dir {
                Some(b) => b,
                None => {
                    return Err(JacqueError::ConfigLoad(owned("could not resolve APPDATA")));
                },
            },
        };
        let ghost bv = base@;
        let mut v: Vec<String> = Vec::new();
        v.push(base);
        v.push(owned("JacqueWM"));
        v.push(owned("config.toml"));
        assert(v@.map_values(|s: String| s@) =~= seq![bv, "JacqueWM"@, "config.toml"@]);
        Ok(v)
    }

    /// The configuration written on first launch, when no settings file
    /// exists: the clamped defaults, validated.
    pub fn first_run_config() -> (r: Result<Config, JacqueError>)
        ensures
            r matches Ok(c) && c@ == clamp_view(default_view()),
    {
        let cfg = Config::defaults().clamped();
        match cfg.validate() {
            Ok(()) => Ok(cfg),
            Err(e) => Err(e),
        }
    }

    /// The configuration to hold after reading the settings file, given
    /// what the file parsed to (`None` when it was malformed); see
    /// [`loaded_view`].
    pub fn loaded_config(parsed: Option<RawConfig>) -> (r: Config)
        ensures
            r@ == loaded_view(match parsed {
                Some(raw) => Some(raw@),
                None => None,
            }),
    {
        match parsed {
            Some(raw) => {
                let config = Config::from_raw(raw).clamped();
                match config.validate() {
                    Ok(()) => config,
                    Err(_) => Config::defaults().clamped(),
                }
            },
            None => Config::defaults().clamped(),
        }
    }

    /// A copy of the manager.
    pub fn duplicate(&self) -> (r: Self)
        ensures
            r.current() == self.current(),
            r.file() == self.file(),
    {
        ConfigManager { config: self.config.clone(), path: self.path.clone() }
    }

    /// The settings file's path.
    pub fn path(&self) -> (r: &str)
        ensures
            r@ == self.file(),
    {
        self.path.as_str()
    }

    /// A copy of the held configuration.
    pub fn snapshot(&self) -> (r: Config)
        ensures
            r@ == self.current(),
    {
        self.config.clone()
    }

    /// Clamp and validate a new configuration; hold it when it validates,
    /// otherwise keep the old one and report why.
    pub fn replace(&mut self, new: Config) -> (r: Result<(), JacqueError>)
        ensures
            final(self).file() == old(self).file(),
            r is Ok <==> valid_view(clamp_view(new@)),
            r is Ok ==> final(self).current() == clamp_view(new@),
            r is Err ==> final(self).current() == old(self).current() && (r matches Err(e) && e matches JacqueError::ConfigValidation(m) && m@
                == "workspace_count must be 1..=9"@),
    {
        let clamped = new.clamped();
        match clamped.validate() {
            Ok(()) => {
                self.config = clamped;
                Ok(())
            },
            Err(e) => Err(e),
        }
    }
}

/// The default opacity lies in `0..=1`.
pub proof fn lemma_default_opacity_in_range()
    ensures
        f32_in_range(DEFAULT_OPACITY_BITS, ZERO_BITS, ONE_BITS),
{
    assert((DEFAULT_OPACITY_BITS & 0x7f80_0000u32) == 0x3f00_0000u32) by (bit_vector);
    assert((ZERO_BITS & 0x7f80_0000u32) == 0u32) by (bit_vector);
    assert((ONE_BITS & 0x007f_ffffu32) == 0u32) by (bit_vector);
    assert((DEFAULT_OPACITY_BITS & 0x8000_0000u32) == 0u32) by (bit_vector);
    assert((ZERO_BITS & 0x8000_0000u32) == 0u32) by (bit_vector);
    assert((ONE_BITS & 0x8000_0000u32) == 0u32) by (bit_vector);
}

/// The defaults are valid and already in range: clamping leaves them as
/// they are.
pub proof fn lemma_defaults_in_range()
    ensures
        valid_view(default_view()),
        clamp_view(default_view()) == default_view(),
{
    lemma_default_opacity_in_range();
}

/// Clamping only repairs out-of-range panel and tiling values: a panel
/// height in `30..=34` is kept (otherwise 32), an opacity in `0..=1` is
/// kept (otherwise the default), gaps are kept unless negative (then 0),
/// a divider of at least 2 pixels is kept (otherwise 2); every other
/// setting is unchanged, and the clamped values are all in range.
pub proof fn lemma_clamp_repairs_only_out_of_range(c: ConfigView)
    ensures
        ({
            let r = clamp_view(c);
            &&& 30 <= r.panel.height <= 34
            &&& (30 <= c.panel.height <= 34 ==> r.panel.height == c.panel.height)
            &&& (f32_in_range(c.panel.opacity_bits, ZERO_BITS, ONE_BITS) ==> r.panel.opacity_bits == c.panel.opacity_bits)
            &&& f32_in_range(r.panel.opacity_bits, ZERO_BITS, ONE_BITS)
            &&& r.panel.visible_in_fullscreen == c.panel.visible_in_fullscreen
            &&& r.panel.metrics_refresh_ms == c.panel.metrics_refresh_ms
            &&& r.panel.custom_names == c.panel.custom_names
            &&& r.tiling.inner_gap >= 0 && (c.tiling.inner_gap >= 0 ==> r.tiling.inner_gap == c.tiling.inner_gap)
            &&& r.tiling.outer_gap >= 0 && (c.tiling.outer_gap >= 0 ==> r.tiling.outer_gap == c.tiling.outer_gap)
            &&& r.tiling.divider_thickness_px >= 2
            &&& (c.tiling.divider_thickness_px >= 2 ==> r.tiling.divider_thickness_px == c.tiling.divider_thickness_px)
            &&& r.tiling.smart_gaps == c.tiling.smart_gaps
            &&& r.tiling.divider_color_override == c.tiling.divider_color_override
            &&& r.startup_desktop == c.startup_desktop
            &&& r.workspace_count == c.workspace_count
            &&& r.follow_moved_windows == c.follow_moved_windows
            &&& r.enable_logging == c.enable_logging
            &&& r.log_filter == c.log_filter
            &&& r.theme == c.theme
            &&& r.launcher == c.launcher
            &&& r.tray == c.tray
            &&& r.notifications == c.notifications
            &&& r.startup == c.startup
            &&& r.debug == c.debug
            &&& r.plugins == c.plugins
        }),
{
    lemma_default_opacity_in_range();
}

/// Clamping twice is clamping once.
pub proof fn lemma_clamp_idempotent(c: ConfigView)
    ensures
        clamp_view(clamp_view(c)) == clamp_view(c),
{
    lemma_default_opacity_in_range();
}

/// Whatever the settings file held, the configuration loaded from it
/// validates and is already clamped.
pub proof fn lemma_loaded_valid(parsed: Option<RawView>)
    ensures
        valid_view(loaded_view(parsed)),
        clamp_view(loaded_view(parsed)) == loaded_view(parsed),
{
    lemma_defaults_in_range();
    match parsed {
        Some(r) => lemma_clamp_idempotent(raw_view(r)),
        None => {},
    }
}

} // verus!
