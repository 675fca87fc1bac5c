//! The top panel's platform-neutral pieces: the state a renderer draws,
//! the theme tokens, the clock settings, the animations, and the
//! controller that keeps the state in step with the workspace and the
//! focused window and hands it to the host that draws it.
//!
//! Opacities are carried as their IEEE-754 `binary32` bit patterns.

pub mod animation;
pub mod state;

use vstd::prelude::*;
use std::time::Instant;
use crate::error::JacqueError;
use crate::focus::FocusTracker;
use crate::metrics::{instant_now, CpuSample, GpuSample, NetSample, RamSample};
use crate::panel::animation::{duration_from_millis, millis_duration, Animation, AnimationKind};
use crate::panel::state::ThemePalette;
use crate::text::{owned, str_eq};
use crate::workspace::WorkspaceIndex;

verus! {

/// Default height of the panel in pixels.
pub const PANEL_HEIGHT: i32 = 32;

/// Largest height of the panel in pixels.
pub const PANEL_MAX_HEIGHT: i32 = 34;

/// How the clock is written.
#[derive(Clone, Copy, Debug, PartialEq, Eq, Structural)]
pub struct Clock {
    pub hour_24: bool,
    pub show_seconds: bool,
}

impl Default for Clock {
    fn default() -> (c: Self)
        ensures
            c == (Clock { hour_24: true, show_seconds: false }),
    {
        Clock { hour_24: true, show_seconds: false }
    }
}

/// The easing curve of an animation.
#[derive(Clone, Copy, Debug, PartialEq, Eq, Structural)]
pub enum Easing {
    /// Progress as is.
    Linear,
    /// Smoothstep, `3t^2 - 2t^3`.
    EaseInOut,
    /// Cubic ease-out, `1 - (1 - t)^3`.
    EaseOut,
}

/// Opacity of the panel background, `0.92f32`.
pub const PANEL_OPACITY_BITS: u32 = 0x3f6b_851f;

/// Opacity of the active workspace's pill, `1.0f32`.
pub const PILL_ACTIVE_BITS: u32 = 0x3f80_0000;

/// Opacity of every other pill, `0.45f32`.
pub const PILL_INACTIVE_BITS: u32 = 0x3ee6_6666;

/// How long a pill fades, in milliseconds.
pub const PILL_FADE_MILLIS: u64 = 140;

/// The panel's title when no window is focused.
pub open spec fn placeholder_title() -> Seq<char> {
    "Desktop"@
}

/// The latest metric readings and the clock settings.
#[derive(Debug)]
pub struct MetricsSlot {
    pub cpu: CpuSample,
    pub gpu: GpuSample,
    pub ram: RamSample,
    pub net: NetSample,
    pub clock: Clock,
}

impl Clone for MetricsSlot {
    fn clone(&self) -> (r: Self)
        ensures
            r == *self,
    {
        MetricsSlot { cpu: self.cpu, gpu: self.gpu.clone(), ram: self.ram, net: self.net, clock: self.clock }
    }
}

/// Readings with nothing measured yet.
pub open spec fn is_empty_metrics(m: MetricsSlot) -> bool {
    &&& m.cpu.percent_bits == 0 && m.cpu.cores == 1
    &&& !m.gpu.presentable && m.gpu.percent_bits == 0 && m.gpu.adapter_name is None
    &&& m.ram.total_bytes == 0 && m.ram.used_bytes == 0 && m.ram.percent_bits == 0
    &&& m.net.link_down && m.net.rx_bytes_per_sec == 0 && m.net.tx_bytes_per_sec == 0
    &&& m.clock == (Clock { hour_24: true, show_seconds: false })
}

impl Default for MetricsSlot {
    fn default() -> (r: Self)
        ensures
            is_empty_metrics(r),
    {
        MetricsSlot {
            cpu: CpuSample::default(),
            gpu: GpuSample::default(),
            ram: RamSample::default(),
            net: NetSample::default(),
            clock: Clock::default(),
        }
    }
}

/// Everything the panel renderer draws.
#[derive(Debug)]
pub struct PanelState {
    /// The workspace whose pill is lit.
    pub current_workspace: WorkspaceIndex,
    /// Animations queued for the renderer, oldest first.
    pub animations: Vec<Animation>,
    /// The colour tokens.
    pub theme: ThemePalette,
    /// Opacity of each of the nine pills, as `f32` bits.
    pub pill_opacity_bits: [u32; 9],
    /// The latest metric readings.
    pub metrics: MetricsSlot,
    /// The focused window's title.
    pub title: String,
    /// The title is the desktop placeholder.
    pub title_is_placeholder: bool,
    /// The state changed since the renderer last drew it.
    pub dirty: bool,
}

/// Position of a workspace's pill, `0..=8`.
pub open spec fn pill_of(w: WorkspaceIndex) -> int {
    w.value() - 1
}

/// The fade queued for pill `pill` from opacity `from` to `to`, started at
/// `at`.
pub open spec fn pill_fade(pill: int, from: u32, to: u32, at: Instant) -> Animation {
    Animation {
        kind: AnimationKind::FadePill { pill: pill as usize, from_bits: from, to_bits: to },
        started_at: at,
        duration: millis_duration(PILL_FADE_MILLIS),
        easing: Easing::EaseInOut,
    }
}

/// Two states that hold the same values (the animation queues hold the
/// same animations in the same order).
pub open spec fn same_state(a: PanelState, b: PanelState) -> bool {
    &&& a.current_workspace == b.current_workspace
    &&& a.animations@ == b.animations@
    &&& a.theme == b.theme
    &&& a.pill_opacity_bits == b.pill_opacity_bits
    &&& a.metrics == b.metrics
    &&& a.title == b.title
    &&& a.title_is_placeholder == b.title_is_placeholder
    &&& a.dirty == b.dirty
}

impl PanelState {
    /// The current workspace's pill is fully opaque and every other pill
    /// is dimmed.
    pub open spec fn pills_consistent(&self) -> bool {
        forall|i: int|
            0 <= i < 9 ==> #[trigger] self.pill_opacity_bits@[i] == if i == pill_of(self.current_workspace) {
                PILL_ACTIVE_BITS
            } else {
                PILL_INACTIVE_BITS
            }
    }

    /// The state a panel starts from: the given workspace lit, no
    /// animation, empty readings, the placeholder title, to be drawn.
    pub fn initial(current: WorkspaceIndex, theme: ThemePalette) -> (r: Self)
        ensures
            r.current_workspace == current,
            r.animations@ == Seq::<Animation>::empty(),
            r.theme == theme,
            r.pills_consistent(),
            is_empty_metrics(r.metrics),
            r.title@ == placeholder_title(),
            r.title_is_placeholder,
            r.dirty,
    {
        let mut pills: [u32; 9] = [PILL_INACTIVE_BITS; 9];
        let idx: usize = (current.get() - 1) as usize;
        pills[idx] = PILL_ACTIVE_BITS;
        PanelState {
            current_workspace: current,
            animations: Vec::new(),
            theme,
            pill_opacity_bits: pills,
            metrics: MetricsSlot::default(),
            title: owned("Desktop"),
            title_is_placeholder: true,
            dirty: true,
        }
    }

    /// Mark the state as changed.
    pub fn mark_dirty(&mut self)
        ensures
            *final(self) == (PanelState { dirty: true, ..*old(self) }),
    {
        self.dirty = true;
    }
}

impl Clone for PanelState {
    fn clone(&self) -> (r: Self)
        ensures
            same_state(r, *self),
    {
        let mut animations: Vec<Animation> = Vec::new();
        let mut i: usize = 0;
        while i < self.animations.len()
            invariant
                i <= self.animations@.len(),
                animations@ == self.animations@.subrange(0, i as int),
            decreases self.animations@.len() - i,
        {
            animations.push(self.animations[i]);
            i += 1;
        }
        assert(animations@ =~= self.animations@);
        PanelState {
            current_workspace: self.current_workspace,
            animations,
            theme: self.theme,
            pill_opacity_bits: self.pill_opacity_bits,
            metrics: self.metrics.clone(),
            title: self.title.clone(),
            title_is_placeholder: self.title_is_placeholder,
            dirty: self.dirty,
        }
    }
}

/// A copy of a panel state with its change flag set as given.
pub trait CloneWithDirtyExt {
    fn clone_with_dirty(&self, dirty: bool) -> PanelState;
}

impl CloneWithDirtyExt for PanelState {
    fn clone_with_dirty(&self, dirty: bool) -> (r: PanelState)
        ensures
            same_state(r, PanelState { dirty, ..*self }),
    {
        let mut s = self.clone();
        s.dirty = dirty;
        s
    }
}

/// What draws the panel; the platform layer implements it.
///
/// A host keeps the state it was last handed: that is what it draws and
/// what [`PanelHost::state_snapshot`] gives back.
pub trait PanelHost {
    /// The state last handed over.
    spec fn held(&self) -> PanelState;

    /// Create the panel window.
    fn start(&self) -> Result<(), JacqueError>;

    /// Hand over a new state to draw; the host then holds it.
    fn submit(&mut self, state: PanelState)
        ensures
            same_state(final(self).held(), state);

    /// Tear the panel down.
    fn shutdown(&self);

    /// The state last handed over.
    fn state_snapshot(&self) -> (r: PanelState)
        ensures
            same_state(r, self.held());

    /// The panel's rectangle: left, top, right, bottom.
    fn rect(&self) -> (i32, i32, i32, i32);
}

/// A host that draws nothing and keeps the last state it was handed.
pub struct NullPanel {
    state: PanelState,
}

impl NullPanel {
    /// A host holding `initial`.
    pub fn new(initial: PanelState) -> (r: Self)
        ensures
            r.held() == initial,
    {
        NullPanel { state: initial }
    }
}

impl PanelHost for NullPanel {
    closed spec fn held(&self) -> PanelState {
        self.state
    }

    fn start(&self) -> (r: Result<(), JacqueError>)
        ensures
            r is Ok,
    {
        Ok(())
    }

    fn submit(&mut self, state: PanelState)
        ensures
            final(self).held() == state,
    {
        self.state = state;
    }

    fn shutdown(&self) {
    }

    fn state_snapshot(&self) -> (r: PanelState) {
        self.state.clone()
    }

    fn rect(&self) -> (r: (i32, i32, i32, i32))
        ensures
            r == (0i32, 0i32, 0i32, PANEL_HEIGHT),
    {
        (0, 0, 0, PANEL_HEIGHT)
    }
}

/// Keeps the panel's state in step with the workspace, the focused window,
/// the readings and the theme, and hands every change to the host.
pub struct PanelController<H> {
    inner: PanelState,
    focus: FocusTracker,
    panel_host: H,
}

impl<H: PanelHost> PanelController<H> {
    /// The state the controller holds (and last handed to the host).
    pub closed spec fn state(&self) -> PanelState {
        self.inner
    }

    /// The focus tracker it reads titles from.
    pub closed spec fn tracker(&self) -> FocusTracker {
        self.focus
    }

    /// The host it draws with.
    pub closed spec fn host_spec(&self) -> H {
        self.panel_host
    }

    /// A controller over `panel`, which it starts (a host that fails to
    /// start is kept: the controller still tracks the state).
    pub fn new(focus: FocusTracker, panel: H, initial: PanelState) -> (r: Self)
        ensures
            r.state() == initial,
            r.tracker() == focus,
            r.host_spec() == panel,
    {
        let _ = panel.start();
        PanelController { inner: initial, focus, panel_host: panel }
    }

    /// The host.
    pub fn host(&self) -> (r: &H)
        ensures
            *r == self.host_spec(),
    {
        &self.panel_host
    }

    /// A copy of the focus tracker.
    pub fn focus(&self) -> (r: FocusTracker)
        ensures
            r.focused() == self.tracker().focused(),
    {
        self.focus.clone()
    }

    /// Light the pill of `new`: the old pill dims and the new one brightens
    /// (each with a fade queued for the renderer), and the state goes to
    /// the host. Nothing happens when `new` is already current.
    pub fn set_workspace(&mut self, new: WorkspaceIndex)
        ensures
            old(self).state().current_workspace == new ==> final(self).state() == old(self).state()
                && final(self).host_spec() == old(self).host_spec(),
            old(self).state().current_workspace != new ==> same_state(final(self).host_spec().held(), final(self).state()),
            old(self).state().current_workspace != new ==> ({
                let o = old(self).state();
                let n = final(self).state();
                let op = pill_of(o.current_workspace);
                let np = pill_of(new);
                &&& n.current_workspace == new
                &&& n.pill_opacity_bits@ == o.pill_opacity_bits@.update(op, PILL_INACTIVE_BITS).update(np, PILL_ACTIVE_BITS)
                &&& n.animations@.len() == o.animations@.len() + 2
                &&& n.animations@.subrange(0, o.animations@.len() as int) == o.animations@
                &&& n.animations@[o.animations@.len() as int] == pill_fade(op, o.pill_opacity_bits@[op], PILL_INACTIVE_BITS,
                    n.animations@[o.animations@.len() as int].started_at)
                &&& n.animations@[o.animations@.len() as int + 1] == pill_fade(np, o.pill_opacity_bits@[np], PILL_ACTIVE_BITS,
                    n.animations@[o.animations@.len() as int].started_at)
                &&& n.theme == o.theme
                &&& n.metrics == o.metrics
                &&& n.title == o.title
                &&& n.title_is_placeholder == o.title_is_placeholder
                &&& n.dirty
            }),
            old(self).state().pills_consistent() ==> final(self).state().pills_consistent(),
            final(self).tracker() == old(self).tracker(),
    {
        let old_ws = self.inner.current_workspace;
        if old_ws == new {
            return;
        }
        let now = instant_now();
        let old_pill: usize = (old_ws.get() - 1) as usize;
        let new_pill: usize = (new.get() - 1) as usize;
        let from_old = self.inner.pill_opacity_bits[old_pill];
        let from_new = self.inner.pill_opacity_bits[new_pill];
        self.inner.animations.push(Animation::new(
            AnimationKind::FadePill { pill: old_pill, from_bits: from_old, to_bits: PILL_INACTIVE_BITS },
            now,
            duration_from_millis(PILL_FADE_MILLIS),
        ));
        self.inner.animations.push(Animation::new(
            AnimationKind::FadePill { pill: new_pill, from_bits: from_new, to_bits: PILL_ACTIVE_BITS },
            now,
            duration_from_millis(PILL_FADE_MILLIS),
        ));
        self.inner.pill_opacity_bits[old_pill] = PILL_INACTIVE_BITS;
        self.inner.pill_opacity_bits[new_pill] = PILL_ACTIVE_BITS;
        self.inner.current_workspace = new;
        self.inner.mark_dirty();
        let st = self.inner.clone();
        self.panel_host.submit(st);
    }

    /// Show `title` as the focused window's title; the placeholder flag
    /// follows whether it is the desktop placeholder. Nothing happens when
    /// the title is unchanged.
    pub fn set_title(&mut self, title: &str)
        ensures
            old(self).state().title@ == title@ ==> final(self).state() == old(self).state()
                && final(self).host_spec() == old(self).host_spec(),
            old(self).state().title@ != title@ ==> same_state(final(self).host_spec().held(), final(self).state()),
            old(self).state().title@ != title@ ==> final(self).state() == (PanelState {
                title: final(self).state().title,
                title_is_placeholder: title@ == placeholder_title(),
                dirty: true,
                ..old(self).state()
            }),
            final(self).state().title@ == title@,
            final(self).tracker() == old(self).tracker(),
    {
        if str_eq(self.inner.title.as_str(), title) {
            return;
        }
        self.inner.title = owned(title);
        self.inner.title_is_placeholder = str_eq(title, "Desktop");
        proof {
            reveal_strlit("Desktop");
        }
        self.inner.mark_dirty();
        let st = self.inner.clone();
        self.panel_host.submit(st);
    }

    /// Show new readings.
    pub fn set_metrics(&mut self, metrics: MetricsSlot)
        ensures
            final(self).state() == (PanelState { metrics, dirty: true, ..old(self).state() }),
            same_state(final(self).host_spec().held(), final(self).state()),
            final(self).tracker() == old(self).tracker(),
    {
        self.inner.metrics = metrics;
        self.inner.mark_dirty();
        let st = self.inner.clone();
        self.panel_host.submit(st);
    }

    /// Draw with another palette.
    pub fn set_theme(&mut self, theme: ThemePalette)
        ensures
            final(self).state() == (PanelState { theme, dirty: true, ..old(self).state() }),
            same_state(final(self).host_spec().held(), final(self).state()),
            final(self).tracker() == old(self).tracker(),
    {
        self.inner.theme = theme;
        self.inner.mark_dirty();
        let st = self.inner.clone();
        self.panel_host.submit(st);
    }

    /// A copy of the state.
    pub fn snapshot(&self) -> (r: PanelState)
        ensures
            same_state(r, self.state()),
    {
        self.inner.clone()
    }

    /// Replace the state as a whole and hand it to the host.
    pub fn submit(&mut self, st: PanelState)
        ensures
            same_state(final(self).state(), st),
            same_state(final(self).host_spec().held(), st),
            final(self).tracker() == old(self).tracker(),
    {
        self.inner = st.clone();
        self.panel_host.submit(st);
    }
}

} // verus!
