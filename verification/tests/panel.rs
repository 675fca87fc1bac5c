use jacquewm::panel::state::{Color, Theme, ThemePalette};
use jacquewm::panel::Clock;

#[test]
fn color_components_decode() {
    let c = Color::rgba(0x12, 0x34, 0x56, 0xAB);
    assert_eq!(c.r(), 0x12);
    assert_eq!(c.g(), 0x34);
    assert_eq!(c.b(), 0x56);
    assert_eq!(c.a(), 0xAB);
}

#[test]
fn omarchy_dark_is_dark_neutral() {
    let p = ThemePalette::omarchy_dark();
    assert!(p.background.r() < 32 && p.background.g() < 32 && p.background.b() < 32);
}

#[test]
fn rgb_is_opaque() {
    assert_eq!(Color::rgb(0x11, 0x22, 0x33), Color(0xFF11_2233));
    assert_eq!(Color::rgb(1, 2, 3).a(), 0xFF);
    assert_eq!(ThemePalette::omarchy_dark().background, Color(0xE611_1111));
}

#[test]
fn theme_and_clock_defaults() {
    let t = Theme::default();
    assert_eq!(t.name, "omarchy-dark");
    assert_eq!(t.corner_radius_px, 6);
    let c = Clock::default();
    assert!(c.hour_24);
    assert!(!c.show_seconds);
}

use jacquewm::focus::FocusTracker;
use jacquewm::metrics::{CpuSample, GpuSample, NetSample, RamSample, RollingMean};
use jacquewm::panel::animation::{Animation, AnimationKind};
use jacquewm::panel::{
    CloneWithDirtyExt, Easing, MetricsSlot, NullPanel, PanelController, PanelHost, PanelState, PILL_ACTIVE_BITS,
    PILL_INACTIVE_BITS,
};
use jacquewm::workspace::WorkspaceIndex;

fn ws(n: u8) -> WorkspaceIndex {
    WorkspaceIndex::new(n).unwrap()
}

fn controller(start: u8) -> PanelController<NullPanel> {
    let initial = PanelState::initial(ws(start), ThemePalette::omarchy_dark());
    let host = NullPanel::new(initial.clone());
    PanelController::new(FocusTracker::new(), host, initial)
}

#[test]
fn defaults_are_safe_to_display() {
    let cpu = CpuSample::default();
    assert_eq!(cpu.cores, 1);
    assert_eq!(f32::from_bits(cpu.percent_bits), 0.0);

    let gpu = GpuSample::default();
    assert!(!gpu.presentable);

    let ram = RamSample::default();
    assert_eq!(ram.total_bytes, 0);

    let net = NetSample::default();
    assert!(net.link_down);
}

#[test]
fn pill_opacities_are_one_and_point_four_five() {
    assert_eq!(f32::from_bits(jacquewm::panel::PANEL_OPACITY_BITS), 0.92);
    assert_eq!(f32::from_bits(PILL_ACTIVE_BITS), 1.0);
    assert_eq!(f32::from_bits(PILL_INACTIVE_BITS), 0.45);
}

#[test]
fn initial_state_lights_current_pill() {
    let st = PanelState::initial(ws(3), ThemePalette::omarchy_dark());
    for (i, bits) in st.pill_opacity_bits.iter().enumerate() {
        let want = if i == 2 { 1.0 } else { 0.45 };
        assert_eq!(f32::from_bits(*bits), want);
    }
    assert_eq!(st.title, "Desktop");
    assert!(st.title_is_placeholder);
    assert!(st.dirty);
    assert!(st.animations.is_empty());
}

#[test]
fn set_workspace_moves_lit_pill_and_queues_fades() {
    let mut c = controller(1);
    c.set_workspace(ws(4));
    let st = c.snapshot();
    assert_eq!(st.current_workspace, ws(4));
    assert_eq!(f32::from_bits(st.pill_opacity_bits[0]), 0.45);
    assert_eq!(f32::from_bits(st.pill_opacity_bits[3]), 1.0);
    assert_eq!(st.animations.len(), 2);
    assert_eq!(
        st.animations[0].kind,
        AnimationKind::FadePill { pill: 0, from_bits: PILL_ACTIVE_BITS, to_bits: PILL_INACTIVE_BITS }
    );
    assert_eq!(
        st.animations[1].kind,
        AnimationKind::FadePill { pill: 3, from_bits: PILL_INACTIVE_BITS, to_bits: PILL_ACTIVE_BITS }
    );
    assert_eq!(st.animations[0].duration.as_millis(), 140);
    assert_eq!(st.animations[1].easing, Easing::EaseInOut);
    // The host received the same state.
    assert_eq!(c.host().state_snapshot().current_workspace, ws(4));
    assert_eq!(c.host().state_snapshot().animations.len(), 2);
}

#[test]
fn set_workspace_to_current_is_a_no_op() {
    let mut c = controller(2);
    c.set_workspace(ws(2));
    assert!(c.snapshot().animations.is_empty());
}

#[test]
fn set_title_tracks_placeholder() {
    let mut c = controller(1);
    c.set_title("Notepad");
    assert_eq!(c.snapshot().title, "Notepad");
    assert!(!c.snapshot().title_is_placeholder);
    assert_eq!(c.host().state_snapshot().title, "Notepad");
    c.set_title("Desktop");
    assert!(c.snapshot().title_is_placeholder);
}

#[test]
fn clone_with_dirty_sets_flag_only() {
    let st = PanelState::initial(ws(5), ThemePalette::omarchy_dark());
    let clean = st.clone_with_dirty(false);
    assert!(!clean.dirty);
    assert_eq!(clean.current_workspace, ws(5));
    assert_eq!(clean.pill_opacity_bits, st.pill_opacity_bits);
}

#[test]
fn null_panel_rect_is_panel_stripe() {
    let host = NullPanel::new(PanelState::initial(ws(1), ThemePalette::omarchy_dark()));
    assert_eq!(host.rect(), (0, 0, 0, 32));
    assert!(host.start().is_ok());
}

#[test]
fn animation_with_easing_keeps_the_rest() {
    let a = Animation::new(AnimationKind::FadeTitle, std::time::Instant::now(), std::time::Duration::from_millis(5));
    let b = a.with_easing(Easing::Linear);
    assert_eq!(b.easing, Easing::Linear);
    assert_eq!(b.kind, AnimationKind::FadeTitle);
    assert_eq!(b.duration, a.duration);
    assert_eq!(a.easing, Easing::EaseInOut);
}

#[test]
fn metrics_slot_default_is_empty() {
    let m = MetricsSlot::default();
    assert_eq!(m.cpu.cores, 1);
    assert!(m.net.link_down);
    assert!(m.clock.hour_24);
}

#[test]
fn rolling_window_drops_oldest() {
    let mut r = RollingMean::new(3);
    for v in [100.0f32, 50.0, 0.0, 25.0] {
        r.push(v.to_bits());
    }
    let held: Vec<f32> = r.samples_slice().iter().map(|b| f32::from_bits(*b)).collect();
    assert_eq!(held, vec![50.0, 0.0, 25.0]);
    assert_eq!(r.len(), 3);
    r.clear();
    assert!(r.is_empty());
    let mut one = RollingMean::new(0);
    one.push(1);
    one.push(2);
    assert_eq!(one.samples_slice(), &[2]);
}
