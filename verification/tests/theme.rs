use jacquewm::theme::{channel_for_bundle, ThemeBundle, ThemeChannel, ThemeManager};
use std::cell::Cell;
use std::rc::Rc;

type Observer = Box<dyn Fn(ThemeChannel, ThemeBundle)>;

fn broadcast(m: &ThemeManager<Observer>) {
    let bundle = m.current();
    for (_, (channel, observer)) in m.observers() {
        observer(*channel, bundle);
    }
}

#[test]
fn default_theme_is_dark() {
    let m: ThemeManager<Observer> = ThemeManager::default();
    let b = m.current();
    assert!(b.palette.background.r() < 32);
    assert_eq!(f32::from_bits(b.animation_speed_bits), 1.0);
}

#[test]
fn observer_receives_broadcast() {
    let count = Rc::new(Cell::new(0u32));
    let inner = count.clone();
    let mut m: ThemeManager<Observer> = ThemeManager::default();
    m.subscribe(ThemeChannel::All, Box::new(move |_, _| inner.set(inner.get() + 1)));
    m.apply(ThemeBundle::omarchy_dark());
    broadcast(&m);
    assert!(count.get() >= 1);
}

#[test]
fn unregister_removes_observer() {
    let count = Rc::new(Cell::new(0u32));
    let inner = count.clone();
    let mut m: ThemeManager<Observer> = ThemeManager::default();
    let id = m.subscribe(ThemeChannel::All, Box::new(move |_, _| inner.set(inner.get() + 1)));
    m.apply(ThemeBundle::omarchy_dark());
    broadcast(&m);
    let pre = count.get();
    m.unregister(id);
    m.apply(ThemeBundle::omarchy_dark());
    broadcast(&m);
    assert_eq!(count.get(), pre);
    assert_eq!(m.observer_count(), 0);
}

#[test]
fn subscription_ids_count_up() {
    let mut m: ThemeManager<u8> = ThemeManager::new(ThemeBundle::omarchy_dark());
    assert_eq!(m.subscribe(ThemeChannel::Panel, 0), 1);
    assert_eq!(m.subscribe(ThemeChannel::Tiling, 1), 2);
    assert_eq!(channel_for_bundle(&ThemeChannel::All), vec![ThemeChannel::Panel, ThemeChannel::Tiling]);
    assert_eq!(channel_for_bundle(&ThemeChannel::Panel), vec![ThemeChannel::Panel]);
}
