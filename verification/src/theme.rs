//! The theme manager: the active bundle and the observers notified of
//! each change, in registration order.

use vstd::prelude::*;
use crate::floatbits::ONE_BITS;
use crate::panel::state::{omarchy_dark_palette, ThemePalette};
use crate::seqs::{key_is_not, remove_key};

verus! {

/// What a theme sets: the palette and the animation speed (as `f32` bits).
#[derive(Clone, Copy, Debug, PartialEq, Eq, Structural)]
pub struct ThemeBundle {
    pub palette: ThemePalette,
    pub animation_speed_bits: u32,
}

/// The built-in dark bundle at stock speed.
pub open spec fn omarchy_dark_bundle() -> ThemeBundle {
    ThemeBundle { palette: omarchy_dark_palette(), animation_speed_bits: ONE_BITS }
}

impl ThemeBundle {
    /// The built-in dark bundle.
    pub fn omarchy_dark() -> (r: Self)
        ensures
            r == omarchy_dark_bundle(),
    {
        ThemeBundle { palette: ThemePalette::omarchy_dark(), animation_speed_bits: ONE_BITS }
    }
}

impl Default for ThemeBundle {
    fn default() -> (r: Self)
        ensures
            r == omarchy_dark_bundle(),
    {
        Self::omarchy_dark()
    }
}

/// Which tokens an observer follows.
#[derive(Clone, Copy, Debug, PartialEq, Eq, Hash, Structural)]
pub enum ThemeChannel {
    /// Panel colours.
    Panel,
    /// Tiling divider and accent colours.
    Tiling,
    /// Everything.
    All,
}

/// The concrete channels a subscription covers.
pub fn channel_for_bundle(channel: &ThemeChannel) -> (r: Vec<ThemeChannel>)
    ensures
        r@ == (match *channel {
            ThemeChannel::Panel => seq![ThemeChannel::Panel],
            ThemeChannel::Tiling => seq![ThemeChannel::Tiling],
            ThemeChannel::All => seq![ThemeChannel::Panel, ThemeChannel::Tiling],
        }),
{
    let mut v: Vec<ThemeChannel> = Vec::new();
    match channel {
        ThemeChannel::Panel => v.push(ThemeChannel::Panel),
        ThemeChannel::Tiling => v.push(ThemeChannel::Tiling),
        ThemeChannel::All => {
            v.push(ThemeChannel::Panel);
            v.push(ThemeChannel::Tiling);
        },
    }
    assert(v@ =~= (match *channel {
        ThemeChannel::Panel => seq![ThemeChannel::Panel],
        ThemeChannel::Tiling => seq![ThemeChannel::Tiling],
        ThemeChannel::All => seq![ThemeChannel::Panel, ThemeChannel::Tiling],
    }));
    v
}

/// The active bundle and the observers (of type `O`), each with its id
/// and channel. After [`ThemeManager::apply`] the caller notifies every
/// observer, in this order, with its channel and the new bundle.
pub struct ThemeManager<O> {
    active: ThemeBundle,
    observers: Vec<(u64, (ThemeChannel, O))>,
    next_observer_id: u64,
}

impl<O> ThemeManager<O> {
    /// The active bundle.
    pub closed spec fn bundle(&self) -> ThemeBundle {
        self.active
    }

    /// The observers in registration order.
    pub closed spec fn subscribers(&self) -> Seq<(u64, (ThemeChannel, O))> {
        self.observers@
    }

    /// The id the next subscription receives.
    pub closed spec fn next_id(&self) -> u64 {
        self.next_observer_id
    }

    /// A manager with the given bundle, no observer, ids from 1.
    pub fn new(initial: ThemeBundle) -> (r: Self)
        ensures
            r.bundle() == initial,
            r.subscribers() == Seq::<(u64, (ThemeChannel, O))>::empty(),
            r.next_id() == 1,
    {
        ThemeManager { active: initial, observers: Vec::new(), next_observer_id: 1 }
    }

    /// The active bundle.
    pub fn current(&self) -> (r: ThemeBundle)
        ensures
            r == self.bundle(),
    {
        self.active
    }

    /// Register an observer of a channel; returns its id.
    pub fn subscribe(&mut self, channel: ThemeChannel, observer: O) -> (id: u64)
        ensures
            id == old(self).next_id(),
            final(self).next_id() == old(self).next_id().wrapping_add(1),
            final(self).subscribers() == old(self).subscribers().push((id, (channel, observer))),
            final(self).bundle() == old(self).bundle(),
    {
        let id = self.next_observer_id;
        self.next_observer_id = self.next_observer_id.wrapping_add(1);
        self.observers.push((id, (channel, observer)));
        id
    }

    /// Drop the observers registered under `id`.
    pub fn unregister(&mut self, id: u64)
        ensures
            final(self).subscribers() == old(self).subscribers().filter(key_is_not::<(ThemeChannel, O)>(id)),
            final(self).bundle() == old(self).bundle(),
            final(self).next_id() == old(self).next_id(),
    {
        remove_key(&mut self.observers, id);
    }

    /// Make `new` the active bundle; the observers are to be notified.
    pub fn apply(&mut self, new: ThemeBundle)
        ensures
            final(self).bundle() == new,
            final(self).subscribers() == old(self).subscribers(),
            final(self).next_id() == old(self).next_id(),
    {
        self.active = new;
    }

    /// The observers to notify, in registration order.
    pub fn observers(&self) -> (r: &[(u64, (ThemeChannel, O))])
        ensures
            r@ == self.subscribers(),
    {
        self.observers.as_slice()
    }

    /// Number of registered observers.
    pub fn observer_count(&self) -> (n: usize)
        ensures
            n == self.subscribers().len(),
    {
        self.observers.len()
    }
}

impl<O> Default for ThemeManager<O> {
    fn default() -> (r: Self)
        ensures
            r.bundle() == omarchy_dark_bundle(),
            r.subscribers() == Seq::<(u64, (ThemeChannel, O))>::empty(),
            r.next_id() == 1,
    {
        Self::new(ThemeBundle::omarchy_dark())
    }
}

} // verus!
