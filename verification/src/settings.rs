//! Live configuration reload: the held configuration, the subscribers
//! told of each accepted change, and whether the last reload succeeded.

use vstd::prelude::*;
use crate::config::{clamp_view, valid_view, Config, ConfigManager, ConfigView};
use crate::error::JacqueError;
use crate::seqs::{key_is_not, remove_key};

verus! {

/// The configuration manager with subscribers (of type `C`). After an
/// accepted [`SettingsManager::apply_new`] the caller hands the new
/// snapshot to every subscriber, in registration order.
pub struct SettingsManager<C> {
    config: ConfigManager,
    subscribers: Vec<(u64, C)>,
    next_id: u64,
    last_reload_ok: bool,
}

impl<C> SettingsManager<C> {
    /// The held configuration.
    pub closed spec fn current(&self) -> ConfigView {
        self.config.current()
    }

    /// The settings file's path.
    pub closed spec fn file(&self) -> Seq<char> {
        self.config.file()
    }

    /// The subscribers in registration order.
    pub closed spec fn listeners(&self) -> Seq<(u64, C)> {
        self.subscribers@
    }

    /// The id the next subscription receives.
    pub closed spec fn next_listener_id(&self) -> u64 {
        self.next_id
    }

    /// Whether the last reload succeeded.
    pub closed spec fn reload_ok(&self) -> bool {
        self.last_reload_ok
    }

    /// A manager over the given configuration, no subscriber, ids from 1,
    /// last reload successful.
    pub fn new(config: ConfigManager) -> (r: Self)
        ensures
            r.current() == config.current(),
            r.file() == config.file(),
            r.listeners() == Seq::<(u64, C)>::empty(),
            r.next_listener_id() == 1,
            r.reload_ok(),
    {
        SettingsManager { config, subscribers: Vec::new(), next_id: 1, last_reload_ok: true }
    }

    /// A copy of the held configuration.
    pub fn snapshot(&self) -> (r: Config)
        ensures
            r@ == self.current(),
    {
        self.config.snapshot()
    }

    /// Register a subscriber; returns its id.
    pub fn subscribe(&mut self, callback: C) -> (id: u64)
        ensures
            id == old(self).next_listener_id(),
            final(self).next_listener_id() == old(self).next_listener_id().wrapping_add(1),
            final(self).listeners() == old(self).listeners().push((id, callback)),
            final(self).current() == old(self).current(),
            final(self).file() == old(self).file(),
            final(self).reload_ok() == old(self).reload_ok(),
    {
        let id = self.next_id;
        self.next_id = self.next_id.wrapping_add(1);
        self.subscribers.push((id, callback));
        id
    }

    /// Drop the subscribers registered under `id`.
    pub fn unsubscribe(&mut self, id: u64)
        ensures
            final(self).listeners() == old(self).listeners().filter(key_is_not::<C>(id)),
            final(self).next_listener_id() == old(self).next_listener_id(),
            final(self).current() == old(self).current(),
            final(self).file() == old(self).file(),
            final(self).reload_ok() == old(self).reload_ok(),
    {
        remove_key(&mut self.subscribers, id);
    }

    /// Clamp and validate a reloaded configuration. When it validates it is
    /// held and the reload counts as successful; otherwise nothing changes
    /// and the validation error is returned.
    pub fn apply_new(&mut self, new: Config) -> (r: Result<(), JacqueError>)
        ensures
            r is Ok <==> valid_view(clamp_view(new@)),
            r is Ok ==> final(self).current() == clamp_view(new@) && final(self).reload_ok(),
            r is Err ==> final(self).current() == old(self).current() && final(self).reload_ok()
                == old(self).reload_ok(),
            final(self).file() == old(self).file(),
            final(self).listeners() == old(self).listeners(),
            final(self).next_listener_id() == old(self).next_listener_id(),
    {
        match self.config.replace(new) {
            Ok(()) => {
                self.last_reload_ok = true;
                Ok(())
            },
            Err(e) => Err(e),
        }
    }

    /// Record that a reload failed.
    pub fn report_failure(&mut self)
        ensures
            !final(self).reload_ok(),
            final(self).current() == old(self).current(),
            final(self).file() == old(self).file(),
            final(self).listeners() == old(self).listeners(),
            final(self).next_listener_id() == old(self).next_listener_id(),
    {
        self.last_reload_ok = false;
    }

    /// Whether the last reload succeeded.
    pub fn last_reload_succeeded(&self) -> (r: bool)
        ensures
            r == self.reload_ok(),
    {
        self.last_reload_ok
    }

    /// A copy of the configuration manager.
    pub fn manager(&self) -> (r: ConfigManager)
        ensures
            r.current() == self.current(),
            r.file() == self.file(),
    {
        self.config.duplicate()
    }

    /// The subscribers to notify, in registration order.
    pub fn subscribers(&self) -> (r: &[(u64, C)])
        ensures
            r@ == self.listeners(),
    {
        self.subscribers.as_slice()
    }
}

} // verus!
