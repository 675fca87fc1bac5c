//! The traits the platform keyboard hook fulfils, and the bounded channel
//! that carries its presses to the dispatcher.

use vstd::prelude::*;
use std::sync::mpsc::{Receiver, SyncSender};
use crate::error::JacqueError;
use crate::hotkeys::keys::HotkeyPress;

verus! {

#[verifier::external_type_specification]
#[verifier::external_body]
#[verifier::reject_recursive_types(T)]
pub struct ExSyncSender<T>(std::sync::mpsc::SyncSender<T>);

#[verifier::external_type_specification]
#[verifier::external_body]
#[verifier::reject_recursive_types(T)]
pub struct ExReceiver<T>(std::sync::mpsc::Receiver<T>);

/// A source of key presses; the platform layer implements it.
pub trait HotkeySource {
    /// Start delivering presses once the hook is installed.
    fn install(&self) -> Result<(), JacqueError>;
    /// Stop delivering presses; calling it again is harmless.
    fn uninstall(&self) -> Result<(), JacqueError>;
}

/// Where the hook pushes presses; pushing never blocks.
pub trait HotkeySink {
    /// Hand one press on.
    fn push(&self, press: HotkeyPress);
}

/// A sink over the sending half of a bounded channel.
pub struct ChannelSink {
    inner: SyncSender<HotkeyPress>,
}

impl ChannelSink {
    /// The sending half the sink pushes into.
    pub closed spec fn sender(&self) -> SyncSender<HotkeyPress> {
        self.inner
    }

    /// A sink that sends into the given channel.
    pub fn new(sender: SyncSender<HotkeyPress>) -> (r: ChannelSink)
        ensures
            r.sender() == sender,
    {
        ChannelSink { inner: sender }
    }
}

/// `SyncSender::try_send`: queue the press unless the channel is full or
/// closed, in which case it is dropped. Whether it was queued depends on
/// the consumer and is not stated.
#[verifier::external_body]
fn try_send_press(sender: &SyncSender<HotkeyPress>, press: HotkeyPress) {
    let _ = sender.try_send(press);
}

impl HotkeySink for ChannelSink {
    /// Queue the press, or drop it when the consumer lags: the hook must
    /// never block.
    fn push(&self, press: HotkeyPress) {
        try_send_press(&self.inner, press);
    }
}

/// `std::sync::mpsc::sync_channel`: a bounded channel holding up to
/// `capacity` presses. Nothing is stated of the pair it returns.
#[verifier::external_body]
pub fn channel_pair(capacity: usize) -> (SyncSender<HotkeyPress>, Receiver<HotkeyPress>) {
    std::sync::mpsc::sync_channel(capacity)
}

} // verus!
