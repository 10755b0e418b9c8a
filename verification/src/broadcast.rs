//! A single-slot, latest-value-wins broadcast channel.
//!
//! The channel holds the newest message, a count of the messages published so
//! far and a closed flag. A subscriber's handle remembers the count up to which
//! it has observed the slot. Operations never suspend: where a subscriber would
//! have to wait, `poll_change` answers `Pending`, and the caller suspends on
//! whatever wake-up it has and asks again.

use vstd::prelude::*;
use crate::usage::SystemMonitorMessage;

verus! {

/// What a subscriber learns when it asks for a change.
#[derive(Debug, Clone, Copy, PartialEq, Eq)]
pub enum Change {
    /// A message newer than the last one observed.
    Changed(SystemMonitorMessage),
    /// Nothing newer yet; the channel is still open.
    Pending,
    /// Nothing newer, and nothing will come: the channel is closed.
    Closed,
}

/// The mathematical state of a channel.
pub struct ChannelView {
    /// The newest message.
    pub value: SystemMonitorMessage,
    /// How many messages have been published since the channel was made.
    pub version: nat,
    /// Whether the channel has been closed.
    pub closed: bool,
}

impl ChannelView {
    /// A publish is accepted while the channel is open and its count can grow.
    pub open spec fn accepts(self) -> bool {
        !self.closed && self.version < u64::MAX
    }

    /// The state after `msg` has replaced the current value.
    pub open spec fn published(self, msg: SystemMonitorMessage) -> ChannelView {
        ChannelView { value: msg, version: self.version + 1, closed: self.closed }
    }

    /// The state after an attempt to publish `msg`, accepted or not.
    pub open spec fn offered(self, msg: SystemMonitorMessage) -> ChannelView {
        if self.accepts() {
            self.published(msg)
        } else {
            self
        }
    }

    /// The state after closing.
    pub open spec fn shut(self) -> ChannelView {
        ChannelView { value: self.value, version: self.version, closed: true }
    }

    /// The observation mark of a handle made now.
    pub open spec fn subscribed(self) -> nat {
        self.version
    }

    /// What a handle that has observed up to `seen` is told.
    pub open spec fn change_for(self, seen: nat) -> Change {
        if seen < self.version {
            Change::Changed(self.value)
        } else if self.closed {
            Change::Closed
        } else {
            Change::Pending
        }
    }

    /// The mark of a handle after it has asked for a change.
    pub open spec fn seen_after_poll(self, seen: nat) -> nat {
        if seen < self.version {
            self.version
        } else {
            seen
        }
    }
}

/// The broadcast slot itself.
#[derive(Debug, Clone, Copy)]
pub struct Channel {
    value: SystemMonitorMessage,
    version: u64,
    closed: bool,
}

/// A subscriber's place in the stream of published messages.
#[derive(Debug, Clone, Copy)]
pub struct Handle {
    seen: u64,
}

impl View for Channel {
    type V = ChannelView;

    closed spec fn view(&self) -> ChannelView {
        ChannelView { value: self.value, version: self.version as nat, closed: self.closed }
    }
}

impl View for Handle {
    type V = nat;

    closed spec fn view(&self) -> nat {
        self.seen as nat
    }
}

impl Channel {
    /// Opens a channel whose current value is `init`.
    pub fn new(init: SystemMonitorMessage) -> (channel: Channel)
        ensures
            channel@ == (ChannelView { value: init, version: 0, closed: false }),
    {
        Channel { value: init, version: 0, closed: false }
    }

    /// Replaces the current value by `msg`. A closed channel, or one whose
    /// count is exhausted, refuses and stays as it is.
    pub fn publish(&mut self, msg: SystemMonitorMessage) -> (accepted: bool)
        ensures
            accepted == old(self)@.accepts(),
            final(self)@ == old(self)@.offered(msg),
    {
        if self.closed || self.version == u64::MAX {
            false
        } else {
            self.value = msg;
            self.version = self.version + 1;
            true
        }
    }

    /// Closes the channel. The last value stays readable.
    pub fn close(&mut self)
        ensures
            final(self)@ == old(self)@.shut(),
    {
        self.closed = true;
    }

    /// Makes a handle that counts the current value as observed.
    pub fn subscribe(&self) -> (handle: Handle)
        ensures
            handle@ == self@.subscribed(),
    {
        Handle { seen: self.version }
    }

    /// Returns the current value and marks it as observed by `handle`.
    pub fn read(&self, handle: &mut Handle) -> (msg: SystemMonitorMessage)
        ensures
            msg == self@.value,
            final(handle)@ == self@.version,
    {
        handle.seen = self.version;
        self.value
    }

    /// Tells `handle` whether a value newer than the last it observed has been
    /// published, and if so marks that value as observed.
    pub fn poll_change(&self, handle: &mut Handle) -> (change: Change)
        ensures
            change == self@.change_for(old(handle)@),
            final(handle)@ == self@.seen_after_poll(old(handle)@),
    {
        if handle.seen < self.version {
            handle.seen = self.version;
            Change::Changed(self.value)
        } else if self.closed {
            Change::Closed
        } else {
            Change::Pending
        }
    }

    /// Whether the channel has been closed.
    pub fn is_closed(&self) -> (closed: bool)
        ensures
            closed == self@.closed,
    {
        self.closed
    }

    /// How many messages have been published.
    pub fn version(&self) -> (version: u64)
        ensures
            version == self@.version,
    {
        self.version
    }
}

/// A handle made by `subscribe` reads the value that was current when it was
/// made, and is told of no change until something newer is published.
pub proof fn fresh_handle_observes_current(channel: ChannelView)
    ensures
        !(channel.change_for(channel.subscribed()) is Changed),
        channel.seen_after_poll(channel.subscribed()) == channel.version,
{
}

/// Two messages published before a subscriber asks: it is told of the second
/// one directly, and of nothing more until the next publish.
pub proof fn latest_value_wins(
    channel: ChannelView,
    first: SystemMonitorMessage,
    second: SystemMonitorMessage,
    seen: nat,
)
    requires
        seen <= channel.version,
        channel.accepts(),
        channel.offered(first).accepts(),
    ensures
        ({
            let after = channel.offered(first).offered(second);
            &&& after.change_for(seen) == Change::Changed(second)
            &&& after.change_for(after.seen_after_poll(seen)) == Change::Pending
        }),
{
}

/// One message published while a subscriber is up to date: it is told of
/// exactly that message.
pub proof fn publish_reaches_waiting_handle(
    channel: ChannelView,
    msg: SystemMonitorMessage,
    seen: nat,
)
    requires
        seen <= channel.version,
        channel.accepts(),
    ensures
        channel.offered(msg).change_for(seen) == Change::Changed(msg),
        channel.offered(msg).seen_after_poll(seen) == channel.version + 1,
{
}

/// Closing resolves every waiting subscriber: one that was told `Pending` is
/// told `Closed`; no subscriber of a closed channel is told `Pending`; and
/// each is told `Closed` after at most one last message.
pub proof fn close_resolves_waiters(channel: ChannelView, seen: nat)
    ensures
        channel.change_for(seen) == Change::Pending ==> channel.shut().change_for(seen)
            == Change::Closed,
        channel.shut().change_for(seen) != Change::Pending,
        channel.shut().change_for(channel.shut().seen_after_poll(seen)) == Change::Closed,
{
}

/// A closed channel keeps its last value: whatever is offered to it, it stays
/// as it is.
pub proof fn closed_channel_keeps_its_value(channel: ChannelView, msg: SystemMonitorMessage)
    ensures
        channel.shut().offered(msg) == channel.shut(),
{
}

/// A handle's mark never moves backward, and never passes the channel's count
/// if it started at or below it.
pub proof fn observation_is_monotonic(channel: ChannelView, seen: nat)
    ensures
        seen <= channel.seen_after_poll(seen),
        seen <= channel.version ==> channel.seen_after_poll(seen) <= channel.version,
{
}

} // verus!
