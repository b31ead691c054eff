//! The broadcast hub: one bounded channel that carries every published
//! message, and taps on it that each filter for one group.
//!
//! Publishing never waits for a subscriber. A subscriber that falls so far
//! behind that the channel has overwritten messages it has not read is
//! disconnected: its subscription is closed, the others are not touched.

use crate::message::Message;
use crate::subscription::{Frame, Phase, Subscription, TapEvent};
use tokio::sync::broadcast::error::TryRecvError;
use tokio::sync::broadcast::{Receiver, Sender};
use vstd::prelude::*;

verus! {

/// `tokio::sync::broadcast::Sender`, the sending half of a broadcast
/// channel, as a value of which nothing is known.
#[verifier::external_type_specification]
#[verifier::external_body]
#[verifier::reject_recursive_types(T)]
pub struct ExSender<T>(Sender<T>);

/// `tokio::sync::broadcast::Receiver`, one receiving end of a broadcast
/// channel, as a value of which nothing is known.
#[verifier::external_type_specification]
#[verifier::external_body]
#[verifier::reject_recursive_types(T)]
pub struct ExReceiver<T>(Receiver<T>);

/// Number of messages that the channel of a hub retains unless told
/// otherwise.
pub const DEFAULT_CAPACITY: usize = 100;

/// Calls `tokio::sync::broadcast::channel` and keeps the sending half; the
/// receiving half that comes with it is dropped. The call panics on a
/// capacity of zero or above `usize::MAX / 2`, which `requires` leaves out,
/// and it sets the memory for all slots aside at once, so it fails where
/// that much memory cannot be had. Nothing is claimed of the sender.
#[verifier::external_body]
fn open_channel(capacity: usize) -> (sender: Sender<Message>)
    requires
        0 < capacity <= usize::MAX / 2,
{
    let (sender, _first) = tokio::sync::broadcast::channel::<Message>(capacity);
    sender
}

/// Calls `Sender::send`. The count of receivers that were subscribed comes
/// back as `Some`, and `None` where there was none; by the source a count
/// that comes back is at least one. Nothing else is claimed: who is
/// subscribed is not for this handle to know.
#[verifier::external_body]
fn send(sender: &Sender<Message>, message: Message) -> (receivers: Option<usize>)
    ensures
        receivers matches Some(n) ==> n >= 1,
{
    match sender.send(message) {
        Ok(n) => Some(n),
        Err(_) => None,
    }
}

/// Calls `Sender::subscribe`. Nothing is claimed of the receiver. The call
/// panics only when a quarter of `usize::MAX` receivers are alive at once.
#[verifier::external_body]
fn open_tap(sender: &Sender<Message>) -> (receiver: Receiver<Message>) {
    sender.subscribe()
}

/// Calls `Sender::clone`: another handle to the same channel. Nothing is
/// claimed of it.
#[verifier::external_body]
fn another_handle(sender: &Sender<Message>) -> (handle: Sender<Message>) {
    sender.clone()
}

/// Calls `Receiver::try_recv` and names what came back: a message, an empty
/// channel, the number of messages lost to lag, or a channel without
/// senders. Which of them comes depends on what others have sent, so the
/// contract says only that it reports no disconnect.
#[verifier::external_body]
fn try_receive(receiver: &mut Receiver<Message>) -> (event: TapEvent)
    ensures
        !(event is Disconnected),
{
    match receiver.try_recv() {
        Ok(message) => TapEvent::Published(message),
        Err(TryRecvError::Empty) => TapEvent::Quiet,
        Err(TryRecvError::Lagged(missed)) => TapEvent::Lagged(missed),
        Err(TryRecvError::Closed) => TapEvent::HubClosed,
    }
}

/// What the store said when it was asked to keep a message.
#[derive(Clone, Copy, PartialEq, Eq, Structural, Debug)]
pub enum StoreOutcome {
    /// The message is durably stored.
    Stored,
    /// The store could not keep it.
    Failed,
}

/// Why a message was not published.
#[derive(Clone, Copy, PartialEq, Eq, Structural, Debug)]
pub enum PublishError {
    /// The message could not be stored, so it was not sent to anyone.
    NotStored,
}

/// Number of taps that a sent message was handed to: the count that the
/// channel reported, and zero where it found no tap at all.
pub fn reached(sent: Option<usize>) -> (count: usize)
    ensures
        count == match sent {
            Some(n) => n,
            None => 0,
        },
{
    match sent {
        Some(n) => n,
        None => 0,
    }
}

/// The publishing side of the message feed. All handles to one hub, made
/// by `clone`, publish into the same channel.
pub struct Hub {
    sender: Sender<Message>,
    capacity: usize,
}

/// One subscriber's end of the feed: its tap on the channel and the state
/// of its subscription.
pub struct Tap {
    pub receiver: Receiver<Message>,
    pub subscription: Subscription,
}

impl Hub {
    /// The capacity that the hub was made with.
    pub closed spec fn capacity_spec(&self) -> usize {
        self.capacity
    }

    /// The capacities that a channel can be made with.
    pub open spec fn valid_capacity(capacity: usize) -> bool {
        0 < capacity <= usize::MAX / 2
    }

    /// Makes a hub whose channel retains at least `capacity` messages for
    /// a slow subscriber, or `None` where no channel can have that
    /// capacity.
    pub fn new(capacity: usize) -> (hub: Option<Hub>)
        ensures
            hub is Some <==> Self::valid_capacity(capacity),
            hub matches Some(h) ==> h.capacity_spec() == capacity,
    {
        if capacity == 0 || capacity > usize::MAX / 2 {
            None
        } else {
            Some(Hub { sender: open_channel(capacity), capacity })
        }
    }

    #[verifier::when_used_as_spec(capacity_spec)]
    pub fn capacity(&self) -> (capacity: usize)
        ensures
            capacity == self.capacity_spec(),
            Self::valid_capacity(capacity),
    {
        proof {
            use_type_invariant(self);
        }
        self.capacity
    }

    #[verifier::type_invariant]
    spec fn well_formed(&self) -> bool {
        Self::valid_capacity(self.capacity)
    }

    /// Publishes a message that the store was asked to keep.
    ///
    /// A message that was not stored is not sent and the failure is
    /// reported. A stored message is sent to every tap that is open at that
    /// moment, whatever their groups and however many they are: that no
    /// tap is open, or that one has just gone, is no error. The result is
    /// the number of taps it was handed to.
    pub fn publish(&self, message: Message, stored: StoreOutcome) -> (result: Result<
        usize,
        PublishError,
    >)
        ensures
            stored == StoreOutcome::Failed ==> result == Err::<usize, PublishError>(
                PublishError::NotStored,
            ),
            stored == StoreOutcome::Stored ==> result is Ok,
    {
        match stored {
            StoreOutcome::Failed => Err(PublishError::NotStored),
            StoreOutcome::Stored => Ok(reached(send(&self.sender, message))),
        }
    }

    /// Opens a tap for the group `group_id`. It sees what is published
    /// from now on, nothing from before.
    pub fn subscribe(&self, group_id: String, now: u64) -> (tap: Tap)
        ensures
            tap.subscription == Subscription::start_spec(group_id, now),
    {
        Tap { receiver: open_tap(&self.sender), subscription: Subscription::start(group_id, now) }
    }
}

impl Default for Hub {
    /// A hub whose channel has the default capacity.
    fn default() -> (hub: Self)
        ensures
            hub.capacity_spec() == DEFAULT_CAPACITY,
    {
        Hub { sender: open_channel(DEFAULT_CAPACITY), capacity: DEFAULT_CAPACITY }
    }
}

impl Clone for Hub {
    fn clone(&self) -> (handle: Self)
        ensures
            handle.capacity_spec() == self.capacity_spec(),
    {
        proof {
            use_type_invariant(self);
        }
        Hub { sender: another_handle(&self.sender), capacity: self.capacity }
    }
}

impl Tap {
    /// Looks at the tap once, without waiting, and says what to send.
    ///
    /// The frame is the one that the subscription gives for what the tap
    /// held: a message of the group is passed on, any other is dropped, a
    /// heartbeat goes out when an interval has passed in silence, and a tap
    /// that lagged or whose hub is gone ends the subscription. The tap of a
    /// closed subscription is not looked at any more.
    pub fn poll(&mut self, now: u64) -> (frame: Frame)
        ensures
            exists|event: TapEvent|
                !(event is Disconnected) && frame == (#[trigger] old(self).subscription.frame_for(
                    event,
                    now,
                )) && final(self).subscription == old(self).subscription.after(event, now),
            frame matches Frame::Content(m) ==> m.in_group(old(self).subscription.group_id@),
            !old(self).subscription.is_open() ==> frame == Frame::End && final(self).subscription
                == old(self).subscription,
            frame == Frame::End ==> !final(self).subscription.is_open(),
    {
        match self.subscription.phase {
            Phase::Closed => {
                assert(self.subscription.frame_for(TapEvent::Quiet, now) == Frame::End);
                assert(self.subscription.after(TapEvent::Quiet, now) == self.subscription);
                Frame::End
            },
            _ => {
                let event = try_receive(&mut self.receiver);
                self.subscription.on_event(event, now)
            },
        }
    }

    /// Ends the subscription because its consumer went away, and gives
    /// the tap on the channel up. What is left is the closed subscription.
    pub fn disconnect(self, now: u64) -> (closed: Subscription)
        ensures
            closed == self.subscription.after(TapEvent::Disconnected, now),
            !closed.is_open(),
    {
        let mut subscription = self.subscription;
        let _ = subscription.on_event(TapEvent::Disconnected, now);
        subscription
    }
}

} // verus!
