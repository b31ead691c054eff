//! The life of one live subscription to a group's messages, as a state
//! machine that is driven by what arrives on its tap and by the clock.

use crate::message::Message;
use vstd::prelude::*;

verus! {

/// A heartbeat is due once this many milliseconds have passed since the
/// last frame went out.
pub const HEARTBEAT_INTERVAL_MS: u64 = 15_000;

/// Text of a heartbeat frame on the wire.
pub const HEARTBEAT_TEXT: &'static str = "ping";

/// Where a subscription stands.
#[derive(Clone, Copy, PartialEq, Eq, Structural, Debug)]
pub enum Phase {
    /// Open, and no frame has gone out yet.
    Connected,
    /// Open; the last frame carried a message.
    Delivering,
    /// Open; the last frame was a heartbeat.
    Idle,
    /// Over. Nothing goes out any more.
    Closed,
}

/// What the consumer of a subscription is sent.
#[derive(Debug, PartialEq, Eq)]
pub enum Frame {
    /// A message of the subscribed group.
    Content(Message),
    /// Nothing happened for a whole interval; the connection is alive.
    Heartbeat,
    /// Nothing is sent.
    Nothing,
    /// The subscription is over.
    End,
}

/// What happened on the tap of a subscription.
#[derive(Debug, PartialEq, Eq)]
pub enum TapEvent {
    /// A message was published, for whatever group.
    Published(Message),
    /// Nothing had been published when the tap was looked at.
    Quiet,
    /// The subscription fell behind and this many messages were lost to it.
    Lagged(u64),
    /// The hub is gone: nothing will be published any more.
    HubClosed,
    /// The consumer went away.
    Disconnected,
}

/// One live subscription: the group it filters for, its phase, and the
/// reading of the clock, in milliseconds, when its last frame went out (when
/// it began, as long as none has).
#[derive(Debug, PartialEq, Eq)]
pub struct Subscription {
    pub group_id: String,
    pub phase: Phase,
    pub last_frame_at: u64,
}

impl TapEvent {
    /// The event ends the subscription it reaches.
    pub open spec fn is_terminal(self) -> bool {
        self is Lagged || self is HubClosed || self is Disconnected
    }

    /// The event is a message of the group `group_id`.
    pub open spec fn carries_for(self, group_id: Seq<char>) -> bool {
        self matches TapEvent::Published(m) && m.in_group(group_id)
    }
}

impl Subscription {
    pub open spec fn is_open(self) -> bool {
        self.phase != Phase::Closed
    }

    /// A heartbeat is due at `now`: a whole interval has passed since the
    /// last frame.
    pub open spec fn heartbeat_due(self, now: u64) -> bool {
        now >= self.last_frame_at && now - self.last_frame_at >= HEARTBEAT_INTERVAL_MS
    }

    /// Milliseconds from `now` until a heartbeat is due, if nothing is sent
    /// before: zero when one is due.
    pub open spec fn heartbeat_wait(self, now: u64) -> int {
        if self.heartbeat_due(now) {
            0
        } else {
            self.last_frame_at + HEARTBEAT_INTERVAL_MS - now
        }
    }

    /// Milliseconds to wait from `now` for the next heartbeat, if nothing
    /// is sent before; the longest wait that a `u64` holds where the clock
    /// reads far behind the last frame.
    pub fn heartbeat_in(&self, now: u64) -> (wait: u64)
        ensures
            wait == if self.heartbeat_wait(now) <= u64::MAX {
                self.heartbeat_wait(now)
            } else {
                u64::MAX as int
            },
            wait == 0 <==> self.heartbeat_due(now),
            self.last_frame_at + HEARTBEAT_INTERVAL_MS <= u64::MAX ==> now + wait <= u64::MAX
                && self.heartbeat_due((now + wait) as u64),
    {
        if now >= self.last_frame_at {
            let passed = now - self.last_frame_at;
            if passed >= HEARTBEAT_INTERVAL_MS {
                0
            } else {
                HEARTBEAT_INTERVAL_MS - passed
            }
        } else {
            (self.last_frame_at - now).saturating_add(HEARTBEAT_INTERVAL_MS)
        }
    }

    /// The frame that goes out when `event` reaches the subscription at
    /// `now`.
    pub open spec fn frame_for(self, event: TapEvent, now: u64) -> Frame {
        if !self.is_open() || event.is_terminal() {
            Frame::End
        } else if event.carries_for(self.group_id@) {
            Frame::Content(event->Published_0)
        } else if self.heartbeat_due(now) {
            Frame::Heartbeat
        } else {
            Frame::Nothing
        }
    }

    /// The subscription after `event` has reached it at `now`.
    pub open spec fn after(self, event: TapEvent, now: u64) -> Subscription {
        match self.frame_for(event, now) {
            Frame::End => Subscription { phase: Phase::Closed, ..self },
            Frame::Content(_) => Subscription {
                phase: Phase::Delivering,
                last_frame_at: now,
                ..self
            },
            Frame::Heartbeat => Subscription { phase: Phase::Idle, last_frame_at: now, ..self },
            Frame::Nothing => self,
        }
    }

    /// A subscription to `group_id` that begins at `now`.
    pub open spec fn start_spec(group_id: String, now: u64) -> Subscription {
        Subscription { group_id, phase: Phase::Connected, last_frame_at: now }
    }

    /// Begins a subscription to `group_id` at `now`.
    #[verifier::when_used_as_spec(start_spec)]
    pub fn start(group_id: String, now: u64) -> (subscription: Subscription)
        ensures
            subscription == Self::start_spec(group_id, now),
    {
        Subscription { group_id, phase: Phase::Connected, last_frame_at: now }
    }

    /// Feeds one event to the subscription and says what to send.
    ///
    /// A message of the subscribed group is passed on; one of another group
    /// is dropped without a trace. While nothing is passed on, a heartbeat
    /// goes out each time a whole interval has passed since the last frame.
    /// A subscription that lagged behind is closed, as is one whose hub or
    /// consumer is gone, and a closed subscription stays closed.
    pub fn on_event(&mut self, event: TapEvent, now: u64) -> (frame: Frame)
        ensures
            frame == old(self).frame_for(event, now),
            *final(self) == old(self).after(event, now),
    {
        match self.phase {
            Phase::Closed => {
                return Frame::End;
            },
            _ => {},
        }
        match event {
            TapEvent::Published(message) => {
                if message.belongs_to(&self.group_id) {
                    self.phase = Phase::Delivering;
                    self.last_frame_at = now;
                    Frame::Content(message)
                } else {
                    self.idle(now)
                }
            },
            TapEvent::Quiet => self.idle(now),
            TapEvent::Lagged(_) => self.close(),
            TapEvent::HubClosed => self.close(),
            TapEvent::Disconnected => self.close(),
        }
    }

    fn idle(&mut self, now: u64) -> (frame: Frame)
        requires
            old(self).is_open(),
        ensures
            frame == old(self).frame_for(TapEvent::Quiet, now),
            *final(self) == old(self).after(TapEvent::Quiet, now),
    {
        if now >= self.last_frame_at && now - self.last_frame_at >= HEARTBEAT_INTERVAL_MS {
            self.phase = Phase::Idle;
            self.last_frame_at = now;
            Frame::Heartbeat
        } else {
            Frame::Nothing
        }
    }

    fn close(&mut self) -> (frame: Frame)
        ensures
            frame == Frame::End,
            *final(self) == (Subscription { phase: Phase::Closed, ..*old(self) }),
    {
        self.phase = Phase::Closed;
        Frame::End
    }
}

/// The steps that a subscription can take from one phase to the next: it
/// never returns to `Connected`, and it never leaves `Closed`.
pub open spec fn may_follow(from: Phase, to: Phase) -> bool {
    match from {
        Phase::Connected => true,
        Phase::Delivering | Phase::Idle => to != Phase::Connected,
        Phase::Closed => to == Phase::Closed,
    }
}

/// Every event moves a subscription along a step that [`may_follow`]
/// allows: to `Delivering` with a content frame, to `Idle` with a
/// heartbeat, to `Closed` with the end, and nowhere with nothing.
pub proof fn lemma_phases_in_order(before: Subscription, event: TapEvent, now: u64)
    ensures
        may_follow(before.phase, before.after(event, now).phase),
        before.after(event, now).group_id == before.group_id,
        match before.frame_for(event, now) {
            Frame::Content(_) => before.after(event, now).phase == Phase::Delivering,
            Frame::Heartbeat => before.after(event, now).phase == Phase::Idle,
            Frame::End => before.after(event, now).phase == Phase::Closed,
            Frame::Nothing => before.after(event, now) == before,
        },
        before.is_open() && event is Disconnected ==> !before.after(event, now).is_open(),
{
}

/// An event together with the reading of the clock at which it arrived.
pub ghost struct Arrival {
    pub event: TapEvent,
    pub at: u64,
}

/// The subscription after the arrivals of `trace` have reached it in order.
pub open spec fn state_after(start: Subscription, trace: Seq<Arrival>) -> Subscription
    decreases trace.len(),
{
    if trace.len() == 0 {
        start
    } else {
        state_after(start, trace.drop_last()).after(trace.last().event, trace.last().at)
    }
}

/// The frames that go out, one for each arrival of `trace`.
pub open spec fn frames_of(start: Subscription, trace: Seq<Arrival>) -> Seq<Frame>
    decreases trace.len(),
{
    if trace.len() == 0 {
        Seq::empty()
    } else {
        frames_of(start, trace.drop_last()).push(
            state_after(start, trace.drop_last()).frame_for(trace.last().event, trace.last().at),
        )
    }
}

/// The messages that the frames carry, in order.
pub open spec fn contents(frames: Seq<Frame>) -> Seq<Message>
    decreases frames.len(),
{
    if frames.len() == 0 {
        Seq::empty()
    } else if let Frame::Content(m) = frames.last() {
        contents(frames.drop_last()).push(m)
    } else {
        contents(frames.drop_last())
    }
}

/// Some arrival of the trace ends a subscription.
pub open spec fn has_terminal(trace: Seq<Arrival>) -> bool {
    exists|i: int| 0 <= i < trace.len() && (#[trigger] trace[i]).event.is_terminal()
}

/// The messages for `group_id` that are published in `trace` before its
/// first terminal event, in the order of their publication.
pub open spec fn published_for(group_id: Seq<char>, trace: Seq<Arrival>) -> Seq<Message>
    decreases trace.len(),
{
    if trace.len() == 0 {
        Seq::empty()
    } else if !has_terminal(trace.drop_last()) && trace.last().event.carries_for(group_id) {
        published_for(group_id, trace.drop_last()).push(trace.last().event->Published_0)
    } else {
        published_for(group_id, trace.drop_last())
    }
}

/// No arrival of the trace ends a subscription to `group_id` or carries a
/// message for it.
pub open spec fn silent_for(group_id: Seq<char>, trace: Seq<Arrival>) -> bool {
    forall|i: int|
        0 <= i < trace.len() ==> !(#[trigger] trace[i]).event.is_terminal() && !trace[i].event.carries_for(
            group_id,
        )
}

/// A run gives one frame for each arrival, keeps the group, and is open at
/// its end exactly when it began open and met no terminal event.
pub proof fn lemma_run_shape(start: Subscription, trace: Seq<Arrival>)
    ensures
        frames_of(start, trace).len() == trace.len(),
        state_after(start, trace).group_id == start.group_id,
        state_after(start, trace).is_open() <==> start.is_open() && !has_terminal(trace),
    decreases trace.len(),
{
    if trace.len() > 0 {
        let front = trace.drop_last();
        lemma_run_shape(start, front);
        if has_terminal(front) {
            let i = choose|i: int| 0 <= i < front.len() && (#[trigger] front[i]).event.is_terminal();
            assert(trace[i] == front[i]);
        }
        if has_terminal(trace) && !has_terminal(front) {
            let i = choose|i: int| 0 <= i < trace.len() && (#[trigger] trace[i]).event.is_terminal();
            if i < front.len() {
                assert(front[i] == trace[i]);
            }
        }
        if trace.last().event.is_terminal() {
            assert(trace[trace.len() - 1].event.is_terminal());
        }
    }
}

/// The frame for the arrival at `index` is the one that the state reached
/// just before it gives.
pub proof fn lemma_frame_at(start: Subscription, trace: Seq<Arrival>, index: int)
    requires
        0 <= index < trace.len(),
    ensures
        frames_of(start, trace).len() == trace.len(),
        frames_of(start, trace)[index] == state_after(start, trace.take(index)).frame_for(
            trace[index].event,
            trace[index].at,
        ),
    decreases trace.len(),
{
    lemma_run_shape(start, trace);
    let front = trace.drop_last();
    lemma_run_shape(start, front);
    if index < trace.len() - 1 {
        lemma_frame_at(start, front, index);
        assert(front.take(index) =~= trace.take(index));
    } else {
        assert(trace.take(index) =~= front);
    }
}

/// A subscriber is only ever sent messages of its own group: a content
/// frame carries the very message whose publication it answers, and that
/// message is one of the subscribed group.
pub proof fn lemma_only_own_group(start: Subscription, trace: Seq<Arrival>, index: int)
    requires
        0 <= index < trace.len(),
    ensures
        frames_of(start, trace)[index] matches Frame::Content(m) ==> m.in_group(start.group_id@)
            && trace[index].event == TapEvent::Published(m),
{
    lemma_frame_at(start, trace, index);
    lemma_run_shape(start, trace.take(index));
}

/// A closed subscription stays closed and sends nothing but the end.
pub proof fn lemma_closed_is_terminal(start: Subscription, trace: Seq<Arrival>)
    requires
        !start.is_open(),
    ensures
        state_after(start, trace) == start,
        forall|i: int| 0 <= i < trace.len() ==> (#[trigger] frames_of(start, trace)[i]) == Frame::End,
    decreases trace.len(),
{
    if trace.len() > 0 {
        lemma_closed_is_terminal(start, trace.drop_last());
        lemma_run_shape(start, trace.drop_last());
    }
}

/// An open subscription passes on every message that is published for its
/// group before the first terminal event, each once and in the order of
/// publication, and no other message.
pub proof fn lemma_delivers_in_order(start: Subscription, trace: Seq<Arrival>)
    requires
        start.is_open(),
    ensures
        contents(frames_of(start, trace)) == published_for(start.group_id@, trace),
    decreases trace.len(),
{
    if trace.len() > 0 {
        let front = trace.drop_last();
        lemma_delivers_in_order(start, front);
        lemma_run_shape(start, front);
        assert(frames_of(start, trace).drop_last() =~= frames_of(start, front));
    }
}

/// A message reaches the subscribers of its group and no subscriber of
/// another group.
pub proof fn lemma_group_isolation(
    member: Subscription,
    outsider: Subscription,
    message: Message,
    now: u64,
)
    requires
        member.is_open(),
        message.in_group(member.group_id@),
        !message.in_group(outsider.group_id@),
    ensures
        member.frame_for(TapEvent::Published(message), now) == Frame::Content(message),
        !(outsider.frame_for(TapEvent::Published(message), now) is Content),
        outsider.after(TapEvent::Published(message), now) == outsider.after(TapEvent::Quiet, now),
{
}

/// What one subscription is sent does not depend on another subscription:
/// whether or not `other` has been disconnected, `member` gets the message.
pub proof fn lemma_disconnect_is_local(
    member: Subscription,
    other: Subscription,
    message: Message,
    now: u64,
)
    requires
        member.is_open(),
        message.in_group(member.group_id@),
    ensures
        !other.after(TapEvent::Disconnected, now).is_open(),
        member.frame_for(TapEvent::Published(message), now) == Frame::Content(message),
        member.after(TapEvent::Published(message), now).is_open(),
{
}

/// While nothing is published for its group, an open subscription sends no
/// content frame and stays open; each frame is a heartbeat or nothing.
pub proof fn lemma_silence_sends_no_content(start: Subscription, trace: Seq<Arrival>)
    requires
        start.is_open(),
        silent_for(start.group_id@, trace),
    ensures
        contents(frames_of(start, trace)) == Seq::<Message>::empty(),
        state_after(start, trace).is_open(),
        forall|i: int|
            0 <= i < trace.len() ==> (#[trigger] frames_of(start, trace)[i]) == Frame::Heartbeat
                || frames_of(start, trace)[i] == Frame::Nothing,
    decreases trace.len(),
{
    if trace.len() > 0 {
        let front = trace.drop_last();
        assert(silent_for(start.group_id@, front)) by {
            assert forall|i: int| 0 <= i < front.len() implies !(#[trigger] front[i]).event.is_terminal()
                && !front[i].event.carries_for(start.group_id@) by {
                assert(front[i] == trace[i]);
            }
        }
        lemma_silence_sends_no_content(start, front);
        lemma_run_shape(start, front);
        assert(trace.last() == trace[trace.len() - 1]);
        assert(frames_of(start, trace).drop_last() =~= frames_of(start, front));
    }
}

/// In silence, with the tap looked at once at the end of each interval, a
/// subscription sends exactly one heartbeat per interval: the arrival
/// number `i` comes `i + 1` intervals after the last frame and is answered
/// by a heartbeat.
pub proof fn lemma_one_heartbeat_per_interval(start: Subscription, trace: Seq<Arrival>)
    requires
        start.is_open(),
        silent_for(start.group_id@, trace),
        forall|i: int|
            0 <= i < trace.len() ==> (#[trigger] trace[i]).at == start.last_frame_at + (i + 1)
                * HEARTBEAT_INTERVAL_MS,
    ensures
        forall|i: int| 0 <= i < trace.len() ==> (#[trigger] frames_of(start, trace)[i]) == Frame::Heartbeat,
        trace.len() > 0 ==> state_after(start, trace).last_frame_at == trace.last().at,
        state_after(start, trace).is_open(),
    decreases trace.len(),
{
    if trace.len() > 0 {
        let front = trace.drop_last();
        assert forall|i: int| 0 <= i < front.len() implies !(#[trigger] front[i]).event.is_terminal()
            && !front[i].event.carries_for(start.group_id@) && front[i].at == start.last_frame_at + (i
            + 1) * HEARTBEAT_INTERVAL_MS by {
            assert(front[i] == trace[i]);
        }
        lemma_one_heartbeat_per_interval(start, front);
        lemma_run_shape(start, front);
        assert(trace.last() == trace[trace.len() - 1]);
        if front.len() > 0 {
            assert(front.last() == front[front.len() - 1]);
        }
        assert(frames_of(start, trace).drop_last() =~= frames_of(start, front));
    }
}

/// In silence, no heartbeat goes out before a whole interval has passed
/// since the last frame.
pub proof fn lemma_no_heartbeat_within_interval(start: Subscription, trace: Seq<Arrival>)
    requires
        start.is_open(),
        silent_for(start.group_id@, trace),
        forall|i: int|
            0 <= i < trace.len() ==> (#[trigger] trace[i]).at < start.last_frame_at
                + HEARTBEAT_INTERVAL_MS,
    ensures
        forall|i: int| 0 <= i < trace.len() ==> (#[trigger] frames_of(start, trace)[i]) == Frame::Nothing,
        state_after(start, trace) == start,
    decreases trace.len(),
{
    if trace.len() > 0 {
        let front = trace.drop_last();
        assert forall|i: int| 0 <= i < front.len() implies !(#[trigger] front[i]).event.is_terminal()
            && !front[i].event.carries_for(start.group_id@) && front[i].at < start.last_frame_at
            + HEARTBEAT_INTERVAL_MS by {
            assert(front[i] == trace[i]);
        }
        lemma_no_heartbeat_within_interval(start, front);
        lemma_run_shape(start, front);
        assert(trace.last() == trace[trace.len() - 1]);
        assert(frames_of(start, trace).drop_last() =~= frames_of(start, front));
    }
}

/// The clock readings of the trace never go back.
pub open spec fn in_time_order(trace: Seq<Arrival>) -> bool {
    forall|i: int, j: int| 0 <= i <= j < trace.len() ==> (#[trigger] trace[i]).at <= (#[trigger] trace[j]).at
}

/// The frame carries something: a message or a heartbeat.
pub open spec fn goes_out(frame: Frame) -> bool {
    frame is Content || frame is Heartbeat
}

/// Under a clock that never goes back, the subscription remembers a
/// reading no earlier than that of any frame that has gone out.
pub proof fn lemma_last_frame_is_remembered(
    start: Subscription,
    trace: Seq<Arrival>,
    sent: int,
    upto: int,
)
    requires
        in_time_order(trace),
        0 <= sent < upto <= trace.len(),
        goes_out(frames_of(start, trace)[sent]),
    ensures
        state_after(start, trace.take(upto)).last_frame_at >= trace[sent].at,
    decreases upto - sent,
{
    lemma_frame_at(start, trace, sent);
    let front = trace.take(upto - 1);
    assert(trace.take(upto).drop_last() =~= front);
    assert(trace.take(upto).last() == trace[upto - 1]);
    if upto - 1 > sent {
        lemma_last_frame_is_remembered(start, trace, sent, upto - 1);
    } else {
        assert(front =~= trace.take(sent));
    }
}

/// Under a clock that never goes back, a heartbeat follows no frame by
/// less than a whole interval: there is at most one heartbeat per
/// interval, and none within an interval after a message.
pub proof fn lemma_heartbeats_are_spaced(
    start: Subscription,
    trace: Seq<Arrival>,
    earlier: int,
    later: int,
)
    requires
        in_time_order(trace),
        0 <= earlier < later < trace.len(),
        goes_out(frames_of(start, trace)[earlier]),
        frames_of(start, trace)[later] == Frame::Heartbeat,
    ensures
        trace[later].at - trace[earlier].at >= HEARTBEAT_INTERVAL_MS,
{
    lemma_last_frame_is_remembered(start, trace, earlier, later);
    lemma_frame_at(start, trace, later);
}

} // verus!
