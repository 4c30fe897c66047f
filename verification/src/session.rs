//! Per-connection session logic. A session owns one client socket, split
//! into an independent receive path and send path. The loops themselves
//! live with the I/O; what they decide at each step is here, as pure
//! functions with exact contracts:
//!
//! - the receive path turns each decoder step into an action: publish the
//!   decoded message (after a best-effort write to the persistence sink),
//!   stop cleanly on a graceful disconnect, or stop with an error;
//! - the send path turns each hub receive outcome into an action, skipping
//!   entries the session itself published so a client never hears its own
//!   echo.

use vstd::prelude::*;

use crate::codec::{DecodeResult, MessageError};
use crate::hub::{HubEntryView, HubView, RecvOutcomeView};
use crate::hub::{spec_accepts, spec_publish, spec_try_recv, spec_unsubscribe};
use crate::message::{Message, MessageView};

verus! {

/// What the receive path does after one decoder step.
pub enum RecvPathAction {
    /// Keep reading: no whole frame has arrived yet.
    KeepReading,
    /// Record the message to the persistence sink (best effort) and
    /// publish it to the hub, tagged with this session's identity.
    Publish(Message),
    /// The peer closed cleanly at a frame boundary: stop, not an error.
    StopGraceful,
    /// Transport fault or protocol violation: stop and report the error.
    StopError(MessageError),
}

/// Mathematical value of a `RecvPathAction`.
pub enum RecvPathActionView {
    KeepReading,
    Publish(MessageView),
    StopGraceful,
    StopError(MessageError),
}

impl View for RecvPathAction {
    type V = RecvPathActionView;

    open spec fn view(&self) -> RecvPathActionView {
        match self {
            RecvPathAction::KeepReading => RecvPathActionView::KeepReading,
            RecvPathAction::Publish(m) => RecvPathActionView::Publish(m@),
            RecvPathAction::StopGraceful => RecvPathActionView::StopGraceful,
            RecvPathAction::StopError(e) => RecvPathActionView::StopError(*e),
        }
    }
}

/// The receive path's decision for one decoder step. Every failure is
/// contained to this session: the action is at most to stop this session's
/// own loop.
pub fn receive_step(r: DecodeResult) -> (a: RecvPathAction)
    ensures
        r is NeedMore ==> a is KeepReading,
        (r matches DecodeResult::Frame { message, .. } ==> a matches RecvPathAction::Publish(m)
            && m@ == message@),
        (r matches DecodeResult::Failed(e) ==> a == (if e == MessageError::GracefulDisconnect {
            RecvPathAction::StopGraceful
        } else {
            RecvPathAction::StopError(e)
        })),
{
    match r {
        DecodeResult::NeedMore => RecvPathAction::KeepReading,
        DecodeResult::Frame { message, consumed: _ } => RecvPathAction::Publish(message),
        DecodeResult::Failed(MessageError::GracefulDisconnect) => RecvPathAction::StopGraceful,
        DecodeResult::Failed(e) => RecvPathAction::StopError(e),
    }
}

/// What the send path does with one hub receive outcome.
pub enum SendAction {
    /// Encode the message and write the frame to this session's socket.
    Forward(Message),
    /// The entry is this session's own echo: deliver nothing.
    Skip,
    /// Nothing new yet: wait for the next entry.
    Wait,
    /// The session fell behind and missed this many entries: log it and
    /// carry on from the oldest retained entry.
    LagNoted(u64),
    /// The hub is closed and drained: stop the send loop.
    Stop,
}

/// Mathematical value of a `SendAction`.
pub enum SendActionView {
    Forward(MessageView),
    Skip,
    Wait,
    LagNoted(u64),
    Stop,
}

impl View for SendAction {
    type V = SendActionView;

    open spec fn view(&self) -> SendActionView {
        match self {
            SendAction::Forward(m) => SendActionView::Forward(m@),
            SendAction::Skip => SendActionView::Skip,
            SendAction::Wait => SendActionView::Wait,
            SendAction::LagNoted(n) => SendActionView::LagNoted(*n),
            SendAction::Stop => SendActionView::Stop,
        }
    }
}

/// The send path's decision: forward every entry published by another
/// session, skip the session's own, note a lag, wait, or stop on closure.
pub open spec fn spec_send_step(own: u64, r: RecvOutcomeView) -> SendActionView {
    match r {
        RecvOutcomeView::Empty => SendActionView::Wait,
        RecvOutcomeView::Entry(e) => if e.publisher == own {
            SendActionView::Skip
        } else {
            SendActionView::Forward(e.message)
        },
        RecvOutcomeView::Lagged(n) => SendActionView::LagNoted(n),
        RecvOutcomeView::Closed => SendActionView::Stop,
    }
}

/// The send path's decision for one hub receive outcome, for the session
/// with identity `own`.
pub fn send_step(own: u64, r: crate::hub::RecvOutcome) -> (a: SendAction)
    ensures
        a@ == spec_send_step(own, r@),
{
    match r {
        crate::hub::RecvOutcome::Empty => SendAction::Wait,
        crate::hub::RecvOutcome::Entry(e) => {
            if e.publisher == own {
                SendAction::Skip
            } else {
                SendAction::Forward(e.message)
            }
        },
        crate::hub::RecvOutcome::Lagged(n) => SendAction::LagNoted(n),
        crate::hub::RecvOutcome::Closed => SendAction::Stop,
    }
}

/// Hands out session identities, each one exactly once.
pub struct SessionIdAllocator {
    next: u64,
}

impl SessionIdAllocator {
    /// True of every identity this allocator has already handed out.
    pub closed spec fn issued(&self, id: u64) -> bool {
        id < self.next
    }

    /// A fresh allocator: nothing issued yet.
    pub fn new() -> (r: SessionIdAllocator)
        ensures
            forall|id: u64| !r.issued(id),
    {
        SessionIdAllocator { next: 0 }
    }

    /// True once every representable identity has been issued.
    pub closed spec fn exhausted(&self) -> bool {
        self.next == u64::MAX
    }

    /// Whether the allocator has run out of identities.
    pub fn is_exhausted(&self) -> (r: bool)
        ensures
            r == self.exhausted(),
    {
        self.next == u64::MAX
    }

    /// Issues the next identity: never one issued before.
    pub fn allocate(&mut self) -> (id: u64)
        requires
            !old(self).exhausted(),
        ensures
            !old(self).issued(id),
            final(self).issued(id),
            forall|o: u64| old(self).issued(o) ==> final(self).issued(o) && o != id,
    {
        let id = self.next;
        self.next = self.next + 1;
        id
    }
}

/// A session's send path never forwards an entry the session itself
/// published, and always forwards one published by any other session.
pub proof fn lemma_no_self_echo(own: u64, e: HubEntryView)
    ensures
        e.publisher == own ==> spec_send_step(own, RecvOutcomeView::Entry(e))
            == SendActionView::Skip,
        e.publisher != own ==> spec_send_step(own, RecvOutcomeView::Entry(e))
            == SendActionView::Forward(e.message),
{
}

/// Broadcast exclusion: when session `a` publishes message `m` to a hub
/// with a subscriber at `slot` that has seen everything published so far,
/// that subscriber's next receive yields exactly the new entry — once, and
/// ahead of anything published later — and a receive after that finds
/// nothing more. The publishing session's own send path skips the entry.
pub proof fn lemma_broadcast_exclusion(h: HubView, a: u64, m: MessageView, slot: int)
    requires
        !h.closed,
        spec_accepts(h),
        h.capacity >= 1,
        0 <= slot < h.cursors.len(),
        h.cursors[slot] == Some(h.history.len() as u64),
        h.history.len() < u64::MAX,
        h.first <= h.history.len(),
    ensures
        ({
            let e = HubEntryView { publisher: a, message: m };
            let h2 = spec_publish(h, a, m);
            let (h3, got) = spec_try_recv(h2, slot);
            &&& got == RecvOutcomeView::Entry(e)
            &&& spec_try_recv(h3, slot).1 == RecvOutcomeView::Empty
            &&& spec_send_step(a, got) == SendActionView::Skip
            &&& forall|other: u64|
                other != a ==> #[trigger] spec_send_step(other, got) == SendActionView::Forward(m)
        }),
{
    let e = HubEntryView { publisher: a, message: m };
    let h2 = spec_publish(h, a, m);
    let c = h.history.len() as u64;
    assert(h2.history == h.history.push(e));
    assert(h2.history[c as int] == e);
    assert(h2.first <= h.history.len());
    let (h3, got) = spec_try_recv(h2, slot);
    assert(got == RecvOutcomeView::Entry(e));
    assert(h3.cursors[slot] == Some((c + 1) as u64));
    assert(spec_try_recv(h3, slot).1 == RecvOutcomeView::Empty);
}

/// Publication order is delivery order: after one entry is published and
/// then another, by any sessions, a subscriber that had seen everything
/// receives the first strictly before the second.
pub proof fn lemma_publish_order(
    h: HubView,
    a1: u64,
    m1: MessageView,
    a2: u64,
    m2: MessageView,
    slot: int,
)
    requires
        !h.closed,
        spec_accepts(h),
        h.capacity >= 2,
        0 <= slot < h.cursors.len(),
        h.cursors[slot] == Some(h.history.len() as u64),
        h.history.len() + 1 < u64::MAX,
        h.first <= h.history.len(),
    ensures
        ({
            let e1 = HubEntryView { publisher: a1, message: m1 };
            let e2 = HubEntryView { publisher: a2, message: m2 };
            let h2 = spec_publish(spec_publish(h, a1, m1), a2, m2);
            let (h3, got1) = spec_try_recv(h2, slot);
            let (_, got2) = spec_try_recv(h3, slot);
            &&& got1 == RecvOutcomeView::Entry(e1)
            &&& got2 == RecvOutcomeView::Entry(e2)
        }),
{
    let e1 = HubEntryView { publisher: a1, message: m1 };
    let e2 = HubEntryView { publisher: a2, message: m2 };
    let c = h.history.len() as u64;
    let h1 = spec_publish(h, a1, m1);
    assert(spec_accepts(h1));
    let h2 = spec_publish(h1, a2, m2);
    assert(h2.history == h.history.push(e1).push(e2));
    assert(h2.first <= c);
    assert(h2.history[c as int] == e1);
    assert(h2.history[c + 1] == e2);
    let (h3, got1) = spec_try_recv(h2, slot);
    assert(got1 == RecvOutcomeView::Entry(e1));
    assert(h3.cursors[slot] == Some((c + 1) as u64));
}

/// Fan-out under disconnect: after the subscriber at `gone` unsubscribes,
/// a publish by session `a` is still accepted on behalf of the subscriber
/// at `slot`, and what `slot` receives next is exactly what it would have
/// received had `gone` stayed connected.
pub proof fn lemma_fanout_under_disconnect(h: HubView, gone: int, a: u64, m: MessageView, slot: int)
    requires
        !h.closed,
        0 <= gone < h.cursors.len(),
        0 <= slot < h.cursors.len(),
        slot != gone,
        h.cursors[slot] is Some,
    ensures
        ({
            let h2 = spec_unsubscribe(h, gone);
            &&& spec_accepts(h2)
            &&& spec_publish(h2, a, m).history == spec_publish(h, a, m).history
            &&& spec_try_recv(spec_publish(h2, a, m), slot).1 == spec_try_recv(
                spec_publish(h, a, m),
                slot,
            ).1
        }),
{
    let h2 = spec_unsubscribe(h, gone);
    assert(h2.cursors[slot] is Some);
    assert(spec_accepts(h2));
    assert(spec_accepts(h));
}

} // verus!
