//! The broadcast hub: one shared fan-out channel with bounded capacity.
//! Every session publishes to it and subscribes to it. Each entry carries
//! the publishing session's identity so a session's own send path can skip
//! its echo. A subscriber that falls behind by more than the capacity is
//! told how many entries it missed and resumes from the oldest retained
//! entry; it never blocks a publisher and never corrupts another
//! subscriber's stream (each subscriber has its own cursor).
//!
//! The hub's whole behaviour is given by pure transition functions
//! (`spec_publish`, `spec_subscribe`, `spec_unsubscribe`, `spec_try_recv`)
//! over `HubView`; every method's contract says the new state is exactly
//! the transition of the old one.

use vstd::prelude::*;

use crate::message::{Message, MessageView};

verus! {

/// One published entry: a message tagged with its publisher's session id.
pub struct HubEntry {
    pub publisher: u64,
    pub message: Message,
}

/// Mathematical value of a `HubEntry`.
pub struct HubEntryView {
    pub publisher: u64,
    pub message: MessageView,
}

impl View for HubEntry {
    type V = HubEntryView;

    open spec fn view(&self) -> HubEntryView {
        HubEntryView { publisher: self.publisher, message: self.message@ }
    }
}

/// What one receive attempt by a subscriber yields.
pub enum RecvOutcome {
    /// No entry past the subscriber's cursor yet; the subscriber waits.
    Empty,
    /// The next entry in publication order.
    Entry(HubEntry),
    /// The subscriber fell behind by this many entries; it resumes at the
    /// oldest entry the hub still retains.
    Lagged(u64),
    /// The hub is closed and this subscriber has seen everything.
    Closed,
}

/// Mathematical value of a `RecvOutcome`.
pub enum RecvOutcomeView {
    Empty,
    Entry(HubEntryView),
    Lagged(u64),
    Closed,
}

impl View for RecvOutcome {
    type V = RecvOutcomeView;

    open spec fn view(&self) -> RecvOutcomeView {
        match self {
            RecvOutcome::Empty => RecvOutcomeView::Empty,
            RecvOutcome::Entry(e) => RecvOutcomeView::Entry(e@),
            RecvOutcome::Lagged(n) => RecvOutcomeView::Lagged(*n),
            RecvOutcome::Closed => RecvOutcomeView::Closed,
        }
    }
}

/// Mathematical state of the hub.
///
/// `history` is every entry ever accepted, in the one total publication
/// order that all subscribers observe. The hub retains only the entries
/// from `first` on; older ones have been evicted. `cursors[s]` is the next
/// history index subscriber `s` will read, or `None` once it unsubscribed.
#[verifier::ext_equal]
pub struct HubView {
    pub capacity: nat,
    pub history: Seq<HubEntryView>,
    pub first: nat,
    pub cursors: Seq<Option<u64>>,
    pub closed: bool,
}

/// True when some subscriber is active, so a published entry is kept.
pub open spec fn spec_accepts(h: HubView) -> bool {
    exists|i: int| 0 <= i < h.cursors.len() && h.cursors[i] is Some
}

/// Publishing appends the tagged entry to the history and evicts the
/// oldest retained entry if the hub is full. With no subscriber, or after
/// close, the entry is dropped and the state unchanged.
pub open spec fn spec_publish(h: HubView, publisher: u64, message: MessageView) -> HubView {
    if h.closed || !spec_accepts(h) {
        h
    } else {
        HubView {
            capacity: h.capacity,
            history: h.history.push(HubEntryView { publisher, message }),
            first: if h.history.len() - h.first >= h.capacity {
                h.first + 1
            } else {
                h.first
            },
            cursors: h.cursors,
            closed: h.closed,
        }
    }
}

/// Subscribing adds a cursor at the end of the history: the new subscriber
/// observes only entries published after the call, no replay.
pub open spec fn spec_subscribe(h: HubView) -> HubView {
    HubView {
        capacity: h.capacity,
        history: h.history,
        first: h.first,
        cursors: h.cursors.push(Some(h.history.len() as u64)),
        closed: h.closed,
    }
}

/// Unsubscribing clears one cursor and touches nothing else.
pub open spec fn spec_unsubscribe(h: HubView, slot: int) -> HubView {
    HubView {
        capacity: h.capacity,
        history: h.history,
        first: h.first,
        cursors: h.cursors.update(slot, None),
        closed: h.closed,
    }
}

/// One receive attempt by the subscriber at `slot`: the new hub state and
/// the outcome.
pub open spec fn spec_try_recv(h: HubView, slot: int) -> (HubView, RecvOutcomeView)
    recommends
        0 <= slot < h.cursors.len(),
        h.cursors[slot] is Some,
{
    let c = h.cursors[slot]->Some_0;
    if c < h.first {
        (
            HubView {
                capacity: h.capacity,
                history: h.history,
                first: h.first,
                cursors: h.cursors.update(slot, Some(h.first as u64)),
                closed: h.closed,
            },
            RecvOutcomeView::Lagged((h.first - c) as u64),
        )
    } else if c < h.history.len() {
        (
            HubView {
                capacity: h.capacity,
                history: h.history,
                first: h.first,
                cursors: h.cursors.update(slot, Some((c + 1) as u64)),
                closed: h.closed,
            },
            RecvOutcomeView::Entry(h.history[c as int]),
        )
    } else {
        (h, if h.closed {
            RecvOutcomeView::Closed
        } else {
            RecvOutcomeView::Empty
        })
    }
}

/// The shared fan-out channel. It retains the newest `capacity` entries;
/// the full publication order lives in the ghost history.
pub struct Hub {
    capacity: usize,
    entries: Vec<HubEntry>,
    total: u64,
    cursors: Vec<Option<u64>>,
    closed: bool,
    history: Ghost<Seq<HubEntryView>>,
}

impl View for Hub {
    type V = HubView;

    closed spec fn view(&self) -> HubView {
        HubView {
            capacity: self.capacity as nat,
            history: self.history@,
            first: (self.total - self.entries@.len()) as nat,
            cursors: self.cursors@,
            closed: self.closed,
        }
    }
}

impl Hub {
    /// Internal well-formedness: the retained entries are exactly the tail
    /// of the history, and every cursor lies within the history. Every
    /// constructor establishes it and every method preserves it.
    pub closed spec fn wf(&self) -> bool {
        &&& self.capacity >= 1
        &&& self.history@.len() == self.total
        &&& self.entries@.len() <= self.total
        &&& self.entries@.len() <= self.capacity
        &&& forall|i: int|
            0 <= i < self.entries@.len() ==> self.entries@[i]@ == self.history@[self.total
                - self.entries@.len() + i]
        &&& forall|s: int|
            0 <= s < self.cursors@.len() ==> (#[trigger] self.cursors@[s] matches Some(c) ==> c
                <= self.total)
    }

    /// Creates an empty hub that retains at most `capacity` entries.
    pub fn new(capacity: usize) -> (r: Hub)
        requires
            capacity >= 1,
        ensures
            r.wf(),
            r@ == (HubView {
                capacity: capacity as nat,
                history: Seq::<HubEntryView>::empty(),
                first: 0nat,
                cursors: Seq::<Option<u64>>::empty(),
                closed: false,
            }),
    {
        let r = Hub {
            capacity,
            entries: Vec::new(),
            total: 0,
            cursors: Vec::new(),
            closed: false,
            history: Ghost(Seq::empty()),
        };
        proof {
            assert(r@ =~= HubView {
                capacity: capacity as nat,
                history: Seq::<HubEntryView>::empty(),
                first: 0nat,
                cursors: Seq::<Option<u64>>::empty(),
                closed: false,
            });
        }
        r
    }

    /// How many entries were ever accepted.
    pub fn published_total(&self) -> (r: u64)
        requires
            self.wf(),
        ensures
            r == self@.history.len(),
    {
        self.total
    }

    /// How many subscriber slots exist, active or not.
    pub fn slot_count(&self) -> (r: usize)
        ensures
            r == self@.cursors.len(),
    {
        self.cursors.len()
    }

    /// Whether the subscriber at `slot` is still subscribed.
    pub fn is_subscribed(&self, slot: usize) -> (r: bool)
        requires
            slot < self@.cursors.len(),
        ensures
            r == (self@.cursors[slot as int] is Some),
    {
        self.cursors[slot].is_some()
    }

    /// Whether the hub was closed.
    pub fn is_closed(&self) -> (r: bool)
        ensures
            r == self@.closed,
    {
        self.closed
    }

    /// Closes the hub: no further entry is accepted; subscribers drain
    /// what is left and then see `Closed`.
    pub fn close(&mut self)
        requires
            old(self).wf(),
        ensures
            final(self).wf(),
            final(self)@ == (HubView {
                capacity: old(self)@.capacity,
                history: old(self)@.history,
                first: old(self)@.first,
                cursors: old(self)@.cursors,
                closed: true,
            }),
    {
        self.closed = true;
    }

    /// Adds a subscriber; it will observe only entries published after
    /// this call. Returns the subscriber's slot.
    pub fn subscribe(&mut self) -> (slot: usize)
        requires
            old(self).wf(),
        ensures
            final(self).wf(),
            final(self)@ == spec_subscribe(old(self)@),
            slot == old(self)@.cursors.len(),
            final(self)@.cursors[slot as int] == Some(old(self)@.history.len() as u64),
    {
        let slot = self.cursors.len();
        let c = self.total;
        self.cursors.push(Some(c));
        proof {
            assert(final(self)@ =~= spec_subscribe(old(self)@));
        }
        slot
    }

    /// Removes the subscriber at `slot`. Nothing else changes: the history
    /// and every other subscriber's cursor stay as they were.
    pub fn unsubscribe(&mut self, slot: usize)
        requires
            old(self).wf(),
            slot < old(self)@.cursors.len(),
        ensures
            final(self).wf(),
            final(self)@ == spec_unsubscribe(old(self)@, slot as int),
    {
        self.cursors[slot] = None;
        proof {
            assert(final(self)@ =~= spec_unsubscribe(old(self)@, slot as int));
        }
    }

    /// Whether any subscriber is active.
    pub fn has_subscribers(&self) -> (r: bool)
        ensures
            r == spec_accepts(self@),
    {
        let n = self.cursors.len();
        let mut i: usize = 0;
        while i < n
            invariant
                n == self.cursors@.len(),
                0 <= i <= n,
                forall|j: int| 0 <= j < i ==> self.cursors@[j] is None,
            decreases n - i,
        {
            if self.cursors[i].is_some() {
                return true;
            }
            i = i + 1;
        }
        false
    }

    /// Publishes an entry tagged with the publishing session's identity.
    /// Never blocks; with no active subscriber (or after close) the entry
    /// is dropped and `false` is returned.
    pub fn publish(&mut self, publisher: u64, message: Message) -> (accepted: bool)
        requires
            old(self).wf(),
            old(self)@.history.len() < u64::MAX,
        ensures
            final(self).wf(),
            final(self)@ == spec_publish(old(self)@, publisher, message@),
            accepted == (!old(self)@.closed && spec_accepts(old(self)@)),
    {
        if self.closed {
            return false;
        }
        if !self.has_subscribers() {
            return false;
        }
        let entry = HubEntry { publisher, message };
        let ghost ev = entry@;
        self.entries.push(entry);
        if self.entries.len() > self.capacity {
            self.entries.remove(0);
        }
        self.total = self.total + 1;
        proof {
            self.history@ = self.history@.push(ev);
        }
        proof {
            assert(final(self)@ =~= spec_publish(old(self)@, publisher, ev.message));
        }
        true
    }

    /// One receive attempt by the subscriber at `slot`: the next entry in
    /// publication order, a lag report with the number of missed entries,
    /// `Empty` when it has seen everything published so far, or `Closed`
    /// when it has and the hub is closed.
    pub fn try_recv(&mut self, slot: usize) -> (r: RecvOutcome)
        requires
            old(self).wf(),
            slot < old(self)@.cursors.len(),
            old(self)@.cursors[slot as int] is Some,
        ensures
            final(self).wf(),
            final(self)@ == spec_try_recv(old(self)@, slot as int).0,
            r@ == spec_try_recv(old(self)@, slot as int).1,
    {
        let c = match self.cursors[slot] {
            Some(c) => c,
            None => {
                proof {
                    assert(false);
                }
                0
            },
        };
        let first = self.total - (self.entries.len() as u64);
        if c < first {
            let missed = first - c;
            self.cursors[slot] = Some(first);
            proof {
                assert(final(self)@ =~= spec_try_recv(old(self)@, slot as int).0);
            }
            RecvOutcome::Lagged(missed)
        } else if c < self.total {
            let idx = (c - first) as usize;
            let entry = &self.entries[idx];
            let out = HubEntry { publisher: entry.publisher, message: entry.message.duplicate() };
            self.cursors[slot] = Some(c + 1);
            proof {
                assert(final(self)@ =~= spec_try_recv(old(self)@, slot as int).0);
            }
            RecvOutcome::Entry(out)
        } else {
            proof {
                assert(final(self)@ =~= spec_try_recv(old(self)@, slot as int).0);
            }
            if self.closed {
                RecvOutcome::Closed
            } else {
                RecvOutcome::Empty
            }
        }
    }
}

} // verus!
