//! Domain events and the broadcast event bus.
//!
//! The bus is a multi-producer, multi-consumer broadcast log with a bounded
//! retention window. A receiver observes every event published after its
//! subscription, in publish order; a receiver that falls more than the bus's
//! capacity behind misses the overwritten events and is told how many it
//! missed. Delivery is best-effort per receiver: callers that need an event
//! for certain must subscribe before it can be published.
use vstd::prelude::*;

use crate::commands::Action;
use crate::commands::ActionView;
use crate::state::Item;
use crate::state::ItemView;

verus! {

/// A domain event, immutable and cloned on fan-out. This is a closed variant
/// set spanning query changes, result updates, selection and activation,
/// navigation, mode switches, and application lifecycle.
#[derive(Debug, PartialEq)]
pub enum AppEvent {
    QueryChanged(String),
    ResultsUpdated(Vec<Item>),
    ItemSelected(u128),
    ItemActivated(u128, Action),
    MoveUp,
    MoveDown,
    PageUp,
    PageDown,
    EnterCommandMode,
    ExitToSearch,
    ApplicationStarted,
    ApplicationClosing,
}

/// Mathematical model of an `AppEvent`.
pub ghost enum AppEventView {
    QueryChanged(Seq<char>),
    ResultsUpdated(Seq<ItemView>),
    ItemSelected(u128),
    ItemActivated(u128, ActionView),
    MoveUp,
    MoveDown,
    PageUp,
    PageDown,
    EnterCommandMode,
    ExitToSearch,
    ApplicationStarted,
    ApplicationClosing,
}

impl View for AppEvent {
    type V = AppEventView;

    open spec fn view(&self) -> AppEventView {
        match self {
            AppEvent::QueryChanged(q) => AppEventView::QueryChanged(q@),
            AppEvent::ResultsUpdated(items) => AppEventView::ResultsUpdated(
                items@.map_values(|it: Item| it@),
            ),
            AppEvent::ItemSelected(id) => AppEventView::ItemSelected(*id),
            AppEvent::ItemActivated(id, action) => AppEventView::ItemActivated(*id, action@),
            AppEvent::MoveUp => AppEventView::MoveUp,
            AppEvent::MoveDown => AppEventView::MoveDown,
            AppEvent::PageUp => AppEventView::PageUp,
            AppEvent::PageDown => AppEventView::PageDown,
            AppEvent::EnterCommandMode => AppEventView::EnterCommandMode,
            AppEvent::ExitToSearch => AppEventView::ExitToSearch,
            AppEvent::ApplicationStarted => AppEventView::ApplicationStarted,
            AppEvent::ApplicationClosing => AppEventView::ApplicationClosing,
        }
    }
}

impl Clone for AppEvent {
    fn clone(&self) -> (r: Self)
        ensures
            r@ == self@,
    {
        match self {
            AppEvent::QueryChanged(q) => AppEvent::QueryChanged(q.clone()),
            AppEvent::ResultsUpdated(items) => {
                let mut cloned_items: Vec<Item> = Vec::new();
                let mut i: usize = 0;
                while i < items.len()
                    invariant
                        i <= items.len(),
                        cloned_items@.len() == i as int,
                        forall|j: int| 0 <= j < i ==> cloned_items@[j]@ == items@[j]@,
                    decreases items.len() - i,
                {
                    cloned_items.push(items[i].clone());
                    i = i + 1;
                }
                proof {
                    assert(cloned_items@.map_values(|it: Item| it@) =~= items@.map_values(
                        |it: Item| it@,
                    ));
                }
                AppEvent::ResultsUpdated(cloned_items)
            },
            AppEvent::ItemSelected(id) => AppEvent::ItemSelected(*id),
            AppEvent::ItemActivated(id, action) => AppEvent::ItemActivated(*id, action.clone()),
            AppEvent::MoveUp => AppEvent::MoveUp,
            AppEvent::MoveDown => AppEvent::MoveDown,
            AppEvent::PageUp => AppEvent::PageUp,
            AppEvent::PageDown => AppEvent::PageDown,
            AppEvent::EnterCommandMode => AppEvent::EnterCommandMode,
            AppEvent::ExitToSearch => AppEvent::ExitToSearch,
            AppEvent::ApplicationStarted => AppEvent::ApplicationStarted,
            AppEvent::ApplicationClosing => AppEvent::ApplicationClosing,
        }
    }
}

/// Why `publish` can fail: broadcast needs at least one live receiver. The
/// undelivered event is handed back so the caller can subscribe and retry.
/// Callers treat this failure as non-fatal unless the event is
/// safety-critical.
#[derive(Debug, PartialEq)]
pub enum PublishError {
    NoReceivers(AppEvent),
}

/// Why `recv` can fail: the receiver has observed the whole log so far, or it
/// fell behind the bus's retention window and missed the given number of
/// events.
#[derive(Clone, Copy, Debug, PartialEq, Eq, Structural)]
pub enum RecvError {
    Empty,
    Lagged(usize),
}

/// What one `recv` yields, at the model level.
pub ghost enum RecvOutcome {
    Event(AppEventView),
    Lagged(int),
    Empty,
}

/// The retention window's lower edge: the log position of the oldest event a
/// bus with this log length and capacity still holds.
pub open spec fn oldest_retained(log_len: int, capacity: int) -> int {
    if log_len <= capacity {
        0
    } else {
        log_len - capacity
    }
}

/// The model of one `recv` on a bus with log `log` and capacity `capacity`,
/// by a receiver standing at `cursor`: the outcome and the receiver's next
/// cursor.
pub open spec fn recv_model(log: Seq<AppEventView>, capacity: int, cursor: int) -> (
    RecvOutcome,
    int,
) {
    let oldest = oldest_retained(log.len() as int, capacity);
    if cursor < oldest {
        (RecvOutcome::Lagged(oldest - cursor), oldest)
    } else if cursor < log.len() {
        (RecvOutcome::Event(log[cursor]), cursor + 1)
    } else {
        (RecvOutcome::Empty, cursor)
    }
}

/// An independent handle onto the bus's event log. It observes exactly the
/// events published after the `subscribe` call that created it.
pub struct EventReceiver {
    cursor: usize,
}

impl EventReceiver {
    /// The log position of the next event this receiver will observe.
    pub closed spec fn cursor(&self) -> int {
        self.cursor as int
    }
}

/// A broadcast channel of domain events: pure fan-out, no business state.
pub struct EventBus {
    /// The retained window of the log: events `dropped ..` of `log`.
    buffer: Vec<AppEvent>,
    /// How many events were discarded from the front of the log.
    dropped: usize,
    /// The bound on the retained window.
    capacity: usize,
    /// How many receivers are live.
    receivers: usize,
    /// Every event ever accepted, in publish order.
    log: Ghost<Seq<AppEventView>>,
}

/// The retention bound a bus gets when no other bound is asked for.
pub const DEFAULT_EVENT_CAPACITY: usize = 1000;

impl EventBus {
    /// Every event this bus ever accepted, in publish order.
    pub closed spec fn history(&self) -> Seq<AppEventView> {
        self.log@
    }

    /// The bound on how many events the bus retains for slow receivers.
    pub closed spec fn capacity(&self) -> int {
        self.capacity as int
    }

    /// How many receivers are live.
    pub closed spec fn receiver_count(&self) -> int {
        self.receivers as int
    }

    /// The bus's internal consistency: the retained window is exactly the
    /// newest `capacity` events of the log.
    pub closed spec fn wf(&self) -> bool {
        &&& self.capacity >= 1
        &&& self.log@.len() <= usize::MAX
        &&& self.dropped == oldest_retained(self.log@.len() as int, self.capacity as int)
        &&& self.dropped + self.buffer@.len() == self.log@.len()
        &&& forall|i: int|
            0 <= i < self.buffer@.len() ==> self.buffer@[i]@ == self.log@[self.dropped + i]
    }

    /// A bus that retains up to `capacity` events for slow receivers.
    pub fn with_capacity(capacity: usize) -> (r: Self)
        requires
            capacity >= 1,
        ensures
            r.wf(),
            r.history() == Seq::<AppEventView>::empty(),
            r.capacity() == capacity,
            r.receiver_count() == 0,
    {
        EventBus {
            buffer: Vec::new(),
            dropped: 0,
            capacity,
            receivers: 0,
            log: Ghost(Seq::empty()),
        }
    }

    /// A bus with the default retention bound.
    pub fn new() -> (r: Self)
        ensures
            r.wf(),
            r.history() == Seq::<AppEventView>::empty(),
            r.capacity() == DEFAULT_EVENT_CAPACITY,
            r.receiver_count() == 0,
    {
        Self::with_capacity(DEFAULT_EVENT_CAPACITY)
    }

    /// Returns a new independent receiver that will observe every event
    /// published after this call, and none published before.
    pub fn subscribe(&mut self) -> (r: EventReceiver)
        requires
            old(self).wf(),
            old(self).receiver_count() < usize::MAX,
        ensures
            final(self).wf(),
            final(self).history() == old(self).history(),
            final(self).capacity() == old(self).capacity(),
            final(self).receiver_count() == old(self).receiver_count() + 1,
            final(self).receiver_count() >= 1,
            r.cursor() == old(self).history().len(),
    {
        self.receivers = self.receivers + 1;
        EventReceiver { cursor: self.dropped + self.buffer.len() }
    }

    /// Takes one receiver out of the bus's count. A bus whose count reaches
    /// zero refuses further publishes until someone subscribes again.
    pub fn drop_receiver(&mut self, receiver: EventReceiver)
        requires
            old(self).wf(),
            old(self).receiver_count() >= 1,
        ensures
            final(self).wf(),
            final(self).history() == old(self).history(),
            final(self).capacity() == old(self).capacity(),
            final(self).receiver_count() == old(self).receiver_count() - 1,
    {
        let _ = receiver;
        self.receivers = self.receivers - 1;
    }

    /// Broadcasts `event` to every live receiver and never blocks the
    /// publisher. Fails exactly when there are zero live receivers, in which
    /// case the event is not kept. On success returns how many receivers were
    /// live.
    pub fn publish(&mut self, event: AppEvent) -> (r: Result<usize, PublishError>)
        requires
            old(self).wf(),
            old(self).history().len() < usize::MAX,
        ensures
            final(self).wf(),
            final(self).capacity() == old(self).capacity(),
            final(self).receiver_count() == old(self).receiver_count(),
            old(self).receiver_count() == 0 ==> (r matches Err(PublishError::NoReceivers(e))
                && e@ == event@) && final(self).history() == old(self).history(),
            old(self).receiver_count() > 0 ==> (r matches Ok(n) && n as int == old(
                self,
            ).receiver_count()) && final(self).history() == old(self).history().push(event@),
    {
        if self.receivers == 0 {
            return Err(PublishError::NoReceivers(event));
        }
        proof {
            self.log@ = self.log@.push(event@);
        }
        self.buffer.push(event);
        if self.buffer.len() > self.capacity {
            let _ = self.buffer.remove(0);
            self.dropped = self.dropped + 1;
        }
        Ok(self.receivers)
    }

    /// One observation step by `receiver`: the next retained event if one is
    /// pending, `Empty` if the receiver is fully caught up, or `Lagged` with
    /// the number of missed events if the bus overwrote events the receiver
    /// had not seen yet (the receiver is then moved to the oldest retained
    /// event). The bus itself is unchanged by receiving.
    pub fn recv(&self, receiver: &mut EventReceiver) -> (r: Result<AppEvent, RecvError>)
        requires
            self.wf(),
            old(receiver).cursor() <= self.history().len(),
        ensures
            final(receiver).cursor() == recv_model(
                self.history(),
                self.capacity(),
                old(receiver).cursor(),
            ).1,
            final(receiver).cursor() <= self.history().len(),
            match r {
                Ok(event) => recv_model(self.history(), self.capacity(), old(receiver).cursor()).0
                    == RecvOutcome::Event(event@),
                Err(RecvError::Empty) => recv_model(
                    self.history(),
                    self.capacity(),
                    old(receiver).cursor(),
                ).0 == RecvOutcome::Empty,
                Err(RecvError::Lagged(missed)) => recv_model(
                    self.history(),
                    self.capacity(),
                    old(receiver).cursor(),
                ).0 == RecvOutcome::Lagged(missed as int),
            },
    {
        if receiver.cursor < self.dropped {
            let missed = self.dropped - receiver.cursor;
            receiver.cursor = self.dropped;
            Err(RecvError::Lagged(missed))
        } else if receiver.cursor - self.dropped < self.buffer.len() {
            let event = self.buffer[receiver.cursor - self.dropped].clone();
            receiver.cursor = receiver.cursor + 1;
            Ok(event)
        } else {
            Err(RecvError::Empty)
        }
    }
}

/// The events a receiver standing at `cursor` observes over `k` successive
/// `recv` calls on a bus with log `log` and capacity `capacity`. A lag yields
/// nothing and moves the cursor to the oldest retained event; an empty
/// outcome yields nothing and leaves the cursor alone.
pub open spec fn observed(log: Seq<AppEventView>, capacity: int, cursor: int, k: nat) -> Seq<
    AppEventView,
>
    decreases k,
{
    if k == 0 {
        Seq::empty()
    } else {
        let step = recv_model(log, capacity, cursor);
        match step.0 {
            RecvOutcome::Event(e) => seq![e] + observed(log, capacity, step.1, (k - 1) as nat),
            RecvOutcome::Lagged(_) => observed(log, capacity, step.1, (k - 1) as nat),
            RecvOutcome::Empty => observed(log, capacity, step.1, (k - 1) as nat),
        }
    }
}

/// Event ordering law: a receiver subscribed when the log held `earlier`
/// observes none of those events; once `later` has been published on top (and
/// fits the retention window), reading `later.len()` times yields exactly
/// `later`, in publish order.
pub proof fn law_event_ordering(
    earlier: Seq<AppEventView>,
    later: Seq<AppEventView>,
    capacity: int,
)
    requires
        capacity >= 1,
        later.len() <= capacity,
    ensures
        observed(earlier + later, capacity, earlier.len() as int, later.len()) == later,
    decreases later.len(),
{
    let log = earlier + later;
    let start = earlier.len() as int;
    if later.len() == 0 {
        assert(observed(log, capacity, start, 0) =~= later);
    } else {
        let oldest = oldest_retained(log.len() as int, capacity);
        assert(oldest <= start);
        assert(recv_model(log, capacity, start).0 == RecvOutcome::Event(later[0]));
        law_event_ordering(earlier.push(later[0]), later.drop_first(), capacity);
        assert(earlier.push(later[0]) + later.drop_first() =~= log);
        assert(observed(log, capacity, start + 1, (later.len() - 1) as nat)
            == later.drop_first());
        assert(seq![later[0]] + later.drop_first() =~= later);
    }
}

} // verus!
