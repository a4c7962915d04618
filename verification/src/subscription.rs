//! One registered handler's live view of the event stream.
//!
//! A subscription binds a handler — any capability that consumes an immutable
//! byte payload and may fail — to one subscriber cursor of the bus. It hands
//! the handler each delivered payload in order. The first handler error is
//! terminal: the subscription stops, keeps the error as its outcome, and never
//! retries (a handler that wants retries implements them internally). A closed
//! bus or an observed shutdown ends the subscription normally, and once it is
//! no longer running no further handler invocation begins.

use vstd::prelude::*;

use crate::bus::EventBus;
use crate::bus::RecvOutcome;
use crate::bus::lemma_others_unchanged_trans;
use crate::bus::others_unchanged;

verus! {

/// A consumer of payloads. Implementations decide what the bytes mean —
/// decoding is entirely their affair — and may fail, which ends their
/// subscription.
pub trait GameStateHandler {
    /// Consume one payload. An error is terminal for the subscription that
    /// delivered it.
    fn handle(&mut self, payload: &Vec<u8>) -> Result<(), String>;
}

/// Where a subscription stands.
#[derive(Debug, Clone, PartialEq, Eq)]
pub enum SubscriptionStatus {
    /// Still consuming payloads.
    Running,
    /// Ended normally: the bus closed or shutdown was observed.
    Finished,
    /// Ended by a handler error or a backlog overflow; the message is the
    /// subscription's terminal outcome.
    Failed(String),
}

/// What woke a running subscription.
pub enum SubscriptionEvent {
    /// The next payload arrived.
    Delivery(Vec<u8>),
    /// The bus is closed and drained: no payload will ever come.
    BusClosed,
    /// The shutdown signal was observed before the next payload.
    ShutdownObserved,
    /// This subscriber's backlog overflowed; it was failed by the bus.
    Overflowed,
}

/// A handler bound to one subscriber cursor. `seen` is the ghost record of
/// every payload handed to the handler, in delivery order.
pub struct HandlerSubscription<H: GameStateHandler> {
    handler: H,
    status: SubscriptionStatus,
    seen: Ghost<Seq<Seq<u8>>>,
}

impl<H: GameStateHandler> HandlerSubscription<H> {
    /// Where this subscription stands.
    pub closed spec fn status(self) -> SubscriptionStatus {
        self.status
    }

    /// Every payload handed to the handler so far, in delivery order.
    pub closed spec fn seen(self) -> Seq<Seq<u8>> {
        self.seen@
    }

    /// The bound handler.
    pub closed spec fn handler_view(self) -> H {
        self.handler
    }

    /// The subscription is still consuming payloads.
    pub open spec fn is_running(self) -> bool {
        self.status() is Running
    }

    /// Bind a handler; the subscription starts out running with no payload
    /// seen.
    pub fn new(handler: H) -> (s: Self)
        ensures
            s.is_running(),
            s.seen() == Seq::<Seq<u8>>::empty(),
            s.handler_view() == handler,
    {
        HandlerSubscription { handler, status: SubscriptionStatus::Running, seen: Ghost(Seq::empty()) }
    }

    /// Whether the subscription is still running.
    pub fn running(&self) -> (b: bool)
        ensures
            b == self.is_running(),
    {
        matches!(self.status, SubscriptionStatus::Running)
    }

    /// This subscription's current status.
    pub fn current_status(&self) -> (r: &SubscriptionStatus)
        ensures
            *r == self.status(),
    {
        &self.status
    }

    /// Take the handler back, e.g. to inspect what it consumed.
    pub fn into_handler(self) -> (h: H)
        ensures
            h == self.handler_view(),
    {
        self.handler
    }

    /// React to one event. A delivered payload is handed to the handler, whose
    /// result is passed through: an error ends the subscription with that
    /// message. Closure and shutdown end it normally; an overflow ends it with
    /// an overflow message. Once the subscription is not running, no event
    /// does anything — in particular, no handler invocation begins.
    pub fn step(&mut self, event: SubscriptionEvent) -> (r: Result<(), String>)
        ensures
            !old(self).is_running() ==> *final(self) == *old(self) && r is Ok,
            old(self).is_running() ==> match event {
                SubscriptionEvent::Delivery(p) => {
                    &&& final(self).seen() == old(self).seen().push(p@)
                    &&& (r is Ok ==> final(self).is_running())
                    &&& (r matches Err(e) ==> final(self).status() == SubscriptionStatus::Failed(e))
                },
                SubscriptionEvent::BusClosed => {
                    &&& final(self).status() is Finished
                    &&& final(self).seen() == old(self).seen()
                    &&& r is Ok
                },
                SubscriptionEvent::ShutdownObserved => {
                    &&& final(self).status() is Finished
                    &&& final(self).seen() == old(self).seen()
                    &&& r is Ok
                },
                SubscriptionEvent::Overflowed => {
                    &&& final(self).seen() == old(self).seen()
                    &&& (r matches Err(e) ==> final(self).status()
                        == SubscriptionStatus::Failed(e) && e@ == "subscriber backlog overflowed"@)
                    &&& r is Err
                },
            },
            final(self).handler_view() == old(self).handler_view()
                || (old(self).is_running() && event is Delivery),
    {
        if !self.running() {
            return Ok(());
        }
        match event {
            SubscriptionEvent::Delivery(p) => {
                let res = self.handler.handle(&p);
                proof {
                    self.seen@ = self.seen@.push(p@);
                }
                match res {
                    Ok(()) => Ok(()),
                    Err(e) => {
                        let msg = e.clone();
                        self.status = SubscriptionStatus::Failed(e);
                        Err(msg)
                    },
                }
            },
            SubscriptionEvent::BusClosed => {
                self.status = SubscriptionStatus::Finished;
                Ok(())
            },
            SubscriptionEvent::ShutdownObserved => {
                self.status = SubscriptionStatus::Finished;
                Ok(())
            },
            SubscriptionEvent::Overflowed => {
                let msg = "subscriber backlog overflowed".to_owned();
                let msg2 = msg.clone();
                self.status = SubscriptionStatus::Failed(msg);
                Err(msg2)
            },
        }
    }
}

/// Hand this subscriber everything already pending on the bus, in delivery
/// order, until its backlog is empty, the bus is closed, or the subscription
/// ends. Payloads delivered here are exactly the payloads handed to the
/// handler, in the same order; if the subscription is still running afterward,
/// the backlog was drained and the bus is still open.
#[verifier::loop_isolation(false)]
pub fn drain<H: GameStateHandler>(
    sub: &mut HandlerSubscription<H>,
    bus: &mut EventBus,
    k: usize,
)
    requires
        old(bus).wf(),
        0 <= k < old(bus).num_subscribers(),
    ensures
        final(bus).wf(),
        final(bus).num_subscribers() == old(bus).num_subscribers(),
        final(bus).backlog_capacity() == old(bus).backlog_capacity(),
        final(bus).is_closed() == old(bus).is_closed(),
        final(bus).published() == old(bus).published(),
        others_unchanged(*old(bus), *final(bus), k as int),
        final(bus).delivered(k as int).take(old(bus).delivered(k as int).len() as int)
            == old(bus).delivered(k as int),
        final(bus).delivered(k as int).len() >= old(bus).delivered(k as int).len(),
        final(sub).seen() == old(sub).seen()
            + final(bus).delivered(k as int).skip(old(bus).delivered(k as int).len() as int),
        !old(sub).is_running() ==> *final(sub) == *old(sub) && *final(bus) == *old(bus),
        old(sub).is_running() && final(sub).is_running() ==> {
            &&& final(bus).pending(k as int).len() == 0
            &&& !final(bus).is_closed()
            &&& final(bus).is_live(k as int)
        },
{
    proof {
        assert(old(bus).delivered(k as int).take(old(bus).delivered(k as int).len() as int)
            =~= old(bus).delivered(k as int));
        assert(old(sub).seen()
            + old(bus).delivered(k as int).skip(old(bus).delivered(k as int).len() as int)
            =~= old(sub).seen());
    }
    if !sub.running() {
        return;
    }
    loop
        invariant
            bus.wf(),
            0 <= k < bus.num_subscribers(),
            bus.num_subscribers() == old(bus).num_subscribers(),
            bus.backlog_capacity() == old(bus).backlog_capacity(),
            bus.is_closed() == old(bus).is_closed(),
            bus.published() == old(bus).published(),
            others_unchanged(*old(bus), *bus, k as int),
            bus.delivered(k as int).take(old(bus).delivered(k as int).len() as int)
                == old(bus).delivered(k as int),
            bus.delivered(k as int).len() >= old(bus).delivered(k as int).len(),
            sub.seen() == old(sub).seen()
                + bus.delivered(k as int).skip(old(bus).delivered(k as int).len() as int),
            sub.is_running(),
            old(sub).is_running(),
        decreases bus.pending(k as int).len(),
    {
        let ghost n0 = old(bus).delivered(k as int).len() as int;
        let ghost buspre = *bus;
        let ghost dbefore = bus.delivered(k as int);
        let ghost seenbefore = sub.seen();
        match bus.recv(k) {
            RecvOutcome::Ready(p) => {
                let ghost pview = p@;
                let res = sub.step(SubscriptionEvent::Delivery(p));
                proof {
                    lemma_others_unchanged_trans(*old(bus), buspre, *bus, k as int);
                    assert(bus.delivered(k as int) == dbefore.push(pview));
                    assert(bus.delivered(k as int).take(n0) =~= dbefore.take(n0));
                    assert(bus.delivered(k as int).skip(n0) =~= dbefore.skip(n0).push(pview));
                    assert(sub.seen() == seenbefore.push(pview));
                    assert(sub.seen() =~= old(sub).seen() + bus.delivered(k as int).skip(n0));
                }
                match res {
                    Ok(()) => {},
                    Err(_) => {
                        return;
                    },
                }
            },
            RecvOutcome::Empty => {
                proof {
                    lemma_others_unchanged_trans(*old(bus), buspre, *bus, k as int);
                }
                return;
            },
            RecvOutcome::Closed => {
                let _ = sub.step(SubscriptionEvent::BusClosed);
                proof {
                    lemma_others_unchanged_trans(*old(bus), buspre, *bus, k as int);
                }
                return;
            },
            RecvOutcome::Lagged => {
                let _ = sub.step(SubscriptionEvent::Overflowed);
                proof {
                    lemma_others_unchanged_trans(*old(bus), buspre, *bus, k as int);
                }
                return;
            },
        }
    }
}

/// Law: a subscription whose handler has consumed everything its live
/// subscriber was given — a drained backlog, with every delivered payload
/// handed over — has observed exactly the published payloads, in publish
/// order.
pub proof fn lemma_handler_observes_publish_history<H: GameStateHandler>(
    sub: HandlerSubscription<H>,
    bus: EventBus,
    k: int,
)
    requires
        bus.wf(),
        0 <= k < bus.num_subscribers(),
        bus.is_live(k),
        bus.pending(k).len() == 0,
        sub.seen() == bus.delivered(k),
    ensures
        sub.seen() == bus.published(),
{
    crate::bus::lemma_live_subscriber_fifo(bus, k);
}

} // verus!
