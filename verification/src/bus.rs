//! Fan-out of accepted payloads to every registered subscriber.
//!
//! The bus is a single-producer, multi-consumer broadcast: each published
//! payload is appended to the backlog of every live subscriber, and each
//! subscriber drains its own backlog through an independent cursor, so
//! per-subscriber delivery order always equals publish order and no payload
//! reaches a subscriber twice.
//!
//! Every backlog is bounded. A subscriber whose backlog is full when a new
//! payload arrives is considered failed (it stops receiving and its next
//! receive reports the overflow); the alternative policy of dropping its
//! oldest unread payload was rejected so that a live subscriber always holds
//! the exact publish history. Publishing with no live subscriber at all is a
//! distinct, reportable condition, never a silent no-op: telemetry loss must
//! be observable by the caller.
//!
//! The bus itself is a sequential structure; waiting for "next payload or
//! shutdown" is the caller's affair. A receive that finds nothing reports
//! "empty" rather than blocking, and closing the bus turns "empty" into a
//! final "closed" so that no reader waits forever.

use vstd::prelude::*;

verus! {

/// Why a publish was refused.
#[derive(Debug, Clone, Copy, PartialEq, Eq, Structural)]
pub enum BusError {
    /// No live subscriber exists: the payload would be silently lost.
    NoConsumers,
}

/// What one receive attempt found.
#[derive(Debug)]
pub enum RecvOutcome {
    /// The next payload for this subscriber, in publish order.
    Ready(Vec<u8>),
    /// Nothing pending; the bus is still open, try again later.
    Empty,
    /// This subscriber's backlog overflowed earlier; it is failed and will
    /// receive nothing more.
    Lagged,
    /// Nothing pending and the bus is closed: no payload will ever come.
    Closed,
}

struct SubQueue {
    pending: Vec<Vec<u8>>,
    live: bool,
}

/// How one subscriber's queue changes when a payload is delivered: a live
/// subscriber with room gets it appended; a live one without room fails; a
/// failed one is untouched.
spec fn subqueue_updated(before: SubQueue, after: SubQueue, payload: Seq<u8>, cap: int) -> bool {
    if before.live && before.pending@.len() < cap {
        &&& after.live
        &&& after.pending@.map_values(|p: Vec<u8>| p@)
            == before.pending@.map_values(|p: Vec<u8>| p@).push(payload)
    } else {
        &&& !after.live
        &&& after.pending@ == before.pending@
    }
}

/// The broadcast bus. `published` and `delivered` are the ghost history that
/// the contracts speak of: everything ever accepted, and what each subscriber
/// has taken out so far.
pub struct EventBus {
    subs: Vec<SubQueue>,
    capacity: usize,
    closed: bool,
    published: Ghost<Seq<Seq<u8>>>,
    delivered: Ghost<Seq<Seq<Seq<u8>>>>,
}

impl EventBus {
    /// Every payload the bus has accepted, in publish order.
    pub closed spec fn published(self) -> Seq<Seq<u8>> {
        self.published@
    }

    /// Every payload subscriber `k` has received, in delivery order.
    pub closed spec fn delivered(self, k: int) -> Seq<Seq<u8>> {
        self.delivered@[k]
    }

    /// Subscriber `k`'s backlog: accepted but not yet received, oldest first.
    pub closed spec fn pending(self, k: int) -> Seq<Seq<u8>> {
        self.subs@[k].pending@.map_values(|p: Vec<u8>| p@)
    }

    /// Subscriber `k` has not failed by overflowing its backlog.
    pub closed spec fn is_live(self, k: int) -> bool {
        self.subs@[k].live
    }

    /// How many subscribers were ever registered.
    pub closed spec fn num_subscribers(self) -> int {
        self.subs@.len() as int
    }

    /// The bus no longer accepts payloads.
    pub closed spec fn is_closed(self) -> bool {
        self.closed
    }

    /// The backlog bound each subscriber was given.
    pub closed spec fn backlog_capacity(self) -> int {
        self.capacity as int
    }

    /// At least one subscriber can still receive.
    pub open spec fn any_live(self) -> bool {
        exists|k: int| 0 <= k < self.num_subscribers() && self.is_live(k)
    }

    /// The ghost delivery record has one entry per subscriber.
    pub closed spec fn ghost_state_consistent(self) -> bool {
        self.delivered@.len() == self.subs@.len()
    }

    /// The bus invariant: backlogs respect their bound, and a live
    /// subscriber's received-then-pending history is exactly the publish
    /// history — nothing lost, nothing duplicated, nothing reordered.
    pub open spec fn wf(self) -> bool {
        &&& self.ghost_state_consistent()
        &&& 1 <= self.backlog_capacity()
        &&& forall|k: int| 0 <= k < self.num_subscribers()
            ==> (#[trigger] self.pending(k)).len() <= self.backlog_capacity()
        &&& forall|k: int| 0 <= k < self.num_subscribers() && self.is_live(k)
            ==> #[trigger] self.delivered(k) + self.pending(k) == self.published()
    }

    /// A bus with no subscribers and the given backlog bound per subscriber.
    pub fn new(capacity: usize) -> (bus: EventBus)
        requires
            capacity >= 1,
        ensures
            bus.wf(),
            bus.num_subscribers() == 0,
            bus.published() == Seq::<Seq<u8>>::empty(),
            !bus.is_closed(),
            bus.backlog_capacity() == capacity,
    {
        EventBus {
            subs: Vec::new(),
            capacity,
            closed: false,
            published: Ghost(Seq::empty()),
            delivered: Ghost(Seq::empty()),
        }
    }

    /// Register one subscriber. Registration happens before any publish.
    pub fn subscribe(&mut self) -> (k: usize)
        requires
            old(self).wf(),
            old(self).published().len() == 0,
            !old(self).is_closed(),
        ensures
            final(self).wf(),
            k as int == old(self).num_subscribers(),
            final(self).num_subscribers() == old(self).num_subscribers() + 1,
            final(self).is_live(k as int),
            final(self).pending(k as int).len() == 0,
            final(self).delivered(k as int).len() == 0,
            final(self).published() == old(self).published(),
            !final(self).is_closed(),
            final(self).backlog_capacity() == old(self).backlog_capacity(),
            forall|j: int| 0 <= j < old(self).num_subscribers() ==> {
                &&& final(self).is_live(j) == old(self).is_live(j)
                &&& #[trigger] final(self).pending(j) == old(self).pending(j)
                &&& final(self).delivered(j) == old(self).delivered(j)
            },
    {
        let k = self.subs.len();
        self.subs.push(SubQueue { pending: Vec::new(), live: true });
        proof {
            self.delivered@ = self.delivered@.push(Seq::empty());
            assert(self.pending(k as int) =~= Seq::<Seq<u8>>::empty());
            assert(self.delivered(k as int) + self.pending(k as int) =~= self.published());
            assert forall|j: int| 0 <= j < old(self).num_subscribers() implies {
                &&& self.is_live(j) == old(self).is_live(j)
                &&& (#[trigger] self.pending(j)) == old(self).pending(j)
                &&& self.delivered(j) == old(self).delivered(j)
            } by {
            }
            assert forall|j: int| 0 <= j < self.num_subscribers()
                implies (#[trigger] self.pending(j)).len() <= self.backlog_capacity() by {
                if j < old(self).num_subscribers() {
                    assert(old(self).pending(j).len() <= old(self).backlog_capacity());
                }
            }
            assert forall|j: int| 0 <= j < self.num_subscribers() && self.is_live(j)
                implies (#[trigger] self.delivered(j)) + self.pending(j) == self.published() by {
                if j < old(self).num_subscribers() {
                    assert(old(self).delivered(j) + old(self).pending(j) == old(self).published());
                }
            }
        }
        k
    }

    /// Deliver `payload` to every live subscriber. With no live subscriber at
    /// all this is the distinct `NoConsumers` condition and the bus is left
    /// untouched. A live subscriber whose backlog is full fails instead of
    /// receiving.
    pub fn publish(&mut self, payload: &Vec<u8>) -> (r: Result<(), BusError>)
        requires
            old(self).wf(),
            !old(self).is_closed(),
        ensures
            final(self).wf(),
            final(self).num_subscribers() == old(self).num_subscribers(),
            final(self).backlog_capacity() == old(self).backlog_capacity(),
            !final(self).is_closed(),
            match r {
                Err(e) => {
                    &&& e == BusError::NoConsumers
                    &&& !old(self).any_live()
                    &&& *final(self) == *old(self)
                },
                Ok(()) => {
                    &&& old(self).any_live()
                    &&& final(self).published() == old(self).published().push(payload@)
                    &&& forall|j: int| 0 <= j < old(self).num_subscribers()
                        ==> #[trigger] final(self).delivered(j) == old(self).delivered(j)
                    &&& forall|j: int| 0 <= j < old(self).num_subscribers()
                        && old(self).is_live(j)
                        && old(self).pending(j).len() < old(self).backlog_capacity()
                        ==> final(self).is_live(j)
                            && #[trigger] final(self).pending(j)
                                == old(self).pending(j).push(payload@)
                    &&& forall|j: int| 0 <= j < old(self).num_subscribers()
                        && old(self).is_live(j)
                        && old(self).pending(j).len() >= old(self).backlog_capacity()
                        ==> !(#[trigger] final(self).is_live(j))
                            && final(self).pending(j) == old(self).pending(j)
                    &&& forall|j: int| 0 <= j < old(self).num_subscribers()
                        && !old(self).is_live(j)
                        ==> !(#[trigger] final(self).is_live(j))
                            && final(self).pending(j) == old(self).pending(j)
                },
            },
    {
        let n = self.subs.len();
        let mut any = false;
        let mut i: usize = 0;
        while i < n
            invariant
                n == self.subs@.len(),
                0 <= i <= n,
                *self == *old(self),
                any == exists|j: int| 0 <= j < i && old(self).is_live(j),
            decreases n - i,
        {
            let q = &self.subs[i];
            if q.live {
                proof {
                    assert(old(self).is_live(i as int));
                }
                any = true;
            }
            i = i + 1;
        }
        if !any {
            return Err(BusError::NoConsumers);
        }

        let mut rest: Vec<SubQueue> = Vec::new();
        core::mem::swap(&mut rest, &mut self.subs);
        proof {
            self.published@ = self.published@.push(payload@);
        }
        let mut k: usize = 0;
        let ghost cap = old(self).backlog_capacity();
        while k < n
            invariant
                n == old(self).num_subscribers(),
                n == rest@.len() + self.subs@.len(),
                k == self.subs@.len(),
                0 <= k <= n,
                rest@ == old(self).subs@.skip(k as int),
                cap == old(self).backlog_capacity(),
                self.capacity == old(self).capacity,
                self.closed == old(self).closed,
                self.delivered@ == old(self).delivered@,
                self.published@ == old(self).published().push(payload@),
                old(self).wf(),
                !old(self).is_closed(),
                forall|j: int| 0 <= j < k
                    ==> subqueue_updated(old(self).subs@[j], #[trigger] self.subs@[j], payload@, cap),
            decreases n - k,
        {
            let mut q = rest.remove(0);
            proof {
                assert(old(self).subs@.skip(k as int)[0] == old(self).subs@[k as int]);
                assert(rest@ =~= old(self).subs@.skip(k + 1));
                assert(q == old(self).subs@[k as int]);
            }
            let ghost old_q = q;
            if q.live {
                if q.pending.len() < self.capacity {
                    let copy = copy_payload(payload);
                    q.pending.push(copy);
                    proof {
                        assert(q.pending@.map_values(|p: Vec<u8>| p@)
                            =~= old_q.pending@.map_values(|p: Vec<u8>| p@).push(payload@));
                        assert(subqueue_updated(old_q, q, payload@, cap));
                    }
                } else {
                    q.live = false;
                    proof {
                        assert(subqueue_updated(old_q, q, payload@, cap));
                    }
                }
            } else {
                proof {
                    assert(subqueue_updated(old_q, q, payload@, cap));
                }
            }
            self.subs.push(q);
            k = k + 1;
        }
        proof {
            // Translate the per-queue facts into the public view.
            assert forall|j: int| 0 <= j < n && old(self).is_live(j)
                && old(self).pending(j).len() < old(self).backlog_capacity()
                implies self.is_live(j)
                    && (#[trigger] self.pending(j)) == old(self).pending(j).push(payload@) by {
                assert(subqueue_updated(old(self).subs@[j], self.subs@[j], payload@, cap));
                assert(old(self).pending(j)
                    == old(self).subs@[j].pending@.map_values(|p: Vec<u8>| p@));
            }
            assert forall|j: int| 0 <= j < n && !(old(self).is_live(j)
                && old(self).pending(j).len() < old(self).backlog_capacity())
                implies !self.is_live(j) && (#[trigger] self.pending(j)) == old(self).pending(j) by {
                assert(subqueue_updated(old(self).subs@[j], self.subs@[j], payload@, cap));
                assert(old(self).pending(j)
                    == old(self).subs@[j].pending@.map_values(|p: Vec<u8>| p@));
            }
            assert forall|j: int| 0 <= j < n
                implies (#[trigger] self.pending(j)).len() <= self.backlog_capacity() by {
                assert(old(self).pending(j).len() <= old(self).backlog_capacity());
            }
            assert forall|j: int| 0 <= j < n && self.is_live(j)
                implies (#[trigger] self.delivered(j)) + self.pending(j) == self.published() by {
                assert(old(self).delivered(j) + old(self).pending(j) == old(self).published());
                assert(self.pending(j) == old(self).pending(j).push(payload@));
                assert(self.delivered(j) + self.pending(j)
                    =~= old(self).delivered(j) + old(self).pending(j) + seq![payload@]);
                assert(self.published() =~= old(self).published() + seq![payload@]);
            }
        }
        Ok(())
    }

    /// Take subscriber `k`'s next payload, in publish order, or report why
    /// none is available: still open and empty, closed for good, or failed by
    /// overflow.
    pub fn recv(&mut self, k: usize) -> (r: RecvOutcome)
        requires
            old(self).wf(),
            0 <= k < old(self).num_subscribers(),
        ensures
            final(self).wf(),
            final(self).num_subscribers() == old(self).num_subscribers(),
            final(self).backlog_capacity() == old(self).backlog_capacity(),
            final(self).is_closed() == old(self).is_closed(),
            final(self).published() == old(self).published(),
            others_unchanged(*old(self), *final(self), k as int),
            match r {
                RecvOutcome::Lagged => !old(self).is_live(k as int) && *final(self) == *old(self),
                RecvOutcome::Ready(p) => {
                    &&& old(self).is_live(k as int)
                    &&& old(self).pending(k as int).len() > 0
                    &&& p@ == old(self).pending(k as int)[0]
                    &&& final(self).is_live(k as int)
                    &&& final(self).pending(k as int) == old(self).pending(k as int).skip(1)
                    &&& final(self).delivered(k as int)
                        == old(self).delivered(k as int).push(p@)
                },
                RecvOutcome::Empty => {
                    &&& old(self).is_live(k as int)
                    &&& old(self).pending(k as int).len() == 0
                    &&& !old(self).is_closed()
                    &&& *final(self) == *old(self)
                },
                RecvOutcome::Closed => {
                    &&& old(self).is_live(k as int)
                    &&& old(self).pending(k as int).len() == 0
                    &&& old(self).is_closed()
                    &&& *final(self) == *old(self)
                },
            },
    {
        let is_live = self.subs[k].live;
        if !is_live {
            return RecvOutcome::Lagged;
        }
        let has_pending = self.subs[k].pending.len() > 0;
        if !has_pending {
            proof {
                assert(old(self).pending(k as int) =~= Seq::<Seq<u8>>::empty());
            }
            if self.closed {
                return RecvOutcome::Closed;
            } else {
                return RecvOutcome::Empty;
            }
        }
        let mut q = self.subs.remove(k);
        let p = q.pending.remove(0);
        self.subs.insert(k, q);
        proof {
            assert(self.subs@ =~= old(self).subs@.update(k as int, self.subs@[k as int]));
            self.delivered@ = self.delivered@.update(
                k as int,
                self.delivered@[k as int].push(p@),
            );
            assert(self.pending(k as int) =~= old(self).pending(k as int).skip(1));
            assert(old(self).pending(k as int)[0] == p@);
            assert forall|j: int| 0 <= j < old(self).num_subscribers() && j != k implies {
                &&& self.is_live(j) == old(self).is_live(j)
                &&& (#[trigger] self.pending(j)) == old(self).pending(j)
                &&& self.delivered(j) == old(self).delivered(j)
            } by {
                assert(self.pending(j) =~= old(self).pending(j));
            }
            assert forall|j: int| 0 <= j < self.num_subscribers()
                implies (#[trigger] self.pending(j)).len() <= self.backlog_capacity() by {
                assert(old(self).pending(j).len() <= old(self).backlog_capacity());
            }
            assert forall|j: int| 0 <= j < self.num_subscribers() && self.is_live(j)
                implies (#[trigger] self.delivered(j)) + self.pending(j) == self.published() by {
                assert(old(self).delivered(j) + old(self).pending(j) == old(self).published());
                if j == k {
                    assert(self.delivered(j) + self.pending(j)
                        =~= old(self).delivered(j) + old(self).pending(j));
                }
            }
        }
        RecvOutcome::Ready(p)
    }

    /// Close the bus: no further publish will be attempted, and every
    /// subscriber that drains its backlog then sees `Closed` instead of
    /// waiting forever.
    pub fn close(&mut self)
        requires
            old(self).wf(),
        ensures
            final(self).wf(),
            final(self).is_closed(),
            final(self).num_subscribers() == old(self).num_subscribers(),
            final(self).backlog_capacity() == old(self).backlog_capacity(),
            final(self).published() == old(self).published(),
            forall|j: int| 0 <= j < old(self).num_subscribers() ==> {
                &&& final(self).is_live(j) == old(self).is_live(j)
                &&& #[trigger] final(self).pending(j) == old(self).pending(j)
                &&& final(self).delivered(j) == old(self).delivered(j)
            },
    {
        self.closed = true;
        proof {
            assert forall|j: int| 0 <= j < self.num_subscribers() implies {
                &&& self.is_live(j) == old(self).is_live(j)
                &&& (#[trigger] self.pending(j)) == old(self).pending(j)
                &&& self.delivered(j) == old(self).delivered(j)
            } by {
            }
            assert forall|j: int| 0 <= j < self.num_subscribers()
                implies (#[trigger] self.pending(j)).len() <= self.backlog_capacity() by {
                assert(old(self).pending(j).len() <= old(self).backlog_capacity());
            }
            assert forall|j: int| 0 <= j < self.num_subscribers() && self.is_live(j)
                implies (#[trigger] self.delivered(j)) + self.pending(j) == self.published() by {
                assert(old(self).delivered(j) + old(self).pending(j) == old(self).published());
            }
        }
    }

    /// How many subscribers were ever registered.
    pub fn subscriber_count(&self) -> (n: usize)
        ensures
            n as int == self.num_subscribers(),
    {
        self.subs.len()
    }
}

/// Subscribers other than `k` stand in `b` exactly as they stand in `a`.
pub open spec fn others_unchanged(a: EventBus, b: EventBus, k: int) -> bool {
    &&& forall|j: int| 0 <= j < a.num_subscribers() && j != k
        ==> (#[trigger] b.is_live(j)) == a.is_live(j)
    &&& forall|j: int| 0 <= j < a.num_subscribers() && j != k
        ==> (#[trigger] b.pending(j)) == a.pending(j)
    &&& forall|j: int| 0 <= j < a.num_subscribers() && j != k
        ==> (#[trigger] b.delivered(j)) == a.delivered(j)
}

/// `others_unchanged` composes across two steps.
pub proof fn lemma_others_unchanged_trans(a: EventBus, b: EventBus, c: EventBus, k: int)
    requires
        a.num_subscribers() == b.num_subscribers(),
        others_unchanged(a, b, k),
        others_unchanged(b, c, k),
    ensures
        others_unchanged(a, c, k),
{
    assert forall|j: int| 0 <= j < a.num_subscribers() && j != k
        implies (#[trigger] c.is_live(j)) == a.is_live(j) by {
        assert(b.is_live(j) == a.is_live(j));
        assert(c.is_live(j) == b.is_live(j));
    }
    assert forall|j: int| 0 <= j < a.num_subscribers() && j != k
        implies (#[trigger] c.pending(j)) == a.pending(j) by {
        assert(b.pending(j) == a.pending(j));
        assert(c.pending(j) == b.pending(j));
    }
    assert forall|j: int| 0 <= j < a.num_subscribers() && j != k
        implies (#[trigger] c.delivered(j)) == a.delivered(j) by {
        assert(b.delivered(j) == a.delivered(j));
        assert(c.delivered(j) == b.delivered(j));
    }
}

/// Law: a live subscriber observes exactly the published payloads, in publish
/// order — what it has received is a prefix of the publish history, what is
/// still pending is the rest, and a subscriber that has drained its backlog
/// has received the whole history.
pub proof fn lemma_live_subscriber_fifo(bus: EventBus, k: int)
    requires
        bus.wf(),
        0 <= k < bus.num_subscribers(),
        bus.is_live(k),
    ensures
        bus.delivered(k) + bus.pending(k) == bus.published(),
        bus.delivered(k) == bus.published().take(bus.delivered(k).len() as int),
        bus.pending(k).len() == 0 ==> bus.delivered(k) == bus.published(),
{
    assert(bus.delivered(k) == bus.published().take(bus.delivered(k).len() as int)) by {
        assert(bus.published().take(bus.delivered(k).len() as int) =~= bus.delivered(k));
    }
    if bus.pending(k).len() == 0 {
        assert(bus.delivered(k) =~= bus.delivered(k) + bus.pending(k));
    }
}

/// Copy a payload for one subscriber's backlog.
fn copy_payload(p: &Vec<u8>) -> (out: Vec<u8>)
    ensures
        out@ == p@,
{
    let mut out: Vec<u8> = Vec::new();
    let mut i: usize = 0;
    let n = p.len();
    while i < n
        invariant
            n == p@.len(),
            0 <= i <= n,
            out@ == p@.take(i as int),
        decreases n - i,
    {
        out.push(p[i]);
        proof {
            assert(out@ =~= p@.take(i + 1));
        }
        i = i + 1;
    }
    proof {
        assert(p@.take(n as int) =~= p@);
    }
    out
}

} // verus!
