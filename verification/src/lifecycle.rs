//! The server's life from construction to a fully aggregated shutdown.
//!
//! A server is assembled while `Building` (handlers register, each getting a
//! subscriber slot), moves to `Started` exactly once, observes the one-shot
//! shutdown signal, and ends `Stopped` with one aggregate result: success only
//! if the listener ended normally (user-triggered shutdown or the connection
//! source closing) and every handler subscription completed; otherwise a
//! composite failure enumerating the listener's error, if any, and every
//! failed handler. Completing shutdown is idempotent: the first completion
//! fixes the aggregate, and every later call returns that same result.
//!
//! The driving loops — accepting connections, awaiting tasks — live outside
//! this crate; they feed their terminal outcomes in as plain values and obey
//! the directives handed back.

use vstd::prelude::*;

use crate::bus::BusError;

verus! {

/// The fixed acknowledgement sent after every fully read request, whatever
/// the payload holds: the telemetry sender retries forever on anything else.
pub fn ack_response() -> (r: &'static str)
    ensures
        r@ == "HTTP/1.1 200 OK\ncontent-type: text/html\n"@,
{
    "HTTP/1.1 200 OK\ncontent-type: text/html\n"
}

/// A server endpoint: the address the listener binds, which must equal the
/// address in the telemetry sender's configuration.
pub struct GSIServer {
    uri: String,
}

impl GSIServer {
    /// The configured listening address.
    pub closed spec fn uri_spec(self) -> Seq<char> {
        self.uri@
    }

    /// A server that will listen on `uri`.
    pub fn new(uri: &str) -> (s: GSIServer)
        ensures
            s.uri_spec() == uri@,
    {
        GSIServer { uri: uri.to_owned() }
    }

    /// The configured listening address.
    pub fn uri(&self) -> (r: &str)
        ensures
            r@ == self.uri_spec(),
    {
        self.uri.as_str()
    }
}

impl Default for GSIServer {
    /// The conventional local telemetry endpoint.
    fn default() -> (s: GSIServer)
        ensures
            s.uri_spec() == "127.0.0.1:3000"@,
    {
        GSIServer { uri: "127.0.0.1:3000".to_owned() }
    }
}

/// The one-shot shutdown flag: every component observes it, nothing resets it.
pub struct ShutdownSignal {
    signaled: bool,
}

impl ShutdownSignal {
    /// The signal has been given.
    pub closed spec fn is_set(self) -> bool {
        self.signaled
    }

    /// A signal not yet given.
    pub fn new() -> (s: ShutdownSignal)
        ensures
            !s.is_set(),
    {
        ShutdownSignal { signaled: false }
    }

    /// Give the signal. Idempotent: the result does not depend on how often
    /// it is called.
    pub fn set(&mut self)
        ensures
            final(self).is_set(),
    {
        self.signaled = true;
    }

    /// Observe the signal.
    pub fn is_signaled(&self) -> (b: bool)
        ensures
            b == self.is_set(),
    {
        self.signaled
    }
}

/// How the listener task ended.
#[derive(Debug, Clone, PartialEq, Eq)]
pub enum ListenerOutcome {
    /// It observed the shutdown signal and stopped. Normal.
    Shutdown,
    /// The connection source closed. Normal.
    ConnectionClosed,
    /// A publish found no live subscriber; the listener terminated itself
    /// rather than keep accepting and discarding telemetry. An error, distinct
    /// from a user-triggered shutdown.
    NoConsumers,
    /// Accepting or serving failed at the socket level.
    SocketError(String),
    /// The listener task could not be joined.
    JoinError(String),
}

/// The listener ended for a normal reason.
pub open spec fn listener_ok(o: ListenerOutcome) -> bool {
    o is Shutdown || o is ConnectionClosed
}

/// How one handler subscription's task ended.
#[derive(Debug, Clone, PartialEq, Eq)]
pub enum SubscriptionOutcome {
    /// The subscription ended normally.
    Completed,
    /// The handler failed (or its backlog overflowed); the message is its
    /// terminal error.
    Failed(String),
    /// The subscription task could not be joined.
    JoinError(String),
}

/// The subscription ended normally.
pub open spec fn sub_ok(o: SubscriptionOutcome) -> bool {
    o is Completed
}

/// The composite shutdown failure: the listener's error if it had one, and
/// every failed handler with its index, in registration order.
#[derive(Debug, Clone, PartialEq, Eq)]
pub struct ShutdownFailure {
    /// Why the listener ended, when it did not end normally.
    pub listener: Option<ListenerOutcome>,
    /// Each failed subscription: its registration index and its outcome.
    pub handler_failures: Vec<(usize, SubscriptionOutcome)>,
}

/// The failing entries of a sequence of subscription outcomes, each with its
/// index, in order.
pub open spec fn failures_of(subs: Seq<SubscriptionOutcome>) -> Seq<(int, SubscriptionOutcome)>
    decreases subs.len(),
{
    if subs.len() == 0 {
        Seq::empty()
    } else if sub_ok(subs.last()) {
        failures_of(subs.drop_last())
    } else {
        failures_of(subs.drop_last()).push((subs.len() - 1, subs.last()))
    }
}

/// The indices-and-outcomes a failure vector holds.
pub open spec fn failures_view(v: Seq<(usize, SubscriptionOutcome)>) -> Seq<(int, SubscriptionOutcome)> {
    v.map_values(|p: (usize, SubscriptionOutcome)| (p.0 as int, p.1))
}

/// `r` aggregates the given outcomes: success exactly when the listener ended
/// normally and every subscription completed, and otherwise the composite
/// failure enumerating the listener's error, if any, and every failed handler.
pub open spec fn is_aggregate_of(
    r: Result<(), ShutdownFailure>,
    listener: ListenerOutcome,
    subs: Seq<SubscriptionOutcome>,
) -> bool {
    &&& (r is Ok <==> listener_ok(listener) && (forall|i: int| 0 <= i < subs.len()
        ==> sub_ok(#[trigger] subs[i])))
    &&& match r {
        Ok(()) => true,
        Err(f) => {
            &&& f.listener == (if listener_ok(listener) {
                Option::<ListenerOutcome>::None
            } else {
                Option::<ListenerOutcome>::Some(listener)
            })
            &&& failures_view(f.handler_failures@) == failures_of(subs)
        },
    }
}

/// Copy a subscription outcome.
fn dup_subscription_outcome(o: &SubscriptionOutcome) -> (r: SubscriptionOutcome)
    ensures
        r == *o,
{
    match o {
        SubscriptionOutcome::Completed => SubscriptionOutcome::Completed,
        SubscriptionOutcome::Failed(s) => SubscriptionOutcome::Failed(s.clone()),
        SubscriptionOutcome::JoinError(s) => SubscriptionOutcome::JoinError(s.clone()),
    }
}

/// Copy a listener outcome.
fn dup_listener_outcome(o: &ListenerOutcome) -> (r: ListenerOutcome)
    ensures
        r == *o,
{
    match o {
        ListenerOutcome::Shutdown => ListenerOutcome::Shutdown,
        ListenerOutcome::ConnectionClosed => ListenerOutcome::ConnectionClosed,
        ListenerOutcome::NoConsumers => ListenerOutcome::NoConsumers,
        ListenerOutcome::SocketError(s) => ListenerOutcome::SocketError(s.clone()),
        ListenerOutcome::JoinError(s) => ListenerOutcome::JoinError(s.clone()),
    }
}

/// What an aggregate result says, ignoring how its vectors are laid out: the
/// listener's error and the indexed handler failures.
pub open spec fn result_model(r: Result<(), ShutdownFailure>) -> Result<
    (),
    (Option<ListenerOutcome>, Seq<(int, SubscriptionOutcome)>),
> {
    match r {
        Ok(u) => Ok(u),
        Err(f) => Err((f.listener, failures_view(f.handler_failures@))),
    }
}

/// Copy an aggregate shutdown result; the copy says the same thing.
fn dup_shutdown_result(r: &Result<(), ShutdownFailure>) -> (out: Result<(), ShutdownFailure>)
    ensures
        result_model(out) == result_model(*r),
{
    match r {
        Ok(u) => Ok(*u),
        Err(f) => {
            let listener = match &f.listener {
                Option::None => Option::None,
                Option::Some(o) => Option::Some(dup_listener_outcome(o)),
            };
            let mut failures: Vec<(usize, SubscriptionOutcome)> = Vec::new();
            let n = f.handler_failures.len();
            let mut i: usize = 0;
            while i < n
                invariant
                    n == f.handler_failures@.len(),
                    0 <= i <= n,
                    failures@ == f.handler_failures@.take(i as int),
                decreases n - i,
            {
                let entry = &f.handler_failures[i];
                failures.push((entry.0, dup_subscription_outcome(&entry.1)));
                proof {
                    assert(failures@ =~= f.handler_failures@.take(i + 1));
                }
                i = i + 1;
            }
            proof {
                assert(f.handler_failures@.take(n as int) =~= f.handler_failures@);
            }
            Err(ShutdownFailure { listener, handler_failures: failures })
        },
    }
}

/// Merge the listener's outcome and every subscription's outcome into the one
/// result that shutdown reports.
pub fn aggregate_outcomes(
    listener: ListenerOutcome,
    subs: &Vec<SubscriptionOutcome>,
) -> (r: Result<(), ShutdownFailure>)
    ensures
        is_aggregate_of(r, listener, subs@),
{
    let mut failures: Vec<(usize, SubscriptionOutcome)> = Vec::new();
    let n = subs.len();
    let mut i: usize = 0;
    while i < n
        invariant
            n == subs@.len(),
            0 <= i <= n,
            failures_view(failures@) == failures_of(subs@.take(i as int)),
            failures@.len() == 0 <==> (forall|j: int| 0 <= j < i ==> sub_ok(#[trigger] subs@[j])),
        decreases n - i,
    {
        let entry = &subs[i];
        let ok = matches!(entry, SubscriptionOutcome::Completed);
        proof {
            assert(subs@.take(i + 1).drop_last() =~= subs@.take(i as int));
            assert(subs@.take(i + 1).last() == subs@[i as int]);
        }
        if !ok {
            failures.push((i, dup_subscription_outcome(entry)));
            proof {
                assert(failures_view(failures@)
                    =~= failures_of(subs@.take(i as int)).push((i as int, subs@[i as int])));
            }
        }
        i = i + 1;
    }
    proof {
        assert(subs@.take(n as int) =~= subs@);
    }
    let ok_listener = matches!(listener, ListenerOutcome::Shutdown | ListenerOutcome::ConnectionClosed);
    if ok_listener && failures.len() == 0 {
        proof {
            assert(failures_view(failures@).len() == 0);
        }
        Ok(())
    } else {
        let listener_err = if ok_listener {
            Option::None
        } else {
            Option::Some(listener)
        };
        proof {
            if failures@.len() > 0 {
                assert(failures_view(failures@).len() > 0);
                assert(!(forall|j: int| 0 <= j < n ==> sub_ok(#[trigger] subs@[j])));
            }
        }
        Err(ShutdownFailure { listener: listener_err, handler_failures: failures })
    }
}

/// What the accept loop should do next. Checked at each loop boundary: after
/// observing the signal or a publish with no consumers, no further connection
/// is accepted and no further payload enters the bus.
#[derive(Debug, Clone, Copy, PartialEq, Eq, Structural)]
pub enum ListenerDirective {
    /// Accept the next connection.
    ContinueAccepting,
    /// Stop: the shutdown signal was observed. A normal ending.
    StopShutdown,
    /// Stop: the last publish found no live subscriber. The listener
    /// terminates itself rather than accept and discard telemetry.
    StopNoConsumers,
}

/// Decide the accept loop's next move from the shutdown signal and the last
/// publish result. The signal wins; with no signal, losing all consumers stops
/// the listener; otherwise it keeps accepting.
pub fn listener_next(
    shutdown_signaled: bool,
    publish_result: &Result<(), BusError>,
) -> (d: ListenerDirective)
    ensures
        d == (if shutdown_signaled {
            ListenerDirective::StopShutdown
        } else if publish_result is Err {
            ListenerDirective::StopNoConsumers
        } else {
            ListenerDirective::ContinueAccepting
        }),
{
    if shutdown_signaled {
        ListenerDirective::StopShutdown
    } else if publish_result.is_err() {
        ListenerDirective::StopNoConsumers
    } else {
        ListenerDirective::ContinueAccepting
    }
}

/// Where the server stands.
#[derive(Debug, Clone, Copy, PartialEq, Eq, Structural)]
pub enum LifecyclePhase {
    /// Handlers are registering; nothing runs yet.
    Building,
    /// The listener and the subscriptions are running.
    Started,
    /// The shutdown signal is set; tasks are winding down.
    ShuttingDown,
    /// Shutdown completed; the aggregate result is fixed.
    Stopped,
}

/// Why the server could not start.
#[derive(Debug, Clone, Copy, PartialEq, Eq, Structural)]
pub enum StartError {
    /// `start` was already called.
    AlreadyStarted,
    /// The shutdown signal was already given.
    AlreadyShutdown,
}

/// The server state machine: `Building` → `Started` → `ShuttingDown` →
/// `Stopped`, with the aggregate result fixed at the first completed shutdown.
pub struct ServerLifecycle {
    phase: LifecyclePhase,
    signal: ShutdownSignal,
    handler_count: usize,
    result: Option<Result<(), ShutdownFailure>>,
}

impl ServerLifecycle {
    /// Where the server stands.
    pub closed spec fn phase(self) -> LifecyclePhase {
        self.phase
    }

    /// The shutdown signal has been given.
    pub closed spec fn is_signaled(self) -> bool {
        self.signal.is_set()
    }

    /// How many handlers have registered.
    pub closed spec fn handler_count(self) -> int {
        self.handler_count as int
    }

    /// The aggregate result fixed by the first completed shutdown, if any.
    pub closed spec fn result_cache(self) -> Option<Result<(), ShutdownFailure>> {
        self.result
    }

    /// The state machine's invariant: a fixed result exists exactly once the
    /// server is stopped.
    pub open spec fn wf(self) -> bool {
        self.result_cache() is Some <==> self.phase() is Stopped
    }

    /// A fresh lifecycle with no handlers registered.
    pub fn new() -> (s: ServerLifecycle)
        ensures
            s.wf(),
            s.phase() is Building,
            !s.is_signaled(),
            s.handler_count() == 0,
    {
        ServerLifecycle {
            phase: LifecyclePhase::Building,
            signal: ShutdownSignal::new(),
            handler_count: 0,
            result: Option::None,
        }
    }

    /// Register one handler while still building; its index pairs it with a
    /// bus subscriber slot.
    pub fn register(&mut self) -> (k: usize)
        requires
            old(self).wf(),
            old(self).phase() is Building,
            old(self).handler_count() < usize::MAX,
        ensures
            final(self).wf(),
            k as int == old(self).handler_count(),
            final(self).handler_count() == old(self).handler_count() + 1,
            final(self).phase() == old(self).phase(),
            final(self).is_signaled() == old(self).is_signaled(),
            final(self).result_cache() == old(self).result_cache(),
    {
        let k = self.handler_count;
        self.handler_count = self.handler_count + 1;
        k
    }

    /// Move to `Started`. Fails if the server was already started or the
    /// shutdown signal was already given, and succeeds otherwise; nothing else
    /// changes on failure.
    pub fn start(&mut self) -> (r: Result<(), StartError>)
        requires
            old(self).wf(),
        ensures
            final(self).wf(),
            final(self).handler_count() == old(self).handler_count(),
            final(self).is_signaled() == old(self).is_signaled(),
            final(self).result_cache() == old(self).result_cache(),
            match r {
                Ok(()) => {
                    &&& old(self).phase() is Building
                    &&& !old(self).is_signaled()
                    &&& final(self).phase() is Started
                },
                Err(StartError::AlreadyShutdown) => {
                    &&& old(self).phase() is Building
                    &&& old(self).is_signaled()
                    &&& final(self).phase() == old(self).phase()
                },
                Err(StartError::AlreadyStarted) => {
                    &&& !(old(self).phase() is Building)
                    &&& final(self).phase() == old(self).phase()
                },
            },
    {
        match self.phase {
            LifecyclePhase::Building => {
                if self.signal.is_signaled() {
                    Err(StartError::AlreadyShutdown)
                } else {
                    self.phase = LifecyclePhase::Started;
                    Ok(())
                }
            },
            _ => Err(StartError::AlreadyStarted),
        }
    }

    /// Give the shutdown signal. Idempotent, and a running server moves to
    /// `ShuttingDown`; a stopped one stays stopped.
    pub fn signal_shutdown(&mut self)
        requires
            old(self).wf(),
        ensures
            final(self).wf(),
            final(self).is_signaled(),
            final(self).handler_count() == old(self).handler_count(),
            final(self).result_cache() == old(self).result_cache(),
            final(self).phase() == (if old(self).phase() is Started {
                LifecyclePhase::ShuttingDown
            } else {
                old(self).phase()
            }),
    {
        self.signal.set();
        if matches!(self.phase, LifecyclePhase::Started) {
            self.phase = LifecyclePhase::ShuttingDown;
        }
    }

    /// Complete shutdown with the collected terminal outcomes. The first call
    /// fixes the aggregate result; every later call returns that same result
    /// again, whatever outcomes it is handed — completing shutdown twice is
    /// safe and reports the same thing both times.
    pub fn complete_shutdown(
        &mut self,
        listener: ListenerOutcome,
        subs: &Vec<SubscriptionOutcome>,
    ) -> (r: Result<(), ShutdownFailure>)
        requires
            old(self).wf(),
        ensures
            final(self).wf(),
            final(self).phase() is Stopped,
            final(self).is_signaled(),
            final(self).handler_count() == old(self).handler_count(),
            final(self).result_cache() matches Some(c) && result_model(c) == result_model(r),
            old(self).phase() is Stopped ==> {
                &&& old(self).result_cache() matches Some(c0) && result_model(r) == result_model(c0)
                &&& final(self).result_cache() == old(self).result_cache()
            },
            !(old(self).phase() is Stopped) ==> is_aggregate_of(r, listener, subs@),
    {
        self.signal.set();
        match &self.result {
            Option::Some(cached) => {
                let r = dup_shutdown_result(cached);
                r
            },
            Option::None => {
                let r = aggregate_outcomes(listener, subs);
                let stored = dup_shutdown_result(&r);
                self.result = Option::Some(stored);
                self.phase = LifecyclePhase::Stopped;
                r
            },
        }
    }
}

} // verus!
