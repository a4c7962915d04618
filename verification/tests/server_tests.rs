use dota::bus::EventBus;
use dota::bus::BusError;
use dota::errors::GSIServerError;
use dota::errors::server_error_of_frame;
use dota::framer::FrameError;
use dota::framer::FrameProgress;
use dota::framer::RequestFramer;
use dota::lifecycle::GSIServer;
use dota::lifecycle::ListenerDirective;
use dota::lifecycle::ListenerOutcome;
use dota::lifecycle::ServerLifecycle;
use dota::lifecycle::ShutdownSignal;
use dota::lifecycle::StartError;
use dota::lifecycle::SubscriptionOutcome;
use dota::lifecycle::aggregate_outcomes;
use dota::lifecycle::listener_next;
use dota::subscription::GameStateHandler;
use dota::subscription::HandlerSubscription;
use dota::subscription::SubscriptionEvent;
use dota::subscription::SubscriptionStatus;
use dota::subscription::drain;

/// Records every payload it consumes.
struct Capturing {
    got: Vec<Vec<u8>>,
}

impl GameStateHandler for Capturing {
    fn handle(&mut self, payload: &Vec<u8>) -> Result<(), String> {
        self.got.push(payload.clone());
        Ok(())
    }
}

/// Fails on every payload, counting its invocations.
struct AlwaysFails {
    calls: usize,
}

impl GameStateHandler for AlwaysFails {
    fn handle(&mut self, _payload: &Vec<u8>) -> Result<(), String> {
        self.calls += 1;
        Err("handler refused the payload".to_string())
    }
}

fn request_for(body: &[u8]) -> Vec<u8> {
    let mut request = format!(
        "POST / HTTP/1.1\r\nContent-Type: application/json\r\nHost: 127.0.0.1:3000\r\nContent-Length: {}\r\n\r\n",
        body.len()
    )
    .into_bytes();
    request.extend_from_slice(body);
    request
}

#[test]
fn test_gsi_server_addresses() {
    let server = GSIServer::new("127.0.0.1:53000");
    assert_eq!(server.uri(), "127.0.0.1:53000");
    let stock = GSIServer::default();
    assert_eq!(stock.uri(), "127.0.0.1:3000");
}

#[test]
fn test_shutdown_signal_is_one_shot() {
    let mut signal = ShutdownSignal::new();
    assert!(!signal.is_signaled());
    signal.set();
    assert!(signal.is_signaled());
    signal.set();
    assert!(signal.is_signaled());
}

#[test]
fn test_start_only_from_building() {
    let mut lifecycle = ServerLifecycle::new();
    let first = lifecycle.register();
    let second = lifecycle.register();
    assert_eq!(first, 0);
    assert_eq!(second, 1);

    assert_eq!(lifecycle.start(), Ok(()));
    assert_eq!(lifecycle.start(), Err(StartError::AlreadyStarted));
}

#[test]
fn test_start_after_shutdown_fails() {
    let mut lifecycle = ServerLifecycle::new();
    lifecycle.signal_shutdown();
    assert_eq!(lifecycle.start(), Err(StartError::AlreadyShutdown));
}

#[test]
fn test_aggregate_success() {
    let outcomes = vec![SubscriptionOutcome::Completed, SubscriptionOutcome::Completed];
    let r = aggregate_outcomes(ListenerOutcome::Shutdown, &outcomes);
    assert_eq!(r, Ok(()));

    let r = aggregate_outcomes(ListenerOutcome::ConnectionClosed, &outcomes);
    assert_eq!(r, Ok(()));
}

#[test]
fn test_aggregate_enumerates_failures() {
    let outcomes = vec![
        SubscriptionOutcome::Completed,
        SubscriptionOutcome::Failed("boom".to_string()),
        SubscriptionOutcome::JoinError("lost".to_string()),
    ];
    let failure = aggregate_outcomes(ListenerOutcome::NoConsumers, &outcomes)
        .expect_err("a failed listener and handlers must not aggregate to success");

    assert_eq!(failure.listener, Some(ListenerOutcome::NoConsumers));
    assert_eq!(
        failure.handler_failures,
        vec![
            (1, SubscriptionOutcome::Failed("boom".to_string())),
            (2, SubscriptionOutcome::JoinError("lost".to_string())),
        ]
    );
}

#[test]
fn test_aggregate_normal_listener_failing_handler() {
    let outcomes = vec![SubscriptionOutcome::Failed("boom".to_string())];
    let failure = aggregate_outcomes(ListenerOutcome::Shutdown, &outcomes)
        .expect_err("a failed handler must not aggregate to success");
    assert_eq!(failure.listener, None);
    assert_eq!(
        failure.handler_failures,
        vec![(0, SubscriptionOutcome::Failed("boom".to_string()))]
    );
}

#[test]
fn test_shutdown_twice_returns_same_result() {
    // Completing shutdown is idempotent: the second call returns the first
    // aggregate even when handed different outcomes.
    let mut lifecycle = ServerLifecycle::new();
    lifecycle.register();
    lifecycle.register();
    lifecycle.start().expect("start failed");
    lifecycle.signal_shutdown();

    let first = lifecycle.complete_shutdown(
        ListenerOutcome::ConnectionClosed,
        &vec![
            SubscriptionOutcome::Completed,
            SubscriptionOutcome::Failed("boom".to_string()),
        ],
    );
    let second = lifecycle.complete_shutdown(
        ListenerOutcome::Shutdown,
        &vec![SubscriptionOutcome::Completed, SubscriptionOutcome::Completed],
    );

    assert_eq!(first, second);
    let failure = first.expect_err("the failed handler must surface");
    assert_eq!(failure.listener, None);
    assert_eq!(
        failure.handler_failures,
        vec![(1, SubscriptionOutcome::Failed("boom".to_string()))]
    );
}

#[test]
fn test_listener_directives() {
    let ok: Result<(), BusError> = Ok(());
    let lost: Result<(), BusError> = Err(BusError::NoConsumers);

    assert_eq!(listener_next(true, &ok), ListenerDirective::StopShutdown);
    assert_eq!(listener_next(true, &lost), ListenerDirective::StopShutdown);
    assert_eq!(listener_next(false, &lost), ListenerDirective::StopNoConsumers);
    assert_eq!(listener_next(false, &ok), ListenerDirective::ContinueAccepting);
}

#[test]
fn test_server_error_of_frame_kinds() {
    assert!(matches!(
        server_error_of_frame(FrameError::MalformedHeaders),
        GSIServerError::ParseRequestError(_)
    ));
    assert!(matches!(
        server_error_of_frame(FrameError::MissingContentLength),
        GSIServerError::ParseContentLengthError(_)
    ));
    assert!(matches!(
        server_error_of_frame(FrameError::InvalidContentLength),
        GSIServerError::ParseContentLengthError(_)
    ));
    // Missing and non-numeric stay distinguishable in the message.
    let missing = server_error_of_frame(FrameError::MissingContentLength);
    let invalid = server_error_of_frame(FrameError::InvalidContentLength);
    assert_ne!(missing, invalid);
}

#[test]
fn test_subscription_events() {
    let mut sub = HandlerSubscription::new(Capturing { got: Vec::new() });
    assert!(matches!(sub.current_status(), SubscriptionStatus::Running));

    let r = sub.step(SubscriptionEvent::Delivery(b"one".to_vec()));
    assert_eq!(r, Ok(()));
    assert!(matches!(sub.current_status(), SubscriptionStatus::Running));

    let r = sub.step(SubscriptionEvent::ShutdownObserved);
    assert_eq!(r, Ok(()));
    assert!(matches!(sub.current_status(), SubscriptionStatus::Finished));

    // Once the subscription ended, no further invocation begins.
    let r = sub.step(SubscriptionEvent::Delivery(b"two".to_vec()));
    assert_eq!(r, Ok(()));
    assert!(matches!(sub.current_status(), SubscriptionStatus::Finished));

    let handler = sub.into_handler();
    assert_eq!(handler.got, vec![b"one".to_vec()]);
}

#[test]
fn test_two_handlers_observe_two_requests() {
    // Bind address as configured; the sequential core below models the
    // server's data path: framing, publishing, fan-out, shutdown.
    let server = GSIServer::new("127.0.0.1:0");
    assert_eq!(server.uri(), "127.0.0.1:0");

    let mut lifecycle = ServerLifecycle::new();
    let mut bus = EventBus::new(8);
    let first = lifecycle.register();
    let second = lifecycle.register();
    assert_eq!(bus.subscribe(), first);
    assert_eq!(bus.subscribe(), second);
    let mut sub_a = HandlerSubscription::new(Capturing { got: Vec::new() });
    let mut sub_b = HandlerSubscription::new(Capturing { got: Vec::new() });
    lifecycle.start().expect("start failed");

    // Two requests, each carrying the same seven byte JSON body, arriving in
    // different read patterns.
    let body: &[u8] = b"{\"a\":1}";
    for split in [1usize, 13] {
        let request = request_for(body);
        let mut framer = RequestFramer::new();
        let mut payload = None;
        for chunk in request.chunks(split) {
            match framer.feed(chunk.to_vec()).expect("framing failed") {
                FrameProgress::NeedMore => {}
                FrameProgress::Done(p) => {
                    payload = Some(p);
                    break;
                }
            }
        }
        let payload = payload.expect("request should frame completely");
        assert_eq!(payload.len(), body.len());
        bus.publish(&payload).expect("publish failed");
        drain(&mut sub_a, &mut bus, first);
        drain(&mut sub_b, &mut bus, second);
    }

    lifecycle.signal_shutdown();
    bus.close();
    drain(&mut sub_a, &mut bus, first);
    drain(&mut sub_b, &mut bus, second);
    assert!(matches!(sub_a.current_status(), SubscriptionStatus::Finished));
    assert!(matches!(sub_b.current_status(), SubscriptionStatus::Finished));

    let result = lifecycle.complete_shutdown(
        ListenerOutcome::Shutdown,
        &vec![SubscriptionOutcome::Completed, SubscriptionOutcome::Completed],
    );
    assert_eq!(result, Ok(()));

    let expected = vec![body.to_vec(), body.to_vec()];
    assert_eq!(sub_a.into_handler().got, expected);
    assert_eq!(sub_b.into_handler().got, expected);
}

#[test]
fn test_failing_handler_terminates_and_surfaces() {
    let mut lifecycle = ServerLifecycle::new();
    let mut bus = EventBus::new(8);
    let bad = lifecycle.register();
    let good = lifecycle.register();
    assert_eq!(bus.subscribe(), bad);
    assert_eq!(bus.subscribe(), good);
    let mut sub_bad = HandlerSubscription::new(AlwaysFails { calls: 0 });
    let mut sub_good = HandlerSubscription::new(Capturing { got: Vec::new() });
    lifecycle.start().expect("start failed");

    bus.publish(&b"{\"a\":1}".to_vec()).expect("publish failed");
    bus.publish(&b"{\"a\":2}".to_vec()).expect("publish failed");
    drain(&mut sub_bad, &mut bus, bad);
    drain(&mut sub_good, &mut bus, good);

    // The failing handler saw exactly one payload, then its subscription
    // ended with its error.
    let bad_status = match sub_bad.current_status() {
        SubscriptionStatus::Failed(m) => m.clone(),
        other => panic!("expected a failed subscription, got {:?}", other),
    };
    assert_eq!(bad_status, "handler refused the payload");

    lifecycle.signal_shutdown();
    bus.close();
    drain(&mut sub_good, &mut bus, good);
    assert!(matches!(sub_good.current_status(), SubscriptionStatus::Finished));

    let result = lifecycle.complete_shutdown(
        ListenerOutcome::Shutdown,
        &vec![
            SubscriptionOutcome::Failed(bad_status),
            SubscriptionOutcome::Completed,
        ],
    );
    let failure = result.expect_err("the handler failure must surface");
    assert_eq!(failure.listener, None);
    assert_eq!(
        failure.handler_failures,
        vec![(0, SubscriptionOutcome::Failed("handler refused the payload".to_string()))]
    );

    // The successful handler was unaffected: it observed both payloads.
    assert_eq!(
        sub_good.into_handler().got,
        vec![b"{\"a\":1}".to_vec(), b"{\"a\":2}".to_vec()]
    );
    assert_eq!(sub_bad.into_handler().calls, 1);
}

#[test]
fn test_overflowed_subscription_fails_with_overflow_message() {
    let mut bus = EventBus::new(1);
    let k = bus.subscribe();
    let mut sub = HandlerSubscription::new(Capturing { got: Vec::new() });

    bus.publish(&b"one".to_vec()).expect("publish failed");
    // The backlog (bound 1) is full: this publish fails the subscriber.
    bus.publish(&b"two".to_vec()).expect("publish failed");

    drain(&mut sub, &mut bus, k);
    match sub.current_status() {
        SubscriptionStatus::Failed(m) => assert_eq!(m, "subscriber backlog overflowed"),
        other => panic!("expected an overflow failure, got {:?}", other),
    }
    // The handler never saw a payload: the overflow preceded any delivery.
    assert_eq!(sub.into_handler().got.len(), 0);
}

#[test]
fn test_drain_leaves_ended_subscriptions_alone() {
    let mut bus = EventBus::new(4);
    let k = bus.subscribe();
    let mut sub = HandlerSubscription::new(Capturing { got: Vec::new() });

    let r = sub.step(SubscriptionEvent::BusClosed);
    assert_eq!(r, Ok(()));
    assert!(matches!(sub.current_status(), SubscriptionStatus::Finished));

    bus.publish(&b"late".to_vec()).expect("publish failed");
    drain(&mut sub, &mut bus, k);
    assert!(matches!(sub.current_status(), SubscriptionStatus::Finished));
    assert_eq!(sub.into_handler().got.len(), 0);
}
