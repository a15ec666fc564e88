//! End-to-end scenarios: whole operations driven through the registry and the
//! dispatcher together, interleaved the way the asynchronous runtime would
//! interleave them.

use connection_registry::dispatch::{conclude, step, OpAction, OpEvent, OpState};
use connection_registry::errors::CallFailure;
use connection_registry::handle::{TransportKind, WrappedConnection};
use connection_registry::registry::{CheckinOutcome, CheckoutOutcome, Registry};

// Stand-ins for the two transport clients; the core never looks inside them.
#[derive(Debug, PartialEq)]
struct StreamClient(u8);
#[derive(Debug, PartialEq)]
struct RequestClient(u8);

type Handle = WrappedConnection<StreamClient, RequestClient>;

// The simulated transport call: route on the variant once, serve the call with
// the matching client, and hand the still-valid handle back with the outcome.
fn call_transport(h: Handle, outcome: Result<u32, CallFailure>) -> (Handle, Result<u32, CallFailure>) {
    match h {
        WrappedConnection::WS(client) => (WrappedConnection::WS(client), outcome),
        WrappedConnection::HTTP(client) => (WrappedConnection::HTTP(client), outcome),
    }
}

#[test]
fn handle_kind_routes_on_the_variant() {
    let ws: Handle = WrappedConnection::WS(StreamClient(1));
    let http: Handle = WrappedConnection::HTTP(RequestClient(2));
    assert_eq!(ws.kind(), TransportKind::Stream);
    assert_eq!(http.kind(), TransportKind::RequestResponse);
}

#[test]
fn two_concurrent_creates_share_one_connection() {
    // register identity "conn-1" with a request/response handle
    let mut registry: Registry<Handle> = Registry::new();
    registry.register("conn-1".to_string(), WrappedConnection::HTTP(RequestClient(1)));
    let id = "conn-1".to_string();

    let mut op_a: OpState<u32> = OpState::Start;
    let mut op_b: OpState<u32> = OpState::Start;

    // both creates ask for the handle before either call runs: a is granted,
    // b waits in line
    let granted = match registry.checkout(&id, 1) {
        CheckoutOutcome::Granted(h) => h,
        _ => panic!("grant expected"),
    };
    assert!(matches!(registry.checkout(&id, 2), CheckoutOutcome::Queued));

    // operation a runs its call while b waits
    let (s, a) = step::<Handle, u32>(op_a, OpEvent::CheckoutGranted(granted));
    op_a = s;
    let handle = match a {
        OpAction::CallTransport(h) => h,
        _ => panic!("a granted checkout must lead to the transport call"),
    };
    assert_eq!(handle.kind(), TransportKind::RequestResponse);
    let (handle, outcome) = call_transport(handle, Ok(10));
    let (s, a) = step::<Handle, u32>(op_a, OpEvent::TransportReturned(handle, outcome));
    op_a = s;
    let handle = match a {
        OpAction::Checkin(h) => h,
        _ => panic!("the call's return must lead to the checkin"),
    };

    // a's checkin hands the handle straight to b, in arrival order
    let granted_b = match registry.checkin(&id, handle) {
        CheckinOutcome::Granted(t, h) => {
            assert_eq!(t, 2);
            h
        },
        _ => panic!("the waiting checkout must be served"),
    };
    let (s, _) = step::<Handle, u32>(op_a, OpEvent::CheckinAcked);
    op_a = s;

    // operation b runs its call on the very same handle
    let (s, a) = step::<Handle, u32>(op_b, OpEvent::CheckoutGranted(granted_b));
    op_b = s;
    let handle = match a {
        OpAction::CallTransport(h) => h,
        _ => panic!("a granted checkout must lead to the transport call"),
    };
    let (handle, outcome) = call_transport(handle, Ok(11));
    let (s, a) = step::<Handle, u32>(op_b, OpEvent::TransportReturned(handle, outcome));
    op_b = s;
    let handle = match a {
        OpAction::Checkin(h) => h,
        _ => panic!("the call's return must lead to the checkin"),
    };
    assert!(matches!(registry.checkin(&id, handle), CheckinOutcome::Idle));
    let (s, _) = step::<Handle, u32>(op_b, OpEvent::CheckinAcked);
    op_b = s;

    // both creates succeed with their own database values, and the slot holds
    // exactly one handle again
    assert_eq!(conclude(op_a), Some(Ok(10)));
    assert_eq!(conclude(op_b), Some(Ok(11)));
    match registry.checkout(&id, 3) {
        CheckoutOutcome::Granted(h) => {
            assert_eq!(h, WrappedConnection::HTTP(RequestClient(1)));
        },
        _ => panic!("the slot must hold its one handle after both creates"),
    }
    assert!(matches!(registry.checkout(&id, 4), CheckoutOutcome::Queued));
}

#[test]
fn many_failing_operations_leak_nothing() {
    let mut registry: Registry<Handle> = Registry::new();
    registry.register("conn-1".to_string(), WrappedConnection::WS(StreamClient(3)));
    let id = "conn-1".to_string();

    let mut ticket: u64 = 0;
    for _ in 0..32 {
        ticket += 1;
        let mut op: OpState<u32> = OpState::Start;
        let granted = match registry.checkout(&id, ticket) {
            CheckoutOutcome::Granted(h) => h,
            _ => panic!("the handle must be available on every round"),
        };
        let (s, a) = step::<Handle, u32>(op, OpEvent::CheckoutGranted(granted));
        op = s;
        let handle = match a {
            OpAction::CallTransport(h) => h,
            _ => panic!("a granted checkout must lead to the transport call"),
        };
        let failure = CallFailure::Transport("connection reset".to_string());
        let (handle, outcome) = call_transport(handle, Err(failure));
        let (s, a) = step::<Handle, u32>(op, OpEvent::TransportReturned(handle, outcome));
        op = s;
        let handle = match a {
            OpAction::Checkin(h) => h,
            _ => panic!("a failed call must still lead to the checkin"),
        };
        assert!(matches!(registry.checkin(&id, handle), CheckinOutcome::Idle));
        let (s, _) = step::<Handle, u32>(op, OpEvent::CheckinAcked);
        assert_eq!(conclude(s), Some(Err("connection reset".to_string())));
    }

    // after all the failures the identity is still checkout-able, with exactly
    // one handle
    match registry.checkout(&id, 1000) {
        CheckoutOutcome::Granted(h) => {
            assert_eq!(h, WrappedConnection::WS(StreamClient(3)));
        },
        _ => panic!("no failure may strand the handle"),
    }
}
