//! The per-operation dispatcher template, exercised step by step.

use connection_registry::create::{validate_create, CreateRequest};
use connection_registry::dispatch::{conclude, step, OpAction, OpEvent, OpState};
use connection_registry::errors::{CallFailure, OpError, RegistryFailure};

#[test]
fn successful_create_flow() {
    let s: OpState<u32> = OpState::Start;
    let (s, a) = step::<u64, u32>(s, OpEvent::CheckoutGranted(9));
    assert!(matches!(s, OpState::CheckedOut));
    assert!(matches!(a, OpAction::CallTransport(9)));
    let (s, a) = step::<u64, u32>(s, OpEvent::TransportReturned(9, Ok(5)));
    assert!(matches!(a, OpAction::Checkin(9)));
    let (s, a) = step::<u64, u32>(s, OpEvent::CheckinAcked);
    assert!(matches!(a, OpAction::Halt));
    assert!(matches!(s, OpState::Done(Ok(5))));
    // success carries the database's returned value
    assert_eq!(conclude(s), Some(Ok(5)));
}

#[test]
fn distinct_values_surface_distinctly() {
    let mut results: Vec<Option<Result<u32, String>>> = Vec::new();
    for value in [5u32, 6u32] {
        let s: OpState<u32> = OpState::Start;
        let (s, _) = step::<u64, u32>(s, OpEvent::CheckoutGranted(9));
        let (s, _) = step::<u64, u32>(s, OpEvent::TransportReturned(9, Ok(value)));
        let (s, _) = step::<u64, u32>(s, OpEvent::CheckinAcked);
        results.push(conclude(s));
    }
    assert_eq!(results[0], Some(Ok(5)));
    assert_eq!(results[1], Some(Ok(6)));
    assert_ne!(results[0], results[1]);
}

#[test]
fn failed_call_still_checks_in() {
    let s: OpState<u32> = OpState::Start;
    let (s, _) = step::<u64, u32>(s, OpEvent::CheckoutGranted(9));
    let failure = CallFailure::Database("record already exists".to_string());
    let (s, a) = step::<u64, u32>(s, OpEvent::TransportReturned(9, Err(failure)));
    // the handle goes back whatever the call's outcome
    assert!(matches!(a, OpAction::Checkin(9)));
    let (s, _) = step::<u64, u32>(s, OpEvent::CheckinAcked);
    assert_eq!(conclude(s), Some(Err("record already exists".to_string())));
}

#[test]
fn transport_failure_message_passes_through() {
    let s: OpState<u32> = OpState::Start;
    let (s, _) = step::<u64, u32>(s, OpEvent::CheckoutGranted(9));
    let failure = CallFailure::Transport("connection reset".to_string());
    let (s, _) = step::<u64, u32>(s, OpEvent::TransportReturned(9, Err(failure)));
    let (s, _) = step::<u64, u32>(s, OpEvent::CheckinAcked);
    assert_eq!(conclude(s), Some(Err("connection reset".to_string())));
}

#[test]
fn checkout_not_found_resolves_without_handle() {
    let s: OpState<u32> = OpState::Start;
    let (s, a) = step::<u64, u32>(s, OpEvent::CheckoutFailed(RegistryFailure::NotFound));
    assert!(matches!(a, OpAction::Halt));
    assert_eq!(conclude(s), Some(Err("connection does not exist".to_string())));
}

#[test]
fn checkout_channel_closed_resolves_without_handle() {
    let s: OpState<u32> = OpState::Start;
    let (s, _) = step::<u64, u32>(s, OpEvent::CheckoutFailed(RegistryFailure::ChannelClosed));
    assert_eq!(conclude(s), Some(Err("connection registry is unavailable".to_string())));
}

#[test]
fn operation_in_flight_has_no_result() {
    let s: OpState<u32> = OpState::Start;
    assert!(conclude(s).is_none());
    let s: OpState<u32> = OpState::Start;
    let (s, _) = step::<u64, u32>(s, OpEvent::CheckoutGranted(9));
    assert!(conclude(s).is_none());
}

#[test]
fn unexpected_event_faults_but_salvages_handle() {
    let s: OpState<u32> = OpState::Start;
    let (s, a) = step::<u64, u32>(s, OpEvent::TransportReturned(9, Ok(5)));
    assert!(matches!(s, OpState::Faulted));
    // even a fault never drops a handle
    assert!(matches!(a, OpAction::Checkin(9)));
    assert!(conclude(s).is_none());
}

#[test]
fn unexpected_bare_event_faults_and_halts() {
    let s: OpState<u32> = OpState::CheckedOut;
    let (s, a) = step::<u64, u32>(s, OpEvent::CheckinAcked);
    assert!(matches!(s, OpState::Faulted));
    assert!(matches!(a, OpAction::Halt));
}

#[test]
fn error_messages_collapse_to_strings() {
    assert_eq!(OpError::IdentityNotFound.message(), "connection does not exist");
    assert_eq!(OpError::InternalProtocolFailure.message(), "connection registry is unavailable");
    assert_eq!(OpError::Transport("timed out".to_string()).message(), "timed out");
    assert_eq!(OpError::Database("bad table".to_string()).message(), "bad table");
}

#[test]
fn create_request_validation() {
    let good = CreateRequest { connection_id: "conn-1".to_string(), table_name: "users".to_string() };
    assert!(validate_create(&good));
    let bad = CreateRequest { connection_id: "conn-1".to_string(), table_name: "".to_string() };
    assert!(!validate_create(&bad));
}
