//! The per-operation dispatcher: checkout, transport call, unconditional
//! checkin, then surface the outcome.
//!
//! Every database operation follows the same template.  The template is a state
//! machine driven by events from the surrounding runtime: the runtime performs
//! the channel traffic and the transport call, and between any two of those it
//! asks `step` what to do next.  The machine never holds a handle across a
//! step: a handle arrives inside an event and leaves inside the action of the
//! same step, so no path through the machine can strand one.

use vstd::prelude::*;
use crate::errors::{CallFailure, OpError, RegistryFailure};
use crate::registry::{checkin_next, checkout_next, slot_wf, SlotModel};

verus! {

/// The phase of one in-flight operation.  `Called` and `Done` carry the
/// captured outcome of the transport call; `Done` reached straight from `Start`
/// carries the registry failure instead.  `Faulted` records an event that the
/// current phase cannot accept, a programming error in the driver.
pub enum OpState<V> {
    Start,
    CheckedOut,
    Called(Result<V, OpError>),
    Done(Result<V, OpError>),
    Faulted,
}

/// What the surrounding runtime reports to the dispatcher: the registry's reply
/// to the checkout, the transport call's return (with the handle, still valid
/// whatever the outcome), and the registry's acknowledgement of the checkin.
pub enum OpEvent<H, V> {
    CheckoutGranted(H),
    CheckoutFailed(RegistryFailure),
    TransportReturned(H, Result<V, CallFailure>),
    CheckinAcked,
}

/// What the dispatcher asks the surrounding runtime to do next with the handle
/// it was just given, if any.
pub enum OpAction<H> {
    CallTransport(H),
    Checkin(H),
    Halt,
}

/// The error an operation reports when the registry could not serve its
/// checkout.
pub open spec fn registry_error(f: RegistryFailure) -> OpError {
    match f {
        RegistryFailure::NotFound => OpError::IdentityNotFound,
        RegistryFailure::ChannelClosed => OpError::InternalProtocolFailure,
    }
}

/// The operation-level outcome captured from a transport call's return.
pub open spec fn capture_outcome<V>(r: Result<V, CallFailure>) -> Result<V, OpError> {
    match r {
        Ok(v) => Ok(v),
        Err(CallFailure::Transport(s)) => Err(OpError::Transport(s)),
        Err(CallFailure::Database(s)) => Err(OpError::Database(s)),
    }
}

/// A handle carried by an event that arrives in the wrong phase is still
/// checked back in, never dropped.
pub open spec fn salvage<H, V>(e: OpEvent<H, V>) -> OpAction<H> {
    match e {
        OpEvent::CheckoutGranted(h) => OpAction::Checkin(h),
        OpEvent::TransportReturned(h, _) => OpAction::Checkin(h),
        _ => OpAction::Halt,
    }
}

/// One transition of the dispatcher: from the current phase and the event that
/// just happened to the next phase and the next thing to do.
///
/// The only transitions are `Start` to `CheckedOut` (call the transport with
/// the granted handle), `Start` to `Done` (the checkout itself failed and no
/// handle was ever held), `CheckedOut` to `Called` (capture the outcome and
/// check the handle back in, success or failure alike), and `Called` to `Done`
/// (the checkin completed; surface the captured outcome).  Anything else is a
/// fault, and a handle carried by the faulting event is still checked in.
pub open spec fn step_next<H, V>(s: OpState<V>, e: OpEvent<H, V>) -> (OpState<V>, OpAction<H>) {
    match (s, e) {
        (OpState::Start, OpEvent::CheckoutGranted(h)) => (
            OpState::CheckedOut,
            OpAction::CallTransport(h),
        ),
        (OpState::Start, OpEvent::CheckoutFailed(f)) => (
            OpState::Done(Err(registry_error(f))),
            OpAction::Halt,
        ),
        (OpState::CheckedOut, OpEvent::TransportReturned(h, r)) => (
            OpState::Called(capture_outcome(r)),
            OpAction::Checkin(h),
        ),
        (OpState::Called(r), OpEvent::CheckinAcked) => (OpState::Done(r), OpAction::Halt),
        (_, rest) => (OpState::Faulted, salvage(rest)),
    }
}

/// Advance one operation by one event: exactly one step of `step_next`.
pub fn step<H, V>(s: OpState<V>, e: OpEvent<H, V>) -> (r: (OpState<V>, OpAction<H>))
    ensures
        r == step_next(s, e),
{
    match (s, e) {
        (OpState::Start, OpEvent::CheckoutGranted(h)) => (
            OpState::CheckedOut,
            OpAction::CallTransport(h),
        ),
        (OpState::Start, OpEvent::CheckoutFailed(f)) => {
            let err = match f {
                RegistryFailure::NotFound => OpError::IdentityNotFound,
                RegistryFailure::ChannelClosed => OpError::InternalProtocolFailure,
            };
            (OpState::Done(Err(err)), OpAction::Halt)
        },
        (OpState::CheckedOut, OpEvent::TransportReturned(h, r)) => {
            let outcome = match r {
                Ok(v) => Ok(v),
                Err(CallFailure::Transport(s2)) => Err(OpError::Transport(s2)),
                Err(CallFailure::Database(s2)) => Err(OpError::Database(s2)),
            };
            (OpState::Called(outcome), OpAction::Checkin(h))
        },
        (OpState::Called(r), OpEvent::CheckinAcked) => (OpState::Done(r), OpAction::Halt),
        (_, rest) => {
            let act = match rest {
                OpEvent::CheckoutGranted(h) => OpAction::Checkin(h),
                OpEvent::TransportReturned(h, _) => OpAction::Checkin(h),
                _ => OpAction::Halt,
            };
            (OpState::Faulted, act)
        },
    }
}

/// The result surfaced to the caller once the operation has resolved, and
/// `None` while it is still in flight: the database's value on success, and
/// each error collapsed to its message string.
pub fn conclude<V>(s: OpState<V>) -> (r: Option<Result<V, String>>)
    ensures
        s matches OpState::Done(Ok(v)) ==> r == Some(Result::<V, String>::Ok(v)),
        s matches OpState::Done(Err(e)) ==> (r matches Some(out) && out is Err && out->Err_0@
            == e.message_spec()),
        !(s is Done) ==> r is None,
{
    match s {
        OpState::Done(Ok(v)) => Some(Ok(v)),
        OpState::Done(Err(e)) => Some(Err(e.message())),
        _ => None,
    }
}

/// Law — checkin is unconditional: from the `CheckedOut` phase, the transport
/// call's return leads to a `Checkin` of the still-valid handle whatever the
/// outcome was, and the outcome is captured unchanged for the caller.
pub proof fn lemma_unconditional_checkin<H, V>(h: H, r: Result<V, CallFailure>)
    ensures
        step_next::<H, V>(OpState::CheckedOut, OpEvent::TransportReturned(h, r)).1
            == OpAction::<H>::Checkin(h),
        step_next::<H, V>(OpState::CheckedOut, OpEvent::TransportReturned(h, r)).0
            == OpState::<V>::Called(capture_outcome(r)),
{
}

/// Law — no terminal state without a checkin: a step resolves an operation only
/// from `Called`, that is after its checkin completed, or from `Start` when the
/// checkout itself failed and no handle was ever held.  In particular there is
/// no step from `CheckedOut` to `Done`.
pub proof fn lemma_no_done_without_checkin<H, V>(s: OpState<V>, e: OpEvent<H, V>)
    ensures
        step_next(s, e).0 is Done ==> (s is Called || (s is Start && e is CheckoutFailed)),
{
}

/// Law — handles are conserved: a handle that reaches the dispatcher inside an
/// event leaves inside the action of the very same step, bound for the
/// transport call or back to the registry; it is never dropped.
pub proof fn lemma_handle_conservation<H, V>(s: OpState<V>, e: OpEvent<H, V>)
    ensures
        e matches OpEvent::CheckoutGranted(h) ==> (step_next(s, e).1 == OpAction::<
            H,
        >::CallTransport(h) || step_next(s, e).1 == OpAction::<H>::Checkin(h)),
        e matches OpEvent::TransportReturned(h, _) ==> step_next(s, e).1 == OpAction::<
            H,
        >::Checkin(h),
{
}

/// Law — one whole operation, end to end: against a registered identity whose
/// handle is checked in, the template (checkout, transport call, unconditional
/// checkin) always grants, always calls, always checks the very same handle
/// back in, resolves to exactly the transport call's outcome whatever that
/// outcome was, and leaves the registry exactly as it found it.
pub proof fn lemma_operation_round_trip<H, V>(
    m: Map<Seq<char>, SlotModel<H>>,
    id: Seq<char>,
    t: u64,
    r: Result<V, CallFailure>,
)
    requires
        m.dom().contains(id),
        m[id].value is Some,
        slot_wf(m[id]),
    ensures
        ({
            let granted = checkout_next(m, id, t);
            let h = granted.1->Granted_0;
            let s1 = step_next::<H, V>(OpState::Start, OpEvent::CheckoutGranted(h));
            let s2 = step_next::<H, V>(s1.0, OpEvent::TransportReturned(h, r));
            let s3 = step_next::<H, V>(s2.0, OpEvent::CheckinAcked);
            let back = checkin_next(granted.0, id, h);
            &&& granted.1 is Granted
            &&& s1.1 == OpAction::<H>::CallTransport(h)
            &&& s2.1 == OpAction::<H>::Checkin(h)
            &&& back.1 is Idle
            &&& back.0 == m
            &&& s3.0 == OpState::<V>::Done(capture_outcome(r))
        }),
{
    let granted = checkout_next(m, id, t);
    let h = granted.1->Granted_0;
    let back = checkin_next(granted.0, id, h);
    assert(back.0 =~= m);
}

} // verus!
