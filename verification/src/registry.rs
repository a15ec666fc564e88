//! The connection registry: a single-owner map from connection identity to
//! connection slot, serving checkout and checkin requests one at a time.
//!
//! A slot holds at most one connection handle.  A successful checkout removes
//! the handle from its slot and hands exclusive ownership to the caller; the
//! matching checkin puts it back, or hands it straight to the earliest waiting
//! checkout.  Contention on a busy identity is queued in arrival order, never
//! rejected, so per-identity access is first-come-first-served while distinct
//! identities never interact at all.
//!
//! The registry is generic over the handle type: it never looks inside a
//! handle, it only transfers ownership of one.  The surrounding runtime owns
//! one `Registry` value behind a message channel and calls these methods once
//! per received message, which is what serializes all slot access.

use vstd::prelude::*;

verus! {

/// The ghost model of one slot: the handle while it is checked in, and the
/// tickets of the checkouts waiting for it, in arrival order.
pub struct SlotModel<H> {
    pub value: Option<H>,
    pub waiters: Seq<u64>,
}

/// One slot: the handle when it is checked in (`value` is `None` exactly while
/// the handle is out with an in-flight operation), and the waiting tickets.
struct Slot<H> {
    value: Option<H>,
    waiters: Vec<u64>,
}

impl<H> View for Slot<H> {
    type V = SlotModel<H>;

    closed spec fn view(&self) -> SlotModel<H> {
        SlotModel { value: self.value, waiters: self.waiters@ }
    }
}

/// A slot that still holds its handle has nobody waiting: a checkin with
/// waiters present hands the handle over instead of parking it.
pub open spec fn slot_wf<H>(s: SlotModel<H>) -> bool {
    s.value is Some ==> s.waiters.len() == 0
}

/// One registry entry: a connection identity and its slot.
struct Entry<H> {
    id: String,
    slot: Slot<H>,
}

/// No two entries share an identity, so the model map loses nothing.
spec fn ids_unique<H>(entries: Seq<Entry<H>>) -> bool {
    forall|i: int, j: int| 0 <= i < j < entries.len() ==> entries[i].id@ != entries[j].id@
}

/// The model of a whole entry table: identity to slot model.
spec fn map_of<H>(entries: Seq<Entry<H>>) -> Map<Seq<char>, SlotModel<H>>
    decreases entries.len(),
{
    if entries.len() == 0 {
        Map::empty()
    } else {
        map_of(entries.drop_last()).insert(entries.last().id@, entries.last().slot@)
    }
}

/// What a checkout reports: exclusive ownership of the handle, a place in the
/// identity's queue (the reply comes with a later checkin), or an unknown
/// identity.
pub enum CheckoutOutcome<H> {
    Granted(H),
    Queued,
    NotFound,
}

/// What a checkin reports: the handle went back to its slot, or it was handed
/// straight to the earliest waiting ticket, or the identity was torn down while
/// the operation was in flight (the handle comes back to be dropped), or the
/// slot already held a handle, which only a caller that never checked out can
/// provoke (the handle comes back as well).
pub enum CheckinOutcome<H> {
    Idle,
    Granted(u64, H),
    Unregistered(H),
    Rejected(H),
}

/// What registering an identity reports: a fresh slot, or an identity that is
/// already present (the handle comes back to the caller).
pub enum RegisterOutcome<H> {
    Registered,
    Duplicate(H),
}

/// What tearing an identity down reports: the slot's remains (its handle if it
/// was checked in, and the tickets still waiting, to be failed by the caller),
/// or an identity that was never there.
pub enum TeardownOutcome<H> {
    Removed(Option<H>, Vec<u64>),
    UnknownId,
}

/// One checkout step on the model: grant the handle if the slot holds it,
/// otherwise queue the ticket at the back, and fail on an unknown identity.
pub open spec fn checkout_next<H>(
    m: Map<Seq<char>, SlotModel<H>>,
    id: Seq<char>,
    ticket: u64,
) -> (Map<Seq<char>, SlotModel<H>>, CheckoutOutcome<H>) {
    if !m.dom().contains(id) {
        (m, CheckoutOutcome::NotFound)
    } else if m[id].value is Some {
        (
            m.insert(id, SlotModel { value: None, waiters: m[id].waiters }),
            CheckoutOutcome::Granted(m[id].value->Some_0),
        )
    } else {
        (
            m.insert(id, SlotModel { value: None, waiters: m[id].waiters.push(ticket) }),
            CheckoutOutcome::Queued,
        )
    }
}

/// One checkin step on the model: park the handle if nobody waits, otherwise
/// hand it to the earliest waiting ticket; an unknown identity or an occupied
/// slot returns the handle to the caller and changes nothing.
pub open spec fn checkin_next<H>(
    m: Map<Seq<char>, SlotModel<H>>,
    id: Seq<char>,
    handle: H,
) -> (Map<Seq<char>, SlotModel<H>>, CheckinOutcome<H>) {
    if !m.dom().contains(id) {
        (m, CheckinOutcome::Unregistered(handle))
    } else if m[id].value is Some {
        (m, CheckinOutcome::Rejected(handle))
    } else if m[id].waiters.len() == 0 {
        (
            m.insert(id, SlotModel { value: Some(handle), waiters: m[id].waiters }),
            CheckinOutcome::Idle,
        )
    } else {
        (
            m.insert(id, SlotModel { value: None, waiters: m[id].waiters.drop_first() }),
            CheckinOutcome::Granted(m[id].waiters[0], handle),
        )
    }
}

/// Registering a fresh identity adds a checked-in slot with an empty queue; a
/// duplicate identity changes nothing.
pub open spec fn register_next<H>(
    m: Map<Seq<char>, SlotModel<H>>,
    id: Seq<char>,
    handle: H,
) -> (Map<Seq<char>, SlotModel<H>>, RegisterOutcome<H>) {
    if m.dom().contains(id) {
        (m, RegisterOutcome::Duplicate(handle))
    } else {
        (
            m.insert(id, SlotModel { value: Some(handle), waiters: Seq::empty() }),
            RegisterOutcome::Registered,
        )
    }
}

/// Tearing an identity down removes its slot; an unknown identity changes
/// nothing.
pub open spec fn teardown_next<H>(
    m: Map<Seq<char>, SlotModel<H>>,
    id: Seq<char>,
) -> Map<Seq<char>, SlotModel<H>> {
    if m.dom().contains(id) {
        m.remove(id)
    } else {
        m
    }
}

/// The registry itself: the entry table, reachable only through the methods
/// below.
pub struct Registry<H> {
    entries: Vec<Entry<H>>,
}

impl<H> View for Registry<H> {
    type V = Map<Seq<char>, SlotModel<H>>;

    closed spec fn view(&self) -> Map<Seq<char>, SlotModel<H>> {
        map_of(self.entries@)
    }
}

impl<H> Registry<H> {
    /// Identities are unique and every slot is well formed.
    pub closed spec fn wf(&self) -> bool {
        &&& ids_unique(self.entries@)
        &&& forall|i: int|
            0 <= i < self.entries@.len() ==> slot_wf(#[trigger] self.entries@[i].slot@)
    }

    /// An empty registry: no identities, nothing checked out.
    pub fn new() -> (r: Registry<H>)
        ensures
            r.wf(),
            r@ == Map::<Seq<char>, SlotModel<H>>::empty(),
    {
        Registry { entries: Vec::new() }
    }

    /// The index of the entry for `id`, if there is one.
    fn find(&self, id: &String) -> (r: Option<usize>)
        ensures
            match r {
                Some(i) => i < self.entries@.len() && self.entries@[i as int].id@ == id@,
                None => forall|j: int| 0 <= j < self.entries@.len() ==> self.entries@[j].id@ != id@,
            },
    {
        let mut i: usize = 0;
        while i < self.entries.len()
            invariant
                i <= self.entries@.len(),
                forall|j: int| 0 <= j < i ==> self.entries@[j].id@ != id@,
            decreases self.entries@.len() - i,
        {
            if self.entries[i].id == *id {
                return Some(i);
            }
            i = i + 1;
        }
        None
    }

    /// Serve one checkout request: one step of `checkout_next` on the model.
    pub fn checkout(&mut self, id: &String, ticket: u64) -> (out: CheckoutOutcome<H>)
        requires
            old(self).wf(),
        ensures
            final(self).wf(),
            final(self)@ == checkout_next(old(self)@, id@, ticket).0,
            out == checkout_next(old(self)@, id@, ticket).1,
    {
        let found = self.find(id);
        match found {
            None => {
                proof {
                    lemma_map_of_dom(self.entries@, id@);
                }
                CheckoutOutcome::NotFound
            },
            Some(i) => {
                proof {
                    lemma_map_of_at(self.entries@, i as int);
                }
                let ghost entries0 = self.entries@;
                let mut e = self.entries.remove(i);
                let taken = e.slot.value.take();
                let out = match taken {
                    Some(h) => CheckoutOutcome::Granted(h),
                    None => {
                        e.slot.waiters.push(ticket);
                        CheckoutOutcome::Queued
                    },
                };
                let ghost e1 = e;
                self.entries.insert(i, e);
                proof {
                    lemma_remove_insert_is_update(entries0, i as int, e1);
                    lemma_map_of_update(entries0, i as int, e1);
                }
                out
            },
        }
    }

    /// Serve one checkin: one step of `checkin_next` on the model.
    pub fn checkin(&mut self, id: &String, handle: H) -> (out: CheckinOutcome<H>)
        requires
            old(self).wf(),
        ensures
            final(self).wf(),
            final(self)@ == checkin_next(old(self)@, id@, handle).0,
            out == checkin_next(old(self)@, id@, handle).1,
    {
        let found = self.find(id);
        match found {
            None => {
                proof {
                    lemma_map_of_dom(self.entries@, id@);
                }
                CheckinOutcome::Unregistered(handle)
            },
            Some(i) => {
                proof {
                    lemma_map_of_at(self.entries@, i as int);
                }
                if self.entries[i].slot.value.is_some() {
                    return CheckinOutcome::Rejected(handle);
                }
                let ghost entries0 = self.entries@;
                let mut e = self.entries.remove(i);
                let out = if e.slot.waiters.is_empty() {
                    e.slot.value = Some(handle);
                    CheckinOutcome::Idle
                } else {
                    let ghost w0 = e.slot.waiters@;
                    let t = e.slot.waiters.remove(0);
                    proof {
                        assert(e.slot.waiters@ =~= w0.drop_first());
                    }
                    CheckinOutcome::Granted(t, handle)
                };
                let ghost e1 = e;
                self.entries.insert(i, e);
                proof {
                    lemma_remove_insert_is_update(entries0, i as int, e1);
                    lemma_map_of_update(entries0, i as int, e1);
                }
                out
            },
        }
    }

    /// Register a fresh identity with its handle: one step of `register_next`.
    pub fn register(&mut self, id: String, handle: H) -> (out: RegisterOutcome<H>)
        requires
            old(self).wf(),
        ensures
            final(self).wf(),
            final(self)@ == register_next(old(self)@, id@, handle).0,
            out == register_next(old(self)@, id@, handle).1,
    {
        let found = self.find(&id);
        match found {
            Some(_) => {
                proof {
                    lemma_map_of_dom(self.entries@, id@);
                }
                RegisterOutcome::Duplicate(handle)
            },
            None => {
                proof {
                    lemma_map_of_dom(self.entries@, id@);
                }
                let ghost entries0 = self.entries@;
                let entry = Entry { id, slot: Slot { value: Some(handle), waiters: Vec::new() } };
                let ghost e1 = entry;
                self.entries.push(entry);
                proof {
                    lemma_map_of_push(entries0, e1);
                    assert forall|a: int, b: int|
                        0 <= a < b < self.entries@.len() implies self.entries@[a].id@
                        != self.entries@[b].id@ by {
                        if b < entries0.len() as int {
                            assert(self.entries@[a] == entries0[a]);
                            assert(self.entries@[b] == entries0[b]);
                        } else {
                            assert(self.entries@[a] == entries0[a]);
                            assert(self.entries@[b] == e1);
                        }
                    }
                    assert(final(self)@ =~= register_next(old(self)@, id@, handle).0);
                }
                RegisterOutcome::Registered
            },
        }
    }

    /// Tear an identity down: the model loses the identity as `teardown_next`
    /// says, and the slot's remains go back to the caller.
    pub fn teardown(&mut self, id: &String) -> (out: TeardownOutcome<H>)
        requires
            old(self).wf(),
        ensures
            final(self).wf(),
            final(self)@ == teardown_next(old(self)@, id@),
            out is Removed <==> old(self)@.dom().contains(id@),
            out matches TeardownOutcome::Removed(h, w) ==> h == old(self)@[id@].value && w@
                == old(self)@[id@].waiters,
    {
        let found = self.find(id);
        match found {
            None => {
                proof {
                    lemma_map_of_dom(self.entries@, id@);
                }
                TeardownOutcome::UnknownId
            },
            Some(i) => {
                proof {
                    lemma_map_of_at(self.entries@, i as int);
                    lemma_map_of_remove(self.entries@, i as int);
                }
                let e = self.entries.remove(i);
                let Entry { id: _, slot } = e;
                let Slot { value, waiters } = slot;
                TeardownOutcome::Removed(value, waiters)
            },
        }
    }
}

/// Law — the registry invariant reaches the model: every slot of a well-formed
/// registry satisfies `slot_wf`; in particular a slot that still holds its
/// handle has nobody waiting, which is what `lemma_no_leak` asks of a slot.
pub proof fn lemma_wf_slots<H>(r: &Registry<H>)
    requires
        r.wf(),
    ensures
        forall|id: Seq<char>| r@.dom().contains(id) ==> slot_wf(#[trigger] r@[id]),
{
    assert forall|id: Seq<char>| r@.dom().contains(id) implies slot_wf(r@[id]) by {
        lemma_map_of_dom(r.entries@, id);
        let i = choose|i: int| 0 <= i < r.entries@.len() && r.entries@[i].id@ == id;
        lemma_map_of_at(r.entries@, i);
    }
}

/// Law — a freshly registered identity is granted as registered: the first
/// checkout after registering an unknown identity hands out exactly the
/// registered handle.
pub proof fn lemma_register_then_checkout<H>(
    m: Map<Seq<char>, SlotModel<H>>,
    id: Seq<char>,
    h: H,
    t: u64,
)
    requires
        !m.dom().contains(id),
    ensures
        register_next(m, id, h).1 is Registered,
        checkout_next(register_next(m, id, h).0, id, t).1 == CheckoutOutcome::Granted(h),
{
}

/// Law — teardown ends service: right after an identity is torn down, a
/// checkout on it reports `NotFound`, until the identity is registered again.
pub proof fn lemma_teardown_then_checkout<H>(m: Map<Seq<char>, SlotModel<H>>, id: Seq<char>, t: u64)
    ensures
        checkout_next(teardown_next(m, id), id, t).1 is NotFound,
{
}

/// Law — mutual exclusion: a checkout that grants the handle leaves the slot
/// empty, and as long as the handle is out, every further checkout on the same
/// identity is queued, never granted.  Two operations can therefore never hold
/// the handle of one identity at the same time.
pub proof fn lemma_mutual_exclusion<H>(
    m: Map<Seq<char>, SlotModel<H>>,
    id: Seq<char>,
    t1: u64,
    t2: u64,
)
    requires
        checkout_next(m, id, t1).1 is Granted,
    ensures
        checkout_next(m, id, t1).0[id].value is None,
        checkout_next(checkout_next(m, id, t1).0, id, t2).1 is Queued,
{
}

/// Law — no leak on failure: a granted handle that is checked back in (the
/// registry never sees whether the transport call succeeded, so this holds for
/// failed calls in particular) restores the slot exactly as it was: the handle
/// is available again, the next checkout is granted that same handle, and a
/// second checkin of it is rejected.
pub proof fn lemma_no_leak<H>(m: Map<Seq<char>, SlotModel<H>>, id: Seq<char>, t1: u64, t2: u64)
    requires
        m.dom().contains(id),
        m[id].value is Some,
        slot_wf(m[id]),
    ensures
        checkout_next(m, id, t1).1 is Granted,
        ({
            let granted = checkout_next(m, id, t1);
            let back = checkin_next(granted.0, id, granted.1->Granted_0);
            &&& back.1 is Idle
            &&& back.0 == m
            &&& checkout_next(back.0, id, t2).1 == CheckoutOutcome::Granted(
                granted.1->Granted_0,
            )
            &&& forall|h2: H| checkin_next(back.0, id, h2).1 is Rejected
        }),
{
    let granted = checkout_next(m, id, t1);
    let back = checkin_next(granted.0, id, granted.1->Granted_0);
    assert(back.0 =~= m);
}

/// Law — FIFO grant: a checkin on an identity with waiting checkouts hands the
/// handle to the earliest waiting ticket and keeps the rest in order.
pub proof fn lemma_fifo_grant<H>(m: Map<Seq<char>, SlotModel<H>>, id: Seq<char>, h: H)
    requires
        m.dom().contains(id),
        m[id].value is None,
        m[id].waiters.len() > 0,
    ensures
        checkin_next(m, id, h).1 == CheckinOutcome::Granted(m[id].waiters[0], h),
        checkin_next(m, id, h).0[id].waiters == m[id].waiters.drop_first(),
{
}

/// Law — FIFO fairness under contention: with the handle out and nobody yet
/// waiting, two checkouts queued one after the other are granted in exactly
/// that order by the two following checkins.
pub proof fn lemma_fifo_pair<H>(
    m: Map<Seq<char>, SlotModel<H>>,
    id: Seq<char>,
    t1: u64,
    t2: u64,
    h1: H,
    h2: H,
)
    requires
        m.dom().contains(id),
        m[id].value is None,
        m[id].waiters.len() == 0,
    ensures
        checkout_next(m, id, t1).1 is Queued,
        ({
            let m1 = checkout_next(m, id, t1).0;
            let m2 = checkout_next(m1, id, t2).0;
            let first = checkin_next(m2, id, h1);
            let second = checkin_next(first.0, id, h2);
            &&& checkout_next(m1, id, t2).1 is Queued
            &&& first.1 == CheckinOutcome::Granted(t1, h1)
            &&& second.1 == CheckinOutcome::Granted(t2, h2)
        }),
{
    let w0 = m[id].waiters;
    let m1 = checkout_next(m, id, t1).0;
    let m2 = checkout_next(m1, id, t2).0;
    assert(w0.push(t1)[0] == t1);
    assert(m2[id].waiters == w0.push(t1).push(t2));
    let first = checkin_next(m2, id, h1);
    assert(first.0[id].waiters =~= seq![t2]) by {
        assert(w0.push(t1).push(t2)[0] == t1);
        assert(w0.push(t1).push(t2).drop_first() =~= seq![t2]);
    }
    assert(checkin_next(first.0, id, h2).1 == CheckinOutcome::Granted(t2, h2));
}

/// Law — unknown identity: a checkout against an identity with no registered
/// slot (never registered, or already torn down) reports `NotFound`, grants
/// nothing and changes nothing.
pub proof fn lemma_unknown_identity<H>(m: Map<Seq<char>, SlotModel<H>>, id: Seq<char>, t: u64)
    requires
        !m.dom().contains(id),
    ensures
        checkout_next(m, id, t).1 is NotFound,
        checkout_next(m, id, t).0 == m,
{
}

/// Law — cross-identity independence: a checkout or a checkin on one identity
/// leaves the slot of every other identity exactly as it was, so operations on
/// distinct identities never interact through the registry.
pub proof fn lemma_cross_identity_independence<H>(
    m: Map<Seq<char>, SlotModel<H>>,
    id: Seq<char>,
    other: Seq<char>,
    t: u64,
    h: H,
)
    requires
        id != other,
    ensures
        checkout_next(m, id, t).0.dom().contains(other) == m.dom().contains(other),
        m.dom().contains(other) ==> checkout_next(m, id, t).0[other] == m[other],
        checkin_next(m, id, h).0.dom().contains(other) == m.dom().contains(other),
        m.dom().contains(other) ==> checkin_next(m, id, h).0[other] == m[other],
{
}

/// Uniqueness survives dropping the last entry.
proof fn lemma_ids_unique_prefix<H>(entries: Seq<Entry<H>>)
    requires
        ids_unique(entries),
        entries.len() > 0,
    ensures
        ids_unique(entries.drop_last()),
{
    let prefix = entries.drop_last();
    assert forall|a: int, b: int| 0 <= a < b < prefix.len() implies prefix[a].id@ != prefix[b].id@ by {
        assert(prefix[a] == entries[a]);
        assert(prefix[b] == entries[b]);
    }
}

/// An identity is in the model exactly when some entry carries it.
proof fn lemma_map_of_dom<H>(entries: Seq<Entry<H>>, k: Seq<char>)
    ensures
        map_of(entries).dom().contains(k) <==> exists|i: int|
            0 <= i < entries.len() && entries[i].id@ == k,
    decreases entries.len(),
{
    if entries.len() > 0 {
        let prefix = entries.drop_last();
        lemma_map_of_dom(prefix, k);
        if entries.last().id@ == k {
            assert(entries[entries.len() - 1].id@ == k);
        } else {
            if map_of(entries).dom().contains(k) {
                let i = choose|i: int| 0 <= i < prefix.len() && prefix[i].id@ == k;
                assert(entries[i].id@ == k);
            }
            if exists|i: int| 0 <= i < entries.len() && entries[i].id@ == k {
                let i = choose|i: int| 0 <= i < entries.len() && entries[i].id@ == k;
                assert(prefix[i].id@ == k);
            }
        }
    }
}

/// With unique identities, the model maps each entry's identity to its slot.
proof fn lemma_map_of_at<H>(entries: Seq<Entry<H>>, i: int)
    requires
        ids_unique(entries),
        0 <= i < entries.len(),
    ensures
        map_of(entries).dom().contains(entries[i].id@),
        map_of(entries)[entries[i].id@] == entries[i].slot@,
    decreases entries.len(),
{
    if i < entries.len() - 1 {
        let prefix = entries.drop_last();
        lemma_ids_unique_prefix(entries);
        assert(prefix[i] == entries[i]);
        lemma_map_of_at(prefix, i);
        assert(entries.last().id@ != entries[i].id@);
    }
}

/// Updating an entry in place, identity unchanged, is an insert on the model.
proof fn lemma_map_of_update<H>(entries: Seq<Entry<H>>, i: int, e: Entry<H>)
    requires
        ids_unique(entries),
        0 <= i < entries.len(),
        e.id@ == entries[i].id@,
    ensures
        map_of(entries.update(i, e)) == map_of(entries).insert(e.id@, e.slot@),
        ids_unique(entries.update(i, e)),
    decreases entries.len(),
{
    let updated = entries.update(i, e);
    assert forall|a: int, b: int| 0 <= a < b < updated.len() implies updated[a].id@
        != updated[b].id@ by {
        assert(entries[a].id@ != entries[b].id@);
    }
    if i == entries.len() - 1 {
        assert(updated.drop_last() =~= entries.drop_last());
        assert(updated.last() == e);
        assert(map_of(entries).insert(e.id@, e.slot@) =~= map_of(entries.drop_last()).insert(
            e.id@,
            e.slot@,
        ));
    } else {
        let prefix = entries.drop_last();
        lemma_ids_unique_prefix(entries);
        assert(prefix[i] == entries[i]);
        lemma_map_of_update(prefix, i, e);
        assert(updated.drop_last() =~= prefix.update(i, e));
        assert(updated.last() == entries.last());
        assert(entries.last().id@ != e.id@);
        assert(map_of(updated) =~= map_of(entries).insert(e.id@, e.slot@));
    }
}

/// Appending an entry with a fresh identity is an insert on the model.
proof fn lemma_map_of_push<H>(entries: Seq<Entry<H>>, e: Entry<H>)
    ensures
        map_of(entries.push(e)) == map_of(entries).insert(e.id@, e.slot@),
{
    assert(entries.push(e).drop_last() =~= entries);
    assert(entries.push(e).last() == e);
}

/// Removing an entry is a removal on the model.
proof fn lemma_map_of_remove<H>(entries: Seq<Entry<H>>, i: int)
    requires
        ids_unique(entries),
        0 <= i < entries.len(),
    ensures
        map_of(entries.remove(i)) == map_of(entries).remove(entries[i].id@),
        ids_unique(entries.remove(i)),
    decreases entries.len(),
{
    let k = entries[i].id@;
    let shorter = entries.remove(i);
    assert forall|a: int, b: int| 0 <= a < b < shorter.len() implies shorter[a].id@
        != shorter[b].id@ by {
        let a0: int = if a < i { a } else { a + 1 };
        let b0: int = if b < i { b } else { b + 1 };
        assert(shorter[a] == entries[a0]);
        assert(shorter[b] == entries[b0]);
        assert(entries[a0].id@ != entries[b0].id@);
    }
    if i == entries.len() - 1 {
        let prefix = entries.drop_last();
        assert(shorter =~= prefix);
        lemma_ids_unique_prefix(entries);
        lemma_map_of_dom(prefix, k);
        assert forall|j: int| 0 <= j < prefix.len() implies prefix[j].id@ != k by {
            assert(prefix[j] == entries[j]);
            assert(entries[j].id@ != entries[entries.len() - 1].id@);
        }
        assert(!map_of(prefix).dom().contains(k));
        assert(map_of(entries).remove(k) =~= map_of(prefix));
    } else {
        let prefix = entries.drop_last();
        lemma_ids_unique_prefix(entries);
        assert(prefix[i] == entries[i]);
        lemma_map_of_remove(prefix, i);
        assert(shorter.drop_last() =~= prefix.remove(i));
        assert(shorter.last() == entries.last());
        assert(entries.last().id@ != k);
        assert(map_of(shorter) =~= map_of(entries).remove(k));
    }
}

/// Taking an entry out and putting its replacement back at the same place is an
/// update of the table.
proof fn lemma_remove_insert_is_update<H>(entries: Seq<Entry<H>>, i: int, e: Entry<H>)
    requires
        0 <= i < entries.len(),
    ensures
        entries.remove(i).insert(i, e) == entries.update(i, e),
{
    assert(entries.remove(i).insert(i, e) =~= entries.update(i, e));
}

} // verus!
