use vstd::prelude::*;

use axum::extract::ws::WebSocket;
use dashmap::DashMap;
use tokio::sync::oneshot::{Receiver, Sender};

use crate::handoff::handoff_channel;
use crate::session_id::{check_session_id, valid_session_id, SessionIdError};

verus! {

/// Concurrent map of the dashmap crate, used as the pending-session table.
#[verifier::external_type_specification]
#[verifier::external_body]
#[verifier::reject_recursive_types(K)]
#[verifier::reject_recursive_types(V)]
#[verifier::reject_recursive_types(S)]
pub struct ExDashMap<K, V, S>(DashMap<K, V, S>);

/// The identifiers that have an entry in the pending-session table.
pub uninterp spec fn pending_ids(m: DashMap<String, Sender<WebSocket>>) -> Set<Seq<char>>;

/// Relies on dashmap::DashMap::new: a new map has no entries.
#[verifier::external_body]
fn table_new() -> (m: DashMap<String, Sender<WebSocket>>)
    ensures
        pending_ids(m) == Set::<Seq<char>>::empty(),
{
    DashMap::new()
}

/// Relies on dashmap::DashMap::remove: takes out the entry for the key, if
/// any, under the lock of the key's shard, and returns its value.
#[verifier::external_body]
fn table_remove(m: &mut DashMap<String, Sender<WebSocket>>, id: &String) -> (r: Option<
    Sender<WebSocket>,
>)
    ensures
        r is Some <==> pending_ids(*old(m)).contains(id@),
        pending_ids(*final(m)) == pending_ids(*old(m)).remove(id@),
{
    m.remove(id).map(|entry| entry.1)
}

/// Relies on dashmap::DashMap::insert: stores the value under the key,
/// replacing (and here dropping) any value that was there.
#[verifier::external_body]
fn table_insert(m: &mut DashMap<String, Sender<WebSocket>>, id: String, tx: Sender<WebSocket>)
    ensures
        pending_ids(*final(m)) == pending_ids(*old(m)).insert(id@),
{
    m.insert(id, tx);
}

/// Relies on dashmap::DashMap::contains_key: whether the key has an entry.
#[verifier::external_body]
fn table_contains(m: &DashMap<String, Sender<WebSocket>>, id: &String) -> (r: bool)
    ensures
        r == pending_ids(*m).contains(id@),
{
    m.contains_key(id)
}

/// A request for `id` finds a waiting initiator exactly when `id` is pending.
pub open spec fn finds_initiator(pending: Set<Seq<char>>, id: Seq<char>) -> bool {
    pending.contains(id)
}

/// The pending set after a valid request for `id` arrives: a responder
/// claims (removes) the entry, an initiator creates it.
pub open spec fn after_arrival(pending: Set<Seq<char>>, id: Seq<char>) -> Set<Seq<char>> {
    if finds_initiator(pending, id) {
        pending.remove(id)
    } else {
        pending.insert(id)
    }
}

/// The pending set after the initiator of `id` stops waiting for good.
pub open spec fn after_expiry(pending: Set<Seq<char>>, id: Seq<char>) -> Set<Seq<char>> {
    pending.remove(id)
}

/// Pairing: a request for an identifier that nobody waits on becomes the
/// initiator and leaves the identifier pending; the next request for it finds
/// that initiator, claims its entry and restores the table, and no other
/// identifier's entry is touched on the way.
pub proof fn lemma_pairing(pending: Set<Seq<char>>, id: Seq<char>)
    requires
        valid_session_id(id),
        !pending.contains(id),
    ensures
        !finds_initiator(pending, id),
        finds_initiator(after_arrival(pending, id), id),
        after_arrival(after_arrival(pending, id), id) == pending,
        forall|k: Seq<char>|
            k != id ==> (#[trigger] after_arrival(pending, id).contains(k) <==> pending.contains(
                k,
            )),
{
    assert(after_arrival(after_arrival(pending, id), id) =~= pending);
}

/// Reuse: right after a match, and right after an expiry, the next request
/// for the same identifier is a fresh initiator.
pub proof fn lemma_reuse(pending: Set<Seq<char>>, id: Seq<char>)
    ensures
        pending.contains(id) ==> !finds_initiator(after_arrival(pending, id), id),
        !finds_initiator(after_expiry(pending, id), id),
{
}

/// Claim wins over timeout: once a responder has claimed the entry for an
/// identifier, the initiator's purge finds nothing and changes nothing.
pub proof fn lemma_claim_then_purge(pending: Set<Seq<char>>, id: Seq<char>)
    requires
        pending.contains(id),
    ensures
        !after_arrival(pending, id).contains(id),
        after_expiry(after_arrival(pending, id), id) == after_arrival(pending, id),
{
    assert(after_expiry(after_arrival(pending, id), id) =~= after_arrival(pending, id));
}

/// The role a request takes on arrival.
pub enum Arrival {
    /// Another request was waiting: give it this connection through the sender.
    Responder(Sender<WebSocket>),
    /// Nobody was waiting: wait on the receiver for a partner.
    Initiator(Receiver<WebSocket>),
}

/// How an initiator's bounded wait for a partner ended.
pub enum WaitOutcome {
    /// A responder's connection was handed over.
    Paired(WebSocket),
    /// The sender was dropped without a handoff (its entry was replaced).
    Abandoned,
    /// The wait budget ran out first.
    TimedOut,
}

/// Seconds an initiator waits for a responder before giving up.
pub const WAIT_BUDGET_SECS: u64 = 180;

/// Table of pending sessions, one per identifier, each holding the sender
/// through which a responder reaches the waiting initiator.
pub struct Registry {
    sessions: DashMap<String, Sender<WebSocket>>,
}

impl View for Registry {
    type V = Set<Seq<char>>;

    /// The identifiers that are currently pending.
    closed spec fn view(&self) -> Set<Seq<char>> {
        pending_ids(self.sessions)
    }
}

impl Registry {
    /// A registry with no pending session.
    pub fn new() -> (r: Registry)
        ensures
            r@ == Set::<Seq<char>>::empty(),
    {
        Registry { sessions: table_new() }
    }

    /// Whether a session for `id` is pending.
    pub fn is_pending(&self, id: &String) -> (r: bool)
        ensures
            r == self@.contains(id@),
    {
        table_contains(&self.sessions, id)
    }

    /// Removes and returns the pending entry for `id`, if there is one; of
    /// any number of callers, only one can obtain a given entry.
    pub fn try_claim(&mut self, id: &String) -> (r: Option<Sender<WebSocket>>)
        ensures
            r is Some <==> old(self)@.contains(id@),
            final(self)@ == old(self)@.remove(id@),
    {
        table_remove(&mut self.sessions, id)
    }

    /// Registers a pending session for `id`; an entry already there is
    /// replaced, and its waiting initiator's receive then fails.
    pub fn insert(&mut self, id: String, tx: Sender<WebSocket>)
        ensures
            final(self)@ == old(self)@.insert(id@),
    {
        table_insert(&mut self.sessions, id, tx)
    }

    /// Purges the entry for `id` if it is still there; returns whether there
    /// was one to purge (none when a responder claimed it first).
    pub fn remove_if_present(&mut self, id: &String) -> (r: bool)
        ensures
            r == old(self)@.contains(id@),
            final(self)@ == old(self)@.remove(id@),
    {
        match table_remove(&mut self.sessions, id) {
            Some(_) => true,
            None => false,
        }
    }

    /// Admits a request for `id`. A too long identifier is rejected before
    /// the table is touched. Otherwise the request claims the waiting
    /// initiator's entry and becomes the responder, or, when nobody waits,
    /// registers a fresh handoff channel and becomes the initiator.
    pub fn arrive(&mut self, id: String) -> (r: Result<Arrival, SessionIdError>)
        ensures
            r is Err <==> !valid_session_id(id@),
            r is Err ==> (r matches Err(SessionIdError::TooLong) && final(self)@ == old(self)@),
            r matches Ok(Arrival::Responder(_)) <==> valid_session_id(id@) && finds_initiator(
                old(self)@,
                id@,
            ),
            r matches Ok(Arrival::Initiator(_)) <==> valid_session_id(id@) && !finds_initiator(
                old(self)@,
                id@,
            ),
            r is Ok ==> final(self)@ == after_arrival(old(self)@, id@),
    {
        match check_session_id(id.as_str()) {
            Err(e) => Err(e),
            Ok(()) => match self.try_claim(&id) {
                Some(tx) => Ok(Arrival::Responder(tx)),
                None => {
                    let (tx, rx) = handoff_channel();
                    self.insert(id, tx);
                    Ok(Arrival::Initiator(rx))
                },
            },
        }
    }

    /// Settles an initiator's wait for `id`. A handed-over connection is
    /// returned for bridging; on timeout the entry is purged if still there;
    /// an abandoned wait leaves the table alone, since its entry was
    /// already replaced.
    pub fn conclude_wait(&mut self, id: &String, outcome: WaitOutcome) -> (r: Option<WebSocket>)
        ensures
            outcome matches WaitOutcome::Paired(c) ==> (r == Some(c) && final(self)@ == old(self)@),
            outcome is Abandoned ==> (r is None && final(self)@ == old(self)@),
            outcome is TimedOut ==> (r is None && final(self)@ == after_expiry(old(self)@, id@)),
    {
        match outcome {
            WaitOutcome::Paired(c) => Some(c),
            WaitOutcome::Abandoned => None,
            WaitOutcome::TimedOut => {
                self.remove_if_present(id);
                None
            },
        }
    }
}

} // verus!
