//! A model of the ledger host environment.
//!
//! The host owns two capabilities that the contract consumes: it knows
//! which principals have authorized the current transaction, and it keeps
//! an append-only event log. Both are modeled here as plain data inside
//! [`Env`], an explicit environment value threaded through every call, so
//! that every claim about them is checked.

use vstd::prelude::*;

verus! {

/// An opaque principal identity, as the host ledger assigns it.
#[derive(Clone, Copy, Debug, PartialEq, Eq, Structural)]
pub struct Address {
    id: u64,
}

impl View for Address {
    type V = u64;

    closed spec fn view(&self) -> u64 {
        self.id
    }
}

impl Address {
    /// A principal with the given host-assigned identity.
    pub fn new(id: u64) -> (a: Address)
        ensures
            a@ == id,
    {
        Address { id }
    }
}

/// The single failure the contract can report: the host refused to treat
/// the claimed sender as an authorizer of the current transaction.
#[derive(Clone, Copy, Debug, PartialEq, Eq, Structural)]
pub enum Error {
    AuthorizationFailure,
}

/// One record of the host event log: the sender as topic, the message text
/// as payload. Records are created at publish time and never mutated.
#[derive(Clone, Debug)]
pub struct Event {
    pub topic: Address,
    pub payload: String,
}

/// The mathematical content of one event record.
#[verifier::ext_equal]
pub ghost struct EventView {
    pub topic: u64,
    pub payload: Seq<char>,
}

impl View for Event {
    type V = EventView;

    open spec fn view(&self) -> EventView {
        EventView { topic: self.topic@, payload: self.payload@ }
    }
}

/// The identities of a sequence of principals, in order.
pub open spec fn seq_ids(s: Seq<Address>) -> Seq<u64> {
    s.map_values(|a: Address| a@)
}

/// The mathematical content of a sequence of event records, in order.
pub open spec fn seq_views(s: Seq<Event>) -> Seq<EventView> {
    s.map_values(|e: Event| e@)
}

proof fn lemma_seq_ids_push(s: Seq<Address>, a: Address)
    ensures
        seq_ids(s.push(a)) == seq_ids(s).push(a@),
{
    assert(seq_ids(s.push(a)) =~= seq_ids(s).push(a@));
}

proof fn lemma_seq_views_push(s: Seq<Event>, e: Event)
    ensures
        seq_views(s.push(e)) == seq_views(s).push(e@),
{
    assert(seq_views(s.push(e)) =~= seq_views(s).push(e@));
}

proof fn lemma_to_set_push(s: Seq<u64>, x: u64)
    ensures
        s.push(x).to_set() == s.to_set().insert(x),
{
    assert forall|y: u64| s.push(x).to_set().contains(y)
        implies s.to_set().insert(x).contains(y) by {
        let i = choose|i: int| 0 <= i < s.push(x).len() && s.push(x)[i] == y;
        if i < s.len() {
            assert(s[i] == y);
        }
    }
    assert forall|y: u64| s.to_set().insert(x).contains(y)
        implies s.push(x).to_set().contains(y) by {
        if y == x {
            assert(s.push(x)[s.len() as int] == y);
        } else {
            let i = choose|i: int| 0 <= i < s.len() && s[i] == y;
            assert(s.push(x)[i] == y);
        }
    }
    assert(s.push(x).to_set() =~= s.to_set().insert(x));
}

/// The mathematical content of the host environment: which principals have
/// authorized the current transaction, and the event log, oldest first.
#[verifier::ext_equal]
pub ghost struct EnvView {
    pub auths: Set<u64>,
    pub events: Seq<EventView>,
}

/// Handle to the host environment.
pub struct Env {
    auths: Vec<Address>,
    events: Vec<Event>,
}

impl View for Env {
    type V = EnvView;

    closed spec fn view(&self) -> EnvView {
        EnvView { auths: seq_ids(self.auths@).to_set(), events: seq_views(self.events@) }
    }
}

impl Env {
    /// A fresh environment: no authorizations, an empty event log.
    pub fn new() -> (e: Env)
        ensures
            e@.auths == Set::<u64>::empty(),
            e@.events == Seq::<EventView>::empty(),
    {
        let e = Env { auths: Vec::new(), events: Vec::new() };
        proof {
            assert(e@.auths =~= Set::<u64>::empty());
            assert(e@.events =~= Seq::<EventView>::empty());
        }
        e
    }

    /// Record that `addr` has authorized the current transaction. This is
    /// the host's authorization capability; a test uses it as a mock.
    pub fn authorize(&mut self, addr: Address)
        ensures
            final(self)@.auths == old(self)@.auths.insert(addr@),
            final(self)@.events == old(self)@.events,
    {
        self.auths.push(addr);
        proof {
            lemma_seq_ids_push(old(self).auths@, addr);
            lemma_to_set_push(seq_ids(old(self).auths@), addr@);
        }
    }

    /// Check that `addr` authorized the current transaction.
    pub fn require_auth(&self, addr: Address) -> (r: Result<(), Error>)
        ensures
            r is Ok <==> self@.auths.contains(addr@),
            r is Err ==> r == Err::<(), Error>(Error::AuthorizationFailure),
    {
        let n = self.auths.len();
        let mut i: usize = 0;
        while i < n
            invariant
                n == self.auths@.len(),
                0 <= i <= n,
                forall|j: int| 0 <= j < i ==> seq_ids(self.auths@)[j] != addr@,
            decreases n - i,
        {
            if self.auths[i] == addr {
                proof {
                    assert(seq_ids(self.auths@)[i as int] == addr@);
                    assert(seq_ids(self.auths@).contains(addr@));
                }
                return Ok(());
            }
            proof {
                assert(seq_ids(self.auths@)[i as int] == self.auths@[i as int]@);
            }
            i += 1;
        }
        proof {
            if self@.auths.contains(addr@) {
                let j = choose|j: int|
                    0 <= j < seq_ids(self.auths@).len() && seq_ids(self.auths@)[j] == addr@;
                assert(seq_ids(self.auths@)[j] != addr@);
            }
        }
        Err(Error::AuthorizationFailure)
    }

    /// Append one event to the host event log; nothing else changes.
    pub fn publish(&mut self, topic: Address, payload: String)
        ensures
            final(self)@.events == old(self)@.events.push(
                (EventView { topic: topic@, payload: payload@ }),
            ),
            final(self)@.auths == old(self)@.auths,
    {
        let ghost rec = Event { topic, payload };
        self.events.push(Event { topic, payload });
        proof {
            lemma_seq_views_push(old(self).events@, rec);
        }
    }

    /// The event log so far, oldest first.
    pub fn events(&self) -> (log: &Vec<Event>)
        ensures
            seq_views(log@) == self@.events,
    {
        &self.events
    }
}

} // verus!
