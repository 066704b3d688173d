//! The contract itself: one entry point that authenticates the caller and
//! republishes the message as an event, plus the laws that relate its calls.

use vstd::prelude::*;
use crate::host::{Address, Env, EnvView, Error, EventView};

verus! {

/// The message-board contract. It owns no state of its own: everything it
/// touches lives in the host environment it is handed.
pub struct Contract;

/// The event that a successful `send` publishes for caller `topic` and
/// message `payload`.
pub open spec fn sent_event(topic: u64, payload: Seq<char>) -> EventView {
    EventView { topic, payload }
}

/// How one successful `send` changes the host environment: the event log
/// grows by the one published event; nothing else changes.
pub open spec fn send_transition(e: EnvView, topic: u64, payload: Seq<char>) -> EnvView {
    EnvView { auths: e.auths, events: e.events.push(sent_event(topic, payload)) }
}

impl Contract {
    /// Authenticate `addr` against the current transaction and publish
    /// `msg` to the host event log under topic `addr`.
    ///
    /// Succeeds exactly when `addr` authorized the transaction; then the
    /// log grows by the one event `(addr, msg)`. Otherwise nothing at all
    /// is published and the one error is returned.
    pub fn send(env: &mut Env, addr: Address, msg: String) -> (r: Result<(), Error>)
        ensures
            r is Ok <==> old(env)@.auths.contains(addr@),
            r is Ok ==> final(env)@ == send_transition(old(env)@, addr@, msg@),
            r is Err ==> r == Err::<(), Error>(Error::AuthorizationFailure)
                && final(env)@ == old(env)@,
    {
        match env.require_auth(addr) {
            Ok(()) => {}
            Err(e) => {
                return Err(e);
            }
        }
        env.publish(addr, msg);
        proof {
            assert(env@ =~= send_transition(old(env)@, addr@, msg@));
        }
        Ok(())
    }
}

/// Law: one successful send appends exactly one event — the caller as its
/// topic, the message as its payload — and the log grows by exactly one;
/// earlier events and the authorized principals are untouched.
pub proof fn lemma_send_appends_exactly_one(e: EnvView, topic: u64, payload: Seq<char>)
    ensures
        send_transition(e, topic, payload).events.len() == e.events.len() + 1,
        send_transition(e, topic, payload).events.last() == sent_event(topic, payload),
        forall|i: int|
            0 <= i < e.events.len() ==> send_transition(e, topic, payload).events[i]
                == e.events[i],
        send_transition(e, topic, payload).auths == e.auths,
{
}

/// Law: two sends in a row by the same caller append both events, in
/// issuance order, after the log as it stood before.
pub proof fn lemma_send_sequence_in_order(
    e: EnvView,
    topic: u64,
    payload1: Seq<char>,
    payload2: Seq<char>,
)
    ensures
        send_transition(send_transition(e, topic, payload1), topic, payload2).events
            == e.events + seq![sent_event(topic, payload1), sent_event(topic, payload2)],
{
    assert(send_transition(send_transition(e, topic, payload1), topic, payload2).events
        =~= e.events + seq![sent_event(topic, payload1), sent_event(topic, payload2)]);
}

} // verus!
