//! The transaction state machine of RFC 3261, section 17: the states a client
//! or server transaction goes through, the timers each state starts and
//! stops, and what the transaction does with each message and timer event.
//!
//! Sending is left to the caller: an operation that puts a message on the
//! wire is split into a check (`prepare_*`), after which the caller sends the
//! message, and a step (`on_*`) that records that it was sent.
use super::endpoint::EndpointInner;
use super::message::is_reply;
use super::key::TransactionKey;
use super::timer::{
    has_task, in_entries, keeps, lemma_absent_stays, lemma_insert_frame, lemma_keeps_trans, lemma_keeps_weaken,
    lemma_only_fresh_trans, lemma_remove_frame, lemma_scheduled_kept, only_fresh, scheduled,
    now_millis, timer_added, Timer, TimerEntry,
};
use super::{TransactionState, TransactionTimer, TransactionType};
use crate::error::Error;
use crate::message::{
    spec_status_kind, status_kind, Method, Request, Response, SipAddr, SipConnection, SipMessage,
    StatusCodeKind, REQUEST_TIMEOUT, TRYING,
};
use vstd::prelude::*;

verus! {

/// What a transaction's user receives from it.
pub enum TransactionEvent {
    /// A message for the transaction, with the connection it came on.
    Received(SipMessage, Option<SipConnection>),
    /// A timer of the transaction fired.
    Timer(TransactionTimer),
    /// The transaction ended.
    Terminate,
}

/// What a server transaction does with a request that reached it.
pub enum RequestStep {
    /// Nothing; the request is not passed on.
    Ignore,
    /// Pass the request on to the transaction user.
    Deliver(Request),
    /// Answer with this response (a 100 Trying), then pass the request on.
    RespondThenDeliver(Response, Request),
    /// A retransmitted request: send the last response again.
    Retransmit(Response),
}

/// What a client transaction does with a response that reached it.
pub enum ResponseStep {
    /// Nothing; the response is not passed on.
    Ignore,
    /// Pass the response on to the transaction user.
    Deliver(Response),
    /// Send this ACK for the failure response, then pass the response on.
    AckThenDeliver(Request, Response),
}

/// What a transaction does when one of its timers fires.
pub enum TimerStep {
    /// Nothing.
    Nothing,
    /// Send the message again, when there is one, and then restart the timer.
    Retransmit(Option<SipMessage>, TransactionTimer),
    /// Tell the transaction user that the request timed out, with this 408
    /// response.
    InformTimeout(Response),
    /// The transaction moved to Terminated, with this outcome.
    Terminated(Result<TransactionState, Error>),
}

/// A SIP transaction.
pub struct Transaction {
    pub transaction_type: TransactionType,
    pub key: TransactionKey,
    pub original: Request,
    pub state: TransactionState,
    pub connection: Option<SipConnection>,
    pub destination: Option<SipAddr>,
    pub last_response: Option<Response>,
    pub last_ack: Option<Request>,
    pub timer_a: Option<u64>,
    pub timer_b: Option<u64>,
    pub timer_d: Option<u64>,
    pub timer_k: Option<u64>,
    pub timer_g: Option<u64>,
    pub is_cleaned_up: bool,
    pub terminate_pending: bool,
}

/// The ids held by an optional timer field.
pub open spec fn opt_set(o: Option<u64>) -> Set<u64> {
    match o {
        Some(i) => set![i],
        None => Set::empty(),
    }
}

/// The field holds a freshly started timer with this value, due at or after
/// `min_at`.
pub open spec fn armed(
    field: Option<u64>,
    lo: u64,
    timers: Seq<TimerEntry<TransactionTimer>>,
    value: TransactionTimer,
    min_at: u64,
) -> bool {
    field matches Some(id) && id >= lo && scheduled(timers, id, value, min_at)
}

/// The field is cleared and the timer it held, if any, is no longer pending.
pub open spec fn cancelled(
    old_field: Option<u64>,
    new_field: Option<u64>,
    timers: Seq<TimerEntry<TransactionTimer>>,
) -> bool {
    new_field is None && (old_field matches Some(id) ==> !has_task(timers, id))
}

/// The state a client transaction moves to on a response with this status.
pub open spec fn response_target(t: TransactionType, status: u16) -> TransactionState {
    match spec_status_kind(status) {
        StatusCodeKind::Provisional => if status == TRYING {
            TransactionState::Trying
        } else {
            TransactionState::Proceeding
        },
        StatusCodeKind::Successful => if t == TransactionType::ClientInvite {
            TransactionState::Confirmed
        } else {
            TransactionState::Terminated
        },
        _ => TransactionState::Terminated,
    }
}

/// The state a server transaction moves to when it sends a response with
/// this status.
pub open spec fn respond_target(t: TransactionType, status: u16) -> TransactionState {
    match spec_status_kind(status) {
        StatusCodeKind::Provisional => if status == TRYING {
            TransactionState::Trying
        } else {
            TransactionState::Proceeding
        },
        _ => if t == TransactionType::ServerInvite {
            TransactionState::Completed
        } else {
            TransactionState::Terminated
        },
    }
}

/// The transitions a transaction may take.
pub open spec fn spec_can_transition(from: TransactionState, to: TransactionState) -> bool {
    match (from, to) {
        (TransactionState::Calling, TransactionState::Trying) => true,
        (TransactionState::Trying, TransactionState::Trying) => true,
        (TransactionState::Trying, TransactionState::Proceeding) => true,
        (TransactionState::Trying, TransactionState::Completed) => true,
        (TransactionState::Trying, TransactionState::Confirmed) => true,
        (TransactionState::Trying, TransactionState::Terminated) => true,
        (TransactionState::Proceeding, TransactionState::Completed) => true,
        (TransactionState::Proceeding, TransactionState::Confirmed) => true,
        (TransactionState::Proceeding, TransactionState::Terminated) => true,
        (TransactionState::Completed, TransactionState::Confirmed) => true,
        (TransactionState::Completed, TransactionState::Terminated) => true,
        (TransactionState::Confirmed, TransactionState::Terminated) => true,
        _ => false,
    }
}

/// The state a new transaction starts in: Nothing for a client transaction
/// (its request is not sent yet), Trying for a server transaction (its
/// request has arrived).
pub open spec fn initial_state(t: TransactionType) -> TransactionState {
    if t.is_client() {
        TransactionState::Nothing
    } else {
        TransactionState::Trying
    }
}

/// The transaction has not started: nothing was sent or received for it.
pub open spec fn not_started(s: TransactionState) -> bool {
    s == TransactionState::Nothing || s == TransactionState::Calling
}

/// The error of a step that needs a connection the transaction lacks:
/// `TransactionError("no connection found", key)`.
pub open spec fn no_connection_error(e: Error, key: TransactionKey) -> bool {
    &&& e is TransactionError
    &&& e->TransactionError_0@ == "no connection found"@
    &&& e->TransactionError_1 == key
}

/// The place of a state along the life of a transaction.
pub open spec fn state_rank(s: TransactionState) -> int {
    match s {
        TransactionState::Nothing => 0,
        TransactionState::Calling => 1,
        TransactionState::Trying => 2,
        TransactionState::Proceeding => 3,
        TransactionState::Completed => 4,
        TransactionState::Confirmed => 5,
        TransactionState::Terminated => 6,
    }
}

/// The transaction state machine only moves forward: an allowed transition
/// never lowers the state (only Trying may follow Trying), never leads back
/// to Calling, and never leaves Terminated.
pub proof fn lemma_transitions_move_forward(from: TransactionState, to: TransactionState)
    requires
        spec_can_transition(from, to),
    ensures
        state_rank(from) <= state_rank(to),
        state_rank(from) == state_rank(to) ==> from == TransactionState::Trying && to == TransactionState::Trying,
        to != TransactionState::Calling && to != TransactionState::Nothing,
        from != TransactionState::Terminated,
{
}

/// Whether a transaction may go from `from` to `to`.
pub fn can_transition_states(from: TransactionState, to: TransactionState) -> (r: bool)
    ensures
        r == spec_can_transition(from, to),
{
    match (from, to) {
        (TransactionState::Calling, TransactionState::Trying) => true,
        (TransactionState::Trying, TransactionState::Trying) => true,
        (TransactionState::Trying, TransactionState::Proceeding) => true,
        (TransactionState::Trying, TransactionState::Completed) => true,
        (TransactionState::Trying, TransactionState::Confirmed) => true,
        (TransactionState::Trying, TransactionState::Terminated) => true,
        (TransactionState::Proceeding, TransactionState::Completed) => true,
        (TransactionState::Proceeding, TransactionState::Confirmed) => true,
        (TransactionState::Proceeding, TransactionState::Terminated) => true,
        (TransactionState::Completed, TransactionState::Confirmed) => true,
        (TransactionState::Completed, TransactionState::Terminated) => true,
        (TransactionState::Confirmed, TransactionState::Terminated) => true,
        _ => false,
    }
}

/// The message a finished transaction keeps to answer retransmissions: the
/// ACK of a client INVITE transaction, the final response of a server
/// non-INVITE transaction; none for the other two.
pub open spec fn spec_last_message(o: Transaction) -> Option<SipMessage> {
    match o.transaction_type {
        TransactionType::ClientInvite => match o.last_ack {
            Some(r) => Some(SipMessage::Request(r)),
            None => None,
        },
        TransactionType::ServerNonInvite => match o.last_response {
            Some(r) => Some(SipMessage::Response(r)),
            None => None,
        },
        _ => None,
    }
}

/// What cleaning up does, the first time, to a transaction that has
/// started: every timer cancelled, the kept message taken out of the
/// transaction, the transaction removed from the endpoint's table, and the
/// kept message, if any, stored as the finished transaction's answer with a
/// cleanup timer (T4 for a request, 64*T1 for a response).
pub open spec fn cleanup_effect(o: Transaction, n: Transaction, oe: EndpointInner, ne: EndpointInner) -> bool {
    let p = ne.timers.pending();
    let lo = oe.timers.next_id();
    &&& cancelled(o.timer_a, n.timer_a, p)
    &&& cancelled(o.timer_b, n.timer_b, p)
    &&& cancelled(o.timer_d, n.timer_d, p)
    &&& cancelled(o.timer_k, n.timer_k, p)
    &&& cancelled(o.timer_g, n.timer_g, p)
    &&& n.last_ack == (if o.transaction_type == TransactionType::ClientInvite { None } else { o.last_ack })
    &&& n.last_response == (if o.transaction_type == TransactionType::ServerNonInvite {
        None
    } else {
        o.last_response
    })
    &&& forall|k: Seq<char>| #[trigger] ne.transactions.has(k) == (k != o.key@ && oe.transactions.has(k))
    &&& keeps(oe.timers.pending(), p, o.timer_ids())
    &&& only_fresh(oe.timers.pending(), p, lo)
    &&& match spec_last_message(o) {
        None => ne.finished_transactions == oe.finished_transactions && ne.timers.next_id() == lo,
        Some(m) => {
            &&& forall|k: Seq<char>| #[trigger]
                ne.finished_transactions.get(k) == if k == o.key@ {
                    Some(Some(m))
                } else {
                    oe.finished_transactions.get(k)
                }
            &&& ne.timers.next_id() == lo + 1
            &&& scheduled(
                p,
                lo,
                TransactionTimer::TimerCleanup(o.key),
                if m is Request {
                    oe.option.t4
                } else {
                    oe.option.t1x64
                },
            )
        },
    }
    &&& ne.option == oe.option
    &&& ne.user_agent == oe.user_agent
    &&& ne.incoming_attached == oe.incoming_attached
    &&& ne.addrs == oe.addrs
    &&& ne.allows == oe.allows
    &&& ne.timer_interval == oe.timer_interval
}

/// What a client transaction `o` does with the response `resp`, as the
/// step `r` and the transaction and endpoint after it (`n`, `ne`).
pub open spec fn response_step_effect(
    o: Transaction,
    n: Transaction,
    oe: EndpointInner,
    ne: EndpointInner,
    resp: Response,
    r: ResponseStep,
) -> bool {
    let target = response_target(o.transaction_type, resp.status_code);
    let passes = o.transaction_type.is_client() && spec_can_transition(o.state, target)
        && o.state != target;
    let acks = o.transaction_type == TransactionType::ClientInvite && target == TransactionState::Terminated;
    &&& r is Ignore <==> !passes
    &&& (passes && !acks) ==> (r matches ResponseStep::Deliver(x) && crate::message::same_response(x, resp))
    &&& (passes && acks) ==> (r matches ResponseStep::AckThenDeliver(ack, x) && crate::message::same_response(
        x,
        resp,
    ) && super::ack::is_failure_ack(ack, resp, o.original.uri@, oe.user_agent@))
    &&& passes ==> exists|tr: Result<TransactionState, Error>|
        transition_effect(
            Transaction { last_response: Some(resp), ..o },
            n,
            oe,
            ne,
            target,
            tr,
        )
    &&& !passes ==> n == o && ne == oe
}

/// A client transaction waiting in Trying, INVITE or not, that receives a
/// provisional response other than 100 passes the response on to its user
/// unchanged and moves to Proceeding. (`response_step_effect` is what
/// `on_received_response` ensures.)
pub proof fn lemma_provisional_response_proceeds(
    o: Transaction,
    n: Transaction,
    oe: EndpointInner,
    ne: EndpointInner,
    resp: Response,
    r: ResponseStep,
)
    requires
        response_step_effect(o, n, oe, ne, resp, r),
        o.transaction_type.is_client(),
        o.state == TransactionState::Trying,
        100 < resp.status_code < 200,
    ensures
        r matches ResponseStep::Deliver(x) && crate::message::same_response(x, resp),
        n.state == TransactionState::Proceeding,
{
    let tr = choose|tr: Result<TransactionState, Error>|
        transition_effect(Transaction { last_response: Some(resp), ..o }, n, oe, ne, TransactionState::Proceeding, tr);
}

/// What a transition to `target` does, from the transaction `o` and the
/// endpoint `oe` to `n` and `ne`, with result `r`.
pub open spec fn transition_effect(
    o: Transaction,
    n: Transaction,
    oe: EndpointInner,
    ne: EndpointInner,
    target: TransactionState,
    r: Result<TransactionState, Error>,
) -> bool {
    let lo = oe.timers.next_id();
    let p = ne.timers.pending();
    let t1 = oe.option.t1;
    let t4 = oe.option.t4;
    let t1x64 = oe.option.t1x64;
    if o.state == target {
        r == Ok::<TransactionState, Error>(target) && n == o && ne == oe
    } else {
        &&& r is Err <==> ((target == TransactionState::Trying && o.connection is None) || (target
            == TransactionState::Completed && o.transaction_type == TransactionType::ServerInvite
            && o.connection is None))
        &&& r is Ok ==> r == Ok::<TransactionState, Error>(target) && n.state == target
        &&& r matches Err(e) ==> n.state == o.state && no_connection_error(e, o.key)
        &&& keeps(oe.timers.pending(), p, o.timer_ids())
        &&& only_fresh(oe.timers.pending(), p, lo)
        &&& lo <= ne.timers.next_id() <= lo + 2
        &&& n.ids_below(ne.timers.next_id())
        &&& n.key == o.key && n.transaction_type == o.transaction_type && n.original == o.original
        &&& n.connection == o.connection && n.destination == o.destination
        &&& target != TransactionState::Terminated ==> {
            &&& only_timers_changed(oe, ne)
            &&& n.terminate_pending == o.terminate_pending
            &&& n.is_cleaned_up == o.is_cleaned_up
            &&& n.last_ack == o.last_ack
            &&& n.last_response == o.last_response
        }
        &&& match target {
            TransactionState::Trying => r is Ok ==> {
                &&& o.connection->0.reliable ==> n.timer_a == o.timer_a
                &&& !o.connection->0.reliable ==> replaced(o.timer_a, n.timer_a, lo, p, TransactionTimer::TimerA(o.key, t1), t1)
                &&& replaced(o.timer_b, n.timer_b, lo, p, TransactionTimer::TimerB(o.key), t1x64)
                &&& n.timer_d == o.timer_d && n.timer_k == o.timer_k && n.timer_g == o.timer_g
            },
            TransactionState::Proceeding => {
                &&& cancelled(o.timer_a, n.timer_a, p)
                &&& armed(n.timer_b, lo, p, TransactionTimer::TimerB(o.key), t1x64)
                &&& n.timer_d == o.timer_d && n.timer_k == o.timer_k && n.timer_g == o.timer_g
            },
            TransactionState::Completed => {
                let server_unreliable = o.transaction_type == TransactionType::ServerInvite
                    && o.connection is Some && !o.connection->0.reliable;
                &&& cancelled(o.timer_a, n.timer_a, p)
                &&& cancelled(o.timer_b, n.timer_b, p)
                &&& n.timer_k == o.timer_k
                &&& r is Err ==> n.timer_d == o.timer_d && n.timer_g == o.timer_g
                &&& r is Ok ==> armed(n.timer_d, lo, p, TransactionTimer::TimerD(o.key), t1x64)
                &&& (r is Ok && server_unreliable) ==> armed(n.timer_g, lo, p, TransactionTimer::TimerG(o.key, t1), t1)
                &&& !server_unreliable ==> n.timer_g == o.timer_g
            },
            TransactionState::Confirmed => {
                &&& cancelled(o.timer_a, n.timer_a, p)
                &&& cancelled(o.timer_b, n.timer_b, p)
                &&& cancelled(o.timer_d, n.timer_d, p)
                &&& cancelled(o.timer_g, n.timer_g, p)
                &&& armed(n.timer_k, lo, p, TransactionTimer::TimerK(o.key), t4)
            },
            TransactionState::Terminated => {
                &&& n.terminate_pending
                &&& n.is_cleaned_up
                &&& if o.is_cleaned_up || not_started(o.state) {
                    &&& ne == oe
                    &&& n.timer_a == o.timer_a && n.timer_b == o.timer_b && n.timer_d == o.timer_d
                    &&& n.timer_k == o.timer_k && n.timer_g == o.timer_g
                    &&& n.last_ack == o.last_ack && n.last_response == o.last_response
                } else {
                    cleanup_effect(o, n, oe, ne)
                }
            },
            _ => {
                &&& n.timer_a == o.timer_a && n.timer_b == o.timer_b && n.timer_d == o.timer_d
                &&& n.timer_k == o.timer_k && n.timer_g == o.timer_g
                &&& ne == oe
            },
        }
    }
}

/// Cancels the timer that `field` holds, if any, and clears the field.
fn disarm(field: &mut Option<u64>, timers: &mut Timer<TransactionTimer>)
    requires
        old(timers).wf(),
    ensures
        final(timers).wf(),
        *final(field) is None,
        final(timers).next_id() == old(timers).next_id(),
        keeps(old(timers).pending(), final(timers).pending(), opt_set(*old(field))),
        only_fresh(old(timers).pending(), final(timers).pending(), u64::MAX),
        *old(field) matches Some(id) ==> !has_task(final(timers).pending(), id),
{
    match *field {
        Some(id) => {
            *field = None;
            let ghost before = timers.pending();
            let r = timers.cancel(id);
            proof {
                match r {
                    Some(_) => {
                        let i = choose|i: int|
                            0 <= i < before.len() && before[i].task_id == id && r == Some(
                                before[i].value,
                            ) && timers.pending() == before.remove(i);
                        lemma_remove_frame(before, i);
                    },
                    None => {},
                }
            }
        },
        None => {},
    }
}

/// Starts a timer with `value` due `duration` from now and returns its id.
fn arm(timers: &mut Timer<TransactionTimer>, duration: u64, value: TransactionTimer) -> (id: u64)
    requires
        old(timers).wf(),
        old(timers).next_id() < u64::MAX,
    ensures
        final(timers).wf(),
        id == old(timers).next_id(),
        final(timers).next_id() == old(timers).next_id() + 1,
        scheduled(final(timers).pending(), id, value, duration),
        keeps(old(timers).pending(), final(timers).pending(), Set::empty()),
        only_fresh(old(timers).pending(), final(timers).pending(), old(timers).next_id()),
{
    let ghost v = value;
    let id = timers.timeout(duration, value);
    proof {
        let (i, at) = choose|i: int, at: u64|
            0 <= i <= old(timers).pending().len() && at >= duration && timers.pending() == old(
                timers,
            ).pending().insert(i, TimerEntry { task_id: id, execute_at: at, value: v });
        lemma_insert_frame(old(timers).pending(), i, TimerEntry { task_id: id, execute_at: at, value: v });
    }
    id
}

/// The field holds a freshly started timer with this value, and the timer it
/// held before, if any, is no longer pending.
pub open spec fn replaced(
    old_field: Option<u64>,
    new_field: Option<u64>,
    lo: u64,
    timers: Seq<TimerEntry<TransactionTimer>>,
    value: TransactionTimer,
    min_at: u64,
) -> bool {
    armed(new_field, lo, timers, value, min_at) && (old_field matches Some(id) ==> !has_task(timers, id))
}

/// The endpoint is unchanged but for its timer queue.
pub open spec fn only_timers_changed(o: EndpointInner, n: EndpointInner) -> bool {
    n == (EndpointInner { timers: n.timers, ..o })
}

/// Cancels the timer `field` holds and starts a new one in its place.
fn rearm(field: &mut Option<u64>, timers: &mut Timer<TransactionTimer>, duration: u64, value: TransactionTimer)
    requires
        old(timers).wf(),
        old(timers).next_id() < u64::MAX,
        *old(field) matches Some(id) ==> id < old(timers).next_id(),
    ensures
        final(timers).wf(),
        final(timers).next_id() == old(timers).next_id() + 1,
        replaced(*old(field), *final(field), old(timers).next_id(), final(timers).pending(), value, duration),
        keeps(old(timers).pending(), final(timers).pending(), opt_set(*old(field))),
        only_fresh(old(timers).pending(), final(timers).pending(), old(timers).next_id()),
{
    let ghost p0 = timers.pending();
    let ghost n0 = timers.next_id();
    disarm(field, timers);
    let ghost p1 = timers.pending();
    let id = arm(timers, duration, value);
    *field = Some(id);
    proof {
        let p2 = timers.pending();
        lemma_keeps_trans(p0, p1, p2, opt_set(*old(field)), Set::empty());
        assert(opt_set(*old(field)).union(Set::<u64>::empty()) =~= opt_set(*old(field)));
        assert forall|e: TimerEntry<TransactionTimer>| #[trigger] in_entries(p2, e) implies in_entries(p0, e) || e.task_id >= n0 by {
            if !(e.task_id >= n0) {
                assert(in_entries(p1, e));
            }
        }
        if let Some(old_id) = *old(field) {
            lemma_absent_stays(p1, p2, n0, old_id);
        }
    }
}

impl Transaction {
    /// The ids of the timers the transaction holds.
    pub open spec fn timer_ids(self) -> Set<u64> {
        opt_set(self.timer_a).union(opt_set(self.timer_b)).union(opt_set(self.timer_d)).union(
            opt_set(self.timer_k),
        ).union(opt_set(self.timer_g))
    }

    /// Every timer id the transaction holds was handed out before `next`.
    pub open spec fn ids_below(self, next: u64) -> bool {
        forall|id: u64| #[trigger] self.timer_ids().contains(id) ==> id < next
    }

    /// Whether the transaction has cleaned up (cancelled its timers and left
    /// the endpoint's table).
    pub open spec fn cleaned_up(self) -> bool {
        self.is_cleaned_up
    }

    /// Whether the transaction still has to tell its user that it ended.
    pub open spec fn terminate_signalled(self) -> bool {
        self.terminate_pending
    }

    /// A transaction in its initial state (see `initial_state`), with no
    /// timer, registered with the endpoint under its key.
    pub fn new(
        transaction_type: TransactionType,
        key: TransactionKey,
        original: Request,
        connection: Option<SipConnection>,
        endpoint_inner: &mut EndpointInner,
    ) -> (tx: Transaction)
        requires
            old(endpoint_inner).wf(),
        ensures
            final(endpoint_inner).wf(),
            tx.transaction_type == transaction_type,
            tx.key == key,
            tx.original == original,
            tx.connection == connection,
            tx.state == initial_state(transaction_type),
            tx.timer_ids() =~= Set::<u64>::empty(),
            tx.last_response is None && tx.last_ack is None && tx.destination is None,
            !tx.cleaned_up() && !tx.terminate_signalled(),
            forall|k: Seq<char>| #[trigger]
                final(endpoint_inner).transactions.has(k) == (k == key@ || old(
                    endpoint_inner,
                ).transactions.has(k)),
            final(endpoint_inner).timers == old(endpoint_inner).timers,
            final(endpoint_inner).finished_transactions == old(endpoint_inner).finished_transactions,
            final(endpoint_inner).option == old(endpoint_inner).option,
            final(endpoint_inner).user_agent == old(endpoint_inner).user_agent,
            *final(endpoint_inner) == (EndpointInner { transactions: final(endpoint_inner).transactions, ..*old(endpoint_inner) }),
    {
        endpoint_inner.attach_transaction(&key);
        let state = match transaction_type {
            TransactionType::ClientInvite | TransactionType::ClientNonInvite => TransactionState::Nothing,
            _ => TransactionState::Trying,
        };
        Transaction {
            transaction_type,
            key,
            original,
            state,
            connection,
            destination: None,
            last_response: None,
            last_ack: None,
            timer_a: None,
            timer_b: None,
            timer_d: None,
            timer_k: None,
            timer_g: None,
            is_cleaned_up: false,
            terminate_pending: false,
        }
    }

    /// A client transaction for `original`, in Nothing until its request is
    /// sent: an INVITE transaction for an INVITE request, a non-INVITE one
    /// otherwise.
    pub fn new_client(
        key: TransactionKey,
        original: Request,
        endpoint_inner: &mut EndpointInner,
        connection: Option<SipConnection>,
    ) -> (tx: Transaction)
        requires
            old(endpoint_inner).wf(),
        ensures
            final(endpoint_inner).wf(),
            tx.transaction_type == if original.method == Method::Invite {
                TransactionType::ClientInvite
            } else {
                TransactionType::ClientNonInvite
            },
            tx.key == key,
            tx.original == original,
            tx.connection == connection,
            tx.state == TransactionState::Nothing,
            tx.timer_ids() =~= Set::<u64>::empty(),
            tx.last_response is None && tx.last_ack is None && tx.destination is None,
            !tx.cleaned_up() && !tx.terminate_signalled(),
            forall|k: Seq<char>| #[trigger]
                final(endpoint_inner).transactions.has(k) == (k == key@ || old(
                    endpoint_inner,
                ).transactions.has(k)),
            final(endpoint_inner).timers == old(endpoint_inner).timers,
            final(endpoint_inner).finished_transactions == old(endpoint_inner).finished_transactions,
            final(endpoint_inner).option == old(endpoint_inner).option,
            final(endpoint_inner).user_agent == old(endpoint_inner).user_agent,
            *final(endpoint_inner) == (EndpointInner { transactions: final(endpoint_inner).transactions, ..*old(endpoint_inner) }),
    {
        let t = if original.method == Method::Invite {
            TransactionType::ClientInvite
        } else {
            TransactionType::ClientNonInvite
        };
        Transaction::new(t, key, original, connection, endpoint_inner)
    }

    /// A server transaction for `original`, in Trying since its request has
    /// arrived: an INVITE transaction for an INVITE request, a non-INVITE one
    /// otherwise.
    pub fn new_server(
        key: TransactionKey,
        original: Request,
        endpoint_inner: &mut EndpointInner,
        connection: Option<SipConnection>,
    ) -> (tx: Transaction)
        requires
            old(endpoint_inner).wf(),
        ensures
            final(endpoint_inner).wf(),
            tx.transaction_type == if original.method == Method::Invite {
                TransactionType::ServerInvite
            } else {
                TransactionType::ServerNonInvite
            },
            tx.key == key,
            tx.original == original,
            tx.connection == connection,
            tx.state == TransactionState::Trying,
            tx.timer_ids() =~= Set::<u64>::empty(),
            tx.last_response is None && tx.last_ack is None && tx.destination is None,
            !tx.cleaned_up() && !tx.terminate_signalled(),
            forall|k: Seq<char>| #[trigger]
                final(endpoint_inner).transactions.has(k) == (k == key@ || old(
                    endpoint_inner,
                ).transactions.has(k)),
            final(endpoint_inner).timers == old(endpoint_inner).timers,
            final(endpoint_inner).finished_transactions == old(endpoint_inner).finished_transactions,
            final(endpoint_inner).option == old(endpoint_inner).option,
            final(endpoint_inner).user_agent == old(endpoint_inner).user_agent,
            *final(endpoint_inner) == (EndpointInner { transactions: final(endpoint_inner).transactions, ..*old(endpoint_inner) }),
    {
        let t = if original.method == Method::Invite {
            TransactionType::ServerInvite
        } else {
            TransactionType::ServerNonInvite
        };
        Transaction::new(t, key, original, connection, endpoint_inner)
    }

    /// The transaction's consistency with its endpoint: the endpoint is well
    /// formed, every timer the transaction holds came from the endpoint's
    /// queue, and the queue has room for the ids a step may take.
    pub open spec fn fits(self, ep: EndpointInner) -> bool {
        &&& ep.wf()
        &&& self.ids_below(ep.timers.next_id())
        &&& ep.timers.next_id() + 2 < u64::MAX
    }

    /// Checks that the request can be sent: the transaction must be a client
    /// transaction with a connection.
    pub fn prepare_send(&self) -> (r: Result<(), Error>)
        ensures
            r is Ok <==> (self.transaction_type.is_client() && self.connection is Some),
            r matches Err(e) ==> e is TransactionError && e->TransactionError_1 == self.key,
    {
        match self.transaction_type {
            TransactionType::ClientInvite | TransactionType::ClientNonInvite => {},
            _ => {
                return Err(
                    Error::TransactionError(
                        String::from_str("send is only valid for client transactions"),
                        self.key.duplicate(),
                    ),
                );
            },
        }
        if self.connection.is_none() {
            return Err(
                Error::TransactionError(String::from_str("no connection found"), self.key.duplicate()),
            );
        }
        Ok(())
    }

    /// Records that the request was sent: the transaction moves to Trying.
    pub fn on_sent(&mut self, ep: &mut EndpointInner) -> (r: Result<(), Error>)
        requires
            old(self).fits(*old(ep)),
        ensures
            final(ep).wf(),
            transition_effect(*old(self), *final(self), *old(ep), *final(ep), TransactionState::Trying, match r {
                Ok(_) => Ok(TransactionState::Trying),
                Err(e) => Err(e),
            }),
    {
        match self.transition(TransactionState::Trying, ep) {
            Ok(_) => Ok(()),
            Err(e) => Err(e),
        }
    }

    /// Checks that `response` can be sent and returns the state the
    /// transaction will move to: Trying for 100, Proceeding for another
    /// provisional response, Completed for a final response of an INVITE
    /// transaction and Terminated for one of a non-INVITE transaction. Fails
    /// for a client transaction, a transition not allowed from the current
    /// state, or a missing connection.
    pub fn prepare_respond(&self, response: &Response) -> (r: Result<TransactionState, Error>)
        ensures
            r is Ok <==> (!self.transaction_type.is_client() && spec_can_transition(
                self.state,
                respond_target(self.transaction_type, response.status_code),
            ) && self.connection is Some),
            r matches Ok(s) ==> s == respond_target(self.transaction_type, response.status_code),
            r matches Err(e) ==> e is TransactionError && e->TransactionError_1 == self.key,
    {
        match self.transaction_type {
            TransactionType::ServerInvite | TransactionType::ServerNonInvite => {},
            _ => {
                return Err(
                    Error::TransactionError(
                        String::from_str("respond is only valid for server transactions"),
                        self.key.duplicate(),
                    ),
                );
            },
        }
        let new_state = match status_kind(response.status_code) {
            StatusCodeKind::Provisional => {
                if response.status_code == TRYING {
                    TransactionState::Trying
                } else {
                    TransactionState::Proceeding
                }
            },
            _ => {
                if self.transaction_type == TransactionType::ServerInvite {
                    TransactionState::Completed
                } else {
                    TransactionState::Terminated
                }
            },
        };
        self.can_transition(new_state)?;
        if self.connection.is_none() {
            return Err(
                Error::TransactionError(String::from_str("no connection found"), self.key.duplicate()),
            );
        }
        Ok(new_state)
    }

    /// Records that `response` was sent: it becomes the last response and the
    /// transaction moves to `new_state`.
    pub fn on_responded(&mut self, response: Response, new_state: TransactionState, ep: &mut EndpointInner) -> (r: Result<(), Error>)
        requires
            old(self).fits(*old(ep)),
        ensures
            final(ep).wf(),
            transition_effect(
                Transaction { last_response: Some(response), ..*old(self) },
                *final(self),
                *old(ep),
                *final(ep),
                new_state,
                match r {
                    Ok(_) => Ok(new_state),
                    Err(e) => Err(e),
                },
            ),
    {
        self.last_response = Some(response);
        assert(self.timer_ids() =~= old(self).timer_ids());
        match self.transition(new_state, ep) {
            Ok(_) => Ok(()),
            Err(e) => Err(e),
        }
    }

    /// Checks that an ACK can be sent: only a client INVITE transaction with a
    /// connection, in the Completed state, sends one.
    pub fn prepare_ack(&self) -> (r: Result<(), Error>)
        ensures
            r is Ok <==> (self.transaction_type == TransactionType::ClientInvite && self.connection is Some
                && self.state == TransactionState::Completed),
            r matches Err(e) ==> e is TransactionError && e->TransactionError_1 == self.key,
    {
        if self.transaction_type != TransactionType::ClientInvite {
            return Err(
                Error::TransactionError(
                    String::from_str("send_ack is only valid for client invite transactions"),
                    self.key.duplicate(),
                ),
            );
        }
        if self.connection.is_none() {
            return Err(
                Error::TransactionError(String::from_str("no connection found"), self.key.duplicate()),
            );
        }
        if self.state != TransactionState::Completed {
            return Err(
                Error::TransactionError(String::from_str("invalid state for sending ACK"), self.key.duplicate()),
            );
        }
        Ok(())
    }

    /// Records that `ack` was sent: it becomes the last ACK and the
    /// transaction terminates.
    pub fn on_ack_sent(&mut self, ack: Request, ep: &mut EndpointInner) -> (r: Result<(), Error>)
        requires
            old(self).fits(*old(ep)),
        ensures
            final(ep).wf(),
            transition_effect(
                Transaction { last_ack: Some(ack), ..*old(self) },
                *final(self),
                *old(ep),
                *final(ep),
                TransactionState::Terminated,
                match r {
                    Ok(_) => Ok(TransactionState::Terminated),
                    Err(e) => Err(e),
                },
            ),
    {
        self.last_ack = Some(ack);
        assert(self.timer_ids() =~= old(self).timer_ids());
        match self.transition(TransactionState::Terminated, ep) {
            Ok(_) => Ok(()),
            Err(e) => Err(e),
        }
    }

    /// A response of this transaction's endpoint to the original request,
    /// with the given status and no body.
    pub fn make_reply(&self, ep: &EndpointInner, status_code: u16) -> (r: Response)
        ensures
            is_reply(r, self.original, status_code, ep.user_agent@),
    {
        ep.make_response(&self.original, status_code, None)
    }

    /// What a client transaction does with a response: it moves to Trying on
    /// 100, Proceeding on another provisional response, Confirmed on a 2xx to
    /// an INVITE and Terminated otherwise, and passes the response on; an
    /// INVITE transaction answers a final response other than a 2xx with an
    /// ACK to its Request-URI first. A server transaction, a transition that
    /// is not allowed, and a response that leaves the state as it is (a
    /// retransmission) pass nothing on.
    pub fn on_received_response(&mut self, resp: Response, ep: &mut EndpointInner) -> (r: ResponseStep)
        requires
            old(self).fits(*old(ep)),
        ensures
            final(ep).wf(),
            response_step_effect(*old(self), *final(self), *old(ep), *final(ep), resp, r),
    {
        match self.transaction_type {
            TransactionType::ServerInvite | TransactionType::ServerNonInvite => return ResponseStep::Ignore,
            _ => {},
        }
        let new_state = match status_kind(resp.status_code) {
            StatusCodeKind::Provisional => {
                if resp.status_code == TRYING {
                    TransactionState::Trying
                } else {
                    TransactionState::Proceeding
                }
            },
            StatusCodeKind::Successful => {
                if self.transaction_type == TransactionType::ClientInvite {
                    TransactionState::Confirmed
                } else {
                    TransactionState::Terminated
                }
            },
            _ => TransactionState::Terminated,
        };
        if !can_transition_states(self.state, new_state) {
            return ResponseStep::Ignore;
        }
        if self.state == new_state {
            return ResponseStep::Ignore;
        }
        let acks = self.transaction_type == TransactionType::ClientInvite && new_state == TransactionState::Terminated;
        let ack = if acks {
            match ep.make_ack(&resp, Some(&self.original.uri), None) {
                Ok(a) => Some(a),
                Err(_) => None,
            }
        } else {
            None
        };
        proof {
            if acks {
                assert(spec_status_kind(resp.status_code) != StatusCodeKind::Successful);
                let a = ack->0;
                let via = choose|via: Option<Seq<char>>|
                    super::ack::ack_via_ok(resp.headers@, false, via) && crate::message::hviews(a.headers@) == super::ack::ack_headers(
                        super::ack::with_via(resp.headers@, via) + crate::message::hviews(
                            super::ack::rev_routes(resp.headers@, resp.headers@.len() as int),
                        ),
                        ep.user_agent@,
                    );
                assert(via is None);
                assert(super::ack::is_failure_ack(a, resp, self.original.uri@, ep.user_agent@));
            }
        }
        let passed = resp.duplicate();
        self.last_response = Some(resp);
        assert(self.timer_ids() =~= old(self).timer_ids());
        let tr = self.transition(new_state, ep);
        match ack {
            Some(a) => ResponseStep::AckThenDeliver(a, passed),
            None => ResponseStep::Deliver(passed),
        }
    }

    /// Takes the notice that the transaction ended, which its user has to be
    /// told of.
    pub fn take_terminate(&mut self) -> (r: bool)
        ensures
            r == old(self).terminate_signalled(),
            !final(self).terminate_signalled(),
            final(self).state == old(self).state,
            final(self).cleaned_up() == old(self).cleaned_up(),
    {
        let r = self.terminate_pending;
        self.terminate_pending = false;
        r
    }

    /// Succeeds when the transaction may go from its state to `target`; fails
    /// with a transaction error otherwise.
    pub fn can_transition(&self, target: TransactionState) -> (r: Result<(), Error>)
        ensures
            r is Ok <==> spec_can_transition(self.state, target),
            r matches Err(e) ==> e is TransactionError && e->TransactionError_1 == self.key,
    {
        if can_transition_states(self.state, target) {
            Ok(())
        } else {
            let mut msg = String::from_str("invalid state transition from ");
            let from = self.state.to_string();
            msg.append(from.as_str());
            msg.append(" to ");
            let to = target.to_string();
            msg.append(to.as_str());
            Err(Error::TransactionError(msg, self.key.duplicate()))
        }
    }

    /// Timers on entering Trying: on an unreliable transport timer A is
    /// restarted at T1; timer B is restarted at 64*T1. Fails, changing
    /// nothing, when the transaction has no connection.
    fn enter_trying(&mut self, ep: &mut EndpointInner) -> (r: Result<(), Error>)
        requires
            old(ep).wf(),
            old(self).ids_below(old(ep).timers.next_id()),
            old(ep).timers.next_id() + 2 < u64::MAX,
        ensures
            final(ep).wf(),
            only_timers_changed(*old(ep), *final(ep)),
            r is Err <==> old(self).connection is None,
            r is Err ==> *final(self) == *old(self) && *final(ep) == *old(ep),
            r matches Err(e) ==> no_connection_error(e, old(self).key),
            r is Ok ==> {
                let lo = old(ep).timers.next_id();
                let p = final(ep).timers.pending();
                let o = *old(self);
                let n = *final(self);
                &&& keeps(old(ep).timers.pending(), p, o.timer_ids())
                &&& only_fresh(old(ep).timers.pending(), p, lo)
                &&& lo <= final(ep).timers.next_id() <= lo + 2
                &&& o.connection->0.reliable ==> n.timer_a == o.timer_a
                &&& !o.connection->0.reliable ==> replaced(
                    o.timer_a,
                    n.timer_a,
                    lo,
                    p,
                    TransactionTimer::TimerA(o.key, old(ep).option.t1),
                    old(ep).option.t1,
                )
                &&& replaced(o.timer_b, n.timer_b, lo, p, TransactionTimer::TimerB(o.key), old(ep).option.t1x64)
                &&& n == (Transaction { timer_a: n.timer_a, timer_b: n.timer_b, ..o })
                &&& n.ids_below(final(ep).timers.next_id())
            },
    {
        let reliable = match self.connection {
            Some(c) => c.reliable,
            None => {
                proof {
                    reveal_strlit("no connection found");
                }
                return Err(
                    Error::TransactionError(String::from_str("no connection found"), self.key.duplicate()),
                )
            },
        };
        let ghost o = *self;
        let ghost p0 = ep.timers.pending();
        let ghost n0 = ep.timers.next_id();
        proof {
            if let Some(id) = o.timer_a {
                assert(o.timer_ids().contains(id));
            }
            if let Some(id) = o.timer_b {
                assert(o.timer_ids().contains(id));
            }
        }
        if !reliable {
            let t1 = ep.option.t1;
            rearm(&mut self.timer_a, &mut ep.timers, t1, TransactionTimer::TimerA(self.key.duplicate(), t1));
        }
        let ghost p1 = ep.timers.pending();
        let ghost n1 = ep.timers.next_id();
        let t1x64 = ep.option.t1x64;
        rearm(&mut self.timer_b, &mut ep.timers, t1x64, TransactionTimer::TimerB(self.key.duplicate()));
        proof {
            let p2 = ep.timers.pending();
            if !reliable {
                lemma_keeps_trans(p0, p1, p2, opt_set(o.timer_a), opt_set(o.timer_b));
                lemma_only_fresh_trans(p0, p1, p2, n0, n1);
                let ida = self.timer_a->0;
                if let Some(ob) = o.timer_b {
                    assert(ob < n0);
                }
                lemma_scheduled_kept(p1, p2, opt_set(o.timer_b), ida, TransactionTimer::TimerA(o.key, ep.option.t1), ep.option.t1);
                if let Some(oa) = o.timer_a {
                    lemma_absent_stays(p1, p2, n1, oa);
                }
            }
            if !reliable {
                lemma_keeps_weaken(p0, p2, opt_set(o.timer_a).union(opt_set(o.timer_b)), o.timer_ids());
            } else {
                lemma_keeps_weaken(p0, p2, opt_set(o.timer_b), o.timer_ids());
            }
            assert forall|id: u64| #[trigger] self.timer_ids().contains(id) implies id < ep.timers.next_id() by {
                if o.timer_ids().contains(id) {
                }
            }
        }
        Ok(())
    }

    /// Timers on entering Proceeding: timer A is cancelled and timer B is
    /// started at 64*T1 (a B started earlier is not cancelled).
    fn enter_proceeding(&mut self, ep: &mut EndpointInner)
        requires
            old(ep).wf(),
            old(self).ids_below(old(ep).timers.next_id()),
            old(ep).timers.next_id() + 2 < u64::MAX,
        ensures
            final(ep).wf(),
            only_timers_changed(*old(ep), *final(ep)),
            ({
                let lo = old(ep).timers.next_id();
                let p = final(ep).timers.pending();
                let o = *old(self);
                let n = *final(self);
                &&& keeps(old(ep).timers.pending(), p, o.timer_ids())
                &&& only_fresh(old(ep).timers.pending(), p, lo)
                &&& lo <= final(ep).timers.next_id() <= lo + 2
                &&& cancelled(o.timer_a, n.timer_a, p)
                &&& armed(n.timer_b, lo, p, TransactionTimer::TimerB(o.key), old(ep).option.t1x64)
                &&& n == (Transaction { timer_a: n.timer_a, timer_b: n.timer_b, ..o })
                &&& n.ids_below(final(ep).timers.next_id())
            }),
    {
        let ghost o = *self;
        let ghost p0 = ep.timers.pending();
        let ghost n0 = ep.timers.next_id();
        disarm(&mut self.timer_a, &mut ep.timers);
        let ghost p1 = ep.timers.pending();
        let t1x64 = ep.option.t1x64;
        let id = arm(&mut ep.timers, t1x64, TransactionTimer::TimerB(self.key.duplicate()));
        self.timer_b = Some(id);
        proof {
            let p2 = ep.timers.pending();
            lemma_keeps_trans(p0, p1, p2, opt_set(o.timer_a), Set::empty());
            lemma_keeps_weaken(p0, p2, opt_set(o.timer_a).union(Set::empty()), o.timer_ids());
            assert forall|e: TimerEntry<TransactionTimer>| #[trigger] in_entries(p2, e) implies in_entries(p0, e) || e.task_id >= n0 by {
                if !(e.task_id >= n0) {
                    assert(in_entries(p1, e));
                }
            }
            if let Some(oa) = o.timer_a {
                assert(o.timer_ids().contains(oa));
                lemma_absent_stays(p1, p2, n0, oa);
            }
            assert forall|x: u64| #[trigger] self.timer_ids().contains(x) implies x < ep.timers.next_id() by {
                if o.timer_ids().contains(x) {
                }
            }
        }
    }

    /// Timers on entering Completed: timers A and B are cancelled; for a
    /// server INVITE transaction on an unreliable transport timer G is started
    /// at T1; timer D is started at 64*T1. A server INVITE transaction without
    /// a connection fails after cancelling A and B.
    fn enter_completed(&mut self, ep: &mut EndpointInner) -> (r: Result<(), Error>)
        requires
            old(ep).wf(),
            old(self).ids_below(old(ep).timers.next_id()),
            old(ep).timers.next_id() + 2 < u64::MAX,
        ensures
            final(ep).wf(),
            only_timers_changed(*old(ep), *final(ep)),
            r is Err <==> (old(self).transaction_type == TransactionType::ServerInvite && old(self).connection is None),
            r matches Err(e) ==> no_connection_error(e, old(self).key),
            ({
                let lo = old(ep).timers.next_id();
                let p = final(ep).timers.pending();
                let o = *old(self);
                let n = *final(self);
                let server_unreliable = o.transaction_type == TransactionType::ServerInvite
                    && o.connection is Some && !o.connection->0.reliable;
                &&& keeps(old(ep).timers.pending(), p, o.timer_ids())
                &&& only_fresh(old(ep).timers.pending(), p, lo)
                &&& lo <= final(ep).timers.next_id() <= lo + 2
                &&& cancelled(o.timer_a, n.timer_a, p)
                &&& cancelled(o.timer_b, n.timer_b, p)
                &&& r is Err ==> n.timer_d == o.timer_d && n.timer_g == o.timer_g
                &&& r is Ok ==> armed(n.timer_d, lo, p, TransactionTimer::TimerD(o.key), old(ep).option.t1x64)
                &&& (r is Ok && server_unreliable) ==> armed(
                    n.timer_g,
                    lo,
                    p,
                    TransactionTimer::TimerG(o.key, old(ep).option.t1),
                    old(ep).option.t1,
                )
                &&& !server_unreliable ==> n.timer_g == o.timer_g
                &&& n == (Transaction {
                    timer_a: n.timer_a,
                    timer_b: n.timer_b,
                    timer_d: n.timer_d,
                    timer_g: n.timer_g,
                    ..o
                })
                &&& n.ids_below(final(ep).timers.next_id())
            }),
    {
        let ghost o = *self;
        let ghost p0 = ep.timers.pending();
        let ghost n0 = ep.timers.next_id();
        disarm(&mut self.timer_a, &mut ep.timers);
        let ghost p1 = ep.timers.pending();
        disarm(&mut self.timer_b, &mut ep.timers);
        let ghost p2 = ep.timers.pending();
        proof {
            lemma_keeps_trans(p0, p1, p2, opt_set(o.timer_a), opt_set(o.timer_b));
            lemma_keeps_weaken(p0, p2, opt_set(o.timer_a).union(opt_set(o.timer_b)), o.timer_ids());
            lemma_only_fresh_trans(p0, p1, p2, u64::MAX, u64::MAX);
            if let Some(oa) = o.timer_a {
                assert(o.timer_ids().contains(oa));
                lemma_absent_stays(p1, p2, u64::MAX, oa);
            }
            if let Some(ob) = o.timer_b {
                assert(o.timer_ids().contains(ob));
            }
            assert forall|x: u64| #[trigger] self.timer_ids().contains(x) implies x < ep.timers.next_id() by {
                if o.timer_ids().contains(x) {
                }
            }
        }
        let ghost mut g_armed = false;
        if self.transaction_type == TransactionType::ServerInvite {
            let reliable = match self.connection {
                Some(c) => c.reliable,
                None => {
                    proof {
                        reveal_strlit("no connection found");
                    }
                    return Err(
                        Error::TransactionError(String::from_str("no connection found"), self.key.duplicate()),
                    )
                },
            };
            if !reliable {
                let t1 = ep.option.t1;
                let g = arm(&mut ep.timers, t1, TransactionTimer::TimerG(self.key.duplicate(), t1));
                self.timer_g = Some(g);
                proof {
                    g_armed = true;
                }
            }
        }
        let ghost p3 = ep.timers.pending();
        let ghost n3 = ep.timers.next_id();
        proof {
            lemma_keeps_trans(p2, p2, p3, Set::empty(), Set::empty());
            if let Some(oa) = o.timer_a {
                lemma_absent_stays(p2, p3, n0, oa);
            }
            if let Some(ob) = o.timer_b {
                lemma_absent_stays(p2, p3, n0, ob);
            }
        }
        let t1x64 = ep.option.t1x64;
        let d = arm(&mut ep.timers, t1x64, TransactionTimer::TimerD(self.key.duplicate()));
        self.timer_d = Some(d);
        proof {
            let p4 = ep.timers.pending();
            lemma_keeps_trans(p0, p2, p3, o.timer_ids(), Set::empty());
            lemma_keeps_trans(p0, p3, p4, o.timer_ids().union(Set::empty()), Set::empty());
            lemma_keeps_weaken(p0, p4, o.timer_ids().union(Set::empty()).union(Set::empty()), o.timer_ids());
            assert forall|e: TimerEntry<TransactionTimer>| #[trigger] in_entries(p4, e) implies in_entries(p0, e) || e.task_id >= n0 by {
                if !(e.task_id >= n0) {
                    assert(in_entries(p3, e));
                    assert(in_entries(p2, e));
                }
            }
            if let Some(oa) = o.timer_a {
                lemma_absent_stays(p3, p4, n0, oa);
            }
            if let Some(ob) = o.timer_b {
                lemma_absent_stays(p3, p4, n0, ob);
            }
            if g_armed {
                lemma_scheduled_kept(p3, p4, Set::empty(), self.timer_g->0, TransactionTimer::TimerG(o.key, ep.option.t1), ep.option.t1);
            }
            assert forall|x: u64| #[trigger] self.timer_ids().contains(x) implies x < ep.timers.next_id() by {
                if o.timer_ids().contains(x) {
                }
            }
        }
        Ok(())
    }

    /// Timers on entering Confirmed: every timer is cancelled and timer K is
    /// started at T4.
    fn enter_confirmed(&mut self, ep: &mut EndpointInner)
        requires
            old(ep).wf(),
            old(self).ids_below(old(ep).timers.next_id()),
            old(ep).timers.next_id() + 2 < u64::MAX,
        ensures
            final(ep).wf(),
            only_timers_changed(*old(ep), *final(ep)),
            ({
                let lo = old(ep).timers.next_id();
                let p = final(ep).timers.pending();
                let o = *old(self);
                let n = *final(self);
                &&& keeps(old(ep).timers.pending(), p, o.timer_ids())
                &&& only_fresh(old(ep).timers.pending(), p, lo)
                &&& lo <= final(ep).timers.next_id() <= lo + 2
                &&& cancelled(o.timer_a, n.timer_a, p)
                &&& cancelled(o.timer_b, n.timer_b, p)
                &&& cancelled(o.timer_d, n.timer_d, p)
                &&& cancelled(o.timer_g, n.timer_g, p)
                &&& armed(n.timer_k, lo, p, TransactionTimer::TimerK(o.key), old(ep).option.t4)
                &&& (o.timer_k matches Some(id) ==> !has_task(p, id))
                &&& n == (Transaction {
                    timer_a: None,
                    timer_b: None,
                    timer_d: None,
                    timer_g: None,
                    timer_k: n.timer_k,
                    ..o
                })
                &&& n.ids_below(final(ep).timers.next_id())
            }),
    {
        let ghost o = *self;
        let ghost p0 = ep.timers.pending();
        let ghost n0 = ep.timers.next_id();
        self.cleanup_timer(&mut ep.timers);
        let ghost p1 = ep.timers.pending();
        let t4 = ep.option.t4;
        let k = arm(&mut ep.timers, t4, TransactionTimer::TimerK(self.key.duplicate()));
        self.timer_k = Some(k);
        proof {
            let p2 = ep.timers.pending();
            lemma_keeps_trans(p0, p1, p2, o.timer_ids(), Set::empty());
            lemma_keeps_weaken(p0, p2, o.timer_ids().union(Set::empty()), o.timer_ids());
            assert forall|e: TimerEntry<TransactionTimer>| #[trigger] in_entries(p2, e) implies in_entries(p0, e) || e.task_id >= n0 by {
                if !(e.task_id >= n0) {
                    assert(in_entries(p1, e));
                }
            }
            if let Some(x) = o.timer_a {
                assert(o.timer_ids().contains(x));
                lemma_absent_stays(p1, p2, n0, x);
            }
            if let Some(x) = o.timer_b {
                assert(o.timer_ids().contains(x));
                lemma_absent_stays(p1, p2, n0, x);
            }
            if let Some(x) = o.timer_d {
                assert(o.timer_ids().contains(x));
                lemma_absent_stays(p1, p2, n0, x);
            }
            if let Some(x) = o.timer_g {
                assert(o.timer_ids().contains(x));
                lemma_absent_stays(p1, p2, n0, x);
            }
            if let Some(x) = o.timer_k {
                assert(o.timer_ids().contains(x));
                lemma_absent_stays(p1, p2, n0, x);
            }
            assert forall|x: u64| #[trigger] self.timer_ids().contains(x) implies x < ep.timers.next_id() by {
            }
        }
    }

    /// Cleans up once: for a transaction that has started, cancels
    /// its timers and detaches it from the endpoint, leaving its kept message.
    fn cleanup(&mut self, ep: &mut EndpointInner)
        requires
            old(ep).wf(),
            old(self).ids_below(old(ep).timers.next_id()),
            old(ep).timers.next_id() + 2 < u64::MAX,
        ensures
            final(ep).wf(),
            final(self).is_cleaned_up,
            final(self).ids_below(final(ep).timers.next_id()),
            old(ep).timers.next_id() <= final(ep).timers.next_id() <= old(ep).timers.next_id() + 1,
            (old(self).is_cleaned_up || not_started(old(self).state)) ==> *final(ep)
                == *old(ep) && *final(self) == (Transaction { is_cleaned_up: true, ..*old(self) }),
            !(old(self).is_cleaned_up || not_started(old(self).state)) ==> {
                &&& cleanup_effect(*old(self), *final(self), *old(ep), *final(ep))
                &&& *final(self) == (Transaction {
                    is_cleaned_up: true,
                    timer_a: None,
                    timer_b: None,
                    timer_d: None,
                    timer_k: None,
                    timer_g: None,
                    last_ack: final(self).last_ack,
                    last_response: final(self).last_response,
                    ..*old(self)
                })
            },
    {
        if self.is_cleaned_up {
            return;
        }
        self.is_cleaned_up = true;
        assert(self.timer_ids() =~= old(self).timer_ids());
        if self.state == TransactionState::Nothing || self.state == TransactionState::Calling {
            return;
        }
        let ghost o = *old(self);
        let ghost p0 = ep.timers.pending();
        let ghost n0 = ep.timers.next_id();
        self.cleanup_timer(&mut ep.timers);
        let ghost e1 = *ep;
        let ghost p1 = ep.timers.pending();
        let last_message = match self.transaction_type {
            TransactionType::ClientInvite => match self.last_ack.take() {
                Some(r) => Some(SipMessage::Request(r)),
                None => None,
            },
            TransactionType::ServerNonInvite => match self.last_response.take() {
                Some(r) => Some(SipMessage::Response(r)),
                None => None,
            },
            _ => None,
        };
        assert(last_message == spec_last_message(o));
        let now = now_millis();
        ep.detach_transaction(&self.key, last_message, now);
        proof {
            let p2 = ep.timers.pending();
            if let Some(m) = spec_last_message(o) {
                let min_at = if m is Request { ep.option.t4 } else { ep.option.t1x64 };
                let (i, at) = choose|i: int, at: u64|
                    0 <= i <= p1.len() && at >= min_at && p2 == p1.insert(
                        i,
                        TimerEntry { task_id: n0, execute_at: at, value: TransactionTimer::TimerCleanup(o.key) },
                    );
                lemma_insert_frame(p1, i, TimerEntry { task_id: n0, execute_at: at, value: TransactionTimer::TimerCleanup(o.key) });
                lemma_keeps_trans(p0, p1, p2, o.timer_ids(), Set::empty());
                lemma_keeps_weaken(p0, p2, o.timer_ids().union(Set::empty()), o.timer_ids());
                assert forall|e: TimerEntry<TransactionTimer>| #[trigger] in_entries(p2, e) implies in_entries(p0, e) || e.task_id >= n0 by {
                    if !(e.task_id >= n0) {
                        assert(in_entries(p1, e));
                    }
                }
                if let Some(x) = o.timer_a {
                    assert(o.timer_ids().contains(x));
                    lemma_absent_stays(p1, p2, n0, x);
                }
                if let Some(x) = o.timer_b {
                    assert(o.timer_ids().contains(x));
                    lemma_absent_stays(p1, p2, n0, x);
                }
                if let Some(x) = o.timer_d {
                    assert(o.timer_ids().contains(x));
                    lemma_absent_stays(p1, p2, n0, x);
                }
                if let Some(x) = o.timer_k {
                    assert(o.timer_ids().contains(x));
                    lemma_absent_stays(p1, p2, n0, x);
                }
                if let Some(x) = o.timer_g {
                    assert(o.timer_ids().contains(x));
                    lemma_absent_stays(p1, p2, n0, x);
                }
            }
            assert forall|x: u64| #[trigger] self.timer_ids().contains(x) implies x < ep.timers.next_id() by {
            }
        }
    }

    /// Moves the transaction to `state`, starting and cancelling timers as
    /// the state requires; entering Terminated cleans up and leaves notice
    /// for the transaction user. Moving to the current state changes nothing.
    fn transition(&mut self, state: TransactionState, ep: &mut EndpointInner) -> (r: Result<TransactionState, Error>)
        requires
            old(ep).wf(),
            old(self).ids_below(old(ep).timers.next_id()),
            old(ep).timers.next_id() + 2 < u64::MAX,
        ensures
            final(ep).wf(),
            transition_effect(*old(self), *final(self), *old(ep), *final(ep), state, r),
    {
        if self.state == state {
            return Ok(self.state);
        }
        match state {
            TransactionState::Nothing | TransactionState::Calling => {},
            TransactionState::Trying => {
                self.enter_trying(ep)?;
            },
            TransactionState::Proceeding => {
                self.enter_proceeding(ep);
            },
            TransactionState::Completed => {
                self.enter_completed(ep)?;
            },
            TransactionState::Confirmed => {
                self.enter_confirmed(ep);
            },
            TransactionState::Terminated => {
                self.cleanup(ep);
                let ghost c = *self;
                self.terminate_pending = true;
                assert(self.timer_ids() =~= c.timer_ids());
            },
        }
        let ghost before = *self;
        self.state = state;
        assert(self.timer_ids() =~= before.timer_ids());
        Ok(state)
    }

    /// Cancels all five timers.
    fn cleanup_timer(&mut self, timers: &mut Timer<TransactionTimer>)
        requires
            old(timers).wf(),
            old(self).ids_below(old(timers).next_id()),
        ensures
            final(timers).wf(),
            final(timers).next_id() == old(timers).next_id(),
            keeps(old(timers).pending(), final(timers).pending(), old(self).timer_ids()),
            only_fresh(old(timers).pending(), final(timers).pending(), u64::MAX),
            cancelled(old(self).timer_a, final(self).timer_a, final(timers).pending()),
            cancelled(old(self).timer_b, final(self).timer_b, final(timers).pending()),
            cancelled(old(self).timer_d, final(self).timer_d, final(timers).pending()),
            cancelled(old(self).timer_k, final(self).timer_k, final(timers).pending()),
            cancelled(old(self).timer_g, final(self).timer_g, final(timers).pending()),
            final(self).timer_ids() =~= Set::<u64>::empty(),
            *final(self) == (Transaction {
                timer_a: None,
                timer_b: None,
                timer_d: None,
                timer_k: None,
                timer_g: None,
                ..*old(self)
            }),
    {
        let ghost p0 = timers.pending();
        let ghost n = timers.next_id();
        disarm(&mut self.timer_a, timers);
        let ghost p1 = timers.pending();
        disarm(&mut self.timer_b, timers);
        let ghost p2 = timers.pending();
        disarm(&mut self.timer_d, timers);
        let ghost p3 = timers.pending();
        disarm(&mut self.timer_k, timers);
        let ghost p4 = timers.pending();
        disarm(&mut self.timer_g, timers);
        let ghost p5 = timers.pending();
        proof {
            let o = old(self);
            lemma_keeps_trans(p0, p1, p2, opt_set(o.timer_a), opt_set(o.timer_b));
            lemma_keeps_trans(p0, p2, p3, opt_set(o.timer_a).union(opt_set(o.timer_b)), opt_set(o.timer_d));
            lemma_keeps_trans(
                p0,
                p3,
                p4,
                opt_set(o.timer_a).union(opt_set(o.timer_b)).union(opt_set(o.timer_d)),
                opt_set(o.timer_k),
            );
            lemma_keeps_trans(
                p0,
                p4,
                p5,
                opt_set(o.timer_a).union(opt_set(o.timer_b)).union(opt_set(o.timer_d)).union(
                    opt_set(o.timer_k),
                ),
                opt_set(o.timer_g),
            );
            lemma_only_fresh_trans(p0, p1, p2, u64::MAX, u64::MAX);
            lemma_only_fresh_trans(p0, p2, p3, u64::MAX, u64::MAX);
            lemma_only_fresh_trans(p0, p3, p4, u64::MAX, u64::MAX);
            lemma_only_fresh_trans(p0, p4, p5, u64::MAX, u64::MAX);
            if let Some(id) = o.timer_a {
                assert(o.timer_ids().contains(id));
                lemma_absent_stays(p1, p2, u64::MAX, id);
                lemma_absent_stays(p2, p3, u64::MAX, id);
                lemma_absent_stays(p3, p4, u64::MAX, id);
                lemma_absent_stays(p4, p5, u64::MAX, id);
            }
            if let Some(id) = o.timer_b {
                assert(o.timer_ids().contains(id));
                lemma_absent_stays(p2, p3, u64::MAX, id);
                lemma_absent_stays(p3, p4, u64::MAX, id);
                lemma_absent_stays(p4, p5, u64::MAX, id);
            }
            if let Some(id) = o.timer_d {
                assert(o.timer_ids().contains(id));
                lemma_absent_stays(p3, p4, u64::MAX, id);
                lemma_absent_stays(p4, p5, u64::MAX, id);
            }
            if let Some(id) = o.timer_k {
                assert(o.timer_ids().contains(id));
                lemma_absent_stays(p4, p5, u64::MAX, id);
            }
        }
    }
}


/// A non-INVITE server transaction under way that ends with a final
/// response (what `on_responded` ensures when it enters Terminated) leaves
/// that response with the endpoint as the finished transaction's answer, so
/// that a retransmission of the request is answered with it (see
/// `EndpointInner::on_received_message`), and is no longer live.
pub proof fn lemma_final_response_kept_for_retransmissions(
    o: Transaction,
    n: Transaction,
    oe: EndpointInner,
    ne: EndpointInner,
    response: Response,
    r: Result<TransactionState, Error>,
)
    requires
        o.transaction_type == TransactionType::ServerNonInvite,
        !not_started(o.state) && o.state != TransactionState::Terminated,
        !o.is_cleaned_up,
        transition_effect(Transaction { last_response: Some(response), ..o }, n, oe, ne, TransactionState::Terminated, r),
    ensures
        ne.finished_transactions.get(o.key@) == Some(Some(SipMessage::Response(response))),
        !ne.transactions.has(o.key@),
        n.state == TransactionState::Terminated,
{
}

/// A client INVITE transaction under way that sends its ACK (what
/// `on_ack_sent` ensures) leaves the ACK with the endpoint as the finished
/// transaction's answer to a retransmitted final response, and is no longer
/// live.
pub proof fn lemma_ack_kept_for_retransmissions(
    o: Transaction,
    n: Transaction,
    oe: EndpointInner,
    ne: EndpointInner,
    ack: Request,
    r: Result<TransactionState, Error>,
)
    requires
        o.transaction_type == TransactionType::ClientInvite,
        !not_started(o.state) && o.state != TransactionState::Terminated,
        !o.is_cleaned_up,
        transition_effect(Transaction { last_ack: Some(ack), ..o }, n, oe, ne, TransactionState::Terminated, r),
    ensures
        ne.finished_transactions.get(o.key@) == Some(Some(SipMessage::Request(ack))),
        !ne.transactions.has(o.key@),
        n.state == TransactionState::Terminated,
{
}

/// The next retransmission interval: twice the last one, at most `cap`.
pub open spec fn backoff(d: u64, cap: u64) -> u64 {
    let doubled: int = if 2 * d > u64::MAX { u64::MAX as int } else { 2 * d };
    if doubled < cap { doubled as u64 } else { cap }
}

/// Twice `d`, at most `cap`.
pub fn next_interval(d: u64, cap: u64) -> (r: u64)
    ensures
        r == backoff(d, cap),
{
    let doubled = if d > u64::MAX / 2 { u64::MAX } else { d * 2 };
    if doubled < cap { doubled } else { cap }
}

/// The transaction with its connection filled in from `connection` when it
/// had none.
pub open spec fn with_connection(o: Transaction, connection: Option<SipConnection>) -> Transaction {
    if o.connection is None {
        Transaction { connection: connection, ..o }
    } else {
        o
    }
}

impl Transaction {
    /// What a server transaction does with a request that reached it. A
    /// transaction without a connection takes the one the request came on.
    /// In Calling it answers 100 Trying (which the caller sends through
    /// `prepare_respond` and `on_responded`) and passes the request on; in
    /// Trying or Proceeding it sends its last response again when that is a
    /// response it may send from its state, and passes the request on when it
    /// has not responded yet; in Completed an ACK moves it to Confirmed and is
    /// passed on. Everything else, and every request to a client transaction,
    /// is ignored.
    pub fn on_received_request(
        &mut self,
        req: Request,
        connection: Option<SipConnection>,
        ep: &mut EndpointInner,
    ) -> (r: RequestStep)
        requires
            old(self).fits(*old(ep)),
        ensures
            final(ep).wf(),
            ({
                let o = *old(self);
                let c = with_connection(o, connection);
                if o.transaction_type.is_client() {
                    r is Ignore && *final(self) == o && *final(ep) == *old(ep)
                } else {
                    match o.state {
                        TransactionState::Calling => {
                            &&& r matches RequestStep::RespondThenDeliver(resp, q) && is_reply(resp, req, TRYING, old(ep).user_agent@)
                                && crate::message::same_request(q, req)
                            &&& *final(self) == c && *final(ep) == *old(ep)
                        },
                        TransactionState::Trying | TransactionState::Proceeding => {
                            &&& *final(self) == c && *final(ep) == *old(ep)
                            &&& match o.last_response {
                                Some(lr) => if spec_can_transition(o.state, respond_target(o.transaction_type, lr.status_code))
                                    && c.connection is Some {
                                    r matches RequestStep::Retransmit(x) && crate::message::same_response(x, lr)
                                } else {
                                    r is Ignore
                                },
                                None => r matches RequestStep::Deliver(q) && crate::message::same_request(q, req),
                            }
                        },
                        TransactionState::Completed => if req.method == Method::Ack {
                            &&& r matches RequestStep::Deliver(q) && crate::message::same_request(q, req)
                            &&& exists|tr: Result<TransactionState, Error>|
                                transition_effect(c, *final(self), *old(ep), *final(ep), TransactionState::Confirmed, tr)
                        } else {
                            r is Ignore && *final(self) == c && *final(ep) == *old(ep)
                        },
                        _ => r is Ignore && *final(self) == c && *final(ep) == *old(ep),
                    }
                }
            }),
    {
        match self.transaction_type {
            TransactionType::ClientInvite | TransactionType::ClientNonInvite => return RequestStep::Ignore,
            _ => {},
        }
        if self.connection.is_none() {
            self.connection = connection;
        }
        assert(self.timer_ids() =~= old(self).timer_ids());
        match self.state {
            TransactionState::Calling => {
                let response = ep.make_response(&req, TRYING, None);
                RequestStep::RespondThenDeliver(response, req)
            },
            TransactionState::Trying | TransactionState::Proceeding => {
                match &self.last_response {
                    Some(last) => {
                        match self.prepare_respond(last) {
                            Ok(_) => RequestStep::Retransmit(last.duplicate()),
                            Err(_) => RequestStep::Ignore,
                        }
                    },
                    None => RequestStep::Deliver(req),
                }
            },
            TransactionState::Completed => {
                if req.method == Method::Ack {
                    let tr = self.transition(TransactionState::Confirmed, ep);
                    RequestStep::Deliver(req)
                } else {
                    RequestStep::Ignore
                }
            },
            _ => RequestStep::Ignore,
        }
    }
}


impl Transaction {
    /// What the transaction does when `timer` fires. In Trying, timer A sends
    /// the original request again (when there is a connection) and restarts
    /// itself at twice its interval, at most T2; timer B, in Trying or
    /// Proceeding, tells the user that the request timed out with a 408. In
    /// Completed, timer G sends the last response again (when there is one and
    /// a connection) and restarts itself the same way, and timer D terminates
    /// the transaction; in Confirmed, timer K terminates it. Any other timer
    /// changes nothing.
    pub fn on_timer(&mut self, timer: TransactionTimer, ep: &mut EndpointInner) -> (r: TimerStep)
        requires
            old(self).fits(*old(ep)),
        ensures
            final(ep).wf(),
            ({
                let o = *old(self);
                let n = *final(self);
                let oe = *old(ep);
                let ne = *final(ep);
                let lo = oe.timers.next_id();
                let p = ne.timers.pending();
                let cap = oe.option.t2;
                let unchanged = r is Nothing && n == o && ne == oe;
                match (o.state, timer) {
                    (TransactionState::Trying, TransactionTimer::TimerA(k, d)) => {
                        &&& r matches TimerStep::Retransmit(m, t) && t == TransactionTimer::TimerA(k, backoff(d, cap))
                            && (m is Some <==> o.connection is Some)
                            && (m matches Some(x) ==> x matches SipMessage::Request(q) && crate::message::same_request(q, o.original))
                        &&& n == (Transaction { timer_a: n.timer_a, ..o })
                        &&& replaced(o.timer_a, n.timer_a, lo, p, TransactionTimer::TimerA(k, backoff(d, cap)), backoff(d, cap))
                        &&& only_timers_changed(oe, ne)
                        &&& keeps(oe.timers.pending(), p, o.timer_ids())
                        &&& only_fresh(oe.timers.pending(), p, lo)
                        &&& ne.timers.next_id() == lo + 1
                    },
                    (TransactionState::Trying, TransactionTimer::TimerB(_))
                    | (TransactionState::Proceeding, TransactionTimer::TimerB(_)) => {
                        &&& r matches TimerStep::InformTimeout(resp) && is_reply(resp, o.original, REQUEST_TIMEOUT, oe.user_agent@)
                        &&& n == o && ne == oe
                    },
                    (TransactionState::Completed, TransactionTimer::TimerG(k, d)) => {
                        &&& r matches TimerStep::Retransmit(m, t) && t == TransactionTimer::TimerG(k, backoff(d, cap))
                            && (m is Some <==> (o.connection is Some && o.last_response is Some))
                            && (m matches Some(x) ==> x matches SipMessage::Response(q) && crate::message::same_response(q, o.last_response->0))
                        &&& n == (Transaction { timer_g: n.timer_g, ..o })
                        &&& replaced(o.timer_g, n.timer_g, lo, p, TransactionTimer::TimerG(k, backoff(d, cap)), backoff(d, cap))
                        &&& only_timers_changed(oe, ne)
                        &&& keeps(oe.timers.pending(), p, o.timer_ids())
                        &&& only_fresh(oe.timers.pending(), p, lo)
                        &&& ne.timers.next_id() == lo + 1
                    },
                    (TransactionState::Completed, TransactionTimer::TimerD(_))
                    | (TransactionState::Confirmed, TransactionTimer::TimerK(_)) => {
                        r matches TimerStep::Terminated(tr) && transition_effect(o, n, oe, ne, TransactionState::Terminated, tr)
                    },
                    _ => unchanged,
                }
            }),
    {
        let ghost o = *self;
        match self.state {
            TransactionState::Trying => {
                match &timer {
                    TransactionTimer::TimerA(key, duration) => {
                        let message = match self.connection {
                            Some(_) => Some(SipMessage::Request(self.original.duplicate())),
                            None => None,
                        };
                        let next = next_interval(*duration, ep.option.t2);
                        let restarted = TransactionTimer::TimerA(key.duplicate(), next);
                        proof {
                            if let Some(id) = o.timer_a {
                                assert(o.timer_ids().contains(id));
                            }
                        }
                        rearm(&mut self.timer_a, &mut ep.timers, next, restarted.duplicate());
                        proof {
                            lemma_keeps_weaken(old(ep).timers.pending(), ep.timers.pending(), opt_set(o.timer_a), o.timer_ids());
                        }
                        TimerStep::Retransmit(message, restarted)
                    },
                    TransactionTimer::TimerB(_) => {
                        TimerStep::InformTimeout(ep.make_response(&self.original, REQUEST_TIMEOUT, None))
                    },
                    _ => TimerStep::Nothing,
                }
            },
            TransactionState::Proceeding => {
                match &timer {
                    TransactionTimer::TimerB(_) => {
                        TimerStep::InformTimeout(ep.make_response(&self.original, REQUEST_TIMEOUT, None))
                    },
                    _ => TimerStep::Nothing,
                }
            },
            TransactionState::Completed => {
                match &timer {
                    TransactionTimer::TimerG(key, duration) => {
                        let message = match (&self.last_response, self.connection) {
                            (Some(last), Some(_)) => Some(SipMessage::Response(last.duplicate())),
                            _ => None,
                        };
                        let next = next_interval(*duration, ep.option.t2);
                        let restarted = TransactionTimer::TimerG(key.duplicate(), next);
                        proof {
                            if let Some(id) = o.timer_g {
                                assert(o.timer_ids().contains(id));
                            }
                        }
                        rearm(&mut self.timer_g, &mut ep.timers, next, restarted.duplicate());
                        proof {
                            lemma_keeps_weaken(old(ep).timers.pending(), ep.timers.pending(), opt_set(o.timer_g), o.timer_ids());
                        }
                        TimerStep::Retransmit(message, restarted)
                    },
                    TransactionTimer::TimerD(_) => TimerStep::Terminated(self.transition(TransactionState::Terminated, ep)),
                    _ => TimerStep::Nothing,
                }
            },
            TransactionState::Confirmed => {
                match &timer {
                    TransactionTimer::TimerK(_) => TimerStep::Terminated(self.transition(TransactionState::Terminated, ep)),
                    _ => TimerStep::Nothing,
                }
            },
            _ => TimerStep::Nothing,
        }
    }
}

} // verus!
