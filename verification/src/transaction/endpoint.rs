//! The endpoint core: the transaction timers, the table of live transactions,
//! the table of finished transactions kept for retransmissions, and the
//! decisions taken on each message that arrives from the transport layer.
use super::key::{fault_error_matches, keyed_method, spec_key_of, KeyFault, TransactionKey, TransactionRole};
use super::message::is_reply;
use super::timer::{timer_added, Timer, TimerEntry};
use super::transaction::Transaction;
use super::{make_via_branch, TransactionTimer};
use crate::error::Error;
use crate::message::{same_message, Method, Response, SipAddr, SipConnection, SipMessage, SERVICE_UNAVAILABLE};
use vstd::prelude::*;

verus! {

/// The timer values of RFC 3261 in milliseconds, and the endpoint's options.
pub struct EndpointOption {
    /// Round-trip estimate (T1).
    pub t1: u64,
    /// Longest retransmission interval (T2).
    pub t2: u64,
    /// Longest time a message stays in the network (T4).
    pub t4: u64,
    /// Transaction timeout, 64 times T1.
    pub t1x64: u64,
    pub ignore_out_of_dialog_option: bool,
    /// The domain of generated Call-IDs, when not the default.
    pub callid_suffix: Option<String>,
    /// The interval of in-dialog OPTIONS keep-alives, when they are sent.
    pub dialog_keepalive_duration: Option<u64>,
}

impl Default for EndpointOption {
    /// T1 500 ms, T2 4 s, T4 4 s, 64*T1 32 s; out-of-dialog OPTIONS ignored;
    /// default Call-ID domain; no keep-alive.
    fn default() -> (o: Self)
        ensures
            o.t1 == 500,
            o.t2 == 4000,
            o.t4 == 4000,
            o.t1x64 == 32000,
            o.ignore_out_of_dialog_option,
            o.callid_suffix is None,
            o.dialog_keepalive_duration is None,
    {
        EndpointOption {
            t1: 500,
            t2: 4000,
            t4: 4000,
            t1x64: 64 * 500,
            ignore_out_of_dialog_option: true,
            callid_suffix: None,
            dialog_keepalive_duration: None,
        }
    }
}

/// A table from transaction keys to values, with at most one entry per key.
pub struct KeyTable<V> {
    entries: Vec<(TransactionKey, V)>,
}

impl<V> KeyTable<V> {
    pub closed spec fn entries(&self) -> Seq<(TransactionKey, V)> {
        self.entries@
    }

    /// At most one entry per key.
    pub open spec fn wf(&self) -> bool {
        forall|i: int, j: int|
            0 <= i < self.entries().len() && 0 <= j < self.entries().len() && i != j
                ==> (#[trigger] self.entries()[i]).0@ != (#[trigger] self.entries()[j]).0@
    }

    /// Some entry has the key `k`.
    pub open spec fn has(&self, k: Seq<char>) -> bool {
        exists|i: int| 0 <= i < self.entries().len() && (#[trigger] self.entries()[i]).0@ == k
    }

    /// The value stored under `k`, if any.
    pub open spec fn get(&self, k: Seq<char>) -> Option<V> {
        if self.has(k) {
            Some(
                self.entries()[choose|i: int|
                    0 <= i < self.entries().len() && (#[trigger] self.entries()[i]).0@ == k].1,
            )
        } else {
            None
        }
    }

    /// An empty table.
    pub fn new() -> (t: Self)
        ensures
            t.wf(),
            forall|k: Seq<char>| !t.has(k),
    {
        KeyTable { entries: Vec::new() }
    }

    /// The number of entries.
    pub fn len(&self) -> (n: usize)
        ensures
            n == self.entries().len(),
    {
        self.entries.len()
    }

    /// The position of the entry for `key`, if any.
    fn position(&self, key: &TransactionKey) -> (r: Option<usize>)
        requires
            self.wf(),
        ensures
            r is None <==> !self.has(key@),
            r matches Some(i) ==> i < self.entries().len() && self.entries()[i as int].0@ == key@
                && self.get(key@) == Some(self.entries()[i as int].1),
    {
        let mut i: usize = 0;
        while i < self.entries.len()
            invariant
                self.wf(),
                i <= self.entries@.len(),
                forall|j: int| 0 <= j < i ==> (#[trigger] self.entries@[j]).0@ != key@,
            decreases self.entries@.len() - i,
        {
            if self.entries[i].0.same(key) {
                proof {
                    assert(self.entries()[i as int].0@ == key@);
                    assert(self.has(key@));
                    let j = choose|j: int| 0 <= j < self.entries().len() && (#[trigger] self.entries()[j]).0@ == key@;
                    if j != i {
                        assert(self.entries()[i as int].0@ != self.entries()[j].0@);
                    }
                }
                return Some(i);
            }
            i = i + 1;
        }
        None
    }

    /// Whether the table has an entry for `key`.
    pub fn contains(&self, key: &TransactionKey) -> (r: bool)
        requires
            self.wf(),
        ensures
            r == self.has(key@),
    {
        self.position(key).is_some()
    }

    /// The value stored under `key`, if any.
    pub fn lookup(&self, key: &TransactionKey) -> (r: Option<&V>)
        requires
            self.wf(),
        ensures
            r is None <==> self.get(key@) is None,
            r matches Some(v) ==> self.get(key@) == Some(*v),
    {
        match self.position(key) {
            Some(i) => Some(&self.entries[i].1),
            None => None,
        }
    }

    /// Stores `value` under `key`, replacing any value stored there.
    pub fn insert(&mut self, key: TransactionKey, value: V)
        requires
            old(self).wf(),
        ensures
            final(self).wf(),
            forall|k: Seq<char>| #[trigger]
                final(self).get(k) == if k == key@ {
                    Some(value)
                } else {
                    old(self).get(k)
                },
            forall|k: Seq<char>| #[trigger] final(self).has(k) == (k == key@ || old(self).has(k)),
    {
        let ghost kv = key@;
        self.remove(&key);
        let ghost mt: KeyTable<V> = *self;
        let ghost mid = self.entries@;
        proof {
            assert forall|i: int| 0 <= i < mid.len() implies (#[trigger] mid[i]).0@ != kv by {
                if mid[i].0@ == kv {
                    assert(mt.has(kv));
                }
            }
        }
        self.entries.push((key, value));
        proof {
            let s = self.entries@;
            assert(s.len() == mid.len() + 1);
            assert(s[s.len() - 1].0@ == kv);
            assert forall|i: int| 0 <= i < mid.len() implies (#[trigger] s[i]) == mid[i] by {}
            assert forall|i: int, j: int|
                0 <= i < s.len() && 0 <= j < s.len() && i != j implies (#[trigger] s[i]).0@
                != (#[trigger] s[j]).0@ by {
                if i < mid.len() && j < mid.len() {
                    assert(s[i] == mid[i] && s[j] == mid[j]);
                    assert(mt.entries()[i] == mid[i] && mt.entries()[j] == mid[j]);
                } else if i < mid.len() {
                    assert(s[i] == mid[i]);
                    assert(mid[i].0@ != kv);
                } else {
                    assert(s[j] == mid[j]);
                    assert(mid[j].0@ != kv);
                }
            }
            assert forall|k: Seq<char>| #[trigger] self.has(k) implies (k == kv || old(self).has(k)) by {
                let i = choose|i: int| 0 <= i < s.len() && (#[trigger] s[i]).0@ == k;
                if i < mid.len() {
                    assert(s[i] == mid[i]);
                    assert(mt.entries()[i].0@ == k);
                    assert(mt.has(k));
                }
            }
            assert forall|k: Seq<char>| (k == kv || old(self).has(k)) implies #[trigger] self.has(k) by {
                if k == kv {
                    assert(self.entries()[s.len() - 1].0@ == kv);
                } else {
                    assert(mt.has(k));
                    let i = choose|i: int| 0 <= i < mt.entries().len() && (#[trigger] mt.entries()[i]).0@ == k;
                    assert(s[i] == mid[i]);
                    assert(self.entries()[i].0@ == k);
                }
            }
            assert forall|k: Seq<char>| #[trigger]
                self.get(k) == if k == kv {
                    Some(value)
                } else {
                    old(self).get(k)
                } by {
                if k == kv {
                    assert(s[s.len() - 1].0@ == kv);
                    assert(self.has(k));
                    let i = choose|i: int| 0 <= i < s.len() && (#[trigger] s[i]).0@ == k;
                    if i != s.len() - 1 {
                        assert(s[i].0@ != s[s.len() - 1].0@);
                    }
                } else if self.has(k) {
                    let i = choose|i: int| 0 <= i < s.len() && (#[trigger] s[i]).0@ == k;
                    assert(i < mid.len());
                    assert(s[i] == mid[i]);
                    assert(mt.entries()[i].0@ == k);
                    assert(mt.has(k));
                    let j = choose|j: int| 0 <= j < mid.len() && (#[trigger] mt.entries()[j]).0@ == k;
                    if i != j {
                        assert(mt.entries()[i].0@ != mt.entries()[j].0@);
                    }
                    assert(mt.get(k) == Some(mid[i].1));
                }
            }
        }
    }

    /// Removes the entry for `key` and returns its value, if there is one.
    pub fn remove(&mut self, key: &TransactionKey) -> (r: Option<V>)
        requires
            old(self).wf(),
        ensures
            final(self).wf(),
            r == old(self).get(key@),
            forall|k: Seq<char>| #[trigger]
                final(self).get(k) == if k == key@ {
                    None
                } else {
                    old(self).get(k)
                },
            forall|k: Seq<char>| #[trigger] final(self).has(k) == (k != key@ && old(self).has(k)),
            final(self).entries().len() <= old(self).entries().len(),
    {
        match self.position(key) {
            None => {
                proof {
                    assert forall|k: Seq<char>| #[trigger]
                        self.get(k) == if k == key@ {
                            None
                        } else {
                            old(self).get(k)
                        } by {}
                }
                None
            },
            Some(p) => {
                let ghost old_s = self.entries@;
                let (_, v) = self.entries.remove(p);
                proof {
                    let s = self.entries@;
                    assert forall|i: int, j: int|
                        0 <= i < s.len() && 0 <= j < s.len() && i != j implies (#[trigger] s[i]).0@
                        != (#[trigger] s[j]).0@ by {
                        let oi = if i < p { i } else { i + 1 };
                        let oj = if j < p { j } else { j + 1 };
                        assert(s[i] == old_s[oi] && s[j] == old_s[oj]);
                    }
                    assert forall|k: Seq<char>| #[trigger] self.has(k) == (k != key@ && old(self).has(k)) by {
                        if self.has(k) {
                            let i = choose|i: int| 0 <= i < s.len() && (#[trigger] s[i]).0@ == k;
                            let oi = if i < p { i } else { i + 1 };
                            assert(s[i] == old_s[oi]);
                            if k == key@ {
                                assert(old_s[oi].0@ == old_s[p as int].0@);
                            }
                        }
                        if k != key@ && old(self).has(k) {
                            let i = choose|i: int| 0 <= i < old_s.len() && (#[trigger] old_s[i]).0@ == k;
                            assert(i != p);
                            let ni = if i < p { i } else { i - 1 };
                            assert(s[ni] == old_s[i]);
                        }
                    }
                    assert forall|k: Seq<char>| #[trigger]
                        self.get(k) == if k == key@ {
                            None
                        } else {
                            old(self).get(k)
                        } by {
                        if k != key@ && self.has(k) {
                            let i = choose|i: int| 0 <= i < s.len() && (#[trigger] s[i]).0@ == k;
                            let oi = if i < p { i } else { i + 1 };
                            assert(s[i] == old_s[oi]);
                            let j = choose|j: int| 0 <= j < old_s.len() && (#[trigger] old_s[j]).0@ == k;
                            if oi != j {
                                assert(old_s[oi].0@ != old_s[j].0@);
                            }
                        }
                    }
                }
                Some(v)
            },
        }
    }
}

/// Where a message that arrived from the transport layer goes.
pub enum Incoming {
    /// Send the stored last message of a finished transaction back on the
    /// connection the message came on.
    Retransmit(SipMessage),
    /// Hand the message to the live transaction with this key.
    Forward(TransactionKey, SipMessage),
    /// A response that belongs to no transaction: drop it.
    Drop,
    /// No one takes new transactions: send this 503 response back, and fail.
    Reject(Response, Error),
    /// A new server transaction, to hand to the transaction user.
    NewTransaction(Transaction),
}

/// The time `d` milliseconds after `now`, or the largest time when that
/// overflows.
pub open spec fn due_at(now: u64, d: u64) -> u64 {
    if now + d <= u64::MAX {
        (now + d) as u64
    } else {
        u64::MAX
    }
}

/// How long a finished transaction keeps its last message: T4 for a
/// request, 64*T1 for a response.
pub open spec fn cleanup_delay(o: EndpointOption, m: SipMessage) -> u64 {
    if m is Request {
        o.t4
    } else {
        o.t1x64
    }
}

/// `new` is `old` with the entry `e` inserted at some position.
pub open spec fn inserted<T>(old: Seq<TimerEntry<T>>, new: Seq<TimerEntry<T>>, e: TimerEntry<T>) -> bool {
    exists|i: int| 0 <= i <= old.len() && new == #[trigger] old.insert(i, e)
}

/// The core of a SIP endpoint.
pub struct EndpointInner {
    pub allows: Option<Vec<Method>>,
    pub user_agent: String,
    pub timers: Timer<TransactionTimer>,
    pub finished_transactions: KeyTable<Option<SipMessage>>,
    pub transactions: KeyTable<()>,
    pub incoming_attached: bool,
    pub timer_interval: u64,
    pub option: EndpointOption,
    pub addrs: Vec<SipAddr>,
}

impl EndpointInner {
    /// The endpoint's invariant: the timer queue and both tables are well formed.
    pub open spec fn wf(&self) -> bool {
        &&& self.timers.wf()
        &&& self.finished_transactions.wf()
        &&& self.transactions.wf()
    }

    /// Whether a receiver of new transactions is attached.
    pub open spec fn has_incoming(&self) -> bool {
        self.incoming_attached
    }

    /// The transport addresses the endpoint listens on.
    pub open spec fn spec_addrs(&self) -> Seq<SipAddr> {
        self.addrs@
    }

    /// A new endpoint core with empty tables; the timer interval defaults to 20 ms.
    pub fn new(user_agent: String, timer_interval: Option<u64>, allows: Vec<Method>) -> (e: Self)
        ensures
            e.wf(),
            e.user_agent@ == user_agent@,
            e.allows == Some(allows),
            e.timer_interval == match timer_interval {
                Some(t) => t,
                None => 20,
            },
            !e.has_incoming(),
            e.spec_addrs().len() == 0,
            e.timers.pending().len() == 0,
            e.timers.next_id() == 1,
            forall|k: Seq<char>| !e.transactions.has(k) && !e.finished_transactions.has(k),
            e.option.t1 == 500 && e.option.t2 == 4000 && e.option.t4 == 4000 && e.option.t1x64 == 32000,
    {
        EndpointInner {
            allows: Some(allows),
            user_agent,
            timers: Timer::new(),
            finished_transactions: KeyTable::new(),
            transactions: KeyTable::new(),
            incoming_attached: false,
            timer_interval: match timer_interval {
                Some(t) => t,
                None => 20,
            },
            option: EndpointOption::default(),
            addrs: Vec::new(),
        }
    }

    /// Records whether a receiver of new transactions is attached.
    pub fn attach_incoming_sender(&mut self, attached: bool)
        ensures
            final(self).has_incoming() == attached,
            final(self).timers == old(self).timers,
            final(self).transactions == old(self).transactions,
            final(self).finished_transactions == old(self).finished_transactions,
            final(self).option == old(self).option,
            final(self).user_agent == old(self).user_agent,
            final(self).spec_addrs() == old(self).spec_addrs(),
    {
        self.incoming_attached = attached;
    }

    /// Sets the transport addresses the endpoint listens on.
    pub fn set_addrs(&mut self, addrs: Vec<SipAddr>)
        ensures
            final(self).spec_addrs() == addrs@,
            final(self).has_incoming() == old(self).has_incoming(),
            final(self).timers == old(self).timers,
            final(self).transactions == old(self).transactions,
            final(self).finished_transactions == old(self).finished_transactions,
            final(self).option == old(self).option,
            final(self).user_agent == old(self).user_agent,
    {
        self.addrs = addrs;
    }

    /// The transport addresses the endpoint listens on.
    pub fn get_addrs(&self) -> (r: &Vec<SipAddr>)
        ensures
            r@ == self.spec_addrs(),
    {
        &self.addrs
    }

    /// Registers a live transaction under `key`.
    pub fn attach_transaction(&mut self, key: &TransactionKey)
        requires
            old(self).wf(),
        ensures
            final(self).wf(),
            forall|k: Seq<char>| #[trigger]
                final(self).transactions.has(k) == (k == key@ || old(self).transactions.has(k)),
            final(self).finished_transactions == old(self).finished_transactions,
            final(self).timers == old(self).timers,
            *final(self) == (EndpointInner { transactions: final(self).transactions, ..*old(self) }),
    {
        self.transactions.insert(key.duplicate(), ());
    }

    /// Removes the live transaction `key`. When it leaves a last message, the
    /// message is kept as the finished transaction's answer to
    /// retransmissions, and a cleanup timer is started, due at `now` (in
    /// milliseconds) plus T4 for a request, plus 64*T1 for a response (at the
    /// largest time when that sum overflows).
    pub fn detach_transaction(&mut self, key: &TransactionKey, last_message: Option<SipMessage>, now: u64)
        requires
            old(self).wf(),
            old(self).timers.next_id() < u64::MAX,
        ensures
            final(self).wf(),
            forall|k: Seq<char>| #[trigger]
                final(self).transactions.has(k) == (k != key@ && old(self).transactions.has(k)),
            last_message is None ==> final(self).finished_transactions == old(self).finished_transactions
                && final(self).timers == old(self).timers,
            last_message matches Some(m) ==> {
                &&& forall|k: Seq<char>| #[trigger]
                    final(self).finished_transactions.get(k) == if k == key@ {
                        Some(Some(m))
                    } else {
                        old(self).finished_transactions.get(k)
                    }
                &&& final(self).timers.next_id() == old(self).timers.next_id() + 1
                &&& timer_added(
                    old(self).timers.pending(),
                    final(self).timers.pending(),
                    old(self).timers.next_id(),
                    TransactionTimer::TimerCleanup(*key),
                    if m is Request {
                        old(self).option.t4
                    } else {
                        old(self).option.t1x64
                    },
                )
                &&& inserted(
                    old(self).timers.pending(),
                    final(self).timers.pending(),
                    TimerEntry {
                        task_id: old(self).timers.next_id(),
                        execute_at: due_at(now, cleanup_delay(old(self).option, m)),
                        value: TransactionTimer::TimerCleanup(*key),
                    },
                )
            },
            *final(self) == (EndpointInner {
                timers: final(self).timers,
                transactions: final(self).transactions,
                finished_transactions: final(self).finished_transactions,
                ..*old(self)
            }),
    {
        self.transactions.remove(key);
        if let Some(msg) = last_message {
            let duration = if msg.is_request() {
                self.option.t4
            } else {
                self.option.t1x64
            };
            let at = if now <= u64::MAX - duration {
                now + duration
            } else {
                u64::MAX
            };
            let ghost old_pending = self.timers.pending();
            let ghost id = self.timers.next_id();
            self.timers.timeout_at(at, TransactionTimer::TimerCleanup(key.duplicate()));
            proof {
                assert(at >= duration);
                assert(at == due_at(now, duration));
                assert(inserted(
                    old_pending,
                    self.timers.pending(),
                    TimerEntry { task_id: id, execute_at: at, value: TransactionTimer::TimerCleanup(*key) },
                ));
            }
            self.finished_transactions.insert(key.duplicate(), Some(msg));
        }
    }
}


/// The key a message arriving from the transport layer is filed under: a
/// request under its server transaction, a response under its client
/// transaction.
pub open spec fn message_key(msg: SipMessage) -> Result<Seq<char>, KeyFault> {
    match msg {
        SipMessage::Request(req) => spec_key_of(
            req.headers@,
            TransactionRole::Server,
            Some(keyed_method(req.method, TransactionRole::Server)),
        ),
        SipMessage::Response(resp) => spec_key_of(resp.headers@, TransactionRole::Client, None),
    }
}

impl EndpointInner {
    /// Where a message from the transport layer goes. A finished transaction
    /// that kept a last message answers with it; a live transaction receives
    /// the message; a response of no transaction is dropped; a request of no
    /// transaction starts a server transaction, unless no one takes new
    /// transactions, in which case it is answered 503 and refused. Fails when
    /// the message has no transaction key.
    pub fn on_received_message(&mut self, msg: SipMessage, connection: SipConnection) -> (r: Result<Incoming, Error>)
        requires
            old(self).wf(),
        ensures
            final(self).wf(),
            r is Err <==> message_key(msg) is Err,
            r matches Err(e) ==> fault_error_matches(message_key(msg)->Err_0, e),
            message_key(msg) matches Ok(k) ==> {
                let o = *old(self);
                let n = *final(self);
                if o.finished_transactions.get(k) matches Some(Some(_)) {
                    r matches Ok(Incoming::Retransmit(x)) && same_message(x, o.finished_transactions.get(k)->0->0)
                        && n == o
                } else if o.transactions.has(k) {
                    r matches Ok(Incoming::Forward(key, x)) && key@ == k && x == msg && n == o
                } else if msg is Response {
                    r matches Ok(Incoming::Drop) && n == o
                } else if !o.incoming_attached {
                    &&& r matches Ok(Incoming::Reject(resp, e)) && is_reply(resp, msg->Request_0, SERVICE_UNAVAILABLE, o.user_agent@)
                        && e is TransactionError && e->TransactionError_1@ == k
                    &&& n == o
                } else {
                    &&& r matches Ok(Incoming::NewTransaction(tx)) && tx.key@ == k && tx.original == msg->Request_0
                        && tx.connection == Some(connection) && tx.state == super::TransactionState::Trying
                        && tx.transaction_type == if msg->Request_0.method == Method::Invite {
                            super::TransactionType::ServerInvite
                        } else {
                            super::TransactionType::ServerNonInvite
                        }
                        && tx.timer_ids() =~= Set::<u64>::empty()
                        && tx.last_response is None && tx.last_ack is None
                        && !tx.cleaned_up() && !tx.terminate_signalled()
                    &&& forall|x: Seq<char>| #[trigger] n.transactions.has(x) == (x == k || o.transactions.has(x))
                    &&& n == (EndpointInner { transactions: n.transactions, ..o })
                }
            },
    {
        let key = match &msg {
            SipMessage::Request(req) => TransactionKey::from_request(req, TransactionRole::Server)?,
            SipMessage::Response(resp) => TransactionKey::from_response(resp, TransactionRole::Client)?,
        };
        match self.finished_transactions.lookup(&key) {
            Some(Some(last)) => return Ok(Incoming::Retransmit(last.duplicate())),
            _ => {},
        }
        if self.transactions.contains(&key) {
            return Ok(Incoming::Forward(key, msg));
        }
        let request = match msg {
            SipMessage::Request(req) => req,
            SipMessage::Response(_) => return Ok(Incoming::Drop),
        };
        if !self.incoming_attached {
            let resp = self.make_response(&request, SERVICE_UNAVAILABLE, None);
            return Ok(
                Incoming::Reject(
                    resp,
                    Error::TransactionError(String::from_str("incoming_sender not set"), key),
                ),
            );
        }
        let tx = Transaction::new_server(key, request, self, Some(connection));
        proof {
            assert(*self == (EndpointInner { transactions: self.transactions, ..*old(self) }));
        }
        Ok(Incoming::NewTransaction(tx))
    }

    /// What a fired timer leads to. A cleanup timer removes its key from both
    /// tables and goes no further; any other timer goes to its transaction
    /// (returned) when that transaction is live, and is dropped otherwise.
    pub fn on_timer_fired(&mut self, timer: TransactionTimer) -> (r: Option<TransactionTimer>)
        requires
            old(self).wf(),
        ensures
            final(self).wf(),
            match timer {
                TransactionTimer::TimerCleanup(k) => {
                    &&& r is None
                    &&& forall|x: Seq<char>| #[trigger] final(self).transactions.has(x) == (x != k@ && old(self).transactions.has(x))
                    &&& forall|x: Seq<char>| #[trigger] final(self).finished_transactions.has(x) == (x != k@
                        && old(self).finished_transactions.has(x))
                    &&& forall|x: Seq<char>| x != k@ ==> #[trigger] final(self).finished_transactions.get(x)
                        == old(self).finished_transactions.get(x)
                    &&& *final(self) == (EndpointInner {
                        transactions: final(self).transactions,
                        finished_transactions: final(self).finished_transactions,
                        ..*old(self)
                    })
                },
                _ => {
                    &&& *final(self) == *old(self)
                    &&& r is Some <==> old(self).transactions.has(timer.spec_key()@)
                    &&& r matches Some(t) ==> t == timer
                },
            },
    {
        match &timer {
            TransactionTimer::TimerCleanup(key) => {
                self.transactions.remove(key);
                self.finished_transactions.remove(key);
                return None;
            },
            _ => {},
        }
        if self.transactions.contains(timer.key()) {
            Some(timer)
        } else {
            None
        }
    }
}

} // verus!
