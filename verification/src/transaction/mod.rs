//! The transaction layer: transaction states, types and timers, the timer
//! queue, transaction keys, and the identifiers the layer generates.
pub mod ack;
pub mod endpoint;
pub mod key;
pub mod message;
pub mod timer;
pub mod transaction;
pub mod types;

use crate::text::{decimal, decimal_string};
use key::TransactionKey;
use rand::Rng;
use vstd::prelude::*;

verus! {

/// Length of a generated To tag.
pub const TO_TAG_LEN: usize = 8;
/// Length of the random part of a generated Via branch.
pub const BRANCH_LEN: usize = 12;
/// Length of a generated client nonce.
pub const CNONCE_LEN: usize = 8;
/// Length of the random part of a generated Call-ID.
pub const CALL_ID_LEN: usize = 22;

/// The state of a transaction (RFC 3261, section 17).
///
/// A client transaction starts in Nothing and a server transaction in
/// Trying; from there they go Trying, Proceeding, Completed, Terminated, and
/// INVITE transactions may pass through Confirmed before Terminated.
#[derive(Debug, Clone, Copy, PartialEq, Eq, Structural)]
pub enum TransactionState {
    Nothing,
    Calling,
    Trying,
    Proceeding,
    Completed,
    Confirmed,
    Terminated,
}

impl TransactionState {
    pub open spec fn spec_name(self) -> Seq<char> {
        match self {
            TransactionState::Nothing => "Nothing"@,
            TransactionState::Calling => "Calling"@,
            TransactionState::Trying => "Trying"@,
            TransactionState::Proceeding => "Proceeding"@,
            TransactionState::Completed => "Completed"@,
            TransactionState::Confirmed => "Confirmed"@,
            TransactionState::Terminated => "Terminated"@,
        }
    }

    /// The state's name.
    pub fn to_string(&self) -> (s: String)
        ensures
            s@ == self.spec_name(),
    {
        match self {
            TransactionState::Nothing => String::from_str("Nothing"),
            TransactionState::Calling => String::from_str("Calling"),
            TransactionState::Trying => String::from_str("Trying"),
            TransactionState::Proceeding => String::from_str("Proceeding"),
            TransactionState::Completed => String::from_str("Completed"),
            TransactionState::Confirmed => String::from_str("Confirmed"),
            TransactionState::Terminated => String::from_str("Terminated"),
        }
    }
}

/// The four kinds of transaction of RFC 3261.
#[derive(Debug, Clone, Copy, PartialEq, Eq, Structural)]
pub enum TransactionType {
    ClientInvite,
    ClientNonInvite,
    ServerInvite,
    ServerNonInvite,
}

impl TransactionType {
    pub open spec fn spec_name(self) -> Seq<char> {
        match self {
            TransactionType::ClientInvite => "ClientInvite"@,
            TransactionType::ClientNonInvite => "ClientNonInvite"@,
            TransactionType::ServerInvite => "ServerInvite"@,
            TransactionType::ServerNonInvite => "ServerNonInvite"@,
        }
    }

    /// The type's name.
    pub fn to_string(&self) -> (s: String)
        ensures
            s@ == self.spec_name(),
    {
        match self {
            TransactionType::ClientInvite => String::from_str("ClientInvite"),
            TransactionType::ClientNonInvite => String::from_str("ClientNonInvite"),
            TransactionType::ServerInvite => String::from_str("ServerInvite"),
            TransactionType::ServerNonInvite => String::from_str("ServerNonInvite"),
        }
    }

    pub open spec fn is_client(self) -> bool {
        self == TransactionType::ClientInvite || self == TransactionType::ClientNonInvite
    }
}

/// A transaction timer, for the transaction whose key it holds. Timers A and
/// G carry the interval they were started with, in milliseconds.
#[derive(Debug, Clone, PartialEq, Eq)]
pub enum TransactionTimer {
    TimerA(TransactionKey, u64),
    TimerB(TransactionKey),
    TimerC(TransactionKey),
    TimerD(TransactionKey),
    TimerK(TransactionKey),
    TimerG(TransactionKey, u64),
    TimerCleanup(TransactionKey),
}

impl TransactionTimer {
    pub open spec fn spec_key(self) -> TransactionKey {
        match self {
            TransactionTimer::TimerA(key, _) => key,
            TransactionTimer::TimerB(key) => key,
            TransactionTimer::TimerC(key) => key,
            TransactionTimer::TimerD(key) => key,
            TransactionTimer::TimerG(key, _) => key,
            TransactionTimer::TimerK(key) => key,
            TransactionTimer::TimerCleanup(key) => key,
        }
    }

    /// The key of the transaction the timer is for.
    pub fn key(&self) -> (k: &TransactionKey)
        ensures
            *k == self.spec_key(),
    {
        match self {
            TransactionTimer::TimerA(key, _) => key,
            TransactionTimer::TimerB(key) => key,
            TransactionTimer::TimerC(key) => key,
            TransactionTimer::TimerD(key) => key,
            TransactionTimer::TimerG(key, _) => key,
            TransactionTimer::TimerK(key) => key,
            TransactionTimer::TimerCleanup(key) => key,
        }
    }

    pub open spec fn spec_text(self) -> Seq<char> {
        match self {
            TransactionTimer::TimerA(key, d) => "TimerA: "@ + key@ + " "@ + decimal(d as nat),
            TransactionTimer::TimerB(key) => "TimerB: "@ + key@,
            TransactionTimer::TimerC(key) => "TimerC: "@ + key@,
            TransactionTimer::TimerD(key) => "TimerD: "@ + key@,
            TransactionTimer::TimerG(key, d) => "TimerG: "@ + key@ + " "@ + decimal(d as nat),
            TransactionTimer::TimerK(key) => "TimerK: "@ + key@,
            TransactionTimer::TimerCleanup(key) => "TimerCleanup: "@ + key@,
        }
    }

    /// The timer as text: its name, the key and, for A and G, the interval.
    pub fn to_string(&self) -> (s: String)
        ensures
            s@ == self.spec_text(),
    {
        let (name, key, interval): (&str, &TransactionKey, Option<u64>) = match self {
            TransactionTimer::TimerA(key, d) => ("TimerA: ", key, Some(*d)),
            TransactionTimer::TimerB(key) => ("TimerB: ", key, None),
            TransactionTimer::TimerC(key) => ("TimerC: ", key, None),
            TransactionTimer::TimerD(key) => ("TimerD: ", key, None),
            TransactionTimer::TimerG(key, d) => ("TimerG: ", key, Some(*d)),
            TransactionTimer::TimerK(key) => ("TimerK: ", key, None),
            TransactionTimer::TimerCleanup(key) => ("TimerCleanup: ", key, None),
        };
        let mut s = String::from_str(name);
        s.append(key.as_str());
        if let Some(d) = interval {
            s.append(" ");
            let n = decimal_string(d);
            s.append(n.as_str());
        }
        s
    }

    /// A copy of the timer.
    pub fn duplicate(&self) -> (t: TransactionTimer)
        ensures
            t == *self,
    {
        match self {
            TransactionTimer::TimerA(key, d) => TransactionTimer::TimerA(key.duplicate(), *d),
            TransactionTimer::TimerB(key) => TransactionTimer::TimerB(key.duplicate()),
            TransactionTimer::TimerC(key) => TransactionTimer::TimerC(key.duplicate()),
            TransactionTimer::TimerD(key) => TransactionTimer::TimerD(key.duplicate()),
            TransactionTimer::TimerG(key, d) => TransactionTimer::TimerG(key.duplicate(), *d),
            TransactionTimer::TimerK(key) => TransactionTimer::TimerK(key.duplicate()),
            TransactionTimer::TimerCleanup(key) => TransactionTimer::TimerCleanup(key.duplicate()),
        }
    }
}

/// An ASCII letter or digit.
pub open spec fn is_alphanumeric(c: char) -> bool {
    ('0' <= c && c <= '9') || ('a' <= c && c <= 'z') || ('A' <= c && c <= 'Z')
}

/// `count` random ASCII letters and digits, drawn with `rand::rng()` from
/// `rand::distr::Alphanumeric`. What is stated: the length and that every
/// character is an ASCII letter or digit; which ones come out is chance.
#[verifier::external_body]
pub fn random_text(count: usize) -> (s: String)
    ensures
        s@.len() == count,
        forall|i: int| 0 <= i < s@.len() ==> is_alphanumeric(#[trigger] s@[i]),
{
    rand::rng().sample_iter(rand::distr::Alphanumeric).take(count).map(char::from).collect::<String>()
}

/// A fresh Via branch parameter, as it is displayed: `;branch=z9hG4bK` and
/// twelve random letters and digits.
pub fn make_via_branch() -> (p: String)
    ensures
        p@.len() == 27,
        p@.subrange(0, 15) == ";branch=z9hG4bK"@,
        forall|i: int| 15 <= i < 27 ==> is_alphanumeric(#[trigger] p@[i]),
{
    let mut p = String::from_str(";branch=z9hG4bK");
    let r = random_text(BRANCH_LEN);
    proof {
        reveal_strlit(";branch=z9hG4bK");
    }
    p.append(r.as_str());
    proof {
        assert(p@.subrange(0, 15) =~= ";branch=z9hG4bK"@);
        assert forall|i: int| 15 <= i < 27 implies is_alphanumeric(#[trigger] p@[i]) by {
            assert(p@[i] == r@[i - 15]);
        }
    }
    p
}

/// A fresh Call-ID: twenty-two random letters and digits, `@`, and the given
/// domain or `restsend.com`.
pub fn make_call_id(domain: Option<&str>) -> (c: String)
    ensures
        c@.len() >= 23,
        c@[22] == '@',
        forall|i: int| 0 <= i < 22 ==> is_alphanumeric(#[trigger] c@[i]),
        domain matches Some(d) ==> c@.skip(23) == d@,
        domain is None ==> c@.skip(23) == "restsend.com"@,
{
    let mut c = random_text(CALL_ID_LEN);
    let ghost r = c@;
    c.append("@");
    proof {
        reveal_strlit("@");
        reveal_strlit("restsend.com");
    }
    let ghost with_at = c@;
    match domain {
        Some(d) => c.append(d),
        None => c.append("restsend.com"),
    }
    proof {
        assert(c@[22] == with_at[22]);
        assert forall|i: int| 0 <= i < 22 implies is_alphanumeric(#[trigger] c@[i]) by {
            assert(c@[i] == r[i]);
        }
        match domain {
            Some(d) => assert(c@.skip(23) =~= d@),
            None => assert(c@.skip(23) =~= "restsend.com"@),
        }
    }
    c
}

/// A fresh tag: eight random letters and digits.
pub fn make_tag() -> (t: String)
    ensures
        t@.len() == TO_TAG_LEN,
        forall|i: int| 0 <= i < t@.len() ==> is_alphanumeric(#[trigger] t@[i]),
{
    random_text(TO_TAG_LEN)
}

} // verus!
