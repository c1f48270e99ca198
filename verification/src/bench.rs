//! The decisions of the benchmark user agent: the server address it calls,
//! which calls it answers, and the call rate it reports.
use crate::error::Error;
use crate::header_values::{spec_uri_parts, uri_parts};
use crate::text::{chars_of, str_eq, string_from};
use crate::uri::{UriParts, UriView};
use vstd::prelude::*;

verus! {

/// The text a server address is read from: the address itself when it
/// starts with `sip:`, and `sip:` followed by it otherwise.
pub open spec fn server_uri_text(server: Seq<char>) -> Seq<char> {
    if server.len() >= 4 && server.take(4) == "sip:"@ {
        server
    } else {
        "sip:"@ + server
    }
}

/// The URI with the default SIP port 5060 when it names no port.
pub open spec fn with_default_port(u: UriView) -> UriView {
    if u.has_port {
        u
    } else {
        UriView { base: u.base + ":5060"@, host_port: u.host_port + ":5060"@, has_port: true, ..u }
    }
}

/// The URI of the server to call: `sip:` is put in front of the address
/// when it lacks it, and port 5060 is used when the URI names no port.
/// Fails when the text does not read as a URI.
pub fn parse_server_uri(server: &str) -> (r: Result<UriParts, Error>)
    ensures
        r is Ok <==> spec_uri_parts(server_uri_text(server@)) is Some,
        r matches Ok(u) ==> u@ == with_default_port(spec_uri_parts(server_uri_text(server@))->0),
        r matches Err(e) ==> e is Error && e->Error_0@.take(20) == "Invalid server URI: "@,
{
    proof {
        reveal_strlit("sip:");
        reveal_strlit(":5060");
        reveal_strlit("Invalid server URI: ");
    }
    let cs = chars_of(server);
    let prefixed = cs.len() >= 4 && str_eq(string_from(&cs, 0, 4).as_str(), "sip:");
    proof {
        if cs.len() >= 4 {
            assert(cs@.subrange(0, 4) =~= server@.take(4));
        }
    }
    let text = if prefixed {
        server.to_string()
    } else {
        let mut t = String::from_str("sip:");
        t.append(server);
        t
    };
    assert(text@ == server_uri_text(server@));
    let mut u = match uri_parts(text.as_str()) {
        Ok(u) => u,
        Err(e) => {
            let mut m = String::from_str("Invalid server URI: ");
            m.append(e.as_str());
            assert(m@.take(20) =~= "Invalid server URI: "@);
            return Err(Error::Error(m));
        },
    };
    if !u.has_port {
        u.base.append(":5060");
        u.host_port.append(":5060");
        u.has_port = true;
    }
    Ok(u)
}

/// Whether a call is answered: a roll from 0 to 99 below the answer
/// probability in percent.
pub open spec fn answers_roll(roll: u64, answer_prob: u8) -> bool {
    roll < answer_prob
}

/// A number from `lo` to `hi` drawn with `rand::random_range(lo..=hi)`. What
/// is stated: the range; which number comes out is chance.
#[verifier::external_body]
fn random_between(lo: u64, hi: u64) -> (r: u64)
    requires
        lo <= hi,
    ensures
        lo <= r <= hi,
{
    rand::random_range(lo..=hi)
}

/// Whether an incoming call is answered, with the given probability in
/// percent: always at 100 or more, never at 0.
pub fn should_answer(answer_prob: u8) -> (r: bool)
    ensures
        answer_prob >= 100 ==> r,
        answer_prob == 0 ==> !r,
{
    let roll = random_between(0, 99);
    answer_roll(roll, answer_prob)
}

/// Whether a call with this roll is answered (see `answers_roll`).
pub fn answer_roll(roll: u64, answer_prob: u8) -> (r: bool)
    ensures
        r == answers_roll(roll, answer_prob),
{
    roll < answer_prob as u64
}

/// How long a call of the benchmark client lasts: 3 to 10 seconds, drawn at
/// random.
pub fn call_duration_secs() -> (r: u64)
    ensures
        3 <= r <= 10,
{
    random_between(3, 10)
}

/// The smaller of two counts.
pub open spec fn min_count(a: int, b: int) -> int {
    if a <= b {
        a
    } else {
        b
    }
}

/// How many calls the benchmark client starts in a cycle: enough to bring
/// the `active` calls up to `concurrent`, at most `max_per_cycle`.
pub fn calls_to_create(concurrent: u32, active: usize, max_per_cycle: usize) -> (n: usize)
    ensures
        n == min_count(concurrent - min_count(active as int, concurrent as int), max_per_cycle as int),
{
    let target = concurrent as usize;
    let running = if active < target {
        active
    } else {
        target
    };
    let missing = target - running;
    if missing < max_per_cycle {
        missing
    } else {
        max_per_cycle
    }
}

/// The calls per second over the last period: the new calls divided by the
/// whole seconds elapsed; nothing when no whole second elapsed.
pub fn calls_per_second(last_total: u64, current_total: u64, elapsed_secs: u64) -> (r: Option<u64>)
    requires
        last_total <= current_total,
    ensures
        elapsed_secs == 0 ==> r is None,
        elapsed_secs > 0 ==> r == Some(((current_total - last_total) / (elapsed_secs as int)) as u64),
{
    if elapsed_secs > 0 {
        Some((current_total - last_total) / elapsed_secs)
    } else {
        None
    }
}

} // verus!
