//! Digest authentication of a client request challenged with 401 or 407
//! (RFC 3261, section 22.2; RFC 2617).
use super::dialog::{concat, is_branch_param, is_branch_param_exec};
use super::{id_error_matches, id_parts, spec_message_id, DialogId};
use crate::auth_values::{
    authorization_value, digest, proxy_authorization_value, proxy_challenge, spec_authorization_value,
    spec_digest, spec_proxy_authorization_value, spec_proxy_challenge, spec_www_challenge, www_challenge,
    ChallengeView, AnswerQop,
};
use crate::error::Error;
use crate::header_values::{cseq_fields, spec_cseq_fields, spec_via_display_parts, via_display_parts};
use crate::message::{
    first_header_value, first_value, hviews, is_first_of_kind, views_drop, views_unique_push, Header, HeaderKind,
    Method, Request, Response,
};
use crate::text::decimal;
use crate::transaction::ack::fresh_branch;
use crate::transaction::endpoint::EndpointInner;
use crate::transaction::key::{keyed_method, spec_key_of, TransactionKey, TransactionRole};
use crate::transaction::transaction::Transaction;
use crate::transaction::{is_alphanumeric, make_via_branch, random_text, TransactionState, CNONCE_LEN};
use vstd::prelude::*;

verus! {

/// The credentials a client answers a challenge with; the realm, when not
/// given, is taken from the challenge.
pub struct Credential {
    pub username: String,
    pub password: String,
    pub realm: Option<String>,
}

impl Credential {
    /// A copy of the credentials.
    pub fn duplicate(&self) -> (c: Credential)
        ensures
            c.username@ == self.username@,
            c.password@ == self.password@,
            crate::header_values::opt_view(c.realm) == crate::header_values::opt_view(self.realm),
    {
        Credential {
            username: self.username.clone(),
            password: self.password.clone(),
            realm: match &self.realm {
                Some(r) => Some(r.clone()),
                None => None,
            },
        }
    }
}


/// The challenge a response carries: its first WWW-Authenticate value
/// (`true`), or else its first Proxy-Authenticate value (`false`).
pub open spec fn challenge_header(s: Seq<Header>) -> Option<(bool, Seq<char>)> {
    match first_value(s, HeaderKind::WwwAuthenticate) {
        Some(v) => Some((true, v)),
        None => match first_value(s, HeaderKind::ProxyAuthenticate) {
            Some(v) => Some((false, v)),
            None => None,
        },
    }
}

/// A challenge value as `rsip` reads it.
pub open spec fn read_challenge(www: bool, v: Seq<char>) -> Option<ChallengeView> {
    if www {
        spec_www_challenge(v)
    } else {
        spec_proxy_challenge(v)
    }
}

/// The quality of protection of the answer: `auth` or `auth-int` as the
/// challenge asks, with the client nonce and the nonce count 1.
pub open spec fn answer_qop(c: ChallengeView, cnonce: Seq<char>) -> Option<(bool, Seq<char>, u8)> {
    match c.qop {
        Some(q) => if q == "auth"@ {
            Some((false, cnonce, 1u8))
        } else if q == "auth-int"@ {
            Some((true, cnonce, 1u8))
        } else {
            None
        },
        None => None,
    }
}

/// The algorithm of the answer: the challenge's, MD5 when it names none.
pub open spec fn answer_algorithm(c: ChallengeView) -> Seq<char> {
    match c.algorithm {
        Some(a) => a,
        None => "MD5"@,
    }
}

/// The Authorization (for a WWW-Authenticate challenge) or
/// Proxy-Authorization value answering the challenge for a request with
/// `method` and `uri`.
pub open spec fn answer_value(
    www: bool,
    c: ChallengeView,
    username: Seq<char>,
    password: Seq<char>,
    method: Method,
    uri: Seq<char>,
    cnonce: Seq<char>,
) -> Option<Seq<char>> {
    let qop = answer_qop(c, cnonce);
    let alg = answer_algorithm(c);
    match spec_digest(username, password, alg, c.nonce, method.spec_name(), qop, uri, c.realm) {
        None => None,
        Some(d) => if www {
            spec_authorization_value(c.scheme, username, c.realm, c.nonce, uri, d, alg, c.opaque, qop)
        } else {
            spec_proxy_authorization_value(c.scheme, username, c.realm, c.nonce, uri, d, alg, c.opaque, qop)
        },
    }
}

/// The kinds of authentication header an answered request drops.
pub open spec fn auth_kinds() -> Seq<HeaderKind> {
    seq![HeaderKind::ProxyAuthenticate, HeaderKind::Authorization, HeaderKind::WwwAuthenticate, HeaderKind::ProxyAuthorization]
}

/// The Via parameters without the branch.
pub open spec fn non_branch(ps: Seq<Seq<char>>) -> Seq<Seq<char>> {
    ps.filter(|p: Seq<char>| !is_branch_param(p))
}

/// The Via of the request sent again with credentials: the challenged
/// request's first Via with its branch replaced by a fresh one, followed by
/// `rport`.
pub open spec fn renewed_via(v: Seq<char>, head: Seq<char>, ps: Seq<Seq<char>>) -> bool {
    exists|b: Seq<char>| fresh_branch(b) && v == head + concat(non_branch(ps)) + b + ";rport"@
}

/// The headers of the request sent again with credentials: the challenged
/// request's, with its first CSeq set to `cseq`, its Vias replaced by `via`
/// (appended), the authentication headers dropped, and the answer appended.
pub open spec fn answered_views(
    orig: Seq<Header>,
    cseq: Seq<char>,
    via: Seq<char>,
    www: bool,
    answer: Seq<char>,
) -> Seq<(HeaderKind, Seq<char>)> {
    let i = choose|i: int| is_first_of_kind(orig, HeaderKind::CSeq, i);
    views_unique_push(
        views_drop(views_unique_push(hviews(orig).update(i, (HeaderKind::CSeq, cseq)), (HeaderKind::Via, via)), auth_kinds()),
        (if www { HeaderKind::Authorization } else { HeaderKind::ProxyAuthorization }, answer),
    )
}

/// Everything the answer is made of can be read: the challenge, the
/// original's CSeq and first Via, and the answer's value for some client
/// nonce.
pub open spec fn answerable(orig: Request, resp: Response, username: Seq<char>, password: Seq<char>) -> bool {
    &&& (challenge_header(resp.headers@) matches Some((www, v)) && read_challenge(www, v) is Some)
    &&& (first_value(orig.headers@, HeaderKind::CSeq) matches Some(v) && spec_cseq_fields(v) is Some)
    &&& (first_value(orig.headers@, HeaderKind::Via) matches Some(v) && spec_via_display_parts(v) is Some)
}

/// The CSeq value of the answered request: the new number and the
/// original's method text.
pub open spec fn answered_cseq(orig: Request, new_seq: u32) -> Seq<char> {
    decimal(new_seq as nat) + " "@ + match spec_cseq_fields(first_value(orig.headers@, HeaderKind::CSeq)->0) {
        Some((_, m)) => m,
        None => Seq::empty(),
    }
}


/// The credentials sent again answer the challenge with the digest of the
/// algorithm it names, and with MD5 when it names none: the request ends in
/// an Authorization (for a WWW-Authenticate challenge) or
/// Proxy-Authorization header whose value `rsip` builds from that digest and
/// that algorithm, for some client nonce. (`answers` is what
/// `handle_client_authenticate` ensures of the request it makes.)
pub proof fn lemma_answer_uses_named_algorithm_or_md5(
    req: Request,
    orig: Request,
    new_seq: u32,
    www: bool,
    c: ChallengeView,
    username: Seq<char>,
    password: Seq<char>,
    head: Seq<char>,
    ps: Seq<Seq<char>>,
)
    requires
        answers(req, orig, new_seq, www, c, username, password, head, ps),
    ensures
        hviews(req.headers@).len() > 0,
        hviews(req.headers@).last().0 == (if www { HeaderKind::Authorization } else { HeaderKind::ProxyAuthorization }),
        exists|cnonce: Seq<char>|
            #![trigger answer_qop(c, cnonce)]
            {
                let alg = if c.algorithm is None { "MD5"@ } else { c.algorithm->0 };
                let qop = answer_qop(c, cnonce);
                let d = spec_digest(username, password, alg, c.nonce, orig.method.spec_name(), qop, orig.uri@, c.realm);
                &&& d is Some
                &&& Some(hviews(req.headers@).last().1) == if www {
                    spec_authorization_value(c.scheme, username, c.realm, c.nonce, orig.uri@, d->0, alg, c.opaque, qop)
                } else {
                    spec_proxy_authorization_value(c.scheme, username, c.realm, c.nonce, orig.uri@, d->0, alg, c.opaque, qop)
                }
            },
{
    let (cnonce, via) = choose|cnonce: Seq<char>, via: Seq<char>|
        {
            &&& cnonce.len() == 8 && forall|i: int| 0 <= i < 8 ==> is_alphanumeric(#[trigger] cnonce[i])
            &&& answer_value(www, c, username, password, orig.method, orig.uri@, cnonce) is Some
            &&& renewed_via(via, head, ps)
            &&& hviews(req.headers@) == answered_views(
                orig.headers@,
                answered_cseq(orig, new_seq),
                via,
                www,
                answer_value(www, c, username, password, orig.method, orig.uri@, cnonce)->0,
            )
        };
    let alg = if c.algorithm is None { "MD5"@ } else { c.algorithm->0 };
    let qop = answer_qop(c, cnonce);
    assert(answer_algorithm(c) == alg);
}

/// `req` answers the challenge `c` (from a WWW-Authenticate value when `www`)
/// to the request `orig`: with some client nonce of eight letters and digits,
/// its headers are the answered ones with the renewed Via.
pub open spec fn answers(
    req: Request,
    orig: Request,
    new_seq: u32,
    www: bool,
    c: ChallengeView,
    username: Seq<char>,
    password: Seq<char>,
    head: Seq<char>,
    ps: Seq<Seq<char>>,
) -> bool {
    exists|cnonce: Seq<char>, via: Seq<char>|
        #![trigger answer_value(www, c, username, password, orig.method, orig.uri@, cnonce), renewed_via(via, head, ps)]
        {
            &&& cnonce.len() == 8 && forall|i: int| 0 <= i < 8 ==> is_alphanumeric(#[trigger] cnonce[i])
            &&& answer_value(www, c, username, password, orig.method, orig.uri@, cnonce) is Some
            &&& renewed_via(via, head, ps)
            &&& hviews(req.headers@) == answered_views(
                orig.headers@,
                answered_cseq(orig, new_seq),
                via,
                www,
                answer_value(www, c, username, password, orig.method, orig.uri@, cnonce)->0,
            )
        }
}

/// For some renewed Via, the request sent again with the answer `a` would
/// have no transaction key.
pub open spec fn key_blocked(
    orig: Request,
    new_seq: u32,
    www: bool,
    a: Seq<char>,
    head: Seq<char>,
    ps: Seq<Seq<char>>,
) -> bool {
    exists|nvia: Seq<char>, hs: Seq<Header>|
        #![trigger renewed_via(nvia, head, ps), hviews(hs)]
        {
            &&& renewed_via(nvia, head, ps)
            &&& hviews(hs) == answered_views(orig.headers@, answered_cseq(orig, new_seq), nvia, www, a)
            &&& spec_key_of(hs, TransactionRole::Client, Some(keyed_method(orig.method, TransactionRole::Client))) is Err
        }
}

/// The answer to an answerable challenge cannot be made with the values
/// drawn for it: for some client nonce of eight letters and digits, either
/// the Authorization value cannot be built, or the request sent again would
/// have no transaction key (see `key_blocked`).
pub open spec fn answer_blocked(
    orig: Request,
    resp: Response,
    new_seq: u32,
    username: Seq<char>,
    password: Seq<char>,
) -> bool {
    match (challenge_header(resp.headers@), first_value(orig.headers@, HeaderKind::Via)) {
        (Some((www, v)), Some(via)) => match (read_challenge(www, v), spec_via_display_parts(via)) {
            (Some(c), Some((head, ps))) => exists|cnonce: Seq<char>|
                #![trigger answer_value(www, c, username, password, orig.method, orig.uri@, cnonce)]
                {
                    &&& cnonce.len() == 8 && forall|i: int| 0 <= i < 8 ==> is_alphanumeric(#[trigger] cnonce[i])
                    &&& match answer_value(www, c, username, password, orig.method, orig.uri@, cnonce) {
                        None => true,
                        Some(a) => key_blocked(orig, new_seq, www, a, head, ps),
                    }
                },
            _ => false,
        },
        _ => false,
    }
}

/// The answer is blocked when, for the drawn client nonce, the
/// Authorization value cannot be built.
proof fn lemma_blocked_by_answer(
    o: Request,
    resp: Response,
    new_seq: u32,
    u: Seq<char>,
    p: Seq<char>,
    www: bool,
    v: Seq<char>,
    c: ChallengeView,
    via: Seq<char>,
    head: Seq<char>,
    ps: Seq<Seq<char>>,
    cn: Seq<char>,
)
    requires
        challenge_header(resp.headers@) == Some((www, v)),
        read_challenge(www, v) == Some(c),
        first_value(o.headers@, HeaderKind::Via) == Some(via),
        spec_via_display_parts(via) == Some((head, ps)),
        cn.len() == 8,
        forall|i: int| 0 <= i < cn.len() ==> is_alphanumeric(#[trigger] cn[i]),
        answer_value(www, c, u, p, o.method, o.uri@, cn) is None,
    ensures
        answer_blocked(o, resp, new_seq, u, p),
{
    assert(forall|i: int| 0 <= i < 8 ==> is_alphanumeric(#[trigger] cn[i]));
}

/// The answer is blocked when, for the drawn client nonce and renewed Via,
/// the request that would be sent again has no transaction key.
proof fn lemma_blocked_by_key(
    o: Request,
    resp: Response,
    new_seq: u32,
    u: Seq<char>,
    p: Seq<char>,
    www: bool,
    v: Seq<char>,
    c: ChallengeView,
    via: Seq<char>,
    head: Seq<char>,
    ps: Seq<Seq<char>>,
    cn: Seq<char>,
    a: Seq<char>,
    nvia: Seq<char>,
    hs: Seq<Header>,
)
    requires
        challenge_header(resp.headers@) == Some((www, v)),
        read_challenge(www, v) == Some(c),
        first_value(o.headers@, HeaderKind::Via) == Some(via),
        spec_via_display_parts(via) == Some((head, ps)),
        cn.len() == 8,
        forall|i: int| 0 <= i < cn.len() ==> is_alphanumeric(#[trigger] cn[i]),
        answer_value(www, c, u, p, o.method, o.uri@, cn) == Some(a),
        renewed_via(nvia, head, ps),
        hviews(hs) == answered_views(o.headers@, answered_cseq(o, new_seq), nvia, www, a),
        spec_key_of(hs, TransactionRole::Client, Some(keyed_method(o.method, TransactionRole::Client))) is Err,
    ensures
        answer_blocked(o, resp, new_seq, u, p),
{
    assert(forall|i: int| 0 <= i < 8 ==> is_alphanumeric(#[trigger] cn[i]));
    assert(key_blocked(o, new_seq, www, a, head, ps)) by {
        assert(renewed_via(nvia, head, ps) && hviews(hs) == hviews(hs));
    }
}

/// Two optional addresses hold the same address.
pub open spec fn same_destination(a: Option<crate::message::SipAddr>, b: Option<crate::message::SipAddr>) -> bool {
    match (a, b) {
        (Some(x), Some(y)) => crate::message::same_addr(x, y),
        (None, None) => true,
        _ => false,
    }
}

/// The Via parameters without the branch, one after the other.
fn non_branch_text(params: &Vec<String>) -> (r: String)
    ensures
        r@ == concat(non_branch(crate::text::string_views(params@))),
{
    let ghost ps = crate::text::string_views(params@);
    let mut s = String::new();
    let mut i: usize = 0;
    while i < params.len()
        invariant
            ps == crate::text::string_views(params@),
            i <= params@.len(),
            s@ == concat(non_branch(ps.take(i as int))),
        decreases params@.len() - i,
    {
        proof {
            reveal(Seq::filter);
            assert(ps.take(i as int + 1).drop_last() =~= ps.take(i as int));
            assert(ps.take(i as int + 1).last() == params@[i as int]@);
        }
        if !is_branch_param_exec(&params[i]) {
            let ghost before = non_branch(ps.take(i as int));
            s.append(params[i].as_str());
            proof {
                let after = before.push(params@[i as int]@);
                assert(after.drop_last() =~= before);
                assert(non_branch(ps.take(i as int + 1)) == after);
            }
        }
        i = i + 1;
    }
    proof {
        assert(ps.take(params@.len() as int) =~= ps);
    }
    s
}

/// Answers a 401 or 407 challenge to the request of `tx` with `cred`: a new
/// client transaction (registered with the endpoint, on the same connection
/// and destination) for the request with the new sequence number, a renewed
/// Via, the authentication headers replaced by the answer (see `answers`).
/// Fails when the response carries no challenge (the dialog error "missing
/// proxy/www authenticate" with the response's status, once the request's
/// dialog can be read), or the CSeq, the challenge or the Via
/// cannot be read; when all of these can, it fails only when the digest or
/// the answer cannot be built for the client nonce drawn, or the request to
/// send again has no transaction key (see `answer_blocked`).
pub fn handle_client_authenticate(
    new_seq: u32,
    tx: &Transaction,
    resp: &Response,
    cred: &Credential,
    ep: &mut EndpointInner,
) -> (r: Result<Transaction, Error>)
    requires
        old(ep).wf(),
    ensures
        final(ep).wf(),
        !answerable(tx.original, *resp, cred.username@, cred.password@) ==> r is Err,
        challenge_header(resp.headers@) is None ==> match spec_message_id(tx.original.headers@, false) {
            Ok(parts) => r matches Err(Error::DialogError(m, id, status)) && m@ == "missing proxy/www authenticate"@
                && id_parts(id) == parts && status == Some(resp.status_code),
            Err(fault) => r matches Err(e) && id_error_matches(fault, e),
        },
        r is Err && answerable(tx.original, *resp, cred.username@, cred.password@) ==> answer_blocked(
            tx.original,
            *resp,
            new_seq,
            cred.username@,
            cred.password@,
        ),
        r is Err ==> *final(ep) == *old(ep),
        r matches Ok(ntx) ==> {
            &&& answerable(tx.original, *resp, cred.username@, cred.password@)
            &&& match (challenge_header(resp.headers@), first_value(tx.original.headers@, HeaderKind::Via)) {
                (Some((www, v)), Some(via)) => match (read_challenge(www, v), spec_via_display_parts(via)) {
                    (Some(c), Some((head, ps))) => answers(
                        ntx.original,
                        tx.original,
                        new_seq,
                        www,
                        c,
                        cred.username@,
                        cred.password@,
                        head,
                        ps,
                    ),
                    _ => false,
                },
                _ => false,
            }
            &&& ntx.original.method == tx.original.method
            &&& ntx.original.uri@ == tx.original.uri@
            &&& ntx.original.body@ == tx.original.body@
            &&& spec_key_of(
                ntx.original.headers@,
                TransactionRole::Client,
                Some(keyed_method(ntx.original.method, TransactionRole::Client)),
            ) == Ok::<Seq<char>, crate::transaction::key::KeyFault>(ntx.key@)
            &&& ntx.state == TransactionState::Nothing
            &&& ntx.connection == tx.connection
            &&& same_destination(ntx.destination, tx.destination)
            &&& ntx.timer_ids() =~= Set::<u64>::empty()
            &&& ntx.last_response is None && ntx.last_ack is None
            &&& forall|k: Seq<char>| #[trigger] final(ep).transactions.has(k) == (k == ntx.key@ || old(ep).transactions.has(k))
            &&& *final(ep) == (EndpointInner { transactions: final(ep).transactions, ..*old(ep) })
        },
{
    let (www, challenge_text) = match first_header_value(&resp.headers, HeaderKind::WwwAuthenticate) {
        Some(v) => (true, v),
        None => match first_header_value(&resp.headers, HeaderKind::ProxyAuthenticate) {
            Some(v) => (false, v),
            None => {
                let id = DialogId::from_request(&tx.original)?;
                proof {
                    reveal_strlit("missing proxy/www authenticate");
                }
                return Err(
                    Error::DialogError(String::from_str("missing proxy/www authenticate"), id, Some(resp.status_code)),
                );
            },
        },
    };
    let orig = &tx.original;
    let ci = match crate::message::find_first(&orig.headers, HeaderKind::CSeq) {
        Some(i) => i,
        None => return Err(Error::SipMessageError(String::from_str("missing header: CSeq"))),
    };
    let (_, method_text) = match cseq_fields(orig.headers[ci].value()) {
        Ok(f) => f,
        Err(e) => return Err(Error::SipMessageError(e)),
    };
    let mut cseq_value = crate::text::decimal_string(new_seq as u64);
    cseq_value.append(" ");
    cseq_value.append(method_text.as_str());
    proof {
        reveal_strlit(" ");
    }
    let c = if www {
        www_challenge(challenge_text)
    } else {
        proxy_challenge(challenge_text)
    };
    let c = match c {
        Ok(c) => c,
        Err(e) => return Err(Error::SipMessageError(e)),
    };
    let cnonce = random_text(CNONCE_LEN);
    proof {
        reveal_strlit("auth");
        reveal_strlit("auth-int");
        reveal_strlit("MD5");
    }
    let qop: AnswerQop = match &c.qop {
        Some(q) => if crate::text::str_eq(q.as_str(), "auth") {
            Some((false, cnonce.clone(), 1))
        } else if crate::text::str_eq(q.as_str(), "auth-int") {
            Some((true, cnonce.clone(), 1))
        } else {
            None
        },
        None => None,
    };
    let alg = match &c.algorithm {
        Some(a) => a.clone(),
        None => String::from_str("MD5"),
    };
    let d = match digest(
        cred.username.as_str(),
        cred.password.as_str(),
        alg.as_str(),
        c.nonce.as_str(),
        orig.method.name(),
        &qop,
        orig.uri.as_str(),
        c.realm.as_str(),
    ) {
        Some(d) => d,
        None => {
            proof {
                if answerable(tx.original, *resp, cred.username@, cred.password@) {
                    let via = first_value(tx.original.headers@, HeaderKind::Via)->0;
                    let (head, ps) = spec_via_display_parts(via)->0;
                    lemma_blocked_by_answer(
                        tx.original,
                        *resp,
                        new_seq,
                        cred.username@,
                        cred.password@,
                        www,
                        challenge_text@,
                        c@,
                        via,
                        head,
                        ps,
                        cnonce@,
                    );
                }
            }
            return Err(Error::SipMessageError(String::from_str("digest inputs do not parse")));
        },
    };
    let answer = if www {
        authorization_value(
            c.scheme.as_str(),
            cred.username.as_str(),
            c.realm.as_str(),
            c.nonce.as_str(),
            orig.uri.as_str(),
            d.as_str(),
            alg.as_str(),
            &c.opaque,
            &qop,
        )
    } else {
        proxy_authorization_value(
            c.scheme.as_str(),
            cred.username.as_str(),
            c.realm.as_str(),
            c.nonce.as_str(),
            orig.uri.as_str(),
            d.as_str(),
            alg.as_str(),
            &c.opaque,
            &qop,
        )
    };
    let answer = match answer {
        Some(a) => a,
        None => {
            proof {
                if answerable(tx.original, *resp, cred.username@, cred.password@) {
                    let via = first_value(tx.original.headers@, HeaderKind::Via)->0;
                    let (head, ps) = spec_via_display_parts(via)->0;
                    lemma_blocked_by_answer(
                        tx.original,
                        *resp,
                        new_seq,
                        cred.username@,
                        cred.password@,
                        www,
                        challenge_text@,
                        c@,
                        via,
                        head,
                        ps,
                        cnonce@,
                    );
                }
            }
            return Err(Error::SipMessageError(String::from_str("authorization fields do not parse")));
        },
    };
    let via_value = match first_header_value(&orig.headers, HeaderKind::Via) {
        Some(v) => v,
        None => return Err(Error::SipMessageError(String::from_str("missing header: Via"))),
    };
    let (head, params) = match via_display_parts(via_value) {
        Ok(p) => p,
        Err(e) => return Err(Error::SipMessageError(e)),
    };
    let mut new_via = head;
    let ghost hv = new_via@;
    let kept = non_branch_text(&params);
    new_via.append(kept.as_str());
    let b = make_via_branch();
    new_via.append(b.as_str());
    new_via.append(";rport");
    proof {
        reveal_strlit(";rport");
        assert(new_via@ =~= hv + concat(non_branch(crate::text::string_views(params@))) + b@ + ";rport"@);
        assert(fresh_branch(b@));
        assert(renewed_via(new_via@, hv, crate::text::string_views(params@)));
    }
    let mut headers = crate::message::copy_headers(&orig.headers);
    headers.set(ci, Header::CSeq(cseq_value));
    let ghost with_cseq = hviews(headers@);
    proof {
        let i0 = choose|i: int| is_first_of_kind(orig.headers@, HeaderKind::CSeq, i);
        assert(is_first_of_kind(orig.headers@, HeaderKind::CSeq, ci as int));
        assert(i0 == ci);
        assert(with_cseq =~= hviews(orig.headers@).update(ci as int, (HeaderKind::CSeq, answered_cseq(*orig, new_seq))));
    }
    let ghost via_text = new_via@;
    let headers = crate::message::push_unique(headers, Header::Via(new_via));
    let mut kinds: Vec<HeaderKind> = Vec::new();
    kinds.push(HeaderKind::ProxyAuthenticate);
    kinds.push(HeaderKind::Authorization);
    kinds.push(HeaderKind::WwwAuthenticate);
    kinds.push(HeaderKind::ProxyAuthorization);
    proof {
        assert(kinds@ =~= auth_kinds());
    }
    let headers = crate::message::drop_kinds_viewed(&headers, &kinds);
    let ghost ans = answer@;
    let headers = if www {
        crate::message::push_unique(headers, Header::Authorization(answer))
    } else {
        crate::message::push_unique(headers, Header::ProxyAuthorization(answer))
    };
    proof {
        assert(hviews(headers@) == answered_views(orig.headers@, answered_cseq(*orig, new_seq), via_text, www, ans));
        assert(answer_value(www, c@, cred.username@, cred.password@, orig.method, orig.uri@, cnonce@) == Some(ans));
    }
    let new_req = Request {
        method: orig.method,
        uri: orig.uri.clone(),
        headers,
        body: crate::message::copy_bytes(&orig.body),
    };
    let key = match TransactionKey::from_request(&new_req, TransactionRole::Client) {
        Ok(k) => k,
        Err(e) => {
            proof {
                lemma_blocked_by_key(
                    tx.original,
                    *resp,
                    new_seq,
                    cred.username@,
                    cred.password@,
                    www,
                    challenge_text@,
                    c@,
                    via_value@,
                    hv,
                    crate::text::string_views(params@),
                    cnonce@,
                    ans,
                    via_text,
                    new_req.headers@,
                );
            }
            return Err(e);
        },
    };
    let mut ntx = Transaction::new_client(key, new_req, ep, tx.connection);
    ntx.destination = match &tx.destination {
        Some(d) => Some(d.duplicate()),
        None => None,
    };
    proof {
        assert(ntx.timer_ids() =~= Set::<u64>::empty());
    }
    Ok(ntx)
}

} // verus!
