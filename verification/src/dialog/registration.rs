//! Registration with a registrar (RFC 3261, section 10): the REGISTER
//! request, the answers to its challenges, and the expiry it asks for.
use super::authenticate::Credential;
use super::dialog::is_challenge;
use crate::error::Error;
use crate::message::{hviews, views_unique_push, Header, HeaderKind, Method, Request, Response, SipAddr};
use crate::transaction::ack::{fresh_branch, transport_name, via_text};
use crate::transaction::endpoint::EndpointInner;
use crate::transaction::message::cseq_value;
use crate::transaction::{is_alphanumeric, make_tag};
use crate::uri::{param_views, uri_display, NameAddr, ParamView, UriParam, UriView};
use vstd::prelude::*;

verus! {

/// A registration: the last sequence number used, the credentials, the
/// Contact to register (one is made from the local address when none is
/// given) and the Allow value sent.
pub struct Registration {
    pub last_seq: u32,
    pub credential: Option<Credential>,
    pub contact: Option<NameAddr>,
    pub allow: String,
}

/// What a registration does next while its REGISTER is answered.
pub enum RegisterAction {
    /// Wait for the next response.
    Continue,
    /// Send the REGISTER again with credentials, with this sequence number.
    Authenticate(u32),
    /// The registration is done with this response.
    Done(Response),
}

/// The value of a decimal text as `str::parse::<u32>` reads it: an optional
/// `+`, then one or more digits, at most `u32::MAX`.
pub open spec fn spec_parse_u32(s: Seq<char>) -> Option<u32> {
    let d = if s.len() > 0 && s[0] == '+' { s.skip(1) } else { s };
    if d.len() == 0 || !all_digits(d) || digits_value(d) > u32::MAX {
        None
    } else {
        Some(digits_value(d) as u32)
    }
}

/// Every character is an ASCII digit.
pub open spec fn all_digits(s: Seq<char>) -> bool {
    forall|i: int| 0 <= i < s.len() ==> '0' <= #[trigger] s[i] && s[i] <= '9'
}

/// The value of a run of digits.
pub open spec fn digits_value(s: Seq<char>) -> nat
    decreases s.len(),
{
    if s.len() == 0 {
        0
    } else {
        digits_value(s.drop_last()) * 10 + ((s.last() as u32) - ('0' as u32)) as nat
    }
}

/// The value of a run of digits never decreases as digits are added.
proof fn lemma_digits_value_grows(s: Seq<char>, i: int)
    requires
        0 <= i <= s.len(),
        all_digits(s),
    ensures
        digits_value(s.take(i)) <= digits_value(s),
    decreases s.len() - i,
{
    if i < s.len() {
        lemma_digits_value_grows(s, i + 1);
        assert(s.take(i + 1).drop_last() =~= s.take(i));
    } else {
        assert(s.take(i) =~= s);
    }
}

/// Reads a decimal text as `str::parse::<u32>` does.
pub fn parse_u32(s: &str) -> (r: Option<u32>)
    ensures
        r == spec_parse_u32(s@),
{
    let cs = crate::text::chars_of(s);
    let start: usize = if cs.len() > 0 && cs[0] == '+' { 1 } else { 0 };
    let ghost d = if s@.len() > 0 && s@[0] == '+' { s@.skip(1) } else { s@ };
    proof {
        assert(cs@.skip(start as int) =~= d);
    }
    if start == cs.len() {
        proof {
            assert(d.len() == 0);
            assert(spec_parse_u32(s@) is None);
        }
        return None;
    }
    let mut value: u64 = 0;
    let mut i = start;
    while i < cs.len()
        invariant
            start <= i <= cs@.len(),
            cs@ == s@,
            d == cs@.skip(start as int),
            d == (if s@.len() > 0 && s@[0] == '+' { s@.skip(1) } else { s@ }),
            all_digits(d.take(i - start)),
            value == digits_value(d.take(i - start)),
            value <= u32::MAX,
        decreases cs@.len() - i,
    {
        let c = cs[i];
        if !('0' <= c && c <= '9') {
            proof {
                assert(d[i - start] == c);
                assert(!all_digits(d));
            }
            return None;
        }
        let digit = (c as u32 - '0' as u32) as u64;
        proof {
            assert(d.take(i - start + 1).drop_last() =~= d.take(i - start));
            assert(d.take(i - start + 1).last() == c);
        }
        let next = value * 10 + digit;
        if next > u32::MAX as u64 {
            proof {
                assert(all_digits(d.take(i - start + 1)));
                assert(next == digits_value(d.take(i - start + 1)));
                if all_digits(d) {
                    lemma_digits_value_grows(d, i - start + 1);
                }
            }
            return None;
        }
        value = next;
        i = i + 1;
    }
    proof {
        assert(d.take(cs@.len() - start) =~= d);
    }
    Some(value as u32)
}

/// The text after `;expires=` of the first expires parameter, if any.
pub open spec fn expires_param(ps: Seq<ParamView>) -> Option<Seq<char>>
    decreases ps.len(),
{
    if ps.len() == 0 {
        None
    } else {
        match ps[0] {
            ParamView::Known(t) => if t.len() >= 9 && t.take(9) == ";expires="@ {
                Some(t.skip(9))
            } else {
                expires_param(ps.drop_first())
            },
            _ => expires_param(ps.drop_first()),
        }
    }
}

/// The expiry a registration asks for: the Contact's expires parameter in
/// seconds; 50 when there is none or it does not read as a number.
pub open spec fn spec_expires(contact: Option<NameAddr>) -> u32 {
    match contact {
        Some(c) => match expires_param(c@.params) {
            Some(t) => match spec_parse_u32(t) {
                Some(n) => n,
                None => 50,
            },
            None => 50,
        },
        None => 50,
    }
}

/// The headers of a REGISTER: Via, Call-ID, From (with a tag), To, CSeq,
/// Max-Forwards 70 and User-Agent, then the Contact and Allow put in by
/// `unique_push`.
pub open spec fn register_views(
    via: Seq<char>,
    call_id: Seq<char>,
    aor: Seq<char>,
    tag: Seq<char>,
    seq: u32,
    ua: Seq<char>,
    contact: Seq<char>,
    allow: Seq<char>,
) -> Seq<(HeaderKind, Seq<char>)> {
    views_unique_push(
        views_unique_push(
            seq![
                (HeaderKind::Via, via),
                (HeaderKind::CallId, call_id),
                (HeaderKind::From, "<"@ + aor + ">;tag="@ + tag),
                (HeaderKind::To, "<"@ + aor + ">"@),
                (HeaderKind::CSeq, cseq_value(seq, Method::Register)),
                (HeaderKind::MaxForwards, "70"@),
                (HeaderKind::UserAgent, ua),
            ],
            (HeaderKind::Contact, contact),
        ),
        (HeaderKind::Allow, allow),
    )
}

/// The address of record: the registrar's URI, with the credentials' user
/// name as its user part when there are credentials.
pub open spec fn address_of_record(u: UriView, user: Option<Seq<char>>) -> Seq<char> {
    match user {
        Some(name) => "sip:"@ + name + "@"@ + u.host_port + crate::uri::params_text(u.params),
        None => uri_display(u),
    }
}

/// The Contact a registration sends: its own, or one for the local address
/// with the credentials' user name.
pub open spec fn register_contact(contact: Option<NameAddr>, user: Option<Seq<char>>, local: SipAddr) -> Seq<char> {
    match contact {
        Some(c) => crate::uri::name_addr_text(c@),
        None => match user {
            Some(name) => "<sip:"@ + name + "@"@ + local.addr@ + ">"@,
            None => "<sip:"@ + local.addr@ + ">"@,
        },
    }
}

/// The user name of the credentials, if any.
pub open spec fn user_of(reg: Registration) -> Option<Seq<char>> {
    match reg.credential {
        Some(c) => Some(c.username@),
        None => None,
    }
}

/// A tag of eight ASCII letters and digits.
pub open spec fn tag_ok(tag: Seq<char>) -> bool {
    tag.len() == 8 && (forall|i: int| 0 <= i < 8 ==> is_alphanumeric(#[trigger] tag[i]))
}

/// `req` has the headers of a REGISTER with these parts.
pub open spec fn register_made(
    req: Request,
    reg: Registration,
    ep: EndpointInner,
    registrar: UriView,
    local: SipAddr,
    seq: u32,
    b: Seq<char>,
    call_id: Seq<char>,
    tag: Seq<char>,
) -> bool {
    hviews(req.headers@) == register_views(
        via_text(transport_name(local), local.addr@, b),
        call_id,
        address_of_record(registrar, user_of(reg)),
        tag,
        seq,
        ep.user_agent@,
        register_contact(reg.contact, user_of(reg), local),
        reg.allow@,
    )
}

/// `req` is a REGISTER to `registrar` from `reg` with sequence number `seq`:
/// a Via with a fresh branch for `local`, a fresh Call-ID and a fresh tag.
pub open spec fn is_register(req: Request, reg: Registration, ep: EndpointInner, registrar: UriView, local: SipAddr, seq: u32) -> bool {
    exists|b: Seq<char>, call_id: Seq<char>, tag: Seq<char>|
        fresh_branch(b) && tag_ok(tag) && #[trigger] register_made(req, reg, ep, registrar, local, seq, b, call_id, tag)
}

/// A REGISTER made of these parts is one `is_register` describes.
proof fn lemma_is_register_intro(
    req: Request,
    reg: Registration,
    ep: EndpointInner,
    registrar: UriView,
    local: SipAddr,
    seq: u32,
    b: Seq<char>,
    call_id: Seq<char>,
    tag: Seq<char>,
)
    requires
        fresh_branch(b),
        tag_ok(tag),
        register_made(req, reg, ep, registrar, local, seq, b, call_id, tag),
    ensures
        is_register(req, reg, ep, registrar, local, seq),
{
}

/// The expiry follows the Contact: when its first expires parameter holds
/// a decimal number of at most `u32::MAX` (an optional `+`, then digits),
/// the registration asks for that many seconds; with no Contact, no expires
/// parameter, or one that is not such a number, it asks for 50.
/// (`spec_expires` is what `Registration::expires` returns.)
pub proof fn lemma_expires_follows_contact(contact: Option<NameAddr>)
    ensures
        (contact matches Some(c) && expires_param(c@.params) matches Some(t) && {
            let d = if t.len() > 0 && t[0] == '+' { t.skip(1) } else { t };
            d.len() > 0 && all_digits(d) && digits_value(d) <= u32::MAX
        }) ==> spec_expires(contact) as nat == digits_value({
            let t = expires_param(contact->0@.params)->0;
            if t.len() > 0 && t[0] == '+' { t.skip(1) } else { t }
        }),
        (contact is None || expires_param(contact->0@.params) is None) ==> spec_expires(contact) == 50,
{
}

/// A Contact whose first parameter is `;expires=` followed by the digits of
/// a number of at most `u32::MAX` asks for that many seconds, as with
/// `<sip:alice@10.0.0.2:5060>;expires=3600`.
pub proof fn lemma_expires_reads_first_param(c: NameAddr, digits: Seq<char>)
    requires
        c@.params.len() > 0,
        c@.params[0] == ParamView::Known(";expires="@ + digits),
        digits.len() > 0,
        all_digits(digits),
        digits_value(digits) <= u32::MAX,
    ensures
        spec_expires(Some(c)) as nat == digits_value(digits),
{
    reveal_strlit(";expires=");
    let t = ";expires="@ + digits;
    assert(t.take(9) =~= ";expires="@);
    assert(t.skip(9) =~= digits);
    assert(digits[0] != '+');
}

impl Registration {
    /// A registration with no sequence number used yet, no Contact and an
    /// empty Allow value.
    pub fn new(credential: Option<Credential>) -> (r: Registration)
        ensures
            r.last_seq == 0,
            r.credential == credential,
            r.contact is None,
            r.allow@.len() == 0,
    {
        Registration { last_seq: 0, credential, contact: None, allow: String::new() }
    }

    /// The expiry the registration asks for (see `spec_expires`).
    pub fn expires(&self) -> (r: u32)
        ensures
            r == spec_expires(self.contact),
    {
        match &self.contact {
            None => 50,
            Some(c) => {
                let ghost pv = c@.params;
                let mut i: usize = 0;
                proof {
                    assert(pv.skip(0) =~= pv);
                }
                while i < c.params.len()
                    invariant
                        self.contact == Some(*c),
                        pv == c@.params,
                        pv == param_views(c.params@),
                        i <= c.params@.len(),
                        expires_param(pv) == expires_param(pv.skip(i as int)),
                    decreases c.params@.len() - i,
                {
                    proof {
                        assert(pv.skip(i as int).drop_first() =~= pv.skip(i as int + 1));
                        assert(pv.skip(i as int)[0] == c.params@[i as int]@);
                        reveal_strlit(";expires=");
                    }
                    match &c.params[i] {
                        UriParam::Known(t) => {
                            let cs = crate::text::chars_of(t.as_str());
                            if cs.len() >= 9 {
                                let prefix = crate::text::string_from(&cs, 0, 9);
                                proof {
                                    assert(cs@.subrange(0, 9) =~= t@.take(9));
                                }
                                if crate::text::str_eq(prefix.as_str(), ";expires=") {
                                    let rest = crate::text::string_from(&cs, 9, cs.len());
                                    proof {
                                        assert(cs@.subrange(9, cs@.len() as int) =~= t@.skip(9));
                                        assert(t@.take(9) == ";expires="@);
                                        assert(pv.skip(i as int)[0] == ParamView::Known(t@));
                                        assert(expires_param(pv.skip(i as int)) == Some(t@.skip(9)));
                                    }
                                    return match parse_u32(rest.as_str()) {
                                        Some(n) => n,
                                        None => 50,
                                    };
                                }
                            }
                        },
                        UriParam::Other(_, _) => {},
                    }
                    i = i + 1;
                }
                50
            },
        }
    }

    /// The REGISTER for `registrar` (a host, with a port when needed), sent
    /// from `local`: the next sequence number, a To of the address of record
    /// (see `address_of_record`), a From of the same with a fresh tag, a Via
    /// for `local`, the Contact (see `register_contact`) and the Allow value.
    /// Fails when `sip:<registrar>` does not parse as a URI.
    pub fn make_register(&mut self, ep: &EndpointInner, registrar: &str, local: &SipAddr) -> (r: Result<Request, Error>)
        requires
            old(self).last_seq < u32::MAX,
        ensures
            final(self).last_seq == old(self).last_seq + 1,
            final(self).credential == old(self).credential,
            final(self).contact == old(self).contact,
            final(self).allow == old(self).allow,
            r is Ok <==> crate::header_values::spec_uri_parts("sip:"@ + registrar@) is Some,
            r matches Ok(req) ==> {
                let u = crate::header_values::spec_uri_parts("sip:"@ + registrar@)->0;
                &&& req.method == Method::Register
                &&& req.uri@ == uri_display(u)
                &&& req.body@.len() == 0
                &&& is_register(req, *old(self), *ep, u, *local, (old(self).last_seq + 1) as u32)
            },
    {
        self.last_seq = self.last_seq + 1;
        proof {
            reveal_strlit("sip:");
            reveal_strlit("@");
            reveal_strlit("<");
            reveal_strlit(">");
            reveal_strlit("<sip:");
            reveal_strlit(">;tag=");
        }
        let mut target = String::from_str("sip:");
        target.append(registrar);
        let u = match crate::header_values::uri_parts(target.as_str()) {
            Ok(u) => u,
            Err(e) => return Err(Error::SipMessageError(e)),
        };
        let recipient = u.to_text();
        let aor = match &self.credential {
            Some(c) => {
                let mut a = String::from_str("sip:");
                a.append(c.username.as_str());
                a.append("@");
                a.append(u.host_port.as_str());
                crate::uri::push_params_text(&mut a, &u.params);
                a
            },
            None => u.to_text(),
        };
        let mut to = String::from_str("<");
        to.append(aor.as_str());
        to.append(">");
        let tag = make_tag();
        let mut from = String::from_str("<");
        from.append(aor.as_str());
        from.append(">;tag=");
        from.append(tag.as_str());
        let contact = match &self.contact {
            Some(c) => c.to_text(),
            None => {
                let mut c = String::from_str("<sip:");
                match &self.credential {
                    Some(cred) => {
                        c.append(cred.username.as_str());
                        c.append("@");
                    },
                    None => {},
                }
                c.append(local.addr.as_str());
                c.append(">");
                c
            },
        };
        let ghost user = if self.credential is Some {
            Some(self.credential->0.username@)
        } else {
            None
        };
        proof {
            assert(aor@ == address_of_record(u@, user));
            assert(contact@ == register_contact(self.contact, user, *local));
            assert(to@ == "<"@ + address_of_record(u@, user) + ">"@);
            assert(from@ == "<"@ + address_of_record(u@, user) + ">;tag="@ + tag@);
        }
        let dup = local.duplicate();
        proof {
            assert(transport_name(dup) == transport_name(*local));
        }
        let via = match ep.get_via(Some(dup), None) {
            Ok(v) => v,
            Err(e) => return Err(e),
        };
        let ghost gv = via@;
        let ghost to_v = to@;
        let ghost from_v = from@;
        let request = ep.make_request(Method::Register, recipient, via, from, to, self.last_seq);
        let ghost call_id = request.headers@[1].spec_value();
        proof {
            assert(hviews(request.headers@) =~= seq![
                (HeaderKind::Via, gv),
                (HeaderKind::CallId, call_id),
                (HeaderKind::From, from_v),
                (HeaderKind::To, to_v),
                (HeaderKind::CSeq, cseq_value(self.last_seq, Method::Register)),
                (HeaderKind::MaxForwards, "70"@),
                (HeaderKind::UserAgent, ep.user_agent@),
            ]);
        }
        let headers = crate::message::push_unique(request.headers, Header::Contact(contact));
        let headers = crate::message::push_unique(headers, Header::Allow(self.allow.clone()));
        let req = Request { method: Method::Register, uri: request.uri, headers, body: Vec::new() };
        proof {
            let b = choose|b: Seq<char>| fresh_branch(b) && gv == via_text(transport_name(*local), local.addr@, b);
            assert(target@ == "sip:"@ + registrar@);
            assert(crate::header_values::spec_uri_parts("sip:"@ + registrar@)->0 == u@);
            let user2 = match old(self).credential {
                Some(c) => Some(c.username@),
                None => None,
            };
            assert(user2 == user);
            assert(fresh_branch(b));
            assert(hviews(req.headers@) == register_views(
                via_text(transport_name(*local), local.addr@, b),
                call_id,
                address_of_record(u@, user),
                tag@,
                (old(self).last_seq + 1) as u32,
                ep.user_agent@,
                register_contact(old(self).contact, user, *local),
                old(self).allow@,
            ));
            assert(tag@.len() == 8);
            assert(forall|i: int| 0 <= i < 8 ==> is_alphanumeric(#[trigger] tag@[i]));
            assert(register_made(req, *old(self), *ep, u@, *local, (old(self).last_seq + 1) as u32, b, call_id, tag@));
            lemma_is_register_intro(req, *old(self), *ep, u@, *local, (old(self).last_seq + 1) as u32, b, call_id, tag@);
        }
        Ok(req)
    }

    /// What the registration does with a response to its REGISTER: 100 is
    /// passed over; a challenge is answered once with the credentials (with
    /// the next sequence number), and otherwise ends the registration with
    /// the challenge; any other response ends it.
    pub fn on_register_response(&mut self, auth_sent: &mut bool, resp: Response) -> (r: RegisterAction)
        requires
            old(self).last_seq < u32::MAX,
        ensures
            final(self).credential == old(self).credential,
            final(self).contact == old(self).contact,
            final(self).allow == old(self).allow,
            if resp.status_code == 100 {
                r is Continue && final(self).last_seq == old(self).last_seq && *final(auth_sent) == *old(auth_sent)
            } else if is_challenge(resp.status_code) && !*old(auth_sent) && old(self).credential is Some {
                &&& r matches RegisterAction::Authenticate(n) && n == old(self).last_seq + 1
                &&& final(self).last_seq == old(self).last_seq + 1
                &&& *final(auth_sent)
            } else {
                r matches RegisterAction::Done(x) && x == resp && final(self).last_seq == old(self).last_seq
                    && *final(auth_sent) == *old(auth_sent)
            },
    {
        let s = resp.status_code;
        if s == 100 {
            return RegisterAction::Continue;
        }
        if (s == 401 || s == 407) && !*auth_sent && self.credential.is_some() {
            self.last_seq = self.last_seq + 1;
            *auth_sent = true;
            return RegisterAction::Authenticate(self.last_seq);
        }
        RegisterAction::Done(resp)
    }
}

} // verus!
