//! The Via and Record-Route values of the endpoint, and the ACK of RFC 3261,
//! section 17.1.1.3: hop-by-hop for a non-2xx final response, end-to-end
//! (to the Contact, on a new branch) for a 2xx.
use super::endpoint::EndpointInner;
use super::is_alphanumeric;
use super::make_via_branch;
use super::message::{cseq_value, format_cseq};
use crate::error::Error;
use crate::header_values::{cseq_fields, spec_cseq_fields, spec_via_display_parts, via_display_parts};
use crate::message::{
    first_value, hview, hviews, is_first_of_kind, spec_status_kind, status_kind, Header, HeaderKind, Method, Request, Response,
    SipAddr, StatusCodeKind,
};
use crate::rsip_ext::{contact_target, remote_uri, response_contact};
use vstd::prelude::*;

verus! {

/// The name of an address's transport, UDP when it names none.
pub open spec fn transport_name(a: SipAddr) -> Seq<char> {
    match a.transport {
        Some(t) => t@,
        None => "UDP"@,
    }
}

/// A Via value: `SIP/2.0/<transport> <host:port><branch>;rport`.
pub open spec fn via_text(transport: Seq<char>, addr: Seq<char>, branch: Seq<char>) -> Seq<char> {
    "SIP/2.0/"@ + transport + " "@ + addr + branch + ";rport"@
}

/// A branch parameter as `make_via_branch` makes it.
pub open spec fn fresh_branch(b: Seq<char>) -> bool {
    &&& b.len() == 27
    &&& b.subrange(0, 15) == ";branch=z9hG4bK"@
    &&& forall|i: int| 15 <= i < 27 ==> is_alphanumeric(#[trigger] b[i])
}

/// A Record-Route value naming an address: `<sip:<host:port>[;transport=<t>]>;lr`.
pub open spec fn record_route_text(a: SipAddr) -> Seq<char> {
    "<sip:"@ + a.addr@ + match a.transport {
        Some(t) => ";transport="@ + t@,
        None => Seq::<char>::empty(),
    } + ">;lr"@
}

/// The kinds of response header an ACK keeps.
pub open spec fn ack_kinds() -> Seq<HeaderKind> {
    seq![HeaderKind::Via, HeaderKind::CallId, HeaderKind::From, HeaderKind::To, HeaderKind::CSeq, HeaderKind::Route]
}

/// A CSeq value rewritten for an ACK (`<seq> ACK`) when it parses; other
/// headers as they are.
pub open spec fn cseq_to_ack(p: (HeaderKind, Seq<char>)) -> (HeaderKind, Seq<char>) {
    if p.0 == HeaderKind::CSeq {
        match spec_cseq_fields(p.1) {
            Some((n, _)) => (HeaderKind::CSeq, cseq_value(n, Method::Ack)),
            None => p,
        }
    } else {
        p
    }
}

/// Whether a header is kept in an ACK.
pub open spec fn kept_in_ack(p: (HeaderKind, Seq<char>)) -> bool {
    ack_kinds().contains(p.0)
}

/// The Record-Route headers among the first `i` headers, as Route headers,
/// last first.
pub open spec fn rev_routes(s: Seq<Header>, i: int) -> Seq<Header>
    decreases i,
{
    if i <= 0 || i > s.len() {
        Seq::empty()
    } else {
        match s[i - 1] {
            Header::RecordRoute(v) => seq![Header::Route(v)] + rev_routes(s, i - 1),
            _ => rev_routes(s, i - 1),
        }
    }
}

/// The headers of an ACK, from the response's headers (with their first Via
/// already rewritten) followed by the reversed route set: the kept kinds in
/// order with CSeq rewritten, then Max-Forwards 70, Content-Length 0 and the
/// User-Agent.
pub open spec fn ack_headers(all: Seq<(HeaderKind, Seq<char>)>, ua: Seq<char>) -> Seq<(HeaderKind, Seq<char>)> {
    all.filter(|p: (HeaderKind, Seq<char>)| kept_in_ack(p)).map_values(|p: (HeaderKind, Seq<char>)| cseq_to_ack(p)).push(
        (HeaderKind::MaxForwards, "70"@),
    ).push((HeaderKind::ContentLength, "0"@)).push((HeaderKind::UserAgent, ua))
}

/// The first Via of the response as an ACK to a 2xx carries it: its part
/// before the parameters followed by a fresh branch, when it parses; `None`
/// when the ACK keeps the response's Via as it is.
pub open spec fn ack_via_ok(s: Seq<Header>, two_xx: bool, via: Option<Seq<char>>) -> bool {
    if two_xx && first_value(s, HeaderKind::Via) is Some && spec_via_display_parts(
        first_value(s, HeaderKind::Via)->0,
    ) is Some {
        via matches Some(x) && exists|b: Seq<char>|
            fresh_branch(b) && x == via_head(first_value(s, HeaderKind::Via)->0) + b
    } else {
        via is None
    }
}

/// The part of a Via value before its parameters, as `rsip` displays it.
pub open spec fn via_head(v: Seq<char>) -> Seq<char> {
    match spec_via_display_parts(v) {
        Some((head, _)) => head,
        None => Seq::empty(),
    }
}

/// The views of the response's headers with the first Via's value replaced.
pub open spec fn with_via(s: Seq<Header>, via: Option<Seq<char>>) -> Seq<(HeaderKind, Seq<char>)> {
    match via {
        Some(x) => hviews(s).update(choose|i: int| is_first_of_kind(s, HeaderKind::Via, i), (HeaderKind::Via, x)),
        None => hviews(s),
    }
}

/// `ack` is the ACK an endpoint with User-Agent `ua` sends for the failure
/// response `resp` to a request for `uri`: it goes to `uri`, keeps the
/// response's Via, and has the headers `make_ack` gives it, with no body.
pub open spec fn is_failure_ack(ack: Request, resp: Response, uri: Seq<char>, ua: Seq<char>) -> bool {
    &&& ack.method == Method::Ack
    &&& ack.body@.len() == 0
    &&& ack.uri@ == uri
    &&& hviews(ack.headers@) == ack_headers(
        hviews(resp.headers@) + hviews(rev_routes(resp.headers@, resp.headers@.len() as int)),
        ua,
    )
}

impl EndpointInner {
    /// A Via value for `addr`, or for the endpoint's first address, with the
    /// given branch parameter or a fresh one. Fails when there is no address.
    pub fn get_via(&self, addr: Option<SipAddr>, branch: Option<String>) -> (r: Result<String, Error>)
        ensures
            r is Err <==> (addr is None && self.addrs@.len() == 0),
            r matches Err(e) ==> e is EndpointError,
            r matches Ok(v) ==> {
                let a = match addr {
                    Some(a) => a,
                    None => self.addrs@[0],
                };
                let t = transport_name(a);
                match branch {
                    Some(b) => v@ == via_text(t, a.addr@, b@),
                    None => exists|b: Seq<char>| fresh_branch(b) && v@ == via_text(t, a.addr@, b),
                }
            },
    {
        let a = match addr {
            Some(a) => a,
            None => {
                if self.addrs.len() == 0 {
                    return Err(Error::EndpointError(String::from_str("not sipaddrs")));
                }
                self.addrs[0].duplicate()
            },
        };
        proof {
            reveal_strlit("SIP/2.0/");
            reveal_strlit("UDP");
            reveal_strlit(" ");
            reveal_strlit(";rport");
        }
        let mut v = String::from_str("SIP/2.0/");
        match &a.transport {
            Some(t) => v.append(t.as_str()),
            None => v.append("UDP"),
        }
        v.append(" ");
        v.append(a.addr.as_str());
        let ghost before_branch = v@;
        let given = branch.is_some();
        let b = match branch {
            Some(b) => b,
            None => make_via_branch(),
        };
        proof {
            if !given {
                assert(fresh_branch(b@));
            }
        }
        v.append(b.as_str());
        v.append(";rport");
        proof {
            assert(v@ =~= via_text(transport_name(a), a.addr@, b@));
        }
        Ok(v)
    }

    /// The Record-Route value naming the endpoint's first address. Fails when
    /// there is no address.
    pub fn get_record_route(&self) -> (r: Result<String, Error>)
        ensures
            r is Err <==> self.addrs@.len() == 0,
            r matches Err(e) ==> e is EndpointError,
            r matches Ok(v) ==> v@ == record_route_text(self.addrs@[0]),
    {
        if self.addrs.len() == 0 {
            return Err(Error::EndpointError(String::from_str("not sipaddrs")));
        }
        let a = &self.addrs[0];
        proof {
            reveal_strlit("<sip:");
            reveal_strlit(";transport=");
            reveal_strlit(">;lr");
        }
        let mut v = String::from_str("<sip:");
        v.append(a.addr.as_str());
        match &a.transport {
            Some(t) => {
                v.append(";transport=");
                v.append(t.as_str());
            },
            None => {},
        }
        v.append(">;lr");
        proof {
            assert(v@ =~= record_route_text(*a));
        }
        Ok(v)
    }
}


impl EndpointInner {
    /// The ACK for a final response. For a 2xx the ACK goes to the target the
    /// response's Contact names (see `remote_uri`) and its first Via gets a
    /// fresh branch in place of its parameters; for any other response it
    /// goes to the original Request-URI and keeps the Via. Its headers are the
    /// response's Via, Call-ID, From, To and CSeq headers (the CSeq method
    /// becoming ACK) with the Record-Route set reversed as Route headers, then
    /// Max-Forwards 70, Content-Length 0 and the User-Agent; it has no body.
    /// Fails when a 2xx names no target, or another response comes without
    /// the original Request-URI.
    #[verifier::spinoff_prover]
    #[verifier::rlimit(40)]
    pub fn make_ack(
        &self,
        resp: &Response,
        original_request_uri: Option<&String>,
        destination: Option<&SipAddr>,
    ) -> (r: Result<Request, Error>)
        ensures
            ({
                let two_xx = spec_status_kind(resp.status_code) == StatusCodeKind::Successful;
                let dest = match destination {
                    Some(d) => Some(*d),
                    None => None,
                };
                &&& r is Ok <==> if two_xx {
                    response_contact(resp.headers@) is Some
                } else {
                    original_request_uri is Some
                }
                &&& r matches Ok(ack) ==> {
                    &&& ack.method == Method::Ack
                    &&& ack.body@.len() == 0
                    &&& ack.uri@ == if two_xx {
                        contact_target(response_contact(resp.headers@)->0, dest)
                    } else {
                        original_request_uri->0@
                    }
                    &&& exists|via: Option<Seq<char>>|
                        ack_via_ok(resp.headers@, two_xx, via) && hviews(ack.headers@) == ack_headers(
                            with_via(resp.headers@, via) + hviews(rev_routes(resp.headers@, resp.headers@.len() as int)),
                            self.user_agent@,
                        )
                }
            }),
    {
        let two_xx = match status_kind(resp.status_code) {
            StatusCodeKind::Successful => true,
            _ => false,
        };
        let uri = if two_xx {
            remote_uri(resp, destination)?
        } else {
            match original_request_uri {
                Some(u) => u.clone(),
                None => {
                    return Err(
                        Error::SipMessageError(
                            String::from_str("missing header: original request URI required for non-2xx ACK"),
                        ),
                    )
                },
            }
        };
        let ghost s = resp.headers@;
        let mut headers = crate::message::copy_headers(&resp.headers);
        let ghost mut via: Option<Seq<char>> = None;
        if two_xx {
            match crate::message::find_first(&headers, HeaderKind::Via) {
                Some(i) => {
                    match via_display_parts(headers[i].value()) {
                        Ok((head, _)) => {
                            let mut nv = head;
                            let b = make_via_branch();
                            nv.append(b.as_str());
                            proof {
                                via = Some(nv@);
                                assert(fresh_branch(b@));
                                let c = choose|j: int| is_first_of_kind(s, HeaderKind::Via, j);
                                assert(is_first_of_kind(s, HeaderKind::Via, i as int));
                                assert(c == i);
                            }
                            headers.set(i, Header::Via(nv));
                            proof {
                                assert(hviews(headers@) =~= with_via(s, via));
                            }
                        },
                        Err(_) => {},
                    }
                },
                None => {},
            }
        }
        proof {
            assert(ack_via_ok(s, two_xx, via));
            assert(hviews(headers@) =~= with_via(s, via));
        }
        let ghost base = headers@;
        let mut i = resp.headers.len();
        while i > 0
            invariant
                i <= s.len(),
                s == resp.headers@,
                headers@ + rev_routes(s, i as int) == base + rev_routes(s, s.len() as int),
            decreases i,
        {
            let ghost before = headers@;
            match &resp.headers[i - 1] {
                Header::RecordRoute(v) => {
                    headers.push(Header::Route(v.clone()));
                    proof {
                        assert(headers@ + rev_routes(s, i - 1) =~= before + rev_routes(s, i as int));
                    }
                },
                _ => {
                    proof {
                        assert(rev_routes(s, i as int) == rev_routes(s, i - 1));
                    }
                },
            }
            i = i - 1;
        }
        proof {
            assert(headers@ =~= base + rev_routes(s, s.len() as int));
            assert(hviews(headers@) =~= with_via(s, via) + hviews(rev_routes(s, s.len() as int)));
        }
        let ghost all = hviews(headers@);
        let mut kinds: Vec<HeaderKind> = Vec::new();
        kinds.push(HeaderKind::Via);
        kinds.push(HeaderKind::CallId);
        kinds.push(HeaderKind::From);
        kinds.push(HeaderKind::To);
        kinds.push(HeaderKind::CSeq);
        kinds.push(HeaderKind::Route);
        proof {
            assert(kinds@ =~= ack_kinds());
        }
        let mut out: Vec<Header> = Vec::new();
        let mut j: usize = 0;
        while j < headers.len()
            invariant
                all == hviews(headers@),
                kinds@ == ack_kinds(),
                j <= headers@.len(),
                hviews(out@) == all.take(j as int).filter(|p: (HeaderKind, Seq<char>)| kept_in_ack(p)).map_values(
                    |p: (HeaderKind, Seq<char>)| cseq_to_ack(p),
                ),
            decreases headers@.len() - j,
        {
            let h = &headers[j];
            proof {
                reveal(Seq::filter);
                assert(all.take(j as int + 1).drop_last() =~= all.take(j as int));
                assert(all.take(j as int + 1).last() == hview(*h));
            }
            let ghost before = out@;
            if crate::message::kinds_contain(&kinds, h.kind()) {
                let kept = match h {
                    Header::CSeq(v) => match cseq_fields(v) {
                        Ok((n, _)) => Header::CSeq(format_cseq(n, Method::Ack)),
                        Err(_) => h.duplicate(),
                    },
                    _ => h.duplicate(),
                };
                out.push(kept);
                proof {
                    assert(hview(kept) == cseq_to_ack(hview(*h)));
                    assert(hviews(out@) =~= hviews(before).push(cseq_to_ack(hview(*h))));
                }
            }
            j = j + 1;
        }
        proof {
            assert(all.take(headers@.len() as int) =~= all);
        }
        let ghost kept_views = hviews(out@);
        out.push(Header::MaxForwards(String::from_str("70")));
        out.push(Header::ContentLength(String::from_str("0")));
        out.push(Header::UserAgent(self.user_agent.clone()));
        proof {
            reveal_strlit("70");
            reveal_strlit("0");
            assert(hviews(out@) =~= kept_views.push((HeaderKind::MaxForwards, "70"@)).push(
                (HeaderKind::ContentLength, "0"@),
            ).push((HeaderKind::UserAgent, self.user_agent@)));
        }
        Ok(Request { method: Method::Ack, uri, headers: out, body: Vec::new() })
    }
}

} // verus!
