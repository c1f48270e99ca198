//! How the endpoint builds requests, responses and ACKs (RFC 3261, sections
//! 8.1.1, 8.2.6 and 17.1.1.3).
use super::endpoint::EndpointInner;
use super::key::{cseq_names, lemma_response_finds_request, same_key_headers, spec_key_of, TransactionRole};
use super::{is_alphanumeric, make_call_id};
use crate::message::{
    drop_kinds, filter_kinds, first_value, keep_kinds, lemma_first_value_keep, lemma_first_value_push,
    unique_push, Header, HeaderKind, Method, Request, Response,
};
use crate::text::{decimal, decimal_string};
use vstd::prelude::*;

verus! {

/// The kinds of request header a response copies: Via, Call-ID, From, To,
/// CSeq and Max-Forwards.
pub open spec fn response_copied_kinds() -> Seq<HeaderKind> {
    seq![HeaderKind::Via, HeaderKind::CallId, HeaderKind::From, HeaderKind::To, HeaderKind::CSeq, HeaderKind::MaxForwards]
}

/// The CSeq value for a sequence number and a method: `<seq> <METHOD>`.
pub open spec fn cseq_value(seq: u32, method: Method) -> Seq<char> {
    decimal(seq as nat) + " "@ + method.spec_name()
}

/// Formats a CSeq value.
pub fn format_cseq(seq: u32, method: Method) -> (s: String)
    ensures
        s@ == cseq_value(seq, method),
{
    let mut s = decimal_string(seq as u64);
    s.append(" ");
    s.append(method.name());
    s
}

/// The length of an optional body, as a Content-Length value counts it.
pub open spec fn body_len(body: Option<Vec<u8>>) -> u32 {
    match body {
        Some(b) => b@.len() as u32,
        None => 0,
    }
}

/// A Content-Length value for an optional body.
pub fn content_length_of(body: &Option<Vec<u8>>) -> (s: String)
    ensures
        s@ == decimal(body_len(*body) as nat),
{
    let n: u32 = match body {
        Some(b) => b.len() as u32,
        None => 0,
    };
    decimal_string(n as u64)
}

/// The headers of a response to a request with headers `req`: the Via,
/// Call-ID, From, To, CSeq and Max-Forwards headers copied in order, then a
/// User-Agent with value `ua`; every other request header is left out.
pub open spec fn response_headers_shape(r: Seq<Header>, req: Seq<Header>, ua: Seq<char>) -> bool {
    let base = keep_kinds(req, response_copied_kinds());
    &&& r.len() == base.len() + 1
    &&& r.subrange(0, base.len() as int) == base
    &&& r[base.len() as int] is UserAgent && r[base.len() as int].spec_value() == ua
}

/// `r` is the reply, without a body, that an endpoint with User-Agent `ua`
/// builds to `req` with status `status`.
pub open spec fn is_reply(r: Response, req: Request, status: u16, ua: Seq<char>) -> bool {
    &&& r.status_code == status
    &&& r.body@.len() == 0
    &&& response_headers_shape(r.headers@, req.headers@, ua)
}

/// A response made to a request (see `response_headers_shape`) carries the
/// request's Via, Call-ID, From, To, CSeq and Max-Forwards values as the
/// first of their kind.
pub proof fn lemma_reply_keeps_first_values(r: Seq<Header>, req: Seq<Header>, ua: Seq<char>, k: HeaderKind)
    requires
        response_headers_shape(r, req, ua),
        response_copied_kinds().contains(k),
    ensures
        first_value(r, k) == first_value(req, k),
{
    let base = keep_kinds(req, response_copied_kinds());
    let b = base.len() as int;
    assert(r =~= base.push(r[b]));
    lemma_first_value_keep(req, response_copied_kinds(), k);
    lemma_first_value_push(base, r[b], k);
}

/// A response the endpoint makes to a request is filed under the request's
/// client transaction: its key (method from its CSeq) is the request's key.
pub proof fn lemma_reply_finds_request(
    r: Seq<Header>,
    req: Seq<Header>,
    ua: Seq<char>,
    method: Method,
    role: TransactionRole,
)
    requires
        response_headers_shape(r, req, ua),
        cseq_names(req, method),
    ensures
        spec_key_of(r, role, None) == spec_key_of(req, role, Some(method)),
{
    assert(response_copied_kinds().contains(HeaderKind::Via)) by {
        assert(response_copied_kinds()[0] == HeaderKind::Via);
    }
    assert(response_copied_kinds().contains(HeaderKind::CallId)) by {
        assert(response_copied_kinds()[1] == HeaderKind::CallId);
    }
    assert(response_copied_kinds().contains(HeaderKind::From)) by {
        assert(response_copied_kinds()[2] == HeaderKind::From);
    }
    assert(response_copied_kinds().contains(HeaderKind::CSeq)) by {
        assert(response_copied_kinds()[4] == HeaderKind::CSeq);
    }
    lemma_reply_keeps_first_values(r, req, ua, HeaderKind::Via);
    lemma_reply_keeps_first_values(r, req, ua, HeaderKind::CallId);
    lemma_reply_keeps_first_values(r, req, ua, HeaderKind::From);
    lemma_reply_keeps_first_values(r, req, ua, HeaderKind::CSeq);
    assert(same_key_headers(req, r));
    lemma_response_finds_request(req, r, method, role);
}

/// No header of the list has kind `k`.
pub open spec fn lacks_kind(s: Seq<Header>, k: HeaderKind) -> bool {
    forall|i: int| 0 <= i < s.len() ==> (#[trigger] s[i]).spec_kind() != k
}

/// Dropping a kind that no header has changes nothing.
pub proof fn lemma_drop_absent_kind(s: Seq<Header>, k: HeaderKind)
    requires
        lacks_kind(s, k),
    ensures
        drop_kinds(s, seq![k]) == s,
    decreases s.len(),
{
    reveal(Seq::filter);
    if s.len() > 0 {
        assert(lacks_kind(s.drop_last(), k)) by {
            assert forall|i: int| 0 <= i < s.drop_last().len() implies (#[trigger] s.drop_last()[i]).spec_kind() != k by {
                assert(s.drop_last()[i] == s[i]);
            }
        }
        lemma_drop_absent_kind(s.drop_last(), k);
        assert(!seq![k].contains(s.last().spec_kind())) by {
            assert(s.last() == s[s.len() - 1]);
            if seq![k].contains(s.last().spec_kind()) {
                let j = choose|j: int| 0 <= j < 1 && seq![k][j] == s.last().spec_kind();
            }
        }
        assert(s.drop_last().push(s.last()) == s);
    }
}

/// Every header kept by a filter on kinds has one of the kinds.
pub proof fn lemma_keep_kinds_only(s: Seq<Header>, kinds: Seq<HeaderKind>, k: HeaderKind)
    requires
        !kinds.contains(k),
    ensures
        lacks_kind(keep_kinds(s, kinds), k),
{
    let pred = |h: Header| kinds.contains(h.spec_kind());
    assert forall|i: int| 0 <= i < keep_kinds(s, kinds).len() implies (#[trigger] keep_kinds(s, kinds)[i]).spec_kind() != k by {
        s.lemma_filter_pred(pred, i);
    }
}

impl EndpointInner {
    /// A request with the mandatory headers, in this order: Via, a fresh
    /// Call-ID (twenty-two random letters and digits, `@`, and the configured
    /// domain or `restsend.com`), From, To, CSeq, Max-Forwards 70 and
    /// User-Agent; with no body.
    pub fn make_request(
        &self,
        method: Method,
        req_uri: String,
        via: String,
        from: String,
        to: String,
        seq: u32,
    ) -> (r: Request)
        ensures
            r.method == method,
            r.uri@ == req_uri@,
            r.body@.len() == 0,
            r.headers@.len() == 7,
            r.headers@[0] == Header::Via(via),
            r.headers@[1] is CallId,
            r.headers@[2] == Header::From(from),
            r.headers@[3] == Header::To(to),
            r.headers@[4] is CSeq && r.headers@[4].spec_value() == cseq_value(seq, method),
            r.headers@[5] is MaxForwards && r.headers@[5].spec_value() == "70"@,
            r.headers@[6] is UserAgent && r.headers@[6].spec_value() == self.user_agent@,
            r.headers@[1].spec_value().len() >= 23,
            forall|i: int| 0 <= i < 22 ==> is_alphanumeric(#[trigger] r.headers@[1].spec_value()[i]),
            r.headers@[1].spec_value()[22] == '@',
            self.option.callid_suffix matches Some(d) ==> r.headers@[1].spec_value().skip(23) == d@,
            self.option.callid_suffix is None ==> r.headers@[1].spec_value().skip(23) == "restsend.com"@,
    {
        let call_id = match &self.option.callid_suffix {
            Some(d) => make_call_id(Some(d.as_str())),
            None => make_call_id(None),
        };
        let mut headers: Vec<Header> = Vec::new();
        headers.push(Header::Via(via));
        headers.push(Header::CallId(call_id));
        headers.push(Header::From(from));
        headers.push(Header::To(to));
        headers.push(Header::CSeq(format_cseq(seq, method)));
        headers.push(Header::MaxForwards(String::from_str("70")));
        headers.push(Header::UserAgent(self.user_agent.clone()));
        Request { method, uri: req_uri, headers, body: Vec::new() }
    }

    /// A response to `req`: its Via, Call-ID, From, To, CSeq and
    /// Max-Forwards headers in order, then the endpoint's User-Agent; every
    /// other request header is left out, and no Content-Length is added.
    pub fn make_response(&self, req: &Request, status_code: u16, body: Option<Vec<u8>>) -> (r: Response)
        ensures
            r.status_code == status_code,
            r.body@ == match body {
                Some(b) => b@,
                None => Seq::<u8>::empty(),
            },
            response_headers_shape(r.headers@, req.headers@, self.user_agent@),
    {
        let mut kinds: Vec<HeaderKind> = Vec::new();
        kinds.push(HeaderKind::Via);
        kinds.push(HeaderKind::CallId);
        kinds.push(HeaderKind::From);
        kinds.push(HeaderKind::To);
        kinds.push(HeaderKind::CSeq);
        kinds.push(HeaderKind::MaxForwards);
        proof {
            assert(kinds@ == response_copied_kinds());
        }
        let copied = crate::message::copy_headers(&req.headers);
        let headers = filter_kinds(copied, &kinds, true);
        let ghost base = headers@;
        proof {
            lemma_keep_kinds_only(req.headers@, response_copied_kinds(), HeaderKind::UserAgent);
            lemma_drop_absent_kind(base, HeaderKind::UserAgent);
        }
        let headers = unique_push(headers, Header::UserAgent(self.user_agent.clone()));
        proof {
            assert(headers@.subrange(0, base.len() as int) =~= base);
        }
        let body = match body {
            Some(b) => b,
            None => Vec::new(),
        };
        Response { status_code, headers, body }
    }
}

} // verus!
