//! Transaction keys: the string that identifies a transaction, built from the
//! role, the method, the CSeq number, the Call-ID, the From tag and the Via
//! branch (or, without a branch, the Via sent-by part).
use crate::error::Error;
use crate::header_values::{cseq_fields, from_tag, via_fields, spec_cseq_fields, spec_from_tag, spec_via_fields};
use crate::message::{first_header_value, first_value, HeaderKind, Method, Request, Response};
use crate::text::{decimal, decimal_string};
use vstd::prelude::*;

verus! {

/// Which side of a transaction the key is for.
#[derive(Debug, Clone, Copy, PartialEq, Eq, Hash, Structural)]
pub enum TransactionRole {
    Client,
    Server,
}

impl TransactionRole {
    /// `c` for a client, `s` for a server.
    pub open spec fn spec_name(self) -> Seq<char> {
        match self {
            TransactionRole::Client => "c"@,
            TransactionRole::Server => "s"@,
        }
    }

    /// `c` for a client, `s` for a server.
    pub fn to_string(&self) -> (s: String)
        ensures
            s@ == self.spec_name(),
    {
        match self {
            TransactionRole::Client => String::from_str("c"),
            TransactionRole::Server => String::from_str("s"),
        }
    }
}

/// The identifier of a transaction.
#[derive(Debug, Clone, PartialEq, Eq, Hash)]
pub struct TransactionKey(String);

impl View for TransactionKey {
    type V = Seq<char>;

    closed spec fn view(&self) -> Seq<char> {
        self.0@
    }
}

/// The key text: `<role>.<METHOD>_<cseq>_<call-id>_<from-tag>_<branch>`, or, for
/// a Via without a branch, `<role>.<METHOD>_<cseq>_<call-id>_<from-tag>_<sent-by>.2543`.
pub open spec fn spec_build_key(
    role: TransactionRole,
    branch: Option<Seq<char>>,
    sent_by: Seq<char>,
    method: Method,
    cseq: u32,
    from_tag: Seq<char>,
    call_id: Seq<char>,
) -> Seq<char> {
    let head = role.spec_name() + "."@ + method.spec_name() + "_"@ + decimal(cseq as nat) + "_"@
        + call_id + "_"@ + from_tag + "_"@;
    match branch {
        Some(b) => head + b,
        None => head + sent_by + ".2543"@,
    }
}

/// Why a key cannot be built from a message.
#[derive(Debug, Clone, Copy, PartialEq, Eq, Structural)]
pub enum KeyFault {
    /// The Via header is missing or does not parse.
    Via,
    /// The From header is missing or does not parse.
    From,
    /// The From header has no tag.
    FromTagMissing,
    /// The Call-ID header is missing.
    CallId,
    /// The CSeq header is missing or does not parse.
    CSeq,
    /// The CSeq method is not a known method.
    CSeqMethod,
}

/// The key of a message with the given headers, for `method` (the request's
/// method, or `None` to take the method from the CSeq header), checking the
/// headers in the order Via, From, Call-ID, CSeq.
pub open spec fn spec_key_of(
    headers: Seq<crate::message::Header>,
    role: TransactionRole,
    method: Option<Method>,
) -> Result<Seq<char>, KeyFault> {
    match first_value(headers, HeaderKind::Via) {
        None => Err(KeyFault::Via),
        Some(via_value) => match spec_via_fields(via_value) {
            None => Err(KeyFault::Via),
            Some((branch, sent_by)) => {
                if method is None {
                    key_cseq_first(headers, role, branch, sent_by)
                } else {
                    key_from_first(headers, role, branch, sent_by, method->0)
                }
            },
        },
    }
}

/// The request case: From tag, Call-ID, then the CSeq number.
pub open spec fn key_from_first(
    headers: Seq<crate::message::Header>,
    role: TransactionRole,
    branch: Option<Seq<char>>,
    sent_by: Seq<char>,
    method: Method,
) -> Result<Seq<char>, KeyFault> {
    match first_value(headers, HeaderKind::From) {
        None => Err(KeyFault::From),
        Some(from_value) => match spec_from_tag(from_value) {
            None => Err(KeyFault::From),
            Some(None) => Err(KeyFault::FromTagMissing),
            Some(Some(tag)) => match first_value(headers, HeaderKind::CallId) {
                None => Err(KeyFault::CallId),
                Some(call_id) => match first_value(headers, HeaderKind::CSeq) {
                    None => Err(KeyFault::CSeq),
                    Some(cseq_value) => match spec_cseq_fields(cseq_value) {
                        None => Err(KeyFault::CSeq),
                        Some((n, _)) => Ok(
                            spec_build_key(role, branch, sent_by, method, n, tag, call_id),
                        ),
                    },
                },
            },
        },
    }
}

/// The response case: the CSeq (number and method), From tag, then Call-ID.
pub open spec fn key_cseq_first(
    headers: Seq<crate::message::Header>,
    role: TransactionRole,
    branch: Option<Seq<char>>,
    sent_by: Seq<char>,
) -> Result<Seq<char>, KeyFault> {
    match first_value(headers, HeaderKind::CSeq) {
        None => Err(KeyFault::CSeq),
        Some(cseq_value) => match spec_cseq_fields(cseq_value) {
            None => Err(KeyFault::CSeq),
            Some((n, method_name)) => {
                match Method::spec_from_name(method_name) {
                    None => Err(KeyFault::CSeqMethod),
                    Some(method) => match first_value(headers, HeaderKind::From) {
                        None => Err(KeyFault::From),
                        Some(from_value) => match spec_from_tag(from_value) {
                            None => Err(KeyFault::From),
                            Some(None) => Err(KeyFault::FromTagMissing),
                            Some(Some(tag)) => match first_value(headers, HeaderKind::CallId) {
                                None => Err(KeyFault::CallId),
                                Some(call_id) => Ok(
                                    spec_build_key(role, branch, sent_by, method, n, tag, call_id),
                                ),
                            },
                        },
                    },
                }
            },
        },
    }
}

/// The method under which a request is keyed: a server keys ACK and CANCEL
/// under the INVITE transaction they belong to.
pub open spec fn keyed_method(method: Method, role: TransactionRole) -> Method {
    if (method == Method::Ack || method == Method::Cancel) && role == TransactionRole::Server {
        Method::Invite
    } else {
        method
    }
}

/// The CSeq header of the headers parses and names the method `m`.
pub open spec fn cseq_names(headers: Seq<crate::message::Header>, m: Method) -> bool {
    match first_value(headers, HeaderKind::CSeq) {
        Some(v) => match spec_cseq_fields(v) {
            Some((_, name)) => Method::spec_from_name(name) == Some(m),
            None => false,
        },
        None => false,
    }
}

/// The sequence number of the CSeq header, when it parses.
pub open spec fn cseq_number(headers: Seq<crate::message::Header>) -> Option<u32> {
    match first_value(headers, HeaderKind::CSeq) {
        Some(v) => match spec_cseq_fields(v) {
            Some((n, _)) => Some(n),
            None => None,
        },
        None => None,
    }
}

/// The headers a key is read from are the same in both lists.
pub open spec fn same_key_headers(a: Seq<crate::message::Header>, b: Seq<crate::message::Header>) -> bool {
    &&& first_value(a, HeaderKind::Via) == first_value(b, HeaderKind::Via)
    &&& first_value(a, HeaderKind::From) == first_value(b, HeaderKind::From)
    &&& first_value(a, HeaderKind::CallId) == first_value(b, HeaderKind::CallId)
}

/// A response that carries its request's Via, From, Call-ID and CSeq
/// headers is filed under the request's transaction: the key read from the
/// response (method from the CSeq) is the key of the request, for either
/// role, whether it is a key or a fault.
pub proof fn lemma_response_finds_request(
    request: Seq<crate::message::Header>,
    response: Seq<crate::message::Header>,
    method: Method,
    role: TransactionRole,
)
    requires
        same_key_headers(request, response),
        first_value(request, HeaderKind::CSeq) == first_value(response, HeaderKind::CSeq),
        cseq_names(request, method),
    ensures
        spec_key_of(response, role, None) == spec_key_of(request, role, Some(method)),
{
}

/// Requests keyed under the same method (an ACK or a CANCEL under its
/// INVITE, on the server side) with the same Via, From, Call-ID and CSeq
/// number are filed under the same transaction.
pub proof fn lemma_same_keyed_method(
    a: Seq<crate::message::Header>,
    b: Seq<crate::message::Header>,
    method_a: Method,
    method_b: Method,
    role: TransactionRole,
)
    requires
        same_key_headers(a, b),
        cseq_number(a) == cseq_number(b),
        keyed_method(method_a, role) == keyed_method(method_b, role),
    ensures
        spec_key_of(a, role, Some(keyed_method(method_a, role))) == spec_key_of(
            b,
            role,
            Some(keyed_method(method_b, role)),
        ),
{
}

/// Every built key starts with its role's letter and a dot.
pub proof fn lemma_build_key_role(
    role: TransactionRole,
    branch: Option<Seq<char>>,
    sent_by: Seq<char>,
    method: Method,
    cseq: u32,
    from_tag: Seq<char>,
    call_id: Seq<char>,
)
    ensures
        ({
            let k = spec_build_key(role, branch, sent_by, method, cseq, from_tag, call_id);
            &&& k.len() >= 2
            &&& k[0] == (if role == TransactionRole::Client { 'c' } else { 's' })
            &&& k[1] == '.'
        }),
{
    reveal_strlit("c");
    reveal_strlit("s");
    reveal_strlit(".");
    let k = spec_build_key(role, branch, sent_by, method, cseq, from_tag, call_id);
    let p = role.spec_name() + "."@;
    assert(p.len() == 2 && p[0] == role.spec_name()[0] && p[1] == '.');
    let head = role.spec_name() + "."@ + method.spec_name() + "_"@ + decimal(cseq as nat) + "_"@ + call_id + "_"@
        + from_tag + "_"@;
    assert(head.len() >= 2 && head[0] == p[0] && head[1] == p[1]);
    assert(k.len() >= 2 && k[0] == head[0] && k[1] == head[1]);
}

/// A message is filed under a key of its role: a key read for the client
/// side starts with `c.` and one read for the server side with `s.`, so the
/// client and the server transaction of the same request never share a key.
/// Reading the same headers again gives the same key.
pub proof fn lemma_roles_give_different_keys(
    headers: Seq<crate::message::Header>,
    client_method: Option<Method>,
    server_method: Option<Method>,
)
    requires
        spec_key_of(headers, TransactionRole::Client, client_method) is Ok,
        spec_key_of(headers, TransactionRole::Server, server_method) is Ok,
    ensures
        spec_key_of(headers, TransactionRole::Client, client_method)->Ok_0[0] == 'c',
        spec_key_of(headers, TransactionRole::Server, server_method)->Ok_0[0] == 's',
        spec_key_of(headers, TransactionRole::Client, client_method)->Ok_0 != spec_key_of(
            headers,
            TransactionRole::Server,
            server_method,
        )->Ok_0,
{
    let (branch, sent_by) = spec_via_fields(first_value(headers, HeaderKind::Via)->0)->0;
    let tag = spec_from_tag(first_value(headers, HeaderKind::From)->0)->0->0;
    let call_id = first_value(headers, HeaderKind::CallId)->0;
    let (n, name) = spec_cseq_fields(first_value(headers, HeaderKind::CSeq)->0)->0;
    let cm = if client_method is Some { client_method->0 } else { Method::spec_from_name(name)->0 };
    let sm = if server_method is Some { server_method->0 } else { Method::spec_from_name(name)->0 };
    lemma_build_key_role(TransactionRole::Client, branch, sent_by, cm, n, tag, call_id);
    lemma_build_key_role(TransactionRole::Server, branch, sent_by, sm, n, tag, call_id);
    assert(spec_key_of(headers, TransactionRole::Client, client_method) == Ok::<Seq<char>, KeyFault>(
        spec_build_key(TransactionRole::Client, branch, sent_by, cm, n, tag, call_id),
    ));
    assert(spec_key_of(headers, TransactionRole::Server, server_method) == Ok::<Seq<char>, KeyFault>(
        spec_build_key(TransactionRole::Server, branch, sent_by, sm, n, tag, call_id),
    ));
}

/// The error that a key fault is reported as.
pub open spec fn fault_error_matches(fault: KeyFault, e: Error) -> bool {
    match fault {
        KeyFault::FromTagMissing => e is Error && e->Error_0@ == "from tags missing"@,
        _ => e is SipMessageError,
    }
}

impl TransactionKey {
    /// The key text.
    pub fn to_string(&self) -> (s: String)
        ensures
            s@ == self@,
    {
        self.0.clone()
    }

    /// The key text.
    pub fn as_str(&self) -> (s: &str)
        ensures
            s@ == self@,
    {
        self.0.as_str()
    }

    /// Whether two keys are the same.
    pub fn same(&self, other: &TransactionKey) -> (r: bool)
        ensures
            r == (self@ == other@),
    {
        self.0 == other.0
    }

    /// A copy of the key.
    pub fn duplicate(&self) -> (k: TransactionKey)
        ensures
            k == *self,
    {
        TransactionKey(self.0.clone())
    }

    /// The key of a request for the given role. A server keys ACK and CANCEL
    /// requests under INVITE. Fails, in this order, when the Via header is
    /// missing or unreadable, the From header is missing, unreadable or has no
    /// tag, the Call-ID header is missing, or the CSeq header is missing or
    /// unreadable.
    pub fn from_request(req: &Request, role: TransactionRole) -> (r: Result<TransactionKey, Error>)
        ensures
            r is Ok <==> spec_key_of(req.headers@, role, Some(keyed_method(req.method, role))) is Ok,
            r matches Ok(k) ==> spec_key_of(req.headers@, role, Some(keyed_method(req.method, role)))
                == Ok::<Seq<char>, KeyFault>(k@),
            r matches Err(e) ==> fault_error_matches(
                spec_key_of(req.headers@, role, Some(keyed_method(req.method, role)))->Err_0,
                e,
            ),
    {
        let (branch, sent_by) = Self::read_via(&req.headers)?;
        let method = if (req.method == Method::Ack || req.method == Method::Cancel) && role
            == TransactionRole::Server {
            Method::Invite
        } else {
            req.method
        };
        let tag = Self::read_from_tag(&req.headers)?;
        let call_id = match first_header_value(&req.headers, HeaderKind::CallId) {
            Some(c) => c,
            None => return Err(Error::SipMessageError(String::from_str("missing header: CallID"))),
        };
        let cseq = match first_header_value(&req.headers, HeaderKind::CSeq) {
            Some(c) => c,
            None => return Err(Error::SipMessageError(String::from_str("missing header: CSeq"))),
        };
        let (seq, _m) = match cseq_fields(cseq) {
            Ok(f) => f,
            Err(e) => return Err(Error::SipMessageError(e)),
        };
        Ok(Self::build_key(role, &branch, &sent_by, method, seq, &tag, call_id))
    }

    /// The key of a response for the given role, keyed under the method of its
    /// CSeq header. Fails, in this order, when the Via header is missing or
    /// unreadable, the CSeq header is missing, unreadable or names an unknown
    /// method, the From header is missing, unreadable or has no tag, or the
    /// Call-ID header is missing.
    pub fn from_response(resp: &Response, role: TransactionRole) -> (r: Result<TransactionKey, Error>)
        ensures
            r is Ok <==> spec_key_of(resp.headers@, role, None) is Ok,
            r matches Ok(k) ==> spec_key_of(resp.headers@, role, None) == Ok::<Seq<char>, KeyFault>(k@),
            r matches Err(e) ==> fault_error_matches(spec_key_of(resp.headers@, role, None)->Err_0, e),
    {
        let (branch, sent_by) = Self::read_via(&resp.headers)?;
        let cseq = match first_header_value(&resp.headers, HeaderKind::CSeq) {
            Some(c) => c,
            None => return Err(Error::SipMessageError(String::from_str("missing header: CSeq"))),
        };
        let (seq, method_name) = match cseq_fields(cseq) {
            Ok(f) => f,
            Err(e) => return Err(Error::SipMessageError(e)),
        };
        let method = match Method::from_name(method_name.as_str()) {
            Some(m) => m,
            None => return Err(Error::SipMessageError(method_name)),
        };
        let tag = Self::read_from_tag(&resp.headers)?;
        let call_id = match first_header_value(&resp.headers, HeaderKind::CallId) {
            Some(c) => c,
            None => return Err(Error::SipMessageError(String::from_str("missing header: CallID"))),
        };
        Ok(Self::build_key(role, &branch, &sent_by, method, seq, &tag, call_id))
    }

    /// The branch and sent-by part of the first Via header.
    fn read_via(headers: &Vec<crate::message::Header>) -> (r: Result<(Option<String>, String), Error>)
        ensures
            r matches Ok((b, s)) ==> first_value(headers@, HeaderKind::Via) matches Some(v)
                && spec_via_fields(v) == Some((crate::header_values::opt_view(b), s@)),
            r matches Err(e) ==> e is SipMessageError && (first_value(headers@, HeaderKind::Via) is None
                || spec_via_fields(first_value(headers@, HeaderKind::Via)->0) is None),
    {
        let via = match first_header_value(headers, HeaderKind::Via) {
            Some(v) => v,
            None => return Err(Error::SipMessageError(String::from_str("missing header: Via"))),
        };
        match via_fields(via) {
            Ok(f) => Ok(f),
            Err(e) => Err(Error::SipMessageError(e)),
        }
    }

    /// The tag of the first From header, which must have one.
    fn read_from_tag(headers: &Vec<crate::message::Header>) -> (r: Result<String, Error>)
        ensures
            r matches Ok(t) ==> first_value(headers@, HeaderKind::From) matches Some(v)
                && spec_from_tag(v) == Some(Some(t@)),
            r matches Err(e) ==> match first_value(headers@, HeaderKind::From) {
                None => e is SipMessageError,
                Some(v) => match spec_from_tag(v) {
                    None => e is SipMessageError,
                    Some(None) => e is Error && e->Error_0@ == "from tags missing"@,
                    Some(Some(_)) => false,
                },
            },
    {
        let from = match first_header_value(headers, HeaderKind::From) {
            Some(v) => v,
            None => return Err(Error::SipMessageError(String::from_str("missing header: From"))),
        };
        match from_tag(from) {
            Ok(Some(t)) => Ok(t),
            Ok(None) => Err(Error::Error(String::from_str("from tags missing"))),
            Err(e) => Err(Error::SipMessageError(e)),
        }
    }

    /// Builds the key text from its parts.
    pub fn build_key(
        role: TransactionRole,
        branch: &Option<String>,
        sent_by: &String,
        method: Method,
        cseq: u32,
        from_tag: &String,
        call_id: &String,
    ) -> (k: TransactionKey)
        ensures
            k@ == spec_build_key(
                role,
                crate::header_values::opt_view(*branch),
                sent_by@,
                method,
                cseq,
                from_tag@,
                call_id@,
            ),
    {
        let mut key = role.to_string();
        key.append(".");
        key.append(method.name());
        key.append("_");
        let n = decimal_string(cseq as u64);
        key.append(n.as_str());
        key.append("_");
        key.append(call_id.as_str());
        key.append("_");
        key.append(from_tag.as_str());
        key.append("_");
        match branch {
            Some(b) => {
                key.append(b.as_str());
            },
            None => {
                key.append(sent_by.as_str());
                key.append(".2543");
            },
        }
        TransactionKey(key)
    }
}

} // verus!
