//! SIP messages as plain values: requests, responses, their headers, methods
//! and status codes, and the transport address a message is sent to.
use crate::text::str_eq;
use vstd::prelude::*;

verus! {

/// A SIP request method.
#[derive(Debug, Clone, Copy, PartialEq, Eq, Structural)]
pub enum Method {
    Ack,
    Bye,
    Cancel,
    Info,
    Invite,
    Message,
    Notify,
    Options,
    PRack,
    Publish,
    Refer,
    Register,
    Subscribe,
    Update,
}

impl Method {
    /// The method's name as it stands on the wire.
    pub open spec fn spec_name(self) -> Seq<char> {
        match self {
            Method::Ack => "ACK"@,
            Method::Bye => "BYE"@,
            Method::Cancel => "CANCEL"@,
            Method::Info => "INFO"@,
            Method::Invite => "INVITE"@,
            Method::Message => "MESSAGE"@,
            Method::Notify => "NOTIFY"@,
            Method::Options => "OPTIONS"@,
            Method::PRack => "PRACK"@,
            Method::Publish => "PUBLISH"@,
            Method::Refer => "REFER"@,
            Method::Register => "REGISTER"@,
            Method::Subscribe => "SUBSCRIBE"@,
            Method::Update => "UPDATE"@,
        }
    }

    /// The method's name as it stands on the wire.
    pub fn name(&self) -> (s: &'static str)
        ensures
            s@ == self.spec_name(),
    {
        match self {
            Method::Ack => "ACK",
            Method::Bye => "BYE",
            Method::Cancel => "CANCEL",
            Method::Info => "INFO",
            Method::Invite => "INVITE",
            Method::Message => "MESSAGE",
            Method::Notify => "NOTIFY",
            Method::Options => "OPTIONS",
            Method::PRack => "PRACK",
            Method::Publish => "PUBLISH",
            Method::Refer => "REFER",
            Method::Register => "REGISTER",
            Method::Subscribe => "SUBSCRIBE",
            Method::Update => "UPDATE",
        }
    }

    /// The method whose wire name is `name`, if there is one.
    pub open spec fn spec_from_name(name: Seq<char>) -> Option<Method> {
        if name == "ACK"@ {
            Some(Method::Ack)
        } else if name == "BYE"@ {
            Some(Method::Bye)
        } else if name == "CANCEL"@ {
            Some(Method::Cancel)
        } else if name == "INFO"@ {
            Some(Method::Info)
        } else if name == "INVITE"@ {
            Some(Method::Invite)
        } else if name == "MESSAGE"@ {
            Some(Method::Message)
        } else if name == "NOTIFY"@ {
            Some(Method::Notify)
        } else if name == "OPTIONS"@ {
            Some(Method::Options)
        } else if name == "PRACK"@ {
            Some(Method::PRack)
        } else if name == "PUBLISH"@ {
            Some(Method::Publish)
        } else if name == "REFER"@ {
            Some(Method::Refer)
        } else if name == "REGISTER"@ {
            Some(Method::Register)
        } else if name == "SUBSCRIBE"@ {
            Some(Method::Subscribe)
        } else if name == "UPDATE"@ {
            Some(Method::Update)
        } else {
            None
        }
    }

    /// The method whose wire name is `s`, if there is one.
    pub fn from_name(s: &str) -> (m: Option<Method>)
        ensures
            m == Method::spec_from_name(s@),
    {
        if str_eq(s, "ACK") {
            Some(Method::Ack)
        } else if str_eq(s, "BYE") {
            Some(Method::Bye)
        } else if str_eq(s, "CANCEL") {
            Some(Method::Cancel)
        } else if str_eq(s, "INFO") {
            Some(Method::Info)
        } else if str_eq(s, "INVITE") {
            Some(Method::Invite)
        } else if str_eq(s, "MESSAGE") {
            Some(Method::Message)
        } else if str_eq(s, "NOTIFY") {
            Some(Method::Notify)
        } else if str_eq(s, "OPTIONS") {
            Some(Method::Options)
        } else if str_eq(s, "PRACK") {
            Some(Method::PRack)
        } else if str_eq(s, "PUBLISH") {
            Some(Method::Publish)
        } else if str_eq(s, "REFER") {
            Some(Method::Refer)
        } else if str_eq(s, "REGISTER") {
            Some(Method::Register)
        } else if str_eq(s, "SUBSCRIBE") {
            Some(Method::Subscribe)
        } else if str_eq(s, "UPDATE") {
            Some(Method::Update)
        } else {
            None
        }
    }
}

/// The class of a status code.
#[derive(Debug, Clone, Copy, PartialEq, Eq, Structural)]
pub enum StatusCodeKind {
    Provisional,
    Successful,
    Redirection,
    RequestFailure,
    ServerFailure,
    GlobalFailure,
    Other,
}

/// The class of the status code `code`, by its hundreds.
pub open spec fn spec_status_kind(code: u16) -> StatusCodeKind {
    if 100 <= code < 200 {
        StatusCodeKind::Provisional
    } else if 200 <= code < 300 {
        StatusCodeKind::Successful
    } else if 300 <= code < 400 {
        StatusCodeKind::Redirection
    } else if 400 <= code < 500 {
        StatusCodeKind::RequestFailure
    } else if 500 <= code < 600 {
        StatusCodeKind::ServerFailure
    } else if 600 <= code < 700 {
        StatusCodeKind::GlobalFailure
    } else {
        StatusCodeKind::Other
    }
}

/// The class of the status code `code`.
pub fn status_kind(code: u16) -> (k: StatusCodeKind)
    ensures
        k == spec_status_kind(code),
{
    if 100 <= code && code < 200 {
        StatusCodeKind::Provisional
    } else if 200 <= code && code < 300 {
        StatusCodeKind::Successful
    } else if 300 <= code && code < 400 {
        StatusCodeKind::Redirection
    } else if 400 <= code && code < 500 {
        StatusCodeKind::RequestFailure
    } else if 500 <= code && code < 600 {
        StatusCodeKind::ServerFailure
    } else if 600 <= code && code < 700 {
        StatusCodeKind::GlobalFailure
    } else {
        StatusCodeKind::Other
    }
}

/// 100 Trying.
pub const TRYING: u16 = 100;
/// 180 Ringing.
pub const RINGING: u16 = 180;
/// 183 Session Progress.
pub const SESSION_PROGRESS: u16 = 183;
/// 200 OK.
pub const OK: u16 = 200;
/// 401 Unauthorized.
pub const UNAUTHORIZED: u16 = 401;
/// 405 Method Not Allowed.
pub const METHOD_NOT_ALLOWED: u16 = 405;
/// 407 Proxy Authentication Required.
pub const PROXY_AUTHENTICATION_REQUIRED: u16 = 407;
/// 408 Request Timeout.
pub const REQUEST_TIMEOUT: u16 = 408;
/// 486 Busy Here.
pub const BUSY_HERE: u16 = 486;
/// 487 Request Terminated.
pub const REQUEST_TERMINATED: u16 = 487;
/// 500 Server Internal Error.
pub const SERVER_INTERNAL_ERROR: u16 = 500;
/// 503 Service Unavailable.
pub const SERVICE_UNAVAILABLE: u16 = 503;
/// 603 Decline.
pub const DECLINE: u16 = 603;

/// The kind of a header, without its value.
#[derive(Debug, Clone, Copy, PartialEq, Eq, Structural)]
pub enum HeaderKind {
    Via,
    CallId,
    From,
    To,
    CSeq,
    Contact,
    ContentLength,
    ContentType,
    MaxForwards,
    UserAgent,
    Route,
    RecordRoute,
    ErrorInfo,
    WwwAuthenticate,
    ProxyAuthenticate,
    Authorization,
    ProxyAuthorization,
    Allow,
    Other,
}

/// A SIP header: its kind and its value as it stands on the wire. Headers
/// that have no kind of their own keep their name.
#[derive(Debug, Clone, PartialEq, Eq)]
pub enum Header {
    Via(String),
    CallId(String),
    From(String),
    To(String),
    CSeq(String),
    Contact(String),
    ContentLength(String),
    ContentType(String),
    MaxForwards(String),
    UserAgent(String),
    Route(String),
    RecordRoute(String),
    ErrorInfo(String),
    WwwAuthenticate(String),
    ProxyAuthenticate(String),
    Authorization(String),
    ProxyAuthorization(String),
    Allow(String),
    Other(String, String),
}

impl Header {
    pub open spec fn spec_kind(self) -> HeaderKind {
        match self {
            Header::Via(_) => HeaderKind::Via,
            Header::CallId(_) => HeaderKind::CallId,
            Header::From(_) => HeaderKind::From,
            Header::To(_) => HeaderKind::To,
            Header::CSeq(_) => HeaderKind::CSeq,
            Header::Contact(_) => HeaderKind::Contact,
            Header::ContentLength(_) => HeaderKind::ContentLength,
            Header::ContentType(_) => HeaderKind::ContentType,
            Header::MaxForwards(_) => HeaderKind::MaxForwards,
            Header::UserAgent(_) => HeaderKind::UserAgent,
            Header::Route(_) => HeaderKind::Route,
            Header::RecordRoute(_) => HeaderKind::RecordRoute,
            Header::ErrorInfo(_) => HeaderKind::ErrorInfo,
            Header::WwwAuthenticate(_) => HeaderKind::WwwAuthenticate,
            Header::ProxyAuthenticate(_) => HeaderKind::ProxyAuthenticate,
            Header::Authorization(_) => HeaderKind::Authorization,
            Header::ProxyAuthorization(_) => HeaderKind::ProxyAuthorization,
            Header::Allow(_) => HeaderKind::Allow,
            Header::Other(_, _) => HeaderKind::Other,
        }
    }

    /// The header's value.
    pub open spec fn spec_value(self) -> Seq<char> {
        match self {
            Header::Via(v) => v@,
            Header::CallId(v) => v@,
            Header::From(v) => v@,
            Header::To(v) => v@,
            Header::CSeq(v) => v@,
            Header::Contact(v) => v@,
            Header::ContentLength(v) => v@,
            Header::ContentType(v) => v@,
            Header::MaxForwards(v) => v@,
            Header::UserAgent(v) => v@,
            Header::Route(v) => v@,
            Header::RecordRoute(v) => v@,
            Header::ErrorInfo(v) => v@,
            Header::WwwAuthenticate(v) => v@,
            Header::ProxyAuthenticate(v) => v@,
            Header::Authorization(v) => v@,
            Header::ProxyAuthorization(v) => v@,
            Header::Allow(v) => v@,
            Header::Other(_, v) => v@,
        }
    }

    /// The header's kind.
    pub fn kind(&self) -> (k: HeaderKind)
        ensures
            k == self.spec_kind(),
    {
        match self {
            Header::Via(_) => HeaderKind::Via,
            Header::CallId(_) => HeaderKind::CallId,
            Header::From(_) => HeaderKind::From,
            Header::To(_) => HeaderKind::To,
            Header::CSeq(_) => HeaderKind::CSeq,
            Header::Contact(_) => HeaderKind::Contact,
            Header::ContentLength(_) => HeaderKind::ContentLength,
            Header::ContentType(_) => HeaderKind::ContentType,
            Header::MaxForwards(_) => HeaderKind::MaxForwards,
            Header::UserAgent(_) => HeaderKind::UserAgent,
            Header::Route(_) => HeaderKind::Route,
            Header::RecordRoute(_) => HeaderKind::RecordRoute,
            Header::ErrorInfo(_) => HeaderKind::ErrorInfo,
            Header::WwwAuthenticate(_) => HeaderKind::WwwAuthenticate,
            Header::ProxyAuthenticate(_) => HeaderKind::ProxyAuthenticate,
            Header::Authorization(_) => HeaderKind::Authorization,
            Header::ProxyAuthorization(_) => HeaderKind::ProxyAuthorization,
            Header::Allow(_) => HeaderKind::Allow,
            Header::Other(_, _) => HeaderKind::Other,
        }
    }

    /// The header's value.
    pub fn value(&self) -> (v: &String)
        ensures
            v@ == self.spec_value(),
    {
        match self {
            Header::Via(v) => v,
            Header::CallId(v) => v,
            Header::From(v) => v,
            Header::To(v) => v,
            Header::CSeq(v) => v,
            Header::Contact(v) => v,
            Header::ContentLength(v) => v,
            Header::ContentType(v) => v,
            Header::MaxForwards(v) => v,
            Header::UserAgent(v) => v,
            Header::Route(v) => v,
            Header::RecordRoute(v) => v,
            Header::ErrorInfo(v) => v,
            Header::WwwAuthenticate(v) => v,
            Header::ProxyAuthenticate(v) => v,
            Header::Authorization(v) => v,
            Header::ProxyAuthorization(v) => v,
            Header::Allow(v) => v,
            Header::Other(_, v) => v,
        }
    }

    /// A copy of the header.
    pub fn duplicate(&self) -> (h: Header)
        ensures
            h == *self,
    {
        match self {
            Header::Via(v) => Header::Via(v.clone()),
            Header::CallId(v) => Header::CallId(v.clone()),
            Header::From(v) => Header::From(v.clone()),
            Header::To(v) => Header::To(v.clone()),
            Header::CSeq(v) => Header::CSeq(v.clone()),
            Header::Contact(v) => Header::Contact(v.clone()),
            Header::ContentLength(v) => Header::ContentLength(v.clone()),
            Header::ContentType(v) => Header::ContentType(v.clone()),
            Header::MaxForwards(v) => Header::MaxForwards(v.clone()),
            Header::UserAgent(v) => Header::UserAgent(v.clone()),
            Header::Route(v) => Header::Route(v.clone()),
            Header::RecordRoute(v) => Header::RecordRoute(v.clone()),
            Header::ErrorInfo(v) => Header::ErrorInfo(v.clone()),
            Header::WwwAuthenticate(v) => Header::WwwAuthenticate(v.clone()),
            Header::ProxyAuthenticate(v) => Header::ProxyAuthenticate(v.clone()),
            Header::Authorization(v) => Header::Authorization(v.clone()),
            Header::ProxyAuthorization(v) => Header::ProxyAuthorization(v.clone()),
            Header::Allow(v) => Header::Allow(v.clone()),
            Header::Other(n, v) => Header::Other(n.clone(), v.clone()),
        }
    }
}

/// Some header of `s` has the kind `k`.
pub open spec fn has_kind(s: Seq<Header>, k: HeaderKind) -> bool {
    exists|i: int| 0 <= i < s.len() && (#[trigger] s[i]).spec_kind() == k
}

/// `i` is the position of the first header of kind `k` in `s`.
pub open spec fn is_first_of_kind(s: Seq<Header>, k: HeaderKind, i: int) -> bool {
    &&& 0 <= i < s.len()
    &&& s[i].spec_kind() == k
    &&& forall|j: int| 0 <= j < i ==> (#[trigger] s[j]).spec_kind() != k
}

/// The value of the first header of kind `k` in `s`, if there is one.
pub open spec fn first_value(s: Seq<Header>, k: HeaderKind) -> Option<Seq<char>>
    decreases s.len(),
{
    if s.len() == 0 {
        None
    } else if s[0].spec_kind() == k {
        Some(s[0].spec_value())
    } else {
        first_value(s.drop_first(), k)
    }
}

/// The first header of kind `k` is the one at `i`, so its value is the first value.
pub proof fn lemma_first_value(s: Seq<Header>, k: HeaderKind, i: int)
    requires
        is_first_of_kind(s, k, i),
    ensures
        first_value(s, k) == Some(s[i].spec_value()),
    decreases s.len(),
{
    if i > 0 {
        assert(s[0].spec_kind() != k);
        assert forall|j: int| 0 <= j < i - 1 implies (#[trigger] s.drop_first()[j]).spec_kind() != k by {
            assert(s.drop_first()[j] == s[j + 1]);
        }
        lemma_first_value(s.drop_first(), k, i - 1);
    }
}

/// The first value after appending a header: the first value before, or
/// else the appended header's value when it has the kind.
pub proof fn lemma_first_value_push(s: Seq<Header>, h: Header, k: HeaderKind)
    ensures
        first_value(s.push(h), k) == match first_value(s, k) {
            Some(v) => Some(v),
            None => if h.spec_kind() == k {
                Some(h.spec_value())
            } else {
                None
            },
        },
    decreases s.len(),
{
    if s.len() > 0 {
        assert(s.push(h)[0] == s[0]);
        assert(s.push(h).drop_first() =~= s.drop_first().push(h));
        lemma_first_value_push(s.drop_first(), h, k);
    } else {
        assert(s.push(h)[0] == h);
        assert(s.push(h).drop_first() =~= Seq::<Header>::empty());
        assert(first_value(Seq::<Header>::empty(), k) is None);
    }
}

/// Keeping only some kinds of header keeps the first value of each of them.
pub proof fn lemma_first_value_keep(s: Seq<Header>, kinds: Seq<HeaderKind>, k: HeaderKind)
    requires
        kinds.contains(k),
    ensures
        first_value(keep_kinds(s, kinds), k) == first_value(s, k),
    decreases s.len(),
{
    reveal(Seq::filter);
    if s.len() > 0 {
        let pred = |h: Header| kinds.contains(h.spec_kind());
        lemma_first_value_keep(s.drop_last(), kinds, k);
        assert(s.drop_last().push(s.last()) =~= s);
        lemma_first_value_push(s.drop_last(), s.last(), k);
        assert(keep_kinds(s, kinds) == if pred(s.last()) {
            keep_kinds(s.drop_last(), kinds).push(s.last())
        } else {
            keep_kinds(s.drop_last(), kinds)
        });
        if pred(s.last()) {
            lemma_first_value_push(keep_kinds(s.drop_last(), kinds), s.last(), k);
        }
    }
}

/// No header has kind `k`, so there is no first value.
pub proof fn lemma_first_value_none(s: Seq<Header>, k: HeaderKind)
    requires
        !has_kind(s, k),
    ensures
        first_value(s, k) is None,
    decreases s.len(),
{
    if s.len() > 0 {
        assert(s[0].spec_kind() != k);
        assert(!has_kind(s.drop_first(), k)) by {
            if has_kind(s.drop_first(), k) {
                let j = choose|j: int| 0 <= j < s.drop_first().len() && (#[trigger] s.drop_first()[j]).spec_kind() == k;
                assert(s[j + 1] == s.drop_first()[j]);
            }
        }
        lemma_first_value_none(s.drop_first(), k);
    }
}

/// The position of the first header of kind `k`, if any.
pub fn find_first(headers: &Vec<Header>, k: HeaderKind) -> (r: Option<usize>)
    ensures
        r is None <==> !has_kind(headers@, k),
        r matches Some(i) ==> is_first_of_kind(headers@, k, i as int),
        r is None ==> first_value(headers@, k) is None,
        r matches Some(i) ==> first_value(headers@, k) == Some(headers@[i as int].spec_value()),
{
    let mut i: usize = 0;
    while i < headers.len()
        invariant
            i <= headers@.len(),
            forall|j: int| 0 <= j < i ==> (#[trigger] headers@[j]).spec_kind() != k,
        decreases headers@.len() - i,
    {
        if headers[i].kind() == k {
            proof {
                lemma_first_value(headers@, k, i as int);
            }
            return Some(i);
        }
        i = i + 1;
    }
    proof {
        lemma_first_value_none(headers@, k);
    }
    None
}

/// The value of the first header of kind `k`, if any.
pub fn first_header_value(headers: &Vec<Header>, k: HeaderKind) -> (r: Option<&String>)
    ensures
        r matches Some(v) ==> first_value(headers@, k) == Some(v@),
        r is None ==> first_value(headers@, k) is None,
{
    match find_first(headers, k) {
        Some(i) => Some(headers[i].value()),
        None => None,
    }
}

/// The header list without any header whose kind is not in `kinds`.
pub open spec fn keep_kinds(s: Seq<Header>, kinds: Seq<HeaderKind>) -> Seq<Header> {
    s.filter(|h: Header| kinds.contains(h.spec_kind()))
}

/// The header list without any header whose kind is in `kinds`.
pub open spec fn drop_kinds(s: Seq<Header>, kinds: Seq<HeaderKind>) -> Seq<Header> {
    s.filter(|h: Header| !kinds.contains(h.spec_kind()))
}

/// Whether `kinds` holds `k`.
pub fn kinds_contain(kinds: &Vec<HeaderKind>, k: HeaderKind) -> (r: bool)
    ensures
        r == kinds@.contains(k),
{
    let mut i: usize = 0;
    while i < kinds.len()
        invariant
            i <= kinds@.len(),
            forall|j: int| 0 <= j < i ==> kinds@[j] != k,
        decreases kinds@.len() - i,
    {
        if kinds[i] == k {
            return true;
        }
        i = i + 1;
    }
    false
}

/// Keeps the headers whose kind is (when `keep`) or is not (otherwise) in
/// `kinds`, in order.
pub fn filter_kinds(headers: Vec<Header>, kinds: &Vec<HeaderKind>, keep: bool) -> (r: Vec<Header>)
    ensures
        keep ==> r@ == keep_kinds(headers@, kinds@),
        !keep ==> r@ == drop_kinds(headers@, kinds@),
{
    let ghost orig = headers@;
    let ghost pred_keep = |h: Header| kinds@.contains(h.spec_kind());
    let ghost pred_drop = |h: Header| !kinds@.contains(h.spec_kind());
    let mut headers = headers;
    let total = headers.len();
    let mut r: Vec<Header> = Vec::new();
    let mut taken: usize = 0;
    proof {
        reveal(Seq::filter);
        assert(orig.take(0) =~= Seq::<Header>::empty());
    }
    while headers.len() > 0
        invariant
            taken + headers@.len() == orig.len(),
            total == orig.len(),
            headers@ == orig.skip(taken as int),
            keep ==> r@ == orig.take(taken as int).filter(pred_keep),
            !keep ==> r@ == orig.take(taken as int).filter(pred_drop),
            pred_keep == (|h: Header| kinds@.contains(h.spec_kind())),
            pred_drop == (|h: Header| !kinds@.contains(h.spec_kind())),
        decreases headers@.len(),
    {
        let h = headers.remove(0);
        proof {
            reveal(Seq::filter);
            assert(orig.take(taken as int + 1).drop_last() == orig.take(taken as int));
            assert(orig.take(taken as int + 1).last() == h);
            assert(headers@ == orig.skip(taken as int + 1));
        }
        let inside = kinds_contain(kinds, h.kind());
        if inside == keep {
            r.push(h);
        }
        taken = taken + 1;
    }
    proof {
        assert(orig.take(taken as int) == orig);
    }
    r
}

/// The header list after `unique_push`: every header of the same kind as `h`
/// removed, then `h` appended.
pub open spec fn spec_unique_push(s: Seq<Header>, h: Header) -> Seq<Header> {
    drop_kinds(s, seq![h.spec_kind()]).push(h)
}

/// Removes every header of the same kind as `h` and appends `h`.
pub fn unique_push(headers: Vec<Header>, h: Header) -> (r: Vec<Header>)
    ensures
        r@ == spec_unique_push(headers@, h),
{
    let mut kinds: Vec<HeaderKind> = Vec::new();
    kinds.push(h.kind());
    proof {
        assert(kinds@ == seq![h.spec_kind()]);
    }
    let mut r = filter_kinds(headers, &kinds, false);
    r.push(h);
    r
}

/// A copy of a list of headers.
pub fn copy_headers(headers: &Vec<Header>) -> (r: Vec<Header>)
    ensures
        r@ == headers@,
{
    let mut r: Vec<Header> = Vec::new();
    let mut i: usize = 0;
    while i < headers.len()
        invariant
            i <= headers@.len(),
            r@ == headers@.take(i as int),
        decreases headers@.len() - i,
    {
        r.push(headers[i].duplicate());
        proof {
            assert(headers@.take(i as int + 1) == headers@.take(i as int).push(headers@[i as int]));
        }
        i = i + 1;
    }
    proof {
        assert(headers@.take(headers@.len() as int) == headers@);
    }
    r
}

/// A copy of a byte string.
pub fn copy_bytes(b: &Vec<u8>) -> (r: Vec<u8>)
    ensures
        r@ == b@,
{
    let mut r: Vec<u8> = Vec::new();
    let mut i: usize = 0;
    while i < b.len()
        invariant
            i <= b@.len(),
            r@ == b@.take(i as int),
        decreases b@.len() - i,
    {
        r.push(b[i]);
        proof {
            assert(b@.take(i as int + 1) == b@.take(i as int).push(b@[i as int]));
        }
        i = i + 1;
    }
    proof {
        assert(b@.take(b@.len() as int) == b@);
    }
    r
}

/// A SIP request. The Request-URI is kept as it stands on the wire.
#[derive(Debug, Clone, PartialEq, Eq)]
pub struct Request {
    pub method: Method,
    pub uri: String,
    pub headers: Vec<Header>,
    pub body: Vec<u8>,
}

/// A SIP response.
#[derive(Debug, Clone, PartialEq, Eq)]
pub struct Response {
    pub status_code: u16,
    pub headers: Vec<Header>,
    pub body: Vec<u8>,
}

/// A SIP request or response.
#[derive(Debug, Clone, PartialEq, Eq)]
pub enum SipMessage {
    Request(Request),
    Response(Response),
}

/// Two responses with the same status, headers and body.
pub open spec fn same_response(a: Response, b: Response) -> bool {
    a.status_code == b.status_code && a.headers@ == b.headers@ && a.body@ == b.body@
}

/// Two requests with the same method, URI, headers and body.
pub open spec fn same_request(a: Request, b: Request) -> bool {
    a.method == b.method && a.uri@ == b.uri@ && a.headers@ == b.headers@ && a.body@ == b.body@
}

impl Request {
    /// A copy of the request.
    pub fn duplicate(&self) -> (r: Request)
        ensures
            r.method == self.method,
            r.uri@ == self.uri@,
            r.headers@ == self.headers@,
            r.body@ == self.body@,
    {
        Request {
            method: self.method,
            uri: self.uri.clone(),
            headers: copy_headers(&self.headers),
            body: copy_bytes(&self.body),
        }
    }
}

impl Response {
    /// A copy of the response.
    pub fn duplicate(&self) -> (r: Response)
        ensures
            r.status_code == self.status_code,
            r.headers@ == self.headers@,
            r.body@ == self.body@,
    {
        Response {
            status_code: self.status_code,
            headers: copy_headers(&self.headers),
            body: copy_bytes(&self.body),
        }
    }
}

/// Two messages of the same kind with the same contents.
pub open spec fn same_message(a: SipMessage, b: SipMessage) -> bool {
    match (a, b) {
        (SipMessage::Request(x), SipMessage::Request(y)) => same_request(x, y),
        (SipMessage::Response(x), SipMessage::Response(y)) => same_response(x, y),
        _ => false,
    }
}

impl SipMessage {
    /// A copy of the message.
    pub fn duplicate(&self) -> (r: SipMessage)
        ensures
            same_message(r, *self),
    {
        match self {
            SipMessage::Request(q) => SipMessage::Request(q.duplicate()),
            SipMessage::Response(q) => SipMessage::Response(q.duplicate()),
        }
    }

    /// Whether the message is a request.
    pub fn is_request(&self) -> (r: bool)
        ensures
            r == (self is Request),
    {
        match self {
            SipMessage::Request(_) => true,
            SipMessage::Response(_) => false,
        }
    }
}

/// What the transaction layer knows of a connection: an identifier that the
/// transport layer gives it, and whether the transport is reliable (in which
/// case retransmission timers are not started).
#[derive(Debug, Clone, Copy, PartialEq, Eq, Structural)]
pub struct SipConnection {
    pub id: u64,
    pub reliable: bool,
}

/// A transport address: the transport's name, when known, and the host and
/// port as they stand in a URI.
#[derive(Debug, Clone, PartialEq, Eq)]
pub struct SipAddr {
    pub transport: Option<String>,
    pub addr: String,
}

/// Two addresses with the same transport and host and port.
pub open spec fn same_addr(a: SipAddr, b: SipAddr) -> bool {
    &&& a.addr@ == b.addr@
    &&& a.transport is Some <==> b.transport is Some
    &&& a.transport is Some ==> a.transport->0@ == b.transport->0@
}

impl SipAddr {
    /// A copy of the address.
    pub fn duplicate(&self) -> (r: SipAddr)
        ensures
            same_addr(r, *self),
    {
        SipAddr {
            transport: match &self.transport {
                Some(t) => Some(t.clone()),
                None => None,
            },
            addr: self.addr.clone(),
        }
    }
}

/// A header's kind and value.
pub open spec fn hview(h: Header) -> (HeaderKind, Seq<char>) {
    (h.spec_kind(), h.spec_value())
}

/// The kinds and values of a list of headers.
pub open spec fn hviews(s: Seq<Header>) -> Seq<(HeaderKind, Seq<char>)> {
    s.map_values(|h: Header| hview(h))
}

/// The views after `unique_push`: every header of the same kind removed,
/// then the new one appended.
pub open spec fn views_unique_push(vs: Seq<(HeaderKind, Seq<char>)>, p: (HeaderKind, Seq<char>)) -> Seq<(HeaderKind, Seq<char>)> {
    vs.filter(kind_not_in(seq![p.0])).push(p)
}

/// The views with every header of a kind in `kinds` removed.
pub open spec fn views_drop(vs: Seq<(HeaderKind, Seq<char>)>, kinds: Seq<HeaderKind>) -> Seq<(HeaderKind, Seq<char>)> {
    vs.filter(kind_not_in(kinds))
}

/// The predicate: the view's kind is not in `kinds`.
pub open spec fn kind_not_in(kinds: Seq<HeaderKind>) -> spec_fn((HeaderKind, Seq<char>)) -> bool {
    |q: (HeaderKind, Seq<char>)| !kinds.contains(q.0)
}

/// Removes every header of the same kind as `h` and appends `h`, as seen
/// through the headers' views.
pub fn push_unique(headers: Vec<Header>, h: Header) -> (r: Vec<Header>)
    ensures
        hviews(r@) == views_unique_push(hviews(headers@), hview(h)),
{
    let ghost all = hviews(headers@);
    let mut out: Vec<Header> = Vec::new();
    let mut i: usize = 0;
    while i < headers.len()
        invariant
            all == hviews(headers@),
            i <= headers@.len(),
            hviews(out@) == all.take(i as int).filter(kind_not_in(seq![h.spec_kind()])),
        decreases headers@.len() - i,
    {
        let x = headers[i].duplicate();
        proof {
            reveal(Seq::filter);
            assert(all.take(i as int + 1).drop_last() =~= all.take(i as int));
            assert(all.take(i as int + 1).last() == hview(x));
            assert(seq![h.spec_kind()].contains(x.spec_kind()) <==> x.spec_kind() == h.spec_kind()) by {
                if x.spec_kind() == h.spec_kind() {
                    assert(seq![h.spec_kind()][0] == x.spec_kind());
                }
            }
        }
        if x.kind() != h.kind() {
            let ghost before = out@;
            out.push(x);
            proof {
                assert(hviews(out@) =~= hviews(before).push(hview(x)));
            }
        }
        i = i + 1;
    }
    proof {
        assert(all.take(headers@.len() as int) =~= all);
    }
    let ghost before = out@;
    out.push(h);
    proof {
        assert(hviews(out@) =~= hviews(before).push(hview(h)));
    }
    out
}

/// Removes every header whose kind is in `kinds`, as seen through the
/// headers' views.
pub fn drop_kinds_viewed(headers: &Vec<Header>, kinds: &Vec<HeaderKind>) -> (r: Vec<Header>)
    ensures
        hviews(r@) == views_drop(hviews(headers@), kinds@),
{
    let ghost all = hviews(headers@);
    let mut out: Vec<Header> = Vec::new();
    let mut i: usize = 0;
    while i < headers.len()
        invariant
            all == hviews(headers@),
            i <= headers@.len(),
            hviews(out@) == all.take(i as int).filter(kind_not_in(kinds@)),
        decreases headers@.len() - i,
    {
        let x = headers[i].duplicate();
        proof {
            reveal(Seq::filter);
            assert(all.take(i as int + 1).drop_last() =~= all.take(i as int));
            assert(all.take(i as int + 1).last() == hview(x));
        }
        if !kinds_contain(kinds, x.kind()) {
            let ghost before = out@;
            out.push(x);
            proof {
                assert(hviews(out@) =~= hviews(before).push(hview(x)));
            }
        }
        i = i + 1;
    }
    proof {
        assert(all.take(headers@.len() as int) =~= all);
    }
    out
}

} // verus!
