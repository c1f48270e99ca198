//! The state a dialog keeps, the states it goes through, and the requests
//! and responses it builds (RFC 3261, sections 12.1 and 12.2).
use super::authenticate::Credential;
use super::{id_parts, DialogId};
use crate::error::Error;
use crate::header_values::{cseq_fields, from_name_addr, spec_cseq_fields, spec_from_name_addr, spec_to_name_addr, to_name_addr};
use crate::message::{
    drop_kinds_viewed, push_unique, views_drop, views_unique_push,
    first_header_value, first_value, hview, hviews, Header, HeaderKind, Method, Request, Response, SipAddr,
};
use crate::rsip_ext::{extract_uri_from_contact, spec_extract_uri};
use crate::text::decimal;
use crate::transaction::endpoint::EndpointInner;
use crate::transaction::key::TransactionRole;
use crate::transaction::message::{body_len, content_length_of, cseq_value, format_cseq};
use crate::transaction::ack::{fresh_branch, transport_name, via_text};
use crate::transaction::make_via_branch;
use crate::header_values::{spec_via_display_parts, via_display_parts};
use crate::uri::{has_tag, name_addr_text, tag_param, uri_display, NameAddr, NameAddrView};
use vstd::prelude::*;

verus! {

/// Why a dialog ended.
#[derive(Debug, Clone, Copy, PartialEq, Eq, Structural)]
pub enum TerminatedReason {
    Timeout,
    UacCancel,
    UacBye,
    UasBye,
    UacBusy,
    UasBusy,
    UasDecline,
    ProxyError(u16),
    ProxyAuthRequired,
    UacOther(u16),
    UasOther(u16),
}

/// The state of a dialog. The last four record an in-dialog request and
/// leave the dialog's own state as it is.
pub enum DialogState {
    Calling(DialogId),
    Trying(DialogId),
    Early(DialogId, Response),
    WaitAck(DialogId, Response),
    Confirmed(DialogId, Response),
    Updated(DialogId, Request),
    Notify(DialogId, Request),
    Info(DialogId, Request),
    Options(DialogId, Request),
    Terminated(DialogId, TerminatedReason),
}

/// The state records an in-dialog request rather than a state of its own.
pub open spec fn is_informational(s: DialogState) -> bool {
    s is Updated || s is Notify || s is Info || s is Options
}

impl DialogState {
    /// An INVITE still in progress can be cancelled: Calling, Trying or Early.
    pub fn can_cancel(&self) -> (r: bool)
        ensures
            r == (self is Calling || self is Trying || self is Early),
    {
        match self {
            DialogState::Calling(_) | DialogState::Trying(_) | DialogState::Early(_, _) => true,
            _ => false,
        }
    }

    /// Whether the dialog is confirmed.
    pub fn is_confirmed(&self) -> (r: bool)
        ensures
            r == (self is Confirmed),
    {
        match self {
            DialogState::Confirmed(_, _) => true,
            _ => false,
        }
    }

    /// Whether the dialog has ended.
    pub fn is_terminated(&self) -> (r: bool)
        ensures
            r == (self is Terminated),
    {
        match self {
            DialogState::Terminated(_, _) => true,
            _ => false,
        }
    }

    /// The name of the state.
    pub open spec fn spec_name(self) -> Seq<char> {
        match self {
            DialogState::Calling(_) => "Calling"@,
            DialogState::Trying(_) => "Trying"@,
            DialogState::Early(_, _) => "Early"@,
            DialogState::WaitAck(_, _) => "WaitAck"@,
            DialogState::Confirmed(_, _) => "Confirmed"@,
            DialogState::Updated(_, _) => "Updated"@,
            DialogState::Notify(_, _) => "Notify"@,
            DialogState::Info(_, _) => "Info"@,
            DialogState::Options(_, _) => "Options"@,
            DialogState::Terminated(_, _) => "Terminated"@,
        }
    }

    /// The dialog the state belongs to.
    pub open spec fn spec_id(self) -> DialogId {
        match self {
            DialogState::Calling(id) => id,
            DialogState::Trying(id) => id,
            DialogState::Early(id, _) => id,
            DialogState::WaitAck(id, _) => id,
            DialogState::Confirmed(id, _) => id,
            DialogState::Updated(id, _) => id,
            DialogState::Notify(id, _) => id,
            DialogState::Info(id, _) => id,
            DialogState::Options(id, _) => id,
            DialogState::Terminated(id, _) => id,
        }
    }

    /// The state's text: the dialog's text and the state's name in brackets.
    pub fn to_string(&self) -> (s: String)
        ensures
            s@ == super::id_text(self.spec_id()) + "("@ + self.spec_name() + ")"@,
    {
        let (id, name) = match self {
            DialogState::Calling(id) => (id, "Calling"),
            DialogState::Trying(id) => (id, "Trying"),
            DialogState::Early(id, _) => (id, "Early"),
            DialogState::WaitAck(id, _) => (id, "WaitAck"),
            DialogState::Confirmed(id, _) => (id, "Confirmed"),
            DialogState::Updated(id, _) => (id, "Updated"),
            DialogState::Notify(id, _) => (id, "Notify"),
            DialogState::Info(id, _) => (id, "Info"),
            DialogState::Options(id, _) => (id, "Options"),
            DialogState::Terminated(id, _) => (id, "Terminated"),
        };
        let mut s = id.to_string();
        s.append("(");
        s.append(name);
        s.append(")");
        proof {
            reveal_strlit("(");
            reveal_strlit(")");
            reveal_strlit("Calling");
            reveal_strlit("Trying");
            reveal_strlit("Early");
            reveal_strlit("WaitAck");
            reveal_strlit("Confirmed");
            reveal_strlit("Updated");
            reveal_strlit("Notify");
            reveal_strlit("Info");
            reveal_strlit("Options");
            reveal_strlit("Terminated");
        }
        s
    }
}

/// What a dialog keeps: its role, identifier and state; the local and remote
/// sequence numbers; the local Contact URI and the remote Contact; the remote
/// target; the From and To values as this side sent or received them first;
/// the credentials; the route set; and the request that created it.
pub struct DialogInner {
    pub role: TransactionRole,
    pub id: DialogId,
    pub state: DialogState,
    pub local_seq: u32,
    pub local_contact: Option<String>,
    pub remote_contact: Option<String>,
    pub remote_seq: u32,
    pub remote_uri: String,
    pub from: NameAddr,
    pub to: NameAddr,
    pub credential: Option<Credential>,
    pub route_set: Vec<String>,
    pub initial_request: Request,
    pub initial_destination: Option<SipAddr>,
}

/// The values of the Record-Route headers, in order.
pub open spec fn record_routes(s: Seq<Header>) -> Seq<Seq<char>>
    decreases s.len(),
{
    if s.len() == 0 {
        Seq::empty()
    } else {
        match s.last() {
            Header::RecordRoute(v) => record_routes(s.drop_last()).push(v@),
            _ => record_routes(s.drop_last()),
        }
    }
}

/// The sequence number of the request's CSeq header, if it parses.
pub open spec fn request_cseq(s: Seq<Header>) -> Option<u32> {
    match first_value(s, HeaderKind::CSeq) {
        Some(v) => match spec_cseq_fields(v) {
            Some((n, _)) => Some(n),
            None => None,
        },
        None => None,
    }
}

/// The remote target a dialog starts with: the Request-URI for a client; the
/// URI of the request's Contact for a server.
pub open spec fn initial_remote_uri(role: TransactionRole, req: Request) -> Option<Seq<char>> {
    match role {
        TransactionRole::Client => Some(req.uri@),
        TransactionRole::Server => match first_value(req.headers@, HeaderKind::Contact) {
            None => None,
            Some(v) => match spec_extract_uri(v) {
                Some(u) => Some(uri_display(u)),
                None => None,
            },
        },
    }
}

/// The From or To value of the request, as its typed form reads it.
pub open spec fn request_from(s: Seq<Header>) -> Option<NameAddrView> {
    match first_value(s, HeaderKind::From) {
        Some(v) => spec_from_name_addr(v),
        None => None,
    }
}

/// The To value of the request, as its typed form reads it.
pub open spec fn request_to(s: Seq<Header>) -> Option<NameAddrView> {
    match first_value(s, HeaderKind::To) {
        Some(v) => spec_to_name_addr(v),
        None => None,
    }
}

/// A To value given the dialog's tag when it has none.
pub open spec fn to_with_local_tag(t: NameAddrView, tag: Seq<char>) -> NameAddrView {
    if has_tag(t) {
        t
    } else {
        NameAddrView { prefix: t.prefix, params: t.params.push(tag_param(tag)) }
    }
}

/// A dialog can be created from the request: its CSeq, remote target, From
/// and To can all be read.
pub open spec fn setup_ok(role: TransactionRole, req: Request) -> bool {
    &&& request_cseq(req.headers@) is Some
    &&& initial_remote_uri(role, req) is Some
    &&& request_from(req.headers@) is Some
    &&& request_to(req.headers@) is Some
}

/// The views of a list of Route values.
pub open spec fn route_views(rs: Seq<String>) -> Seq<Seq<char>> {
    rs.map_values(|r: String| r@)
}

impl DialogInner {
    /// A dialog for `initial_request`, in Calling: its local sequence number
    /// is the request's CSeq, the remote one 0; the remote target is the
    /// Request-URI (client) or the request's Contact URI (server); From and
    /// To are read from the request, To getting the dialog's to-tag when it
    /// has no tag; the route set is the request's Record-Route values. Fails
    /// when one of these cannot be read.
    pub fn new(
        role: TransactionRole,
        id: DialogId,
        initial_request: Request,
        credential: Option<Credential>,
        local_contact: Option<String>,
    ) -> (r: Result<DialogInner, Error>)
        ensures
            r is Ok <==> setup_ok(role, initial_request),
            r matches Ok(d) ==> {
                &&& d.role == role
                &&& id_parts(d.id) == id_parts(id)
                &&& d.state is Calling && id_parts(d.state.spec_id()) == id_parts(id)
                &&& d.local_seq == request_cseq(initial_request.headers@)->0
                &&& d.remote_seq == 0
                &&& d.remote_uri@ == initial_remote_uri(role, initial_request)->0
                &&& d.from@ == request_from(initial_request.headers@)->0
                &&& d.to@ == to_with_local_tag(request_to(initial_request.headers@)->0, id.to_tag@)
                &&& route_views(d.route_set@) == record_routes(initial_request.headers@)
                &&& d.initial_request == initial_request
                &&& d.credential == credential
                &&& d.local_contact == local_contact
                &&& d.remote_contact is None
                &&& d.initial_destination is None
            },
    {
        let cseq = match first_header_value(&initial_request.headers, HeaderKind::CSeq) {
            Some(v) => match cseq_fields(v) {
                Ok((n, _)) => n,
                Err(e) => return Err(Error::SipMessageError(e)),
            },
            None => return Err(Error::SipMessageError(String::from_str("missing header: CSeq"))),
        };
        let remote_uri = match role {
            TransactionRole::Client => initial_request.uri.clone(),
            TransactionRole::Server => {
                let contact = match first_header_value(&initial_request.headers, HeaderKind::Contact) {
                    Some(v) => v,
                    None => return Err(Error::SipMessageError(String::from_str("missing header: Contact"))),
                };
                extract_uri_from_contact(contact.as_str())?.to_text()
            },
        };
        let from = match first_header_value(&initial_request.headers, HeaderKind::From) {
            Some(v) => match from_name_addr(v) {
                Ok(f) => f,
                Err(e) => return Err(Error::SipMessageError(e)),
            },
            None => return Err(Error::SipMessageError(String::from_str("missing header: From"))),
        };
        let mut to = match first_header_value(&initial_request.headers, HeaderKind::To) {
            Some(v) => match to_name_addr(v) {
                Ok(t) => t,
                Err(e) => return Err(Error::SipMessageError(e)),
            },
            None => return Err(Error::SipMessageError(String::from_str("missing header: To"))),
        };
        if !to.tagged() {
            let ghost before = to@;
            to.params.push(crate::uri::make_tag_param(id.to_tag.as_str()));
            proof {
                assert(to@.params =~= before.params.push(tag_param(id.to_tag@)));
            }
        }
        let route_set = record_route_values(&initial_request.headers);
        let state = DialogState::Calling(id.duplicate());
        Ok(DialogInner {
            role,
            id,
            state,
            local_seq: cseq,
            local_contact,
            remote_contact: None,
            remote_seq: 0,
            remote_uri,
            from,
            to,
            credential,
            route_set,
            initial_request,
            initial_destination: None,
        })
    }

    /// Whether an INVITE of this dialog can still be cancelled.
    pub fn can_cancel(&self) -> (r: bool)
        ensures
            r == (self.state is Calling || self.state is Trying || self.state is Early),
    {
        self.state.can_cancel()
    }

    /// Whether the dialog is confirmed.
    pub fn is_confirmed(&self) -> (r: bool)
        ensures
            r == (self.state is Confirmed),
    {
        self.state.is_confirmed()
    }

    /// Whether the dialog has ended.
    pub fn is_terminated(&self) -> (r: bool)
        ensures
            r == (self.state is Terminated),
    {
        self.state.is_terminated()
    }

    /// The local sequence number.
    pub fn get_local_seq(&self) -> (n: u32)
        ensures
            n == self.local_seq,
    {
        self.local_seq
    }

    /// Advances the local sequence number (wrapping at the end of `u32`) and
    /// returns the new value.
    pub fn increment_local_seq(&mut self) -> (n: u32)
        ensures
            n == (if old(self).local_seq == u32::MAX { 0 } else { old(self).local_seq + 1 }),
            *final(self) == (DialogInner { local_seq: n, ..*old(self) }),
    {
        self.local_seq = if self.local_seq == u32::MAX {
            0
        } else {
            self.local_seq + 1
        };
        self.local_seq
    }

    /// Records the remote tag: the identifier's to-tag and the To value's tag.
    pub fn update_remote_tag(&mut self, tag: &str)
        ensures
            final(self).id.to_tag@ == tag@,
            final(self).id.call_id@ == old(self).id.call_id@,
            final(self).id.from_tag@ == old(self).id.from_tag@,
            final(self).to@ == crate::uri::with_tag(old(self).to@, tag@),
            *final(self) == (DialogInner { id: final(self).id, to: final(self).to, ..*old(self) }),
    {
        self.id.to_tag = tag.to_string();
        self.to.set_tag(tag);
    }

    /// Moves the dialog to `state`. A state recording an in-dialog request
    /// leaves the dialog's state as it is, and so does any state once the
    /// dialog has ended.
    pub fn transition(&mut self, state: DialogState)
        ensures
            if is_informational(state) || old(self).state is Terminated {
                *final(self) == *old(self)
            } else {
                *final(self) == (DialogInner { state: state, ..*old(self) })
            },
    {
        match state {
            DialogState::Updated(_, _) | DialogState::Notify(_, _) | DialogState::Info(_, _)
            | DialogState::Options(_, _) => return,
            _ => {},
        }
        if self.state.is_terminated() {
            return;
        }
        self.state = state;
    }
}

/// The Record-Route values of a list of headers, in order.
pub fn record_route_values(headers: &Vec<Header>) -> (r: Vec<String>)
    ensures
        route_views(r@) == record_routes(headers@),
{
    let mut out: Vec<String> = Vec::new();
    let mut i: usize = 0;
    while i < headers.len()
        invariant
            i <= headers@.len(),
            route_views(out@) == record_routes(headers@.take(i as int)),
        decreases headers@.len() - i,
    {
        proof {
            assert(headers@.take(i as int + 1).drop_last() =~= headers@.take(i as int));
            assert(headers@.take(i as int + 1).last() == headers@[i as int]);
        }
        match &headers[i] {
            Header::RecordRoute(v) => {
                let ghost before = out@;
                out.push(v.clone());
                proof {
                    assert(route_views(out@) =~= route_views(before).push(v@));
                }
            },
            _ => {},
        }
        i = i + 1;
    }
    proof {
        assert(headers@.take(headers@.len() as int) =~= headers@);
    }
    out
}


/// The views of a list of Via values.
pub open spec fn via_views(vs: Seq<String>) -> Seq<(HeaderKind, Seq<char>)> {
    vs.map_values(|v: String| (HeaderKind::Via, v@))
}

/// The views of the route set as Route headers.
pub open spec fn route_header_views(rs: Seq<String>) -> Seq<(HeaderKind, Seq<char>)> {
    rs.map_values(|r: String| (HeaderKind::Route, r@))
}

/// The Contact header of the local Contact URI, if there is one: `<uri>`.
pub open spec fn contact_views(c: Option<String>) -> Seq<(HeaderKind, Seq<char>)> {
    match c {
        Some(u) => seq![(HeaderKind::Contact, "<"@ + u@ + ">"@)],
        None => Seq::empty(),
    }
}

/// From and To of an in-dialog request: this side's From and the peer's To
/// for a client dialog; the other way round for a server dialog.
pub open spec fn from_to_views(d: DialogInner) -> Seq<(HeaderKind, Seq<char>)> {
    match d.role {
        TransactionRole::Client => seq![(HeaderKind::From, name_addr_text(d.from@)), (HeaderKind::To, name_addr_text(d.to@))],
        TransactionRole::Server => seq![(HeaderKind::From, name_addr_text(d.to@)), (HeaderKind::To, name_addr_text(d.from@))],
    }
}

/// The headers of an in-dialog request: the given headers, the Vias, the
/// Call-ID, From and To, the CSeq, the User-Agent, the local Contact, the
/// route set, Max-Forwards 70 and the Content-Length.
pub open spec fn dialog_request_views(
    d: DialogInner,
    ua: Seq<char>,
    method: Method,
    seq: u32,
    vias: Seq<String>,
    extra: Seq<Header>,
    len: u32,
) -> Seq<(HeaderKind, Seq<char>)> {
    hviews(extra) + via_views(vias) + seq![(HeaderKind::CallId, d.id.call_id@)] + from_to_views(d) + seq![
        (HeaderKind::CSeq, cseq_value(seq, method)),
        (HeaderKind::UserAgent, ua),
    ] + contact_views(d.local_contact) + route_header_views(d.route_set@) + seq![
        (HeaderKind::MaxForwards, "70"@),
        (HeaderKind::ContentLength, decimal(len as nat)),
    ]
}

/// A body's bytes, empty when there is none.
pub open spec fn body_bytes(body: Option<Vec<u8>>) -> Seq<u8> {
    match body {
        Some(b) => b@,
        None => Seq::empty(),
    }
}

/// The sequence number after `n`, wrapping at the end of `u32`.
pub open spec fn next_seq(n: u32) -> u32 {
    if n == u32::MAX { 0 } else { (n + 1) as u32 }
}

/// Appends the Vias as headers.
fn push_vias(headers: &mut Vec<Header>, vias: &Vec<String>)
    ensures
        hviews(final(headers)@) == hviews(old(headers)@) + via_views(vias@),
{
    let mut i: usize = 0;
    while i < vias.len()
        invariant
            i <= vias@.len(),
            hviews(headers@) == hviews(old(headers)@) + via_views(vias@.take(i as int)),
        decreases vias@.len() - i,
    {
        let ghost before = headers@;
        headers.push(Header::Via(vias[i].clone()));
        proof {
            assert(via_views(vias@.take(i as int + 1)) =~= via_views(vias@.take(i as int)).push((HeaderKind::Via, vias@[i as int]@)));
            assert(hviews(headers@) =~= hviews(before).push((HeaderKind::Via, vias@[i as int]@)));
        }
        i = i + 1;
    }
    proof {
        assert(vias@.take(vias@.len() as int) =~= vias@);
    }
}

/// Appends the route set as Route headers.
fn push_routes(headers: &mut Vec<Header>, routes: &Vec<String>)
    ensures
        hviews(final(headers)@) == hviews(old(headers)@) + route_header_views(routes@),
{
    let mut i: usize = 0;
    while i < routes.len()
        invariant
            i <= routes@.len(),
            hviews(headers@) == hviews(old(headers)@) + route_header_views(routes@.take(i as int)),
        decreases routes@.len() - i,
    {
        let ghost before = headers@;
        headers.push(Header::Route(routes[i].clone()));
        proof {
            assert(route_header_views(routes@.take(i as int + 1)) =~= route_header_views(routes@.take(i as int)).push(
                (HeaderKind::Route, routes@[i as int]@),
            ));
            assert(hviews(headers@) =~= hviews(before).push((HeaderKind::Route, routes@[i as int]@)));
        }
        i = i + 1;
    }
    proof {
        assert(routes@.take(routes@.len() as int) =~= routes@);
    }
}

/// A Via parameter that is a branch.
pub open spec fn is_branch_param(p: Seq<char>) -> bool {
    p.len() >= 8 && p.take(8) == ";branch="@
}

/// `qs` is `ps` with every branch parameter replaced by a fresh one.
pub open spec fn branches_renewed(ps: Seq<Seq<char>>, qs: Seq<Seq<char>>) -> bool {
    &&& qs.len() == ps.len()
    &&& forall|i: int| 0 <= i < ps.len() ==> if is_branch_param(#[trigger] ps[i]) {
        fresh_branch(qs[i])
    } else {
        qs[i] == ps[i]
    }
}

/// A Via value made of `head` and the parameters `ps` with every branch
/// renewed.
pub open spec fn via_renewed(v: Seq<char>, head: Seq<char>, ps: Seq<Seq<char>>) -> bool {
    exists|qs: Seq<Seq<char>>| branches_renewed(ps, qs) && v == head + concat(qs)
}

/// The texts one after the other.
pub open spec fn concat(qs: Seq<Seq<char>>) -> Seq<char>
    decreases qs.len(),
{
    if qs.len() == 0 {
        Seq::empty()
    } else {
        concat(qs.drop_last()) + qs.last()
    }
}

/// The first Via header that `rsip` reads, as its head and parameters.
pub open spec fn first_parsed_via(s: Seq<Header>) -> Option<(Seq<char>, Seq<Seq<char>>)>
    decreases s.len(),
{
    if s.len() == 0 {
        None
    } else {
        match s[0] {
            Header::Via(v) => match spec_via_display_parts(v@) {
                Some(p) => Some(p),
                None => first_parsed_via(s.drop_first()),
            },
            _ => first_parsed_via(s.drop_first()),
        }
    }
}

/// Whether a Via parameter is a branch.
pub fn is_branch_param_exec(p: &String) -> (r: bool)
    ensures
        r == is_branch_param(p@),
{
    let cs = crate::text::chars_of(p.as_str());
    if cs.len() < 8 {
        return false;
    }
    let head = crate::text::string_from(&cs, 0, 8);
    proof {
        reveal_strlit(";branch=");
        assert(cs@.subrange(0, 8) =~= p@.take(8));
    }
    crate::text::str_eq(head.as_str(), ";branch=")
}

/// A Via value from its head and parameters, every branch renewed.
fn renew_branches(head: String, params: &Vec<String>) -> (r: String)
    ensures
        exists|qs: Seq<Seq<char>>| branches_renewed(crate::text::string_views(params@), qs) && r@ == head@ + concat(qs),
{
    let ghost ps = crate::text::string_views(params@);
    let ghost mut qs: Seq<Seq<char>> = Seq::empty();
    let mut s = head;
    let ghost h = s@;
    let mut i: usize = 0;
    while i < params.len()
        invariant
            ps == crate::text::string_views(params@),
            i <= params@.len(),
            qs.len() == i,
            forall|j: int| 0 <= j < i ==> if is_branch_param(#[trigger] ps[j]) {
                fresh_branch(qs[j])
            } else {
                qs[j] == ps[j]
            },
            s@ == h + concat(qs),
        decreases params@.len() - i,
    {
        let q = if is_branch_param_exec(&params[i]) {
            make_via_branch()
        } else {
            params[i].clone()
        };
        proof {
            assert(ps[i as int] == params@[i as int]@);
        }
        s.append(q.as_str());
        proof {
            let nq = qs.push(q@);
            assert(nq.drop_last() =~= qs);
            qs = nq;
        }
        i = i + 1;
    }
    proof {
        assert(branches_renewed(ps, qs));
    }
    s
}

impl DialogInner {
    /// An in-dialog request (see `dialog_request_views` for its headers) to
    /// the remote target with the given Vias. Without a sequence number the
    /// local one is advanced and used.
    pub fn make_request_with_vias(
        &mut self,
        ep: &EndpointInner,
        method: Method,
        cseq: Option<u32>,
        vias: Vec<String>,
        headers: Option<Vec<Header>>,
        body: Option<Vec<u8>>,
    ) -> (r: Request)
        ensures
            *final(self) == match cseq {
                Some(_) => *old(self),
                None => DialogInner { local_seq: next_seq(old(self).local_seq), ..*old(self) },
            },
            r.method == method,
            r.uri@ == old(self).remote_uri@,
            r.body@ == body_bytes(body),
            hviews(r.headers@) == dialog_request_views(
                *old(self),
                ep.user_agent@,
                method,
                match cseq {
                    Some(n) => n,
                    None => next_seq(old(self).local_seq),
                },
                vias@,
                match headers {
                    Some(h) => h@,
                    None => Seq::empty(),
                },
                body_len(body),
            ),
    {
        let mut hs = match headers {
            Some(h) => h,
            None => Vec::new(),
        };
        let seq = match cseq {
            Some(n) => n,
            None => self.increment_local_seq(),
        };
        let ghost start = hs@;
        push_vias(&mut hs, &vias);
        let ghost with_vias = hs@;
        hs.push(Header::CallId(self.id.call_id.clone()));
        let from = self.from.to_text();
        let to = self.to.to_text();
        match self.role {
            TransactionRole::Client => {
                hs.push(Header::From(from));
                hs.push(Header::To(to));
            },
            TransactionRole::Server => {
                hs.push(Header::From(to));
                hs.push(Header::To(from));
            },
        }
        hs.push(Header::CSeq(format_cseq(seq, method)));
        hs.push(Header::UserAgent(ep.user_agent.clone()));
        let ghost before_contact = hs@;
        match &self.local_contact {
            Some(c) => {
                let mut v = String::from_str("<");
                v.append(c.as_str());
                v.append(">");
                proof {
                    reveal_strlit("<");
                    reveal_strlit(">");
                }
                hs.push(Header::Contact(v));
            },
            None => {},
        }
        let ghost before_routes = hs@;
        push_routes(&mut hs, &self.route_set);
        let ghost after_routes = hs@;
        hs.push(Header::MaxForwards(String::from_str("70")));
        hs.push(Header::ContentLength(content_length_of(&body)));
        proof {
            reveal_strlit("70");
            let d = *old(self);
            assert(hviews(before_contact) =~= hviews(start) + via_views(vias@) + seq![(HeaderKind::CallId, d.id.call_id@)]
                + from_to_views(d) + seq![(HeaderKind::CSeq, cseq_value(seq, method)), (HeaderKind::UserAgent, ep.user_agent@)]);
            assert(hviews(before_routes) =~= hviews(before_contact) + contact_views(d.local_contact));
            assert(hviews(hs@) =~= hviews(after_routes) + seq![
                (HeaderKind::MaxForwards, "70"@),
                (HeaderKind::ContentLength, decimal(body_len(body) as nat)),
            ]);
        }
        let b = match body {
            Some(b) => b,
            None => Vec::new(),
        };
        Request { method, uri: self.remote_uri.clone(), headers: hs, body: b }
    }

    /// An in-dialog request with one Via for `addr` (or the endpoint's first
    /// address) and the given branch (or a fresh one). Fails when there is
    /// no address.
    pub fn make_request(
        &mut self,
        ep: &EndpointInner,
        method: Method,
        cseq: Option<u32>,
        addr: Option<SipAddr>,
        branch: Option<String>,
        headers: Option<Vec<Header>>,
        body: Option<Vec<u8>>,
    ) -> (r: Result<Request, Error>)
        ensures
            r is Err <==> (addr is None && ep.addrs@.len() == 0),
            r is Err ==> *final(self) == *old(self),
            r matches Ok(req) ==> {
                let seq = match cseq {
                    Some(n) => n,
                    None => next_seq(old(self).local_seq),
                };
                &&& *final(self) == match cseq {
                    Some(_) => *old(self),
                    None => DialogInner { local_seq: seq, ..*old(self) },
                }
                &&& made_request(req, *old(self), *ep, method, seq, addr, opt_str(branch), match headers {
                    Some(h) => h@,
                    None => Seq::empty(),
                }, body)
            },
    {
        let ghost gb = opt_str(branch);
        let ghost gh = if headers is Some {
            headers->0@
        } else {
            Seq::<Header>::empty()
        };
        let ghost gbody = body;
        let ghost gaddr = addr;
        let via = ep.get_via(addr, branch)?;
        let ghost gv = via;
        proof {
            assert(via_for(gv@, *ep, gaddr, gb));
        }
        let mut vias: Vec<String> = Vec::new();
        vias.push(via);
        proof {
            assert(vias@ =~= seq![gv]);
        }
        let req = self.make_request_with_vias(ep, method, cseq, vias, headers, body);
        proof {
            let seq = match cseq {
                Some(n) => n,
                None => next_seq(old(self).local_seq),
            };
            assert(is_dialog_request(req, *old(self), ep.user_agent@, method, seq, seq![gv], gh, gbody));
        }
        Ok(req)
    }

    /// The Vias for a request that reuses the creating request's path: the
    /// first Via of that request that parses, with each branch parameter
    /// replaced by a fresh one; without one, a Via for the endpoint's first
    /// address. Fails when a Via is needed and there is no address.
    pub fn build_vias_from_request(&self, ep: &EndpointInner) -> (r: Result<Vec<String>, Error>)
        ensures
            match first_parsed_via(self.initial_request.headers@) {
                Some((head, ps)) => r matches Ok(v) && v@.len() == 1 && via_renewed(v@[0]@, head, ps),
                None => {
                    &&& r is Err <==> ep.addrs@.len() == 0
                    &&& r matches Ok(v) ==> v@.len() == 1 && exists|b: Seq<char>|
                        fresh_branch(b) && v@[0]@ == via_text(transport_name(ep.addrs@[0]), ep.addrs@[0].addr@, b)
                },
            },
    {
        let hs = &self.initial_request.headers;
        let mut i: usize = 0;
        proof {
            assert(hs@.skip(0) =~= hs@);
        }
        while i < hs.len()
            invariant
                i <= hs@.len(),
                hs@ == self.initial_request.headers@,
                first_parsed_via(hs@) == first_parsed_via(hs@.skip(i as int)),
            decreases hs@.len() - i,
        {
            proof {
                assert(hs@.skip(i as int).drop_first() =~= hs@.skip(i as int + 1));
                assert(hs@.skip(i as int)[0] == hs@[i as int]);
            }
            match &hs[i] {
                Header::Via(v) => {
                    match via_display_parts(v) {
                        Ok((head, params)) => {
                            let ghost hv = head@;
                            let renewed = renew_branches(head, &params);
                            let mut out: Vec<String> = Vec::new();
                            out.push(renewed);
                            proof {
                                assert(out@[0] == renewed);
                                let qs = choose|qs: Seq<Seq<char>>|
                                    branches_renewed(crate::text::string_views(params@), qs) && renewed@ == hv + concat(qs);
                                assert(branches_renewed(crate::text::string_views(params@), qs));
                                assert(out@[0]@ =~= hv + concat(qs));
                            }
                            return Ok(out);
                        },
                        Err(_) => {},
                    }
                },
                _ => {},
            }
            i = i + 1;
        }
        let via = ep.get_via(None, None)?;
        let mut out: Vec<String> = Vec::new();
        out.push(via);
        Ok(out)
    }
}


/// The To value of a response: given the dialog's tag when it has none,
/// except in a 100 Trying.
pub open spec fn response_to(t: NameAddrView, status: u16, tag: Seq<char>) -> NameAddrView {
    if status != 100 && !has_tag(t) {
        NameAddrView { prefix: t.prefix, params: t.params.push(tag_param(tag)) }
    } else {
        t
    }
}

/// The request headers a dialog's response copies, in order: Via, From,
/// CSeq, Call-ID and Record-Route as they are, and To as its typed form
/// reads it (see `response_to`); a To that does not parse is left out.
pub open spec fn dialog_response_copy(s: Seq<Header>, status: u16, tag: Seq<char>) -> Seq<(HeaderKind, Seq<char>)>
    decreases s.len(),
{
    if s.len() == 0 {
        Seq::empty()
    } else {
        let prev = dialog_response_copy(s.drop_last(), status, tag);
        match s.last() {
            Header::Via(_) | Header::From(_) | Header::CSeq(_) | Header::CallId(_) | Header::RecordRoute(_) => prev.push(
                hview(s.last()),
            ),
            Header::To(v) => match spec_to_name_addr(v@) {
                None => prev,
                Some(t) => prev.push((HeaderKind::To, name_addr_text(response_to(t, status, tag)))),
            },
            _ => prev,
        }
    }
}

/// Each header of `hs` put in by `unique_push`, in order.
pub open spec fn views_push_all(vs: Seq<(HeaderKind, Seq<char>)>, hs: Seq<Header>) -> Seq<(HeaderKind, Seq<char>)>
    decreases hs.len(),
{
    if hs.len() == 0 {
        vs
    } else {
        views_unique_push(views_push_all(vs, hs.drop_last()), hview(hs.last()))
    }
}

/// The kinds a dialog's response sets itself.
pub open spec fn response_own_kinds() -> Seq<HeaderKind> {
    seq![HeaderKind::Contact, HeaderKind::ContentLength, HeaderKind::UserAgent]
}

/// The headers of a dialog's response: the copied request headers, the
/// given headers put in by `unique_push`, without any Contact,
/// Content-Length or User-Agent; then the local Contact, the Content-Length
/// and the User-Agent.
pub open spec fn dialog_response_views(
    d: DialogInner,
    ua: Seq<char>,
    req: Seq<Header>,
    status: u16,
    extra: Seq<Header>,
    len: u32,
) -> Seq<(HeaderKind, Seq<char>)> {
    views_drop(views_push_all(dialog_response_copy(req, status, d.id.to_tag@), extra), response_own_kinds())
        + contact_views(d.local_contact) + seq![(HeaderKind::ContentLength, decimal(len as nat)), (HeaderKind::UserAgent, ua)]
}

impl DialogInner {
    /// A response of the dialog to `request` (see `dialog_response_views` for
    /// its headers), with the given body.
    pub fn make_response(
        &self,
        ep: &EndpointInner,
        request: &Request,
        status: u16,
        headers: Option<Vec<Header>>,
        body: Option<Vec<u8>>,
    ) -> (r: Response)
        ensures
            r.status_code == status,
            r.body@ == body_bytes(body),
            hviews(r.headers@) == dialog_response_views(
                *self,
                ep.user_agent@,
                request.headers@,
                status,
                match headers {
                    Some(h) => h@,
                    None => Seq::empty(),
                },
                body_len(body),
            ),
    {
        let rh = &request.headers;
        let mut out: Vec<Header> = Vec::new();
        let mut i: usize = 0;
        while i < rh.len()
            invariant
                i <= rh@.len(),
                hviews(out@) == dialog_response_copy(rh@.take(i as int), status, self.id.to_tag@),
            decreases rh@.len() - i,
        {
            proof {
                assert(rh@.take(i as int + 1).drop_last() =~= rh@.take(i as int));
                assert(rh@.take(i as int + 1).last() == rh@[i as int]);
            }
            let ghost before = out@;
            match &rh[i] {
                Header::Via(_) | Header::From(_) | Header::CSeq(_) | Header::CallId(_) | Header::RecordRoute(_) => {
                    let h = rh[i].duplicate();
                    out.push(h);
                    proof {
                        assert(hviews(out@) =~= hviews(before).push(hview(h)));
                    }
                },
                Header::To(v) => {
                    match to_name_addr(v) {
                        Ok(mut t) => {
                            if status != 100 && !t.tagged() {
                                let ghost tv = t@;
                                t.params.push(crate::uri::make_tag_param(self.id.to_tag.as_str()));
                                proof {
                                    assert(t@.params =~= tv.params.push(tag_param(self.id.to_tag@)));
                                }
                            }
                            let text = t.to_text();
                            out.push(Header::To(text));
                            proof {
                                assert(hviews(out@) =~= hviews(before).push((HeaderKind::To, text@)));
                            }
                        },
                        Err(_) => {},
                    }
                },
                _ => {},
            }
            i = i + 1;
        }
        proof {
            assert(rh@.take(rh@.len() as int) =~= rh@);
        }
        let extra = match headers {
            Some(h) => h,
            None => Vec::new(),
        };
        let ghost copied = hviews(out@);
        let mut j: usize = 0;
        while j < extra.len()
            invariant
                j <= extra@.len(),
                hviews(out@) == views_push_all(copied, extra@.take(j as int)),
            decreases extra@.len() - j,
        {
            proof {
                assert(extra@.take(j as int + 1).drop_last() =~= extra@.take(j as int));
                assert(extra@.take(j as int + 1).last() == extra@[j as int]);
            }
            out = push_unique(out, extra[j].duplicate());
            j = j + 1;
        }
        proof {
            assert(extra@.take(extra@.len() as int) =~= extra@);
        }
        let mut own: Vec<HeaderKind> = Vec::new();
        own.push(HeaderKind::Contact);
        own.push(HeaderKind::ContentLength);
        own.push(HeaderKind::UserAgent);
        proof {
            assert(own@ =~= response_own_kinds());
        }
        let mut hs = drop_kinds_viewed(&out, &own);
        let ghost kept = hs@;
        match &self.local_contact {
            Some(c) => {
                let mut v = String::from_str("<");
                v.append(c.as_str());
                v.append(">");
                proof {
                    reveal_strlit("<");
                    reveal_strlit(">");
                }
                hs.push(Header::Contact(v));
            },
            None => {},
        }
        let ghost with_contact = hs@;
        hs.push(Header::ContentLength(content_length_of(&body)));
        hs.push(Header::UserAgent(ep.user_agent.clone()));
        proof {
            assert(hviews(with_contact) =~= hviews(kept) + contact_views(self.local_contact));
            assert(hviews(hs@) =~= hviews(with_contact) + seq![
                (HeaderKind::ContentLength, decimal(body_len(body) as nat)),
                (HeaderKind::UserAgent, ep.user_agent@),
            ]);
        }
        let b = match body {
            Some(b) => b,
            None => Vec::new(),
        };
        Response { status_code: status, headers: hs, body: b }
    }
}


/// What a dialog does next while an in-dialog request it sent is answered.
pub enum RequestAction {
    /// Wait for the next response.
    Continue,
    /// Send the request again with credentials, with this sequence number.
    Authenticate(u32),
    /// The request is done, with its final response when there is one.
    Finished(Option<Response>),
}

/// An authentication challenge: 401 or 407.
pub open spec fn is_challenge(status: u16) -> bool {
    status == 401 || status == 407
}

/// A ringing or session-progress response: 180 or 183.
pub open spec fn is_early(status: u16) -> bool {
    status == 180 || status == 183
}

/// What the dialog `o` does with a response `resp` to an in-dialog request
/// with `method`: the action `r`, the dialog after it `n`, and whether
/// credentials were sent before (`sent0`) and after (`sent1`).
pub open spec fn request_response_effect(
    o: DialogInner,
    n: DialogInner,
    method: Method,
    sent0: bool,
    sent1: bool,
    resp: Response,
    r: RequestAction,
) -> bool {
    let s = resp.status_code;
    if s == 100 {
        r is Continue && n == o && sent1 == sent0
    } else if is_early(s) {
        &&& r is Continue && sent1 == sent0
        &&& if o.state is Terminated {
            n == o
        } else {
            n == DialogInner { state: n.state, ..o } && (n.state matches DialogState::Early(id, x)
                && id_parts(id) == id_parts(o.id) && x == resp)
        }
    } else if is_challenge(s) {
        let ended = if o.state is Terminated {
            n == o
        } else {
            n == DialogInner { state: n.state, ..o } && (n.state matches DialogState::Terminated(id, reason)
                && id_parts(id) == id_parts(o.id) && reason == TerminatedReason::ProxyAuthRequired)
        };
        &&& sent1
        &&& if sent0 {
            r matches RequestAction::Finished(None) && ended
        } else if o.credential is Some {
            let seq = if method == Method::Cancel { o.local_seq } else { next_seq(o.local_seq) };
            r matches RequestAction::Authenticate(x) && x == seq && n == DialogInner { local_seq: seq, ..o }
        } else {
            r is Continue && ended
        }
    } else {
        r matches RequestAction::Finished(Some(x)) && x == resp && n == o && sent1 == sent0
    }

}

/// A ringing (180) or session-progress (183) response to an in-dialog
/// request does not finish the request: the dialog waits on and, unless it
/// has ended, is early with that response under the same identifier.
/// (`request_response_effect` is what `on_request_response` ensures.)
pub proof fn lemma_request_ringing_or_progress_is_early(
    o: DialogInner,
    n: DialogInner,
    method: Method,
    sent0: bool,
    sent1: bool,
    resp: Response,
    r: RequestAction,
)
    requires
        request_response_effect(o, n, method, sent0, sent1, resp, r),
        resp.status_code == 180 || resp.status_code == 183,
        !(o.state is Terminated),
    ensures
        r is Continue,
        sent1 == sent0,
        n.state matches DialogState::Early(id, x) && id_parts(id) == id_parts(o.id) && x == resp,
{
}

impl DialogInner {
    /// What the dialog does with a response to an in-dialog request with
    /// `method`. 100 is passed over; 180 and 183 make the dialog early; a
    /// challenge is answered once, with the credentials (a CANCEL keeps the
    /// local sequence number, another request advances it), and otherwise
    /// ends the dialog for want of authentication (finishing the request
    /// when it came after credentials were sent); any other response is the
    /// final one.
    pub fn on_request_response(&mut self, method: Method, auth_sent: &mut bool, resp: Response) -> (r: RequestAction)
        ensures
            request_response_effect(*old(self), *final(self), method, *old(auth_sent), *final(auth_sent), resp, r),
    {
        let s = resp.status_code;
        if s == 100 {
            return RequestAction::Continue;
        }
        if s == 180 || s == 183 {
            let id = self.id.duplicate();
            self.transition(DialogState::Early(id, resp));
            return RequestAction::Continue;
        }
        if s == 401 || s == 407 {
            if *auth_sent {
                let id = self.id.duplicate();
                self.transition(DialogState::Terminated(id, TerminatedReason::ProxyAuthRequired));
                return RequestAction::Finished(None);
            }
            *auth_sent = true;
            if self.credential.is_some() {
                let seq = if method == Method::Cancel {
                    self.get_local_seq()
                } else {
                    self.increment_local_seq()
                };
                return RequestAction::Authenticate(seq);
            } else {
                let id = self.id.duplicate();
                self.transition(DialogState::Terminated(id, TerminatedReason::ProxyAuthRequired));
                return RequestAction::Continue;
            }
        }
        RequestAction::Finished(Some(resp))
    }
}

impl DialogInner {
    /// What the dialog does with the outcome of a keep-alive OPTIONS it
    /// sent: no response, or a provisional or successful one, lets the
    /// keep-alive go on; any other response, or a failure to send, ends the
    /// dialog for want of an answer.
    pub fn on_keepalive_result(&mut self, result: Result<Option<Response>, Error>) -> (go_on: bool)
        ensures
            go_on == match result {
                Ok(None) => true,
                Ok(Some(resp)) => crate::message::spec_status_kind(resp.status_code)
                    == crate::message::StatusCodeKind::Provisional || crate::message::spec_status_kind(
                    resp.status_code,
                ) == crate::message::StatusCodeKind::Successful,
                Err(_) => false,
            },
            go_on || old(self).state is Terminated ==> *final(self) == *old(self),
            !go_on && !(old(self).state is Terminated) ==> {
                &&& final(self).state matches DialogState::Terminated(i, reason) && id_parts(i) == id_parts(old(self).id)
                    && reason == TerminatedReason::Timeout
                &&& *final(self) == (DialogInner { state: final(self).state, ..*old(self) })
            },
    {
        let go_on = match &result {
            Ok(None) => true,
            Ok(Some(resp)) => match crate::message::status_kind(resp.status_code) {
                crate::message::StatusCodeKind::Provisional | crate::message::StatusCodeKind::Successful => true,
                _ => false,
            },
            Err(_) => false,
        };
        if !go_on {
            let id = self.id.duplicate();
            self.transition(DialogState::Terminated(id, TerminatedReason::Timeout));
        }
        go_on
    }
}


/// What a dialog does with a request that reached it.
pub enum DialogAction {
    /// Nothing more.
    Ignore,
    /// Answer with this status.
    Reply(u16),
    /// Answer with this status and report the error.
    Fail(u16, Error),
    /// Pass the ACK on to the INVITE transaction's user.
    ForwardAck,
    /// Hand the request to the INVITE handling; answer 100 Trying first when
    /// the flag is set.
    HandleInvite(bool),
}

/// A Via for `addr` (or the endpoint's first address) with the given branch
/// parameter, or a fresh one.
pub open spec fn via_for(via: Seq<char>, ep: EndpointInner, addr: Option<SipAddr>, branch: Option<Seq<char>>) -> bool {
    let a = match addr {
        Some(a) => a,
        None => ep.addrs@[0],
    };
    match branch {
        Some(b) => via == via_text(transport_name(a), a.addr@, b),
        None => exists|b: Seq<char>| fresh_branch(b) && via == via_text(transport_name(a), a.addr@, b),
    }
}

/// `req` is the in-dialog request of `d` with this method, sequence number,
/// Vias, extra headers and body.
pub open spec fn is_dialog_request(
    req: Request,
    d: DialogInner,
    ua: Seq<char>,
    method: Method,
    seq: u32,
    vias: Seq<String>,
    extra: Seq<Header>,
    body: Option<Vec<u8>>,
) -> bool {
    &&& req.method == method
    &&& req.uri@ == d.remote_uri@
    &&& req.body@ == body_bytes(body)
    &&& hviews(req.headers@) == dialog_request_views(d, ua, method, seq, vias, extra, body_len(body))
}

/// The request `make_request` builds with one Via for `addr` and `branch`.
pub open spec fn made_request(
    req: Request,
    d: DialogInner,
    ep: EndpointInner,
    method: Method,
    seq: u32,
    addr: Option<SipAddr>,
    branch: Option<Seq<char>>,
    extra: Seq<Header>,
    body: Option<Vec<u8>>,
) -> bool {
    exists|via: String| #![trigger via@] via_for(via@, ep, addr, branch) && is_dialog_request(req, d, ep.user_agent@, method, seq, seq![via], extra, body)
}

/// The optional view of an optional string.
pub open spec fn opt_str(o: Option<String>) -> Option<Seq<char>> {
    crate::header_values::opt_view(o)
}

} // verus!
