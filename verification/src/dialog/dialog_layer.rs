//! The table of dialogs, found by identifier from either side, and the
//! creation of dialogs: a server dialog from an incoming INVITE, a client
//! dialog from an INVITE this side sends.
use super::authenticate::Credential;
use super::client_dialog::ClientInviteDialog;
use super::dialog::{setup_ok, DialogInner};
use super::server_dialog::ServerInviteDialog;
use super::{id_parts, same_dialog, spec_message_id, DialogId};
use crate::error::Error;
use crate::header_values::{contact_uri_parts, spec_contact_uri};
use crate::message::{hview, hviews, kind_not_in, views_unique_push, Header, HeaderKind, Method, Request};
use crate::transaction::ack::{fresh_branch, transport_name, via_text};
use crate::transaction::endpoint::EndpointInner;
use crate::transaction::key::TransactionRole;
use crate::transaction::message::cseq_value;
use crate::transaction::{is_alphanumeric, make_tag};
use vstd::prelude::*;

verus! {

/// A dialog: the server or the client side of an INVITE.
pub enum Dialog {
    ServerInvite(ServerInviteDialog),
    ClientInvite(ClientInviteDialog),
}

impl Dialog {
    /// What the dialog keeps.
    pub open spec fn spec_inner(self) -> DialogInner {
        match self {
            Dialog::ServerInvite(d) => d.inner,
            Dialog::ClientInvite(d) => d.inner,
        }
    }

    /// The dialog's identifier.
    pub fn id(&self) -> (r: DialogId)
        ensures
            id_parts(r) == id_parts(self.spec_inner().id),
    {
        match self {
            Dialog::ServerInvite(d) => d.inner.id.duplicate(),
            Dialog::ClientInvite(d) => d.inner.id.duplicate(),
        }
    }

    /// The URI of the remote Contact the dialog keeps; `None` when it keeps
    /// none or its URI cannot be read.
    pub fn remote_contact(&self) -> (r: Option<crate::uri::UriParts>)
        ensures
            match self.spec_inner().remote_contact {
                None => r is None,
                Some(c) => match spec_contact_uri(c@) {
                    None => r is None,
                    Some(u) => r matches Some(x) && x@ == u,
                },
            },
    {
        let contact = match self {
            Dialog::ServerInvite(d) => &d.inner.remote_contact,
            Dialog::ClientInvite(d) => &d.inner.remote_contact,
        };
        match contact {
            None => None,
            Some(c) => match contact_uri_parts(c) {
                Ok(u) => Some(u),
                Err(_) => None,
            },
        }
    }

    /// Whether an INVITE of the dialog can still be cancelled.
    pub fn can_cancel(&self) -> (r: bool)
        ensures
            r == (self.spec_inner().state is Calling || self.spec_inner().state is Trying
                || self.spec_inner().state is Early),
    {
        match self {
            Dialog::ServerInvite(d) => d.inner.can_cancel(),
            Dialog::ClientInvite(d) => d.inner.can_cancel(),
        }
    }
}

/// The dialogs, each under an identifier; no two identifiers name the same
/// dialog.
pub struct DialogLayer {
    pub last_seq: u32,
    pub dialogs: Vec<(DialogId, Dialog)>,
}

/// An INVITE built from `opt` names the caller in its From header, with an
/// eight-character tag, and the callee in its To header, and the request goes
/// to the callee: the views of its headers hold `From: <caller>;tag=...` and
/// `To: <callee>`. (`is_invite` is what `make_invite_request` ensures of the
/// request it builds.)
pub proof fn lemma_invite_from_caller_to_callee(req: Request, ep: EndpointInner, opt: InviteOption, seq: u32)
    requires
        is_invite(req, ep, opt, seq),
    ensures
        exists|tag: Seq<char>|
            #![trigger hviews(req.headers@).contains((HeaderKind::From, "<"@ + opt.caller@ + ">;tag="@ + tag))]
            tag.len() == 8 && hviews(req.headers@).contains((HeaderKind::From, "<"@ + opt.caller@ + ">;tag="@ + tag)),
        hviews(req.headers@).contains((HeaderKind::To, "<"@ + opt.callee@ + ">"@)),
{
    let (via, call_id, tag) = choose|via: Seq<char>, call_id: Seq<char>, tag: Seq<char>|
        {
            &&& super::dialog::via_for(via, ep, None, None)
            &&& tag.len() == 8 && (forall|i: int| 0 <= i < 8 ==> is_alphanumeric(#[trigger] tag[i]))
            &&& hviews(req.headers@) == invite_views(
                via,
                call_id,
                opt.caller@,
                tag,
                opt.callee@,
                seq,
                ep.user_agent@,
                opt.contact@,
                invite_content_type(opt),
            )
        };
    let from = (HeaderKind::From, "<"@ + opt.caller@ + ">;tag="@ + tag);
    let to = (HeaderKind::To, "<"@ + opt.callee@ + ">"@);
    let base = seq![
        (HeaderKind::Via, via),
        (HeaderKind::CallId, call_id),
        from,
        to,
        (HeaderKind::CSeq, cseq_value(seq, Method::Invite)),
        (HeaderKind::MaxForwards, "70"@),
        (HeaderKind::UserAgent, ep.user_agent@),
    ];
    let contact = (HeaderKind::Contact, "<"@ + opt.contact@ + ">"@);
    let p1 = kind_not_in(seq![HeaderKind::Contact]);
    let s1 = base.filter(p1).push(contact);
    let p2 = kind_not_in(seq![HeaderKind::ContentType]);
    assert(base[2] == from && base[3] == to);
    assert(!seq![HeaderKind::Contact].contains(HeaderKind::From)) by {
        assert(seq![HeaderKind::Contact][0] == HeaderKind::Contact);
    }
    assert(!seq![HeaderKind::Contact].contains(HeaderKind::To)) by {
        assert(seq![HeaderKind::Contact][0] == HeaderKind::Contact);
    }
    assert(!seq![HeaderKind::ContentType].contains(HeaderKind::From)) by {
        assert(seq![HeaderKind::ContentType][0] == HeaderKind::ContentType);
    }
    assert(!seq![HeaderKind::ContentType].contains(HeaderKind::To)) by {
        assert(seq![HeaderKind::ContentType][0] == HeaderKind::ContentType);
    }
    base.lemma_filter_contains(p1, 2);
    base.lemma_filter_contains(p1, 3);
    let f1 = base.filter(p1);
    let i2 = choose|i: int| 0 <= i < f1.len() && f1[i] == from;
    let i3 = choose|i: int| 0 <= i < f1.len() && f1[i] == to;
    assert(s1[i2] == from && s1[i3] == to);
    s1.lemma_filter_contains(p2, i2);
    s1.lemma_filter_contains(p2, i3);
    let f2 = s1.filter(p2);
    let j2 = choose|i: int| 0 <= i < f2.len() && f2[i] == from;
    let j3 = choose|i: int| 0 <= i < f2.len() && f2[i] == to;
    let views = f2.push((HeaderKind::ContentType, invite_content_type(opt)));
    assert(views[j2] == from && views[j3] == to);
    assert(hviews(req.headers@) == views);
    assert(hviews(req.headers@).contains(from));
}

impl DialogLayer {
    /// No two entries name the same dialog.
    pub open spec fn wf(&self) -> bool {
        forall|i: int, j: int|
            0 <= i < self.dialogs@.len() && 0 <= j < self.dialogs@.len() && i != j ==> !same_dialog(
                (#[trigger] self.dialogs@[i]).0,
                (#[trigger] self.dialogs@[j]).0,
            )
    }

    /// Some entry names the same dialog as `id`.
    pub open spec fn has(&self, id: DialogId) -> bool {
        exists|i: int| 0 <= i < self.dialogs@.len() && same_dialog((#[trigger] self.dialogs@[i]).0, id)
    }

    /// The dialog stored under an identifier naming the same dialog as `id`.
    pub open spec fn lookup(&self, id: DialogId) -> Option<Dialog> {
        if self.has(id) {
            Some(
                self.dialogs@[choose|i: int|
                    0 <= i < self.dialogs@.len() && same_dialog((#[trigger] self.dialogs@[i]).0, id)].1,
            )
        } else {
            None
        }
    }

    /// An empty table.
    pub fn new() -> (l: DialogLayer)
        ensures
            l.wf(),
            l.last_seq == 0,
            forall|id: DialogId| !l.has(id),
    {
        DialogLayer { last_seq: 0, dialogs: Vec::new() }
    }

    /// The number of dialogs.
    pub fn len(&self) -> (n: usize)
        ensures
            n == self.dialogs@.len(),
    {
        self.dialogs.len()
    }

    /// Advances the sequence number of new dialogs (wrapping at the end of
    /// `u32`) and returns the new value.
    pub fn increment_last_seq(&mut self) -> (n: u32)
        ensures
            n == (if old(self).last_seq == u32::MAX { 0 } else { old(self).last_seq + 1 }),
            final(self).last_seq == n,
            final(self).dialogs == old(self).dialogs,
    {
        self.last_seq = if self.last_seq == u32::MAX {
            0
        } else {
            self.last_seq + 1
        };
        self.last_seq
    }

    /// The position of the entry naming the same dialog as `id`, if any.
    fn position(&self, id: &DialogId) -> (r: Option<usize>)
        requires
            self.wf(),
        ensures
            r is None <==> !self.has(*id),
            r matches Some(i) ==> i < self.dialogs@.len() && same_dialog(self.dialogs@[i as int].0, *id)
                && self.lookup(*id) == Some(self.dialogs@[i as int].1),
    {
        let mut i: usize = 0;
        while i < self.dialogs.len()
            invariant
                self.wf(),
                i <= self.dialogs@.len(),
                forall|j: int| 0 <= j < i ==> !same_dialog((#[trigger] self.dialogs@[j]).0, *id),
            decreases self.dialogs@.len() - i,
        {
            if self.dialogs[i].0.same(id) {
                proof {
                    assert(self.has(*id));
                    let j = choose|j: int|
                        0 <= j < self.dialogs@.len() && same_dialog((#[trigger] self.dialogs@[j]).0, *id);
                    if j != i {
                        assert(same_dialog(self.dialogs@[i as int].0, self.dialogs@[j].0));
                    }
                }
                return Some(i);
            }
            i = i + 1;
        }
        None
    }

    /// The dialog `id` names, seen from either side.
    pub fn get_dialog(&self, id: &DialogId) -> (r: Option<&Dialog>)
        requires
            self.wf(),
        ensures
            r is None <==> self.lookup(*id) is None,
            r matches Some(d) ==> self.lookup(*id) == Some(*d),
    {
        match self.position(id) {
            Some(i) => Some(&self.dialogs[i].1),
            None => None,
        }
    }

    /// Removes the dialog `id` names and returns it, if there is one: the
    /// table is then the old one without that entry, one shorter.
    pub fn remove_dialog(&mut self, id: &DialogId) -> (r: Option<Dialog>)
        requires
            old(self).wf(),
        ensures
            final(self).wf(),
            final(self).last_seq == old(self).last_seq,
            r == old(self).lookup(*id),
            forall|q: DialogId| #[trigger]
                final(self).lookup(q) == if same_dialog(q, *id) {
                    None
                } else {
                    old(self).lookup(q)
                },
            forall|q: DialogId| #[trigger] final(self).has(q) == (!same_dialog(q, *id) && old(self).has(q)),
            r is None ==> final(self).dialogs@ == old(self).dialogs@,
            r is Some ==> exists|i: int|
                #![trigger old(self).dialogs@.remove(i)]
                0 <= i < old(self).dialogs@.len() && same_dialog(old(self).dialogs@[i].0, *id)
                    && final(self).dialogs@ == old(self).dialogs@.remove(i),
            final(self).dialogs@.len() == old(self).dialogs@.len() - (if r is Some { 1int } else { 0int }),
    {
        match self.position(id) {
            None => {
                proof {
                    assert forall|q: DialogId| #[trigger]
                        self.lookup(q) == if same_dialog(q, *id) {
                            None
                        } else {
                            old(self).lookup(q)
                        } by {
                        if same_dialog(q, *id) && self.has(q) {
                            let i = choose|i: int|
                                0 <= i < self.dialogs@.len() && same_dialog((#[trigger] self.dialogs@[i]).0, q);
                            assert(same_dialog(self.dialogs@[i].0, *id));
                        }
                    }
                    assert forall|q: DialogId| #[trigger] self.has(q) == (!same_dialog(q, *id) && old(self).has(q)) by {
                        if same_dialog(q, *id) && self.has(q) {
                            let i = choose|i: int|
                                0 <= i < self.dialogs@.len() && same_dialog((#[trigger] self.dialogs@[i]).0, q);
                            assert(same_dialog(self.dialogs@[i].0, *id));
                        }
                    }
                }
                None
            },
            Some(p) => {
                let ghost old_s = self.dialogs@;
                let (_, d) = self.dialogs.remove(p);
                proof {
                    let s = self.dialogs@;
                    assert(s == old_s.remove(p as int));
                    assert forall|i: int, j: int|
                        0 <= i < s.len() && 0 <= j < s.len() && i != j implies !same_dialog(
                        (#[trigger] s[i]).0,
                        (#[trigger] s[j]).0,
                    ) by {
                        let oi = if i < p { i } else { i + 1 };
                        let oj = if j < p { j } else { j + 1 };
                        assert(s[i] == old_s[oi] && s[j] == old_s[oj]);
                    }
                    assert forall|q: DialogId| #[trigger] self.has(q) == (!same_dialog(q, *id) && old(self).has(q)) by {
                        if self.has(q) {
                            let i = choose|i: int| 0 <= i < s.len() && same_dialog((#[trigger] s[i]).0, q);
                            let oi = if i < p { i } else { i + 1 };
                            assert(s[i] == old_s[oi]);
                            assert(same_dialog(old_s[oi].0, q));
                            if same_dialog(q, *id) {
                                assert(same_dialog(old_s[oi].0, old_s[p as int].0));
                            }
                        }
                        if !same_dialog(q, *id) && old(self).has(q) {
                            let i = choose|i: int| 0 <= i < old_s.len() && same_dialog((#[trigger] old_s[i]).0, q);
                            assert(i != p);
                            let ni = if i < p { i } else { i - 1 };
                            assert(s[ni] == old_s[i]);
                        }
                    }
                    assert forall|q: DialogId| #[trigger]
                        self.lookup(q) == if same_dialog(q, *id) {
                            None
                        } else {
                            old(self).lookup(q)
                        } by {
                        if !same_dialog(q, *id) && self.has(q) {
                            let i = choose|i: int| 0 <= i < s.len() && same_dialog((#[trigger] s[i]).0, q);
                            let oi = if i < p { i } else { i + 1 };
                            assert(s[i] == old_s[oi]);
                            let j = choose|j: int| 0 <= j < old_s.len() && same_dialog((#[trigger] old_s[j]).0, q);
                            if oi != j {
                                assert(same_dialog(old_s[oi].0, old_s[j].0));
                            }
                        }
                    }
                }
                Some(d)
            },
        }
    }

    /// Stores `dialog` under `id`, replacing the dialog `id` named before; the
    /// table grows by one when `id` named no dialog.
    pub fn insert_dialog(&mut self, id: DialogId, dialog: Dialog)
        requires
            old(self).wf(),
        ensures
            final(self).wf(),
            final(self).last_seq == old(self).last_seq,
            forall|q: DialogId| #[trigger]
                final(self).lookup(q) == if same_dialog(q, id) {
                    Some(dialog)
                } else {
                    old(self).lookup(q)
                },
            forall|q: DialogId| #[trigger] final(self).has(q) == (same_dialog(q, id) || old(self).has(q)),
            final(self).dialogs@.len() == old(self).dialogs@.len() + (if old(self).has(id) { 0int } else { 1int }),
    {
        let ghost kv = id;
        self.remove_dialog(&id);
        let ghost mt: DialogLayer = *self;
        let ghost mid = self.dialogs@;
        proof {
            assert forall|i: int| 0 <= i < mid.len() implies !same_dialog((#[trigger] mid[i]).0, kv) by {
                if same_dialog(mid[i].0, kv) {
                    assert(mt.has(kv));
                }
            }
        }
        self.dialogs.push((id, dialog));
        proof {
            let s = self.dialogs@;
            assert(s.len() == mid.len() + 1);
            assert(s[s.len() - 1].0 == kv);
            assert forall|i: int| 0 <= i < mid.len() implies (#[trigger] s[i]) == mid[i] by {}
            assert forall|i: int, j: int|
                0 <= i < s.len() && 0 <= j < s.len() && i != j implies !same_dialog(
                (#[trigger] s[i]).0,
                (#[trigger] s[j]).0,
            ) by {
                if i < mid.len() && j < mid.len() {
                    assert(s[i] == mid[i] && s[j] == mid[j]);
                    assert(mt.dialogs@[i] == mid[i] && mt.dialogs@[j] == mid[j]);
                } else if i < mid.len() {
                    assert(s[i] == mid[i]);
                    assert(!same_dialog(mid[i].0, kv));
                } else {
                    assert(s[j] == mid[j]);
                    assert(!same_dialog(mid[j].0, kv));
                }
            }
            assert forall|q: DialogId| #[trigger] self.has(q) implies (same_dialog(q, kv) || old(self).has(q)) by {
                let i = choose|i: int| 0 <= i < s.len() && same_dialog((#[trigger] s[i]).0, q);
                if i < mid.len() {
                    assert(s[i] == mid[i]);
                    assert(mt.dialogs@[i].0 == mid[i].0);
                    assert(mt.has(q));
                }
            }
            assert forall|q: DialogId| (same_dialog(q, kv) || old(self).has(q)) implies #[trigger] self.has(q) by {
                if same_dialog(q, kv) {
                    assert(same_dialog(self.dialogs@[s.len() - 1].0, q));
                } else {
                    assert(mt.has(q));
                    let i = choose|i: int| 0 <= i < mt.dialogs@.len() && same_dialog((#[trigger] mt.dialogs@[i]).0, q);
                    assert(s[i] == mid[i]);
                    assert(same_dialog(self.dialogs@[i].0, q));
                }
            }
            assert forall|q: DialogId| #[trigger]
                self.lookup(q) == if same_dialog(q, kv) {
                    Some(dialog)
                } else {
                    old(self).lookup(q)
                } by {
                if same_dialog(q, kv) {
                    assert(same_dialog(s[s.len() - 1].0, q));
                    assert(self.has(q));
                    let i = choose|i: int| 0 <= i < s.len() && same_dialog((#[trigger] s[i]).0, q);
                    if i != s.len() - 1 {
                        assert(same_dialog(s[i].0, s[s.len() - 1].0));
                    }
                } else if self.has(q) {
                    let i = choose|i: int| 0 <= i < s.len() && same_dialog((#[trigger] s[i]).0, q);
                    assert(i < mid.len());
                    assert(s[i] == mid[i]);
                    assert(mt.dialogs@[i].0 == mid[i].0);
                    assert(mt.has(q));
                    let j = choose|j: int| 0 <= j < mid.len() && same_dialog((#[trigger] mt.dialogs@[j]).0, q);
                    if i != j {
                        assert(same_dialog(mt.dialogs@[i].0, mt.dialogs@[j].0));
                    }
                    assert(mt.lookup(q) == Some(mid[i].1));
                }
            }
        }
    }

    /// The dialog a request belongs to, when the request names one.
    pub fn match_dialog(&self, req: &Request) -> (r: Option<&Dialog>)
        requires
            self.wf(),
        ensures
            match spec_message_id(req.headers@, false) {
                Err(_) => r is None,
                Ok(parts) => forall|q: DialogId| #![trigger self.lookup(q)] id_parts(q) == parts ==> (
                    match r {
                        None => self.lookup(q) is None,
                        Some(d) => self.lookup(q) == Some(*d),
                    }),
            },
    {
        let id = match DialogId::from_request(req) {
            Ok(id) => id,
            Err(_) => return None,
        };
        let r = self.get_dialog(&id);
        proof {
            assert forall|q: DialogId| #![trigger self.lookup(q)] id_parts(q) == id_parts(id) implies (match r {
                None => self.lookup(q) is None,
                Some(d) => self.lookup(q) == Some(*d),
            }) by {
                lemma_lookup_same(*self, q, id);
            }
        }
        r
    }
}

/// Identifiers naming the same dialog find the same entry.
pub proof fn lemma_lookup_same(l: DialogLayer, a: DialogId, b: DialogId)
    requires
        l.wf(),
        same_dialog(a, b),
    ensures
        l.lookup(a) == l.lookup(b),
        l.has(a) == l.has(b),
{
    if l.has(a) {
        let i = choose|i: int| 0 <= i < l.dialogs@.len() && same_dialog((#[trigger] l.dialogs@[i]).0, a);
        assert(same_dialog(l.dialogs@[i].0, b));
        let j = choose|j: int| 0 <= j < l.dialogs@.len() && same_dialog((#[trigger] l.dialogs@[j]).0, b);
        if i != j {
            assert(same_dialog(l.dialogs@[i].0, l.dialogs@[j].0));
        }
    }
    if l.has(b) {
        let j = choose|j: int| 0 <= j < l.dialogs@.len() && same_dialog((#[trigger] l.dialogs@[j]).0, b);
        assert(same_dialog(l.dialogs@[j].0, a));
    }
}

/// A dialog is found from either side: looking up an identifier and its
/// swap gives the same dialog.
pub proof fn lemma_lookup_swapped(l: DialogLayer, id: DialogId)
    requires
        l.wf(),
    ensures
        l.lookup(id) == l.lookup(super::swapped(id)),
{
    lemma_lookup_same(l, id, super::swapped(id));
}


/// What an INVITE this side sends is made of: the caller's and callee's URIs,
/// the content type of the offer (SDP when not given), the offer, the local
/// Contact URI and the credentials.
pub struct InviteOption {
    pub caller: String,
    pub callee: String,
    pub content_type: Option<String>,
    pub offer: Option<Vec<u8>>,
    pub contact: String,
    pub credential: Option<Credential>,
}

/// The headers of an INVITE this side sends: Via, Call-ID, From (the caller
/// with a tag), To (the callee), CSeq, Max-Forwards 70 and User-Agent, then
/// the Contact and Content-Type put in by `unique_push`.
pub open spec fn invite_views(
    via: Seq<char>,
    call_id: Seq<char>,
    caller: Seq<char>,
    tag: Seq<char>,
    callee: Seq<char>,
    seq: u32,
    ua: Seq<char>,
    contact: Seq<char>,
    content_type: Seq<char>,
) -> Seq<(HeaderKind, Seq<char>)> {
    views_unique_push(
        views_unique_push(
            seq![
                (HeaderKind::Via, via),
                (HeaderKind::CallId, call_id),
                (HeaderKind::From, "<"@ + caller + ">;tag="@ + tag),
                (HeaderKind::To, "<"@ + callee + ">"@),
                (HeaderKind::CSeq, cseq_value(seq, Method::Invite)),
                (HeaderKind::MaxForwards, "70"@),
                (HeaderKind::UserAgent, ua),
            ],
            (HeaderKind::Contact, "<"@ + contact + ">"@),
        ),
        (HeaderKind::ContentType, content_type),
    )
}

/// The content type of an INVITE from `opt`: the given one, SDP otherwise.
pub open spec fn invite_content_type(opt: InviteOption) -> Seq<char> {
    match opt.content_type {
        Some(c) => c@,
        None => "application/sdp"@,
    }
}

/// `req` is an INVITE from `opt` with sequence number `seq`: a fresh tag, a
/// fresh Call-ID and a Via with a fresh branch for the endpoint's first
/// address.
pub open spec fn is_invite(req: Request, ep: EndpointInner, opt: InviteOption, seq: u32) -> bool {
    exists|via: Seq<char>, call_id: Seq<char>, tag: Seq<char>|
        #![trigger invite_views(via, call_id, opt.caller@, tag, opt.callee@, seq, ep.user_agent@, opt.contact@, invite_content_type(opt))]
        {
            &&& super::dialog::via_for(via, ep, None, None)
            &&& tag.len() == 8 && (forall|i: int| 0 <= i < 8 ==> is_alphanumeric(#[trigger] tag[i]))
            &&& hviews(req.headers@) == invite_views(
                via,
                call_id,
                opt.caller@,
                tag,
                opt.callee@,
                seq,
                ep.user_agent@,
                opt.contact@,
                invite_content_type(opt),
            )
        }
}

impl DialogLayer {
    /// The dialog for an incoming INVITE. An INVITE naming a to-tag belongs
    /// to an existing server dialog, found from either side (a missing one,
    /// or a client dialog, is an error). Otherwise a new server dialog is
    /// created with a fresh to-tag (see `DialogInner::new`) and stored.
    /// Returns the dialog's identifier. Fails when the INVITE names no
    /// dialog, or the dialog cannot be set up from it.
    pub fn get_or_create_server_invite(
        &mut self,
        req: &Request,
        credential: Option<Credential>,
        contact: Option<String>,
    ) -> (r: Result<DialogId, Error>)
        requires
            old(self).wf(),
        ensures
            final(self).wf(),
            final(self).last_seq == old(self).last_seq,
            match spec_message_id(req.headers@, false) {
                Err(_) => r is Err && *final(self) == *old(self),
                Ok(parts) => if parts.2.len() > 0 {
                    &&& *final(self) == *old(self)
                    &&& r matches Ok(id) ==> (id_parts(id) == parts && (old(self).lookup(id) matches Some(
                        Dialog::ServerInvite(_),
                    )))
                    &&& r is Err ==> forall|q: DialogId| #![trigger old(self).lookup(q)] id_parts(q) == parts ==> !(old(
                        self,
                    ).lookup(q) matches Some(Dialog::ServerInvite(_)))
                } else {
                    &&& r is Ok <==> setup_ok(TransactionRole::Server, *req)
                    &&& r is Err ==> *final(self) == *old(self)
                    &&& r matches Ok(id) ==> {
                        &&& id.call_id@ == parts.0 && id.from_tag@ == parts.1
                        &&& id.to_tag@.len() == 8 && forall|i: int| 0 <= i < 8 ==> is_alphanumeric(#[trigger] id.to_tag@[i])
                        &&& (final(self).lookup(id) matches Some(Dialog::ServerInvite(d)) && d.inner.state is Calling
                            && !d.invite_pending && d.inner.role == TransactionRole::Server
                            && crate::message::same_request(d.inner.initial_request, *req))
                        &&& final(self).dialogs@.len() == old(self).dialogs@.len() + (if old(self).has(id) { 0int } else { 1int })
                        &&& forall|q: DialogId| #[trigger] final(self).lookup(q) == if same_dialog(q, id) {
                            final(self).lookup(id)
                        } else {
                            old(self).lookup(q)
                        }
                    }
                },
            },
    {
        let mut id = DialogId::from_request(req)?;
        if id.to_tag.unicode_len() > 0 {
            match self.get_dialog(&id) {
                Some(Dialog::ServerInvite(_)) => return Ok(id),
                _ => {
                    proof {
                        assert forall|q: DialogId| #![trigger self.lookup(q)] id_parts(q) == id_parts(id) implies !(
                        self.lookup(q) matches Some(Dialog::ServerInvite(_))) by {
                            lemma_lookup_same(*self, q, id);
                        }
                    }
                    return Err(Error::DialogError(String::from_str("the dialog not found"), id, None));
                },
            }
        }
        id.to_tag = make_tag();
        let inner = DialogInner::new(TransactionRole::Server, id.duplicate(), req.duplicate(), credential, contact)?;
        let key = id.duplicate();
        proof {
            assert(same_dialog(key, id));
        }
        let ghost before = *self;
        self.insert_dialog(key, Dialog::ServerInvite(ServerInviteDialog { inner, invite_pending: false }));
        proof {
            assert(same_dialog(id, key));
            lemma_lookup_same(before, key, id);
        }
        Ok(id)
    }

    /// An INVITE from `opt` (see `is_invite`), with the next dialog sequence
    /// number and no body. Fails when the endpoint has no address.
    pub fn make_invite_request(&mut self, ep: &EndpointInner, opt: &InviteOption) -> (r: Result<Request, Error>)
        ensures
            final(self).dialogs == old(self).dialogs,
            final(self).last_seq == (if old(self).last_seq == u32::MAX { 0 } else { old(self).last_seq + 1 }),
            r is Err <==> ep.addrs@.len() == 0,
            r matches Ok(req) ==> {
                &&& req.method == Method::Invite
                &&& req.uri@ == opt.callee@
                &&& req.body@.len() == 0
                &&& is_invite(req, *ep, *opt, final(self).last_seq)
            },
    {
        let last_seq = self.increment_last_seq();
        proof {
            reveal_strlit("<");
            reveal_strlit(">");
            reveal_strlit(">;tag=");
            reveal_strlit("application/sdp");
        }
        let mut to = String::from_str("<");
        to.append(opt.callee.as_str());
        to.append(">");
        let tag = make_tag();
        let mut from = String::from_str("<");
        from.append(opt.caller.as_str());
        from.append(">;tag=");
        from.append(tag.as_str());
        let via = ep.get_via(None, None)?;
        let ghost gv = via@;
        let request = ep.make_request(Method::Invite, opt.callee.clone(), via, from, to, last_seq);
        let ghost call_id = request.headers@[1].spec_value();
        proof {
            assert(hviews(request.headers@) =~= seq![
                (HeaderKind::Via, gv),
                (HeaderKind::CallId, call_id),
                (HeaderKind::From, "<"@ + opt.caller@ + ">;tag="@ + tag@),
                (HeaderKind::To, "<"@ + opt.callee@ + ">"@),
                (HeaderKind::CSeq, cseq_value(last_seq, Method::Invite)),
                (HeaderKind::MaxForwards, "70"@),
                (HeaderKind::UserAgent, ep.user_agent@),
            ]);
        }
        let mut contact = String::from_str("<");
        contact.append(opt.contact.as_str());
        contact.append(">");
        let ct = match &opt.content_type {
            Some(c) => c.clone(),
            None => String::from_str("application/sdp"),
        };
        let headers = crate::message::push_unique(request.headers, Header::Contact(contact));
        let headers = crate::message::push_unique(headers, Header::ContentType(ct));
        let req = Request { method: Method::Invite, uri: request.uri, headers, body: Vec::new() };
        proof {
            assert(super::dialog::via_for(gv, *ep, None, None));
            assert(hviews(req.headers@) == invite_views(
                gv,
                call_id,
                opt.caller@,
                tag@,
                opt.callee@,
                last_seq,
                ep.user_agent@,
                opt.contact@,
                invite_content_type(*opt),
            ));
        }
        Ok(req)
    }

    /// Stores a client dialog for an INVITE this side sends (see
    /// `DialogInner::new`) under the INVITE's identifier, and returns that
    /// identifier. Fails when the INVITE names no dialog or the dialog
    /// cannot be set up from it.
    pub fn create_client_invite(
        &mut self,
        request: &Request,
        credential: Option<Credential>,
        contact: Option<String>,
    ) -> (r: Result<DialogId, Error>)
        requires
            old(self).wf(),
        ensures
            final(self).wf(),
            final(self).last_seq == old(self).last_seq,
            r is Ok <==> (spec_message_id(request.headers@, false) is Ok && setup_ok(TransactionRole::Client, *request)),
            r is Err ==> *final(self) == *old(self),
            r matches Ok(id) ==> {
                &&& spec_message_id(request.headers@, false) == Ok::<_, super::IdFault>(id_parts(id))
                &&& (final(self).lookup(id) matches Some(Dialog::ClientInvite(d)) && d.inner.state is Calling
                    && d.inner.role == TransactionRole::Client && crate::message::same_request(d.inner.initial_request, *request))
                &&& final(self).dialogs@.len() == old(self).dialogs@.len() + (if old(self).has(id) { 0int } else { 1int })
                &&& forall|q: DialogId| #[trigger] final(self).lookup(q) == if same_dialog(q, id) {
                    final(self).lookup(id)
                } else {
                    old(self).lookup(q)
                }
            },
    {
        let id = DialogId::from_request(request)?;
        let inner = DialogInner::new(TransactionRole::Client, id.duplicate(), request.duplicate(), credential, contact)?;
        let key = id.duplicate();
        proof {
            assert(same_dialog(key, id));
        }
        let ghost before = *self;
        self.insert_dialog(key, Dialog::ClientInvite(ClientInviteDialog { inner }));
        proof {
            assert(same_dialog(id, key));
            lemma_lookup_same(before, key, id);
        }
        Ok(id)
    }
}

} // verus!
