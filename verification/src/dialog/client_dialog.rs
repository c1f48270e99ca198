//! The client side of an INVITE dialog (UAC): the INVITE's responses up to
//! the ACK, and the requests that reach an established dialog.
use super::dialog::{
    body_bytes, is_challenge, is_early, made_request, next_seq, opt_str, DialogAction, DialogInner, DialogState,
    TerminatedReason,
};
use super::{id_parts, spec_message_id, DialogId};
use crate::error::Error;
use crate::header_values::{cseq_fields, from_tag, spec_cseq_fields, spec_from_tag, spec_to_tag, spec_via_display_parts, to_tag, via_display_parts};
use crate::message::{
    first_header_value, first_value, spec_status_kind, status_kind, HeaderKind, Method, Request, Response,
    StatusCodeKind,
};
use crate::transaction::endpoint::EndpointInner;
use crate::transaction::key::TransactionRole;
use crate::uri::{name_addr_text, with_tag};
use vstd::prelude::*;

verus! {

/// A client INVITE dialog.
pub struct ClientInviteDialog {
    pub inner: DialogInner,
}

/// What a client dialog does next while its INVITE is answered.
pub enum InviteAction {
    /// Wait for the next response.
    Continue,
    /// Send the INVITE again with credentials, with this sequence number.
    Authenticate(u32),
    /// Send this ACK; the dialog is now known under this identifier.
    SendAck(Request, DialogId),
    /// Stop waiting.
    Stop,
}

/// The tag of a final response's To header, when it has one.
pub open spec fn final_to_tag(s: Seq<crate::message::Header>) -> Option<Seq<char>> {
    match first_value(s, HeaderKind::To) {
        Some(v) => match spec_to_tag(v) {
            Some(Some(t)) => Some(t),
            _ => None,
        },
        None => None,
    }
}

/// The first branch parameter among the Via parameters.
pub open spec fn first_branch(ps: Seq<Seq<char>>) -> Option<Seq<char>>
    decreases ps.len(),
{
    if ps.len() == 0 {
        None
    } else if super::dialog::is_branch_param(ps[0]) {
        Some(ps[0])
    } else {
        first_branch(ps.drop_first())
    }
}

/// The branch an ACK reuses: a 2xx's first Via's branch; none for other
/// responses. Fails when a 2xx has no Via or its Via does not parse.
pub open spec fn ack_branch(resp: Response) -> Result<Option<Seq<char>>, ()> {
    if spec_status_kind(resp.status_code) == StatusCodeKind::Successful {
        match first_value(resp.headers@, HeaderKind::Via) {
            None => Err(()),
            Some(v) => match spec_via_display_parts(v) {
                None => Err(()),
                Some((_, ps)) => Ok(first_branch(ps)),
            },
        }
    } else {
        Ok(None)
    }
}

/// The sequence number an ACK carries: the response's, when its CSeq parses
/// (none otherwise, and the next local one is used). Fails when the response
/// has no CSeq header.
pub open spec fn ack_cseq(resp: Response) -> Result<Option<u32>, ()> {
    match first_value(resp.headers@, HeaderKind::CSeq) {
        None => Err(()),
        Some(v) => Ok(
            match spec_cseq_fields(v) {
                Some((n, _)) => Some(n),
                None => None,
            },
        ),
    }
}

/// Why a client dialog ends on a final response other than 200.
pub open spec fn failure_reason(status: u16) -> TerminatedReason {
    if status == 486 {
        TerminatedReason::UasBusy
    } else if status == 603 {
        TerminatedReason::UasDecline
    } else {
        TerminatedReason::UasOther(status)
    }
}

/// The identifier the dialog takes once the remote tag is `tag`: its
/// Call-ID, the tag of its From value and the tag of its To value (empty
/// when it has none), as `rsip` reads them; `None` when they cannot be read.
pub open spec fn ack_dialog_id(d: DialogInner, tag: Seq<char>) -> Option<(Seq<char>, Seq<char>, Seq<char>)> {
    match spec_from_tag(name_addr_text(d.from@)) {
        Some(Some(ft)) => match spec_to_tag(name_addr_text(with_tag(d.to@, tag))) {
            Some(Some(tt)) => Some((d.id.call_id@, ft, tt)),
            Some(None) => Some((d.id.call_id@, ft, Seq::empty())),
            None => None,
        },
        _ => None,
    }
}

/// What a client INVITE dialog `o` does with a response `resp` to its
/// INVITE: the action `r`, the dialog after it `n`, and whether credentials
/// were sent before (`sent0`) and after (`sent1`).
pub open spec fn invite_response_effect(
    o: DialogInner,
    n: DialogInner,
    ep: EndpointInner,
    sent0: bool,
    sent1: bool,
    resp: Response,
    r: Result<InviteAction, Error>,
) -> bool {
    let s = resp.status_code;
    if s == 100 || is_early(s) {
        &&& r matches Ok(InviteAction::Continue)
        &&& sent1 == sent0
        &&& if o.state is Terminated {
            n == o
        } else {
            n == DialogInner { state: n.state, ..o } && (if s == 100 {
                n.state matches DialogState::Trying(id) && id_parts(id) == id_parts(o.id)
            } else {
                n.state matches DialogState::Early(id, x) && id_parts(id) == id_parts(o.id) && x == resp
            })
        }
    } else if is_challenge(s) {
        let ended = if o.state is Terminated {
            n == o
        } else {
            n == DialogInner { state: n.state, ..o } && (n.state matches DialogState::Terminated(id, reason)
                && id_parts(id) == id_parts(o.id) && reason == TerminatedReason::ProxyAuthRequired)
        };
        &&& sent1
        &&& if sent0 {
            r matches Ok(InviteAction::Stop) && ended
        } else if o.credential is Some {
            r matches Ok(InviteAction::Authenticate(x)) && x == next_seq(o.local_seq) && n == DialogInner {
                local_seq: next_seq(o.local_seq),
                ..o
            }
        } else {
            r matches Ok(InviteAction::Continue) && ended
        }
    } else {
        &&& sent1 == sent0
        &&& r is Err ==> n == o
        &&& r is Ok <==> {
            &&& final_to_tag(resp.headers@) is Some
            &&& ack_branch(resp) is Ok
            &&& ack_cseq(resp) is Ok
            &&& ep.addrs@.len() > 0
            &&& ack_dialog_id(o, final_to_tag(resp.headers@)->0) is Some
        }
        &&& r matches Ok(a) ==> {
            let tag = final_to_tag(resp.headers@)->0;
            let seq = match ack_cseq(resp)->Ok_0 {
                Some(x) => x,
                None => next_seq(o.local_seq),
            };
            &&& a matches InviteAction::SendAck(ack, did)
            &&& n.id.to_tag@ == tag && n.id.call_id@ == o.id.call_id@ && n.id.from_tag@ == o.id.from_tag@
            &&& n.to@ == with_tag(o.to@, tag)
            &&& made_request(
                ack,
                DialogInner { id: n.id, to: n.to, ..o },
                ep,
                Method::Ack,
                seq,
                None,
                ack_branch(resp)->Ok_0,
                Seq::empty(),
                None,
            )
            &&& ack_dialog_id(o, tag) == Some(id_parts(did))
            &&& if o.state is Terminated {
                n.state == o.state
            } else if s == 200 {
                n.state matches DialogState::Confirmed(id, x) && id_parts(id) == id_parts(did) && x == resp
            } else {
                n.state matches DialogState::Terminated(id, reason) && id_parts(id) == id_parts(n.id)
                    && reason == failure_reason(s)
            }
        }
    }
}

/// A ringing (180) or session-progress (183) response to the INVITE of a
/// live client dialog never ends or confirms it and builds no ACK: the dialog
/// waits on (`Continue`) and is early with that response, under the same
/// identifier. (`invite_response_effect` is what `on_invite_response`
/// ensures.)
pub proof fn lemma_ringing_or_progress_is_early(
    o: DialogInner,
    n: DialogInner,
    ep: EndpointInner,
    sent0: bool,
    sent1: bool,
    resp: Response,
    r: Result<InviteAction, Error>,
)
    requires
        invite_response_effect(o, n, ep, sent0, sent1, resp, r),
        resp.status_code == 180 || resp.status_code == 183,
        !(o.state is Terminated),
    ensures
        r matches Ok(InviteAction::Continue),
        sent1 == sent0,
        n.state matches DialogState::Early(id, x) && id_parts(id) == id_parts(o.id) && x == resp,
        n == (DialogInner { state: n.state, ..o }),
{
}

impl ClientInviteDialog {
    /// The dialog's identifier.
    pub fn id(&self) -> (r: DialogId)
        ensures
            id_parts(r) == id_parts(self.inner.id),
    {
        self.inner.id.duplicate()
    }

    /// The INVITE is about to be sent: the dialog is Calling.
    pub fn start_invite(&mut self)
        ensures
            if old(self).inner.state is Terminated {
                *final(self) == *old(self)
            } else {
                final(self).inner == (DialogInner { state: final(self).inner.state, ..old(self).inner })
                    && (final(self).inner.state matches DialogState::Calling(id) && id_parts(id) == id_parts(
                    old(self).inner.id,
                ))
            },
    {
        let id = self.inner.id.duplicate();
        self.inner.transition(DialogState::Calling(id));
    }

    /// What the dialog does with a response to its INVITE. 100 makes it
    /// Trying, 180 and 183 Early. A challenge is answered once with the
    /// credentials (advancing the local sequence number); a second one, or
    /// one without credentials, ends the dialog for want of authentication
    /// (stopping on the second). Any other response is final: its To tag
    /// becomes the remote tag, an ACK is built (on the 2xx's branch for a
    /// 2xx, with the response's sequence number) for the caller to send, and
    /// the dialog takes the ACK's identifier; on a 200 the dialog is then
    /// Confirmed (the 200 received and its ACK sent), and on anything else it
    /// ends. Fails when a final response has no To tag, a 2xx no
    /// readable Via, the response no CSeq, the endpoint no address, or the
    /// ACK no identifier.
    pub fn on_invite_response(
        &mut self,
        ep: &EndpointInner,
        auth_sent: &mut bool,
        resp: Response,
    ) -> (r: Result<InviteAction, Error>)
        requires
            old(self).inner.role == TransactionRole::Client,
        ensures
            invite_response_effect(
                old(self).inner,
                final(self).inner,
                *ep,
                *old(auth_sent),
                *final(auth_sent),
                resp,
                r,
            ),
    {
        let s = resp.status_code;
        if s == 100 {
            let id = self.inner.id.duplicate();
            self.inner.transition(DialogState::Trying(id));
            return Ok(InviteAction::Continue);
        }
        if s == 180 || s == 183 {
            let id = self.inner.id.duplicate();
            self.inner.transition(DialogState::Early(id, resp));
            return Ok(InviteAction::Continue);
        }
        if s == 401 || s == 407 {
            if *auth_sent {
                let id = self.inner.id.duplicate();
                self.inner.transition(DialogState::Terminated(id, TerminatedReason::ProxyAuthRequired));
                return Ok(InviteAction::Stop);
            }
            *auth_sent = true;
            if self.inner.credential.is_some() {
                let seq = self.inner.increment_local_seq();
                return Ok(InviteAction::Authenticate(seq));
            } else {
                let id = self.inner.id.duplicate();
                self.inner.transition(DialogState::Terminated(id, TerminatedReason::ProxyAuthRequired));
                return Ok(InviteAction::Continue);
            }
        }
        let id_now = self.inner.id.duplicate();
        let tag = match first_header_value(&resp.headers, HeaderKind::To) {
            Some(v) => match to_tag(v) {
                Ok(Some(t)) => t,
                Ok(None) => {
                    return Err(Error::DialogError(String::from_str("to tag not found"), id_now, Some(s)));
                },
                Err(e) => return Err(Error::SipMessageError(e)),
            },
            None => return Err(Error::SipMessageError(String::from_str("missing header: To"))),
        };
        let two_xx = match status_kind(s) {
            StatusCodeKind::Successful => true,
            _ => false,
        };
        let branch = if two_xx {
            match first_header_value(&resp.headers, HeaderKind::Via) {
                Some(v) => match via_display_parts(v) {
                    Ok((_, params)) => first_branch_exec(&params),
                    Err(e) => return Err(Error::SipMessageError(e)),
                },
                None => return Err(Error::SipMessageError(String::from_str("missing header: Via"))),
            }
        } else {
            None
        };
        let cseq = match first_header_value(&resp.headers, HeaderKind::CSeq) {
            Some(v) => match cseq_fields(v) {
                Ok((n, _)) => Some(n),
                Err(_) => None,
            },
            None => return Err(Error::SipMessageError(String::from_str("missing header: CSeq"))),
        };
        if ep.addrs.len() == 0 {
            return Err(Error::EndpointError(String::from_str("not sipaddrs")));
        }
        let from_text = self.inner.from.to_text();
        let ft = match from_tag(&from_text) {
            Ok(Some(t)) => t,
            Ok(None) => return Err(Error::Error(String::from_str("from tag not found"))),
            Err(e) => return Err(Error::SipMessageError(e)),
        };
        let mut new_to = self.inner.to.duplicate();
        new_to.set_tag(tag.as_str());
        let to_text = new_to.to_text();
        let tt = match to_tag(&to_text) {
            Ok(Some(t)) => t,
            Ok(None) => String::new(),
            Err(e) => return Err(Error::SipMessageError(e)),
        };
        self.inner.update_remote_tag(tag.as_str());
        let did = DialogId { call_id: self.inner.id.call_id.clone(), from_tag: ft, to_tag: tt };
        let ack = match self.inner.make_request(ep, Method::Ack, cseq, None, branch, None, None) {
            Ok(a) => a,
            Err(e) => return Err(e),
        };
        if s == 200 {
            let state_id = did.duplicate();
            self.inner.transition(DialogState::Confirmed(state_id, resp));
        } else {
            let state_id = self.inner.id.duplicate();
            let reason = if s == 486 {
                TerminatedReason::UasBusy
            } else if s == 603 {
                TerminatedReason::UasDecline
            } else {
                TerminatedReason::UasOther(s)
            };
            self.inner.transition(DialogState::Terminated(state_id, reason));
        }
        Ok(InviteAction::SendAck(ack, did))
    }
}

/// The first branch parameter among the Via parameters.
fn first_branch_exec(ps: &Vec<String>) -> (r: Option<String>)
    ensures
        opt_str(r) == first_branch(crate::text::string_views(ps@)),
{
    let ghost sv = crate::text::string_views(ps@);
    let mut i: usize = 0;
    proof {
        assert(sv.skip(0) =~= sv);
    }
    while i < ps.len()
        invariant
            sv == crate::text::string_views(ps@),
            i <= ps@.len(),
            first_branch(sv) == first_branch(sv.skip(i as int)),
        decreases ps@.len() - i,
    {
        proof {
            assert(sv.skip(i as int).drop_first() =~= sv.skip(i as int + 1));
            assert(sv.skip(i as int)[0] == ps@[i as int]@);
        }
        if super::dialog::is_branch_param_exec(&ps[i]) {
            return Some(ps[i].clone());
        }
        i = i + 1;
    }
    None
}


/// The method part of a CSeq value as `rsip` reads it.
pub open spec fn cseq_method_text(v: Seq<char>) -> Seq<char> {
    match spec_cseq_fields(v) {
        Some((_, m)) => m,
        None => Seq::empty(),
    }
}

/// The sequence number of a request's CSeq header, if it parses.
pub open spec fn cseq_of(req: Request) -> Option<u32> {
    super::dialog::request_cseq(req.headers@)
}

impl ClientInviteDialog {
    /// A BYE for a confirmed dialog; nothing for another. Fails when the
    /// endpoint has no address.
    pub fn bye(&mut self, ep: &EndpointInner) -> (r: Result<Option<Request>, Error>)
        ensures
            !(old(self).inner.state is Confirmed) ==> (r matches Ok(None) && *final(self) == *old(self)),
            old(self).inner.state is Confirmed ==> {
                &&& r is Err <==> ep.addrs@.len() == 0
                &&& r is Err ==> *final(self) == *old(self)
                &&& r matches Ok(Some(req)) ==> final(self).inner == (DialogInner {
                    local_seq: next_seq(old(self).inner.local_seq),
                    ..old(self).inner
                }) && made_request(
                    req,
                    old(self).inner,
                    *ep,
                    Method::Bye,
                    next_seq(old(self).inner.local_seq),
                    None,
                    None,
                    Seq::empty(),
                    None,
                )
                &&& !(r matches Ok(None))
            },
    {
        if !self.inner.is_confirmed() {
            return Ok(None);
        }
        let req = self.inner.make_request(ep, Method::Bye, None, None, None, None, None)?;
        Ok(Some(req))
    }

    /// The BYE was answered: the dialog ends, ended by this side.
    pub fn finish_bye(&mut self)
        ensures
            if old(self).inner.state is Terminated {
                *final(self) == *old(self)
            } else {
                final(self).inner == (DialogInner { state: final(self).inner.state, ..old(self).inner })
                    && (final(self).inner.state matches DialogState::Terminated(id, reason) && id_parts(id) == id_parts(
                    old(self).inner.id,
                ) && reason == TerminatedReason::UacBye)
            },
    {
        let id = self.inner.id.duplicate();
        self.inner.transition(DialogState::Terminated(id, TerminatedReason::UacBye));
    }

    /// An INFO for a confirmed dialog; nothing for another. Fails when the
    /// endpoint has no address.
    pub fn info(&mut self, ep: &EndpointInner) -> (r: Result<Option<Request>, Error>)
        ensures
            !(old(self).inner.state is Confirmed) ==> (r matches Ok(None) && *final(self) == *old(self)),
            old(self).inner.state is Confirmed ==> {
                &&& r is Err <==> ep.addrs@.len() == 0
                &&& r is Err ==> *final(self) == *old(self)
                &&& r matches Ok(Some(req)) ==> final(self).inner == (DialogInner {
                    local_seq: next_seq(old(self).inner.local_seq),
                    ..old(self).inner
                }) && made_request(
                    req,
                    old(self).inner,
                    *ep,
                    Method::Info,
                    next_seq(old(self).inner.local_seq),
                    None,
                    None,
                    Seq::empty(),
                    None,
                )
                &&& !(r matches Ok(None))
            },
    {
        if !self.inner.is_confirmed() {
            return Ok(None);
        }
        let req = self.inner.make_request(ep, Method::Info, None, None, None, None, None)?;
        Ok(Some(req))
    }

    /// A CANCEL of the INVITE: the INVITE with the method CANCEL, the local
    /// sequence number in its first CSeq (whose method stays), and no body.
    /// Fails when the INVITE has no readable CSeq.
    pub fn cancel(&self) -> (r: Result<Request, Error>)
        ensures
            ({
                let init = self.inner.initial_request;
                &&& r is Ok <==> (first_value(init.headers@, HeaderKind::CSeq) matches Some(v) && spec_cseq_fields(v) is Some)
                &&& r matches Ok(c) ==> {
                    let m = cseq_method_text(first_value(init.headers@, HeaderKind::CSeq)->0);
                    &&& c.method == Method::Cancel
                    &&& c.uri@ == init.uri@
                    &&& c.body@.len() == 0
                    &&& exists|i: int| crate::message::is_first_of_kind(init.headers@, HeaderKind::CSeq, i)
                        && crate::message::hviews(c.headers@) == crate::message::hviews(init.headers@).update(
                        i,
                        (HeaderKind::CSeq, crate::text::decimal(self.inner.local_seq as nat) + " "@ + m),
                    )
                }
            }),
    {
        let init = &self.inner.initial_request;
        let i = match crate::message::find_first(&init.headers, HeaderKind::CSeq) {
            Some(i) => i,
            None => return Err(Error::SipMessageError(String::from_str("missing header: CSeq"))),
        };
        let (_, m) = match cseq_fields(init.headers[i].value()) {
            Ok(f) => f,
            Err(e) => return Err(Error::SipMessageError(e)),
        };
        let mut v = crate::text::decimal_string(self.inner.local_seq as u64);
        v.append(" ");
        v.append(m.as_str());
        proof {
            reveal_strlit(" ");
        }
        let mut headers = crate::message::copy_headers(&init.headers);
        headers.set(i, crate::message::Header::CSeq(v));
        proof {
            assert(crate::message::hviews(headers@) =~= crate::message::hviews(init.headers@).update(
                i as int,
                (HeaderKind::CSeq, crate::text::decimal(self.inner.local_seq as nat) + " "@ + m@),
            ));
        }
        Ok(Request { method: Method::Cancel, uri: init.uri.clone(), headers, body: Vec::new() })
    }

    /// What the dialog does with a request that reached it. One with a
    /// sequence number below the last one is answered 500. Otherwise its
    /// number becomes the last one; in a confirmed dialog an INVITE is left
    /// alone, a BYE ends the dialog (ended by the peer) and is answered 200,
    /// an INFO is answered 200, and any other method is answered 405 with a
    /// dialog error; before confirmation nothing more is done. Fails when
    /// the request has no readable CSeq.
    pub fn handle(&mut self, req: &Request) -> (r: Result<DialogAction, Error>)
        ensures
            ({
                let o = old(self).inner;
                let n = final(self).inner;
                &&& r is Err <==> cseq_of(*req) is None
                &&& cseq_of(*req) is None ==> n == o
                &&& cseq_of(*req) matches Some(x) ==> if x < o.remote_seq {
                    r matches Ok(DialogAction::Reply(c)) && c == 500 && n == o
                } else {
                    let kept = DialogInner { remote_seq: x, ..o };
                    if !(o.state is Confirmed) || req.method == Method::Invite {
                        r matches Ok(DialogAction::Ignore) && n == kept
                    } else if req.method == Method::Bye {
                        r matches Ok(DialogAction::Reply(c)) && c == 200 && n == DialogInner { state: n.state, ..kept }
                            && (n.state matches DialogState::Terminated(id, reason) && id_parts(id) == id_parts(o.id)
                            && reason == TerminatedReason::UasBye)
                    } else if req.method == Method::Info {
                        r matches Ok(DialogAction::Reply(c)) && c == 200 && n == kept
                    } else {
                        r matches Ok(DialogAction::Fail(c, e)) && c == 405 && e is DialogError && n == kept
                    }
                }
            }),
    {
        let seq = match first_header_value(&req.headers, HeaderKind::CSeq) {
            Some(v) => match cseq_fields(v) {
                Ok((n, _)) => n,
                Err(e) => return Err(Error::SipMessageError(e)),
            },
            None => return Err(Error::SipMessageError(String::from_str("missing header: CSeq"))),
        };
        if seq < self.inner.remote_seq {
            return Ok(DialogAction::Reply(500));
        }
        self.inner.remote_seq = seq;
        if !self.inner.is_confirmed() {
            return Ok(DialogAction::Ignore);
        }
        match req.method {
            Method::Invite => Ok(DialogAction::Ignore),
            Method::Bye => {
                let id = self.inner.id.duplicate();
                self.inner.transition(DialogState::Terminated(id, TerminatedReason::UasBye));
                Ok(DialogAction::Reply(200))
            },
            Method::Info => Ok(DialogAction::Reply(200)),
            _ => Ok(
                DialogAction::Fail(
                    405,
                    Error::DialogError(String::from_str("invalid request"), self.inner.id.duplicate(), Some(405)),
                ),
            ),
        }
    }
}

} // verus!
