//! The server side of an INVITE dialog (UAS): answering the INVITE, the
//! ACK and CANCEL that reach its transaction, and the requests that reach
//! the dialog.
use super::client_dialog::cseq_of;
use super::dialog::{
    body_bytes, dialog_response_views, made_request, next_seq, DialogAction, DialogInner, DialogState,
    TerminatedReason,
};
use super::{id_parts, DialogId};
use crate::error::Error;
use crate::header_values::cseq_fields;
use crate::message::{first_header_value, hviews, Header, HeaderKind, Method, Request, Response};
use crate::transaction::endpoint::EndpointInner;
use crate::transaction::message::body_len;
use vstd::prelude::*;

verus! {

/// A server INVITE dialog; `invite_pending` tells whether the INVITE
/// transaction is still there to carry a response.
pub struct ServerInviteDialog {
    pub inner: DialogInner,
    pub invite_pending: bool,
}

/// The dialog moved to `state` as `DialogInner::transition` does.
pub open spec fn moved(o: DialogInner, n: DialogInner, state: DialogState) -> bool {
    if o.state is Terminated {
        n == o
    } else {
        n == DialogInner { state: state, ..o }
    }
}

impl ServerInviteDialog {
    /// The dialog's identifier.
    pub fn id(&self) -> (r: DialogId)
        ensures
            id_parts(r) == id_parts(self.inner.id),
    {
        self.inner.id.duplicate()
    }

    /// The INVITE that created the dialog.
    pub fn initial_request(&self) -> (r: &Request)
        ensures
            *r == self.inner.initial_request,
    {
        &self.inner.initial_request
    }

    /// Accepts the INVITE: a 200 with the given headers and body, which the
    /// caller sends on the INVITE transaction; the dialog waits for the ACK.
    /// Fails when the INVITE transaction is gone.
    pub fn accept(&mut self, ep: &EndpointInner, headers: Option<Vec<Header>>, body: Option<Vec<u8>>) -> (r: Result<
        Response,
        Error,
    >)
        ensures
            r is Err <==> !old(self).invite_pending,
            r is Err ==> *final(self) == *old(self),
            r matches Ok(resp) ==> {
                &&& resp.status_code == 200
                &&& resp.body@ == body_bytes(body)
                &&& hviews(resp.headers@) == dialog_response_views(
                    old(self).inner,
                    ep.user_agent@,
                    old(self).inner.initial_request.headers@,
                    200,
                    match headers {
                        Some(h) => h@,
                        None => Seq::empty(),
                    },
                    body_len(body),
                )
                &&& final(self).invite_pending
                &&& if old(self).inner.state is Terminated {
                    final(self).inner == old(self).inner
                } else {
                    final(self).inner == (DialogInner { state: final(self).inner.state, ..old(self).inner })
                        && (final(self).inner.state matches DialogState::WaitAck(id, x) && id_parts(id) == id_parts(
                        old(self).inner.id,
                    ) && crate::message::same_response(x, resp))
                }
            },
    {
        if !self.invite_pending {
            return Err(
                Error::DialogError(String::from_str("transaction is already terminated"), self.inner.id.duplicate(), None),
            );
        }
        let resp = self.inner.make_response(ep, &self.inner.initial_request, 200, headers, body);
        let id = self.inner.id.duplicate();
        self.inner.transition(DialogState::WaitAck(id, resp.duplicate()));
        Ok(resp)
    }

    /// Rejects the INVITE: a 603 Decline, which the caller sends on the
    /// INVITE transaction. Fails when the INVITE transaction is gone.
    pub fn reject(&self, ep: &EndpointInner) -> (r: Result<Response, Error>)
        ensures
            r is Err <==> !self.invite_pending,
            r matches Ok(resp) ==> resp.status_code == 603 && resp.body@.len() == 0 && hviews(resp.headers@)
                == dialog_response_views(self.inner, ep.user_agent@, self.inner.initial_request.headers@, 603, Seq::empty(), 0),
    {
        if !self.invite_pending {
            return Err(
                Error::DialogError(String::from_str("transaction is already terminated"), self.inner.id.duplicate(), None),
            );
        }
        Ok(self.inner.make_response(ep, &self.inner.initial_request, 603, None, None))
    }

    /// An in-dialog request with `method`, the given headers and body, for a
    /// confirmed dialog; nothing for another. Fails when the endpoint has no
    /// address.
    pub fn request(
        &mut self,
        ep: &EndpointInner,
        method: Method,
        headers: Option<Vec<Header>>,
        body: Option<Vec<u8>>,
    ) -> (r: Result<Option<Request>, Error>)
        ensures
            !(old(self).inner.state is Confirmed) ==> (r matches Ok(None) && *final(self) == *old(self)),
            old(self).inner.state is Confirmed ==> {
                &&& r is Err <==> ep.addrs@.len() == 0
                &&& r is Err ==> *final(self) == *old(self)
                &&& r matches Ok(Some(req)) ==> final(self).inner == (DialogInner {
                    local_seq: next_seq(old(self).inner.local_seq),
                    ..old(self).inner
                }) && final(self).invite_pending == old(self).invite_pending && made_request(
                    req,
                    old(self).inner,
                    *ep,
                    method,
                    next_seq(old(self).inner.local_seq),
                    None,
                    None,
                    match headers {
                        Some(h) => h@,
                        None => Seq::empty(),
                    },
                    body,
                )
                &&& !(r matches Ok(None))
            },
    {
        if !self.inner.is_confirmed() {
            return Ok(None);
        }
        let req = self.inner.make_request(ep, method, None, None, None, headers, body)?;
        Ok(Some(req))
    }

    /// A BYE for a confirmed dialog; nothing for another.
    pub fn bye(&mut self, ep: &EndpointInner) -> (r: Result<Option<Request>, Error>)
        ensures
            !(old(self).inner.state is Confirmed) ==> (r matches Ok(None) && *final(self) == *old(self)),
            old(self).inner.state is Confirmed ==> {
                &&& r is Err <==> ep.addrs@.len() == 0
                &&& r matches Ok(Some(req)) ==> made_request(
                    req,
                    old(self).inner,
                    *ep,
                    Method::Bye,
                    next_seq(old(self).inner.local_seq),
                    None,
                    None,
                    Seq::empty(),
                    None,
                )
            },
    {
        self.request(ep, Method::Bye, None, None)
    }

    /// The BYE was sent (whatever its outcome): the dialog ends, ended by
    /// this side.
    pub fn finish_bye(&mut self)
        ensures
            final(self).invite_pending == old(self).invite_pending,
            if old(self).inner.state is Terminated {
                final(self).inner == old(self).inner
            } else {
                final(self).inner == (DialogInner { state: final(self).inner.state, ..old(self).inner })
                    && (final(self).inner.state matches DialogState::Terminated(id, reason) && id_parts(id) == id_parts(
                    old(self).inner.id,
                ) && reason == TerminatedReason::UasBye)
            },
    {
        let id = self.inner.id.duplicate();
        self.inner.transition(DialogState::Terminated(id, TerminatedReason::UasBye));
    }

    /// What the dialog does with a request that reached it. One with a
    /// sequence number below a non-zero last one is discarded. Otherwise its
    /// number becomes the last one. In a confirmed dialog an INVITE or ACK
    /// goes to the INVITE handling (with no 100 Trying); a BYE ends the
    /// dialog (ended by the peer) and is answered 200; INFO, OPTIONS and
    /// UPDATE are answered 200; any other method is answered 405 with a
    /// dialog error. Before confirmation an ACK goes to the INVITE
    /// transaction's user, a PRACK is answered 200, and any other request
    /// makes the dialog Calling
    /// and goes to the INVITE handling with a 100 Trying. Fails when the
    /// request has no readable CSeq.
    pub fn handle(&mut self, req: &Request) -> (r: Result<DialogAction, Error>)
        ensures
            final(self).invite_pending == old(self).invite_pending,
            ({
                let o = old(self).inner;
                let n = final(self).inner;
                &&& r is Err <==> cseq_of(*req) is None
                &&& cseq_of(*req) is None ==> n == o
                &&& cseq_of(*req) matches Some(x) ==> if o.remote_seq > 0 && x < o.remote_seq {
                    r matches Ok(DialogAction::Ignore) && n == o
                } else {
                    let kept = DialogInner { remote_seq: x, ..o };
                    if o.state is Confirmed {
                        if req.method == Method::Invite || req.method == Method::Ack {
                            r matches Ok(DialogAction::HandleInvite(trying)) && !trying && n == kept
                        } else if req.method == Method::Bye {
                            r matches Ok(DialogAction::Reply(c)) && c == 200 && n == DialogInner { state: n.state, ..kept }
                                && (n.state matches DialogState::Terminated(id, reason) && id_parts(id) == id_parts(o.id)
                                && reason == TerminatedReason::UacBye)
                        } else if req.method == Method::Info || req.method == Method::Options || req.method
                            == Method::Update {
                            r matches Ok(DialogAction::Reply(c)) && c == 200 && n == kept
                        } else {
                            r matches Ok(DialogAction::Fail(c, e)) && c == 405 && e is DialogError && n == kept
                        }
                    } else if req.method == Method::Ack {
                        r matches Ok(DialogAction::ForwardAck) && n == kept
                    } else if req.method == Method::PRack {
                        r matches Ok(DialogAction::Reply(c)) && c == 200 && n == kept
                    } else {
                        &&& r matches Ok(DialogAction::HandleInvite(trying)) && trying
                        &&& if o.state is Terminated {
                            n == kept
                        } else {
                            n == DialogInner { state: n.state, ..kept } && (n.state matches DialogState::Calling(id)
                                && id_parts(id) == id_parts(o.id))
                        }
                    }
                }
            }),
    {
        let seq = match first_header_value(&req.headers, HeaderKind::CSeq) {
            Some(v) => match cseq_fields(v) {
                Ok((n, _)) => n,
                Err(e) => return Err(Error::SipMessageError(e)),
            },
            None => return Err(Error::SipMessageError(String::from_str("missing header: CSeq"))),
        };
        let remote_seq = self.inner.remote_seq;
        if remote_seq > 0 && seq < remote_seq {
            return Ok(DialogAction::Ignore);
        }
        self.inner.remote_seq = seq;
        if self.inner.is_confirmed() {
            match req.method {
                Method::Invite | Method::Ack => Ok(DialogAction::HandleInvite(false)),
                Method::Bye => {
                    let id = self.inner.id.duplicate();
                    self.inner.transition(DialogState::Terminated(id, TerminatedReason::UacBye));
                    Ok(DialogAction::Reply(200))
                },
                Method::Info | Method::Options | Method::Update => Ok(DialogAction::Reply(200)),
                _ => Ok(
                    DialogAction::Fail(
                        405,
                        Error::DialogError(String::from_str("invalid request"), self.inner.id.duplicate(), Some(405)),
                    ),
                ),
            }
        } else {
            match req.method {
                Method::Ack => Ok(DialogAction::ForwardAck),
                Method::PRack => Ok(DialogAction::Reply(200)),
                _ => {
                    let id = self.inner.id.duplicate();
                    self.inner.transition(DialogState::Calling(id));
                    Ok(DialogAction::HandleInvite(true))
                },
            }
        }
    }

    /// The INVITE transaction is handled by this dialog from now on.
    pub fn attach_invite(&mut self)
        ensures
            final(self).invite_pending,
            final(self).inner == old(self).inner,
    {
        self.invite_pending = true;
    }

    /// The INVITE transaction is gone.
    pub fn detach_invite(&mut self)
        ensures
            !final(self).invite_pending,
            final(self).inner == old(self).inner,
    {
        self.invite_pending = false;
    }

    /// What the dialog does with a request on its INVITE transaction: an ACK
    /// confirms a dialog waiting for it (with the 200 it waited with); a
    /// CANCEL is answered 487 (returned) and ends the dialog, cancelled by
    /// the peer; anything else changes nothing.
    pub fn on_invite_request(&mut self, req: &Request) -> (r: Option<u16>)
        ensures
            final(self).invite_pending == old(self).invite_pending,
            ({
                let o = old(self).inner;
                let n = final(self).inner;
                if req.method == Method::Ack {
                    &&& r is None
                    &&& match o.state {
                        DialogState::WaitAck(_, resp) => n == DialogInner { state: n.state, ..o } && (n.state matches DialogState::Confirmed(
                            id,
                            x,
                        ) && id_parts(id) == id_parts(o.id) && crate::message::same_response(x, resp)),
                        _ => n == o,
                    }
                } else if req.method == Method::Cancel {
                    &&& r == Some(487u16)
                    &&& if o.state is Terminated {
                        n == o
                    } else {
                        n == DialogInner { state: n.state, ..o } && (n.state matches DialogState::Terminated(id, reason)
                            && id_parts(id) == id_parts(o.id) && reason == TerminatedReason::UacCancel)
                    }
                } else {
                    r is None && n == o
                }
            }),
    {
        match req.method {
            Method::Ack => {
                let confirmed = match &self.inner.state {
                    DialogState::WaitAck(_, resp) => Some(resp.duplicate()),
                    _ => None,
                };
                match confirmed {
                    Some(resp) => {
                        let id = self.inner.id.duplicate();
                        self.inner.transition(DialogState::Confirmed(id, resp));
                    },
                    None => {},
                }
                None
            },
            Method::Cancel => {
                let id = self.inner.id.duplicate();
                self.inner.transition(DialogState::Terminated(id, TerminatedReason::UacCancel));
                Some(487)
            },
            _ => None,
        }
    }
}

} // verus!
