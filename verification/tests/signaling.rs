use rsipstack::dialog::authenticate::{handle_client_authenticate, Credential};
use rsipstack::dialog::client_dialog::{ClientInviteDialog, InviteAction};
use rsipstack::dialog::dialog::{DialogAction, DialogInner, DialogState, TerminatedReason};
use rsipstack::dialog::registration::{parse_u32, RegisterAction, Registration};
use rsipstack::dialog::server_dialog::ServerInviteDialog;
use rsipstack::dialog::DialogId;
use rsipstack::message::{Header, Method, Request, Response, SipAddr, SipConnection};
use rsipstack::rsip_ext::{content_type, reason_phrase, remote_uri};
use rsipstack::transaction::endpoint::EndpointInner;
use rsipstack::transaction::key::{TransactionKey, TransactionRole};
use rsipstack::transaction::transaction::Transaction;
use rsipstack::transaction::TransactionState;

fn endpoint() -> EndpointInner {
    let mut ep = EndpointInner::new("rsipstack-test".to_string(), None, vec![]);
    ep.set_addrs(vec![SipAddr { transport: Some("UDP".to_string()), addr: "127.0.0.1:5060".to_string() }]);
    ep
}

fn two_hundred_with_routes() -> Response {
    Response {
        status_code: 200,
        headers: vec![
            Header::Via("SIP/2.0/TCP uac.example.com:5060;branch=z9hG4bK1".to_string()),
            Header::RecordRoute("<sip:proxy1.example.com:5060;transport=tcp;lr>".to_string()),
            Header::RecordRoute("<sip:proxy2.example.com:5070;transport=tcp;lr>".to_string()),
            Header::From("<sip:alice@example.com>;tag=from-tag".to_string()),
            Header::To("<sip:bob@example.com>;tag=to-tag".to_string()),
            Header::CallId("callid@example.com".to_string()),
            Header::CSeq("1 INVITE".to_string()),
            Header::Contact("<sip:uas@192.0.2.55:5080;transport=tcp>".to_string()),
            Header::ContentLength("0".to_string()),
        ],
        body: vec![],
    }
}

fn uri_eq(a: &str, b: &str) -> bool {
    rsip::Uri::try_from(a).unwrap() == rsip::Uri::try_from(b).unwrap()
}

#[test]
fn test_make_ack_uses_contact_and_reversed_route_order() {
    let ep = endpoint();
    let response = two_hundred_with_routes();
    let ack = ep.make_ack(&response, None, None).unwrap();
    assert_eq!(ack.method, Method::Ack);
    assert!(uri_eq(&ack.uri, "sip:uas@192.0.2.55:5080;transport=tcp"), "ACK must target the remote Contact");
    let content_length: String = ack
        .headers
        .iter()
        .filter_map(|h| match h {
            Header::ContentLength(v) => Some(v.clone()),
            _ => None,
        })
        .next()
        .expect("ACK must include a Content-Length header");
    assert_eq!(content_length, "0", "Content-Length of ACK must be 0");
    let routes: Vec<String> = ack
        .headers
        .iter()
        .filter_map(|h| match h {
            Header::Route(v) => Some(v.clone()),
            _ => None,
        })
        .collect();
    assert_eq!(
        routes,
        vec![
            "<sip:proxy2.example.com:5070;transport=tcp;lr>".to_string(),
            "<sip:proxy1.example.com:5060;transport=tcp;lr>".to_string()
        ],
        "ACK Route headers must follow the reversed Record-Route order"
    );
    assert!(ack.headers.contains(&Header::CSeq("1 ACK".to_string())));
    assert!(ack.headers.contains(&Header::MaxForwards("70".to_string())));
    assert!(ack.body.is_empty());
}

#[test]
fn test_make_ack_uses_contact_with_ob() {
    let ep = endpoint();
    let response = Response {
        status_code: 200,
        headers: vec![
            Header::Via("SIP/2.0/TCP uac.example.com:5060;branch=z9hG4bK1;rport=15060;received=1.2.3.4".to_string()),
            Header::From("<sip:alice@example.com>;tag=from-tag".to_string()),
            Header::To("<sip:bob@example.com>;tag=to-tag".to_string()),
            Header::CallId("callid@example.com".to_string()),
            Header::CSeq("1 INVITE".to_string()),
            Header::Contact("<sip:uas@192.0.2.55:5080;ob>".to_string()),
            Header::ContentLength("0".to_string()),
        ],
        body: vec![],
    };
    let dest = SipAddr { transport: Some("TCP".to_string()), addr: "1.2.3.4:15060".to_string() };
    let ack = ep.make_ack(&response, None, Some(&dest)).unwrap();
    assert!(uri_eq(&ack.uri, "sip:uas@1.2.3.4:15060;transport=tcp"), "ACK must target the remote Contact");
    // without a destination the ob Contact loses its parameters
    let ack = ep.make_ack(&response, None, None).unwrap();
    assert_eq!(ack.uri, "sip:uas@192.0.2.55:5080");
}

#[test]
fn ack_to_a_failure_goes_to_the_request_uri() {
    let ep = endpoint();
    let mut response = two_hundred_with_routes();
    response.status_code = 486;
    assert!(ep.make_ack(&response, None, None).is_err());
    let uri = "sip:bob@example.com".to_string();
    let ack = ep.make_ack(&response, Some(&uri), None).unwrap();
    assert_eq!(ack.uri, uri);
    let mut no_contact = two_hundred_with_routes();
    no_contact.headers.retain(|h| !matches!(h, Header::Contact(_)));
    assert!(ep.make_ack(&no_contact, None, None).is_err());
}

#[test]
fn via_and_record_route_of_the_endpoint() {
    let ep = endpoint();
    let via = ep.get_via(None, Some(";branch=z9hG4bKfixed".to_string())).unwrap();
    assert_eq!(via, "SIP/2.0/UDP 127.0.0.1:5060;branch=z9hG4bKfixed;rport");
    let via = ep.get_via(None, None).unwrap();
    assert!(via.starts_with("SIP/2.0/UDP 127.0.0.1:5060;branch=z9hG4bK"));
    assert!(via.ends_with(";rport"));
    let rr = ep.get_record_route().unwrap();
    assert!(rr.starts_with("<sip:127.0.0.1:5060"));
    let empty = EndpointInner::new("ua".to_string(), None, vec![]);
    assert!(empty.get_via(None, None).is_err());
    assert!(empty.get_record_route().is_err());
}

fn register_with_branch(branch: &str) -> Request {
    Request {
        method: Method::Register,
        uri: "sip:example.com:5060".to_string(),
        headers: vec![
            Header::Via(format!("SIP/2.0/UDP alice.example.com:5060;branch={}", branch)),
            Header::CSeq("1 REGISTER".to_string()),
            Header::From("Alice <sip:alice@example.com>;tag=1928301774".to_string()),
            Header::To("Bob <sip:bob@example.com>".to_string()),
            Header::CallId("a84b4c76e66710@pc33.atlanta.com".to_string()),
            Header::MaxForwards("70".to_string()),
        ],
        body: vec![],
    }
}

fn unauthorized() -> Response {
    Response {
        status_code: 401,
        headers: vec![
            Header::Via("SIP/2.0/UDP alice.example.com:5060;branch=z9hG4bKnashds".to_string()),
            Header::CSeq("1 REGISTER".to_string()),
            Header::From("Alice <sip:alice@example.com>;tag=1928301774".to_string()),
            Header::To("Bob <sip:bob@example.com>".to_string()),
            Header::CallId("a84b4c76e66710@pc33.atlanta.com".to_string()),
            Header::WwwAuthenticate(
                r#"Digest realm="example.com", nonce="dcd98b7102dd2f0e8b11d0f600bfb0c093", algorithm=MD5, qop="auth""#
                    .to_string(),
            ),
        ],
        body: vec![],
    }
}

#[test]
fn test_authenticate_via_header_branch_update() {
    let mut ep = endpoint();
    let original_branch = "z9hG4bKoriginal123";
    let original_req = register_with_branch(original_branch);
    let key = TransactionKey::from_request(&original_req, TransactionRole::Client).unwrap();
    let conn = Some(SipConnection { id: 4, reliable: true });
    let tx = Transaction::new_client(key, original_req, &mut ep, conn);
    let cred = Credential { username: "alice".to_string(), password: "secret123".to_string(), realm: None };

    let new_tx = handle_client_authenticate(2, &tx, &unauthorized(), &cred, &mut ep).unwrap();
    let via = new_tx
        .original
        .headers
        .iter()
        .find_map(|h| match h {
            Header::Via(v) => Some(v.clone()),
            _ => None,
        })
        .expect("New request should have Via header");
    let typed = <rsip::headers::Via as rsip::headers::UntypedHeader>::new(via.clone());
    let typed = rsip::prelude::ToTypedHeader::typed(&typed).expect("Via header should be parseable");
    let branches: Vec<String> = typed
        .params
        .iter()
        .filter_map(|p| match p {
            rsip::Param::Branch(b) => Some(b.to_string()),
            _ => None,
        })
        .collect();
    assert!(!branches.contains(&original_branch.to_string()), "Old branch parameter should be removed from Via header");
    let new_branch = branches.first().expect("New request should have a new branch parameter");
    assert_ne!(new_branch, original_branch, "New branch should be different from old branch");
    assert!(new_branch.starts_with("z9hG4bK"), "New branch should start with z9hG4bK");
    let has_rport = typed.params.iter().any(
        |p| matches!(p, rsip::Param::Other(key, _) if key.value().eq_ignore_ascii_case("rport")),
    );
    assert!(has_rport, "Via header should have rport parameter after authentication");

    assert!(new_tx.original.headers.contains(&Header::CSeq("2 REGISTER".to_string())));
    let auth = new_tx
        .original
        .headers
        .iter()
        .find_map(|h| match h {
            Header::Authorization(v) => Some(v.clone()),
            _ => None,
        })
        .expect("the answer is an Authorization header");
    assert!(auth.starts_with("Digest "));
    assert!(auth.contains("username=\"alice\""));
    assert!(auth.contains("realm=\"example.com\""));
    assert!(auth.contains("nonce=\"dcd98b7102dd2f0e8b11d0f600bfb0c093\""));
    assert!(auth.contains("qop=\"auth\", nc=00000001, cnonce=\""));
    assert_eq!(new_tx.state, TransactionState::Nothing);
    assert_eq!(new_tx.connection, conn);
    assert_ne!(new_tx.key, tx.key);
    assert_eq!(ep.transactions.len(), 2);
}

#[test]
fn authenticate_without_challenge_fails() {
    let mut ep = endpoint();
    let req = register_with_branch("z9hG4bKabc");
    let key = TransactionKey::from_request(&req, TransactionRole::Client).unwrap();
    let tx = Transaction::new_client(key, req, &mut ep, None);
    let mut resp = unauthorized();
    resp.headers.retain(|h| !matches!(h, Header::WwwAuthenticate(_)));
    let cred = Credential { username: "alice".to_string(), password: "x".to_string(), realm: None };
    assert!(handle_client_authenticate(2, &tx, &resp, &cred, &mut ep).is_err());
    assert_eq!(ep.transactions.len(), 1);
}

#[test]
fn registration_flow() {
    let ep = endpoint();
    let mut reg = Registration::new(Some(Credential {
        username: "alice".to_string(),
        password: "secret".to_string(),
        realm: None,
    }));
    assert_eq!(reg.expires(), 50);
    let local = SipAddr { transport: Some("UDP".to_string()), addr: "10.0.0.2:5060".to_string() };
    let req = reg.make_register(&ep, "restsend.com", &local).unwrap();
    assert_eq!(reg.last_seq, 1);
    assert_eq!(req.method, Method::Register);
    assert!(uri_eq(&req.uri, "sip:restsend.com"));
    assert!(req.headers.contains(&Header::CSeq("1 REGISTER".to_string())));
    assert!(req
        .headers
        .iter()
        .any(|h| matches!(h, Header::Via(v) if v.starts_with("SIP/2.0/UDP 10.0.0.2:5060;branch=z9hG4bK"))));
    assert!(req.headers.iter().any(|h| matches!(h, Header::Contact(_))));

    let mut auth_sent = false;
    let mut resp = Response { status_code: 100, headers: req.headers.clone(), body: vec![] };
    assert!(matches!(reg.on_register_response(&mut auth_sent, resp.clone()), RegisterAction::Continue));
    resp.status_code = 401;
    assert!(matches!(reg.on_register_response(&mut auth_sent, resp.clone()), RegisterAction::Authenticate(2)));
    assert!(auth_sent);
    // a second challenge ends the registration
    match reg.on_register_response(&mut auth_sent, resp.clone()) {
        RegisterAction::Done(r) => assert_eq!(r.status_code, 401),
        _ => panic!("second challenge"),
    }
    resp.status_code = 200;
    assert!(matches!(reg.on_register_response(&mut auth_sent, resp), RegisterAction::Done(_)));
    assert_eq!(reg.last_seq, 2);
}

#[test]
fn parse_u32_reads_decimal_text() {
    assert_eq!(parse_u32("3600"), Some(3600));
    assert_eq!(parse_u32("+7"), Some(7));
    assert_eq!(parse_u32("4294967295"), Some(u32::MAX));
    assert_eq!(parse_u32("4294967296"), None);
    assert_eq!(parse_u32(""), None);
    assert_eq!(parse_u32("+"), None);
    assert_eq!(parse_u32("12a"), None);
    assert_eq!(parse_u32("-1"), None);
}

#[test]
fn response_helpers() {
    let mut resp = two_hundred_with_routes();
    assert_eq!(reason_phrase(&resp), None);
    resp.headers.push(Header::Other("reason".to_string(), "SIP;cause=486".to_string()));
    assert_eq!(reason_phrase(&resp), Some("SIP;cause=486".to_string()));
    resp.headers.insert(0, Header::ErrorInfo("<sip:busy@example.com>".to_string()));
    assert_eq!(reason_phrase(&resp), Some("<sip:busy@example.com>".to_string()));
    assert_eq!(content_type(&resp), None);
    resp.headers.push(Header::ContentType("application/sdp".to_string()));
    assert_eq!(content_type(&resp), Some("application/sdp".to_string()));
    let target = remote_uri(&resp, None).unwrap();
    assert!(uri_eq(&target, "sip:uas@192.0.2.55:5080;transport=tcp"));
    resp.headers.retain(|h| !matches!(h, Header::Contact(_)));
    assert!(remote_uri(&resp, None).is_err());
}

#[test]
fn dialog_id_text_and_sides() {
    let a = DialogId { call_id: "c1".to_string(), from_tag: "aaa".to_string(), to_tag: "bbb".to_string() };
    let b = a.swap();
    assert_eq!(b.from_tag, "bbb");
    assert_eq!(b.to_tag, "aaa");
    assert_eq!(a, b);
    assert_eq!(a.to_string(), "c1-bbb-aaa");
    assert_eq!(a.to_string(), b.to_string());
    let c = DialogId { call_id: "c2".to_string(), from_tag: "aaa".to_string(), to_tag: "bbb".to_string() };
    assert_ne!(a, c);

    let req = Request {
        method: Method::Bye,
        uri: "sip:bob@example.com".to_string(),
        headers: vec![
            Header::CallId("c1".to_string()),
            Header::From("<sip:a@example.com>;tag=aaa".to_string()),
            Header::To("<sip:b@example.com>".to_string()),
        ],
        body: vec![],
    };
    let id = DialogId::from_request(&req).unwrap();
    assert_eq!(id.to_tag, "");
    let resp = Response { status_code: 200, headers: req.headers.clone(), body: vec![] };
    assert!(DialogId::from_response(&resp).is_err());
}

fn invite(from_tag: &str, to_tag: &str) -> Request {
    Request {
        method: Method::Invite,
        uri: "sip:bob@example.com:5060".to_string(),
        headers: vec![
            Header::Via("SIP/2.0/UDP alice.example.com:5060;branch=z9hG4bKnashds".to_string()),
            Header::CSeq("1 INVITE".to_string()),
            Header::From(format!("Alice <sip:alice@example.com>;tag={}", from_tag)),
            Header::To(format!("Bob <sip:bob@example.com>{}", to_tag)),
            Header::CallId("call-signal".to_string()),
            Header::Contact("<sip:alice@alice.example.com:5060>".to_string()),
        ],
        body: vec![],
    }
}

#[test]
fn client_invite_dialog_answers() {
    let ep = endpoint();
    let id = DialogId { call_id: "call-signal".to_string(), from_tag: "alice-tag".to_string(), to_tag: "".to_string() };
    let inner = DialogInner::new(
        TransactionRole::Client,
        id,
        invite("alice-tag", ""),
        None,
        Some("sip:alice@alice.example.com:5060".to_string()),
    )
    .unwrap();
    let mut dialog = ClientInviteDialog { inner };
    dialog.start_invite();
    let mut auth_sent = false;
    let mut resp = Response { status_code: 100, headers: invite("alice-tag", ";tag=bob-tag").headers, body: vec![] };
    assert!(matches!(dialog.on_invite_response(&ep, &mut auth_sent, resp.clone()).unwrap(), InviteAction::Continue));
    assert!(matches!(dialog.inner.state, DialogState::Trying(_)));
    resp.status_code = 180;
    dialog.on_invite_response(&ep, &mut auth_sent, resp.clone()).unwrap();
    assert!(matches!(dialog.inner.state, DialogState::Early(_, _)));
    resp.status_code = 200;
    resp.headers.retain(|h| !matches!(h, Header::Contact(_)));
    resp.headers.push(Header::Contact("<sip:bob@bob.example.com:5060>".to_string()));
    match dialog.on_invite_response(&ep, &mut auth_sent, resp.clone()).unwrap() {
        InviteAction::SendAck(ack, new_id) => {
            assert_eq!(ack.method, Method::Ack);
            assert_eq!(new_id.to_tag, "bob-tag");
            assert!(ack.headers.contains(&Header::CSeq("1 ACK".to_string())));
        }
        _ => panic!("a 200 is acknowledged"),
    }
    assert_eq!(dialog.id().to_tag, "bob-tag");
    assert!(matches!(dialog.inner.state, DialogState::Confirmed(_, _)));
    assert!(dialog.inner.is_confirmed());
}

#[test]
fn client_invite_dialog_busy() {
    let ep = endpoint();
    let id = DialogId { call_id: "call-signal".to_string(), from_tag: "alice-tag".to_string(), to_tag: "".to_string() };
    let inner = DialogInner::new(TransactionRole::Client, id, invite("alice-tag", ""), None, None).unwrap();
    let mut dialog = ClientInviteDialog { inner };
    dialog.start_invite();
    let mut auth_sent = false;
    let resp = Response { status_code: 486, headers: invite("alice-tag", ";tag=bob-tag").headers, body: vec![] };
    dialog.on_invite_response(&ep, &mut auth_sent, resp).unwrap();
    assert!(matches!(dialog.inner.state, DialogState::Terminated(_, TerminatedReason::UasBusy)));
    assert!(!dialog.inner.can_cancel());
}

#[test]
fn server_dialog_accept_ack_and_bye() {
    let ep = endpoint();
    let id = DialogId { call_id: "call-signal".to_string(), from_tag: "alice-tag".to_string(), to_tag: "bob-tag".to_string() };
    let inner = DialogInner::new(
        TransactionRole::Server,
        id,
        invite("alice-tag", ""),
        None,
        Some("sip:bob@bob.example.com:5060".to_string()),
    )
    .unwrap();
    assert_eq!(inner.remote_uri, "sip:alice@alice.example.com:5060");
    let mut dialog = ServerInviteDialog { inner, invite_pending: true };
    let ok = dialog.accept(&ep, None, Some(b"v=0".to_vec())).unwrap();
    assert_eq!(ok.status_code, 200);
    assert_eq!(ok.body, b"v=0".to_vec());
    assert!(matches!(dialog.inner.state, DialogState::WaitAck(_, _)));

    let mut ack = invite("alice-tag", ";tag=bob-tag");
    ack.method = Method::Ack;
    assert_eq!(dialog.on_invite_request(&ack), None);
    assert!(dialog.inner.is_confirmed());

    let mut bye = invite("alice-tag", ";tag=bob-tag");
    bye.method = Method::Bye;
    bye.headers[1] = Header::CSeq("2 BYE".to_string());
    match dialog.handle(&bye).unwrap() {
        DialogAction::Reply(code) => assert_eq!(code, 200),
        _ => panic!("a BYE is answered 200"),
    }
    assert!(matches!(dialog.inner.state, DialogState::Terminated(_, TerminatedReason::UacBye)));
}

#[test]
fn server_dialog_cancel_and_reject() {
    let ep = endpoint();
    let id = DialogId { call_id: "call-signal".to_string(), from_tag: "alice-tag".to_string(), to_tag: "bob-tag".to_string() };
    let inner = DialogInner::new(TransactionRole::Server, id, invite("alice-tag", ""), None, None).unwrap();
    let mut dialog = ServerInviteDialog { inner, invite_pending: true };
    let decline = dialog.reject(&ep).unwrap();
    assert_eq!(decline.status_code, 603);
    let mut cancel = invite("alice-tag", "");
    cancel.method = Method::Cancel;
    assert_eq!(dialog.on_invite_request(&cancel), Some(487));
    assert!(matches!(dialog.inner.state, DialogState::Terminated(_, TerminatedReason::UacCancel)));
    dialog.detach_invite();
    assert!(dialog.reject(&ep).is_err());
}

#[test]
fn server_dialog_handles_prack_request() {
    let id = DialogId {
        call_id: "test-call-prack".to_string(),
        from_tag: "alice-tag".to_string(),
        to_tag: "bob-tag".to_string(),
    };
    let mut invite_req = invite("alice-tag", "");
    invite_req.headers[4] = Header::CallId("test-call-prack".to_string());
    let inner = DialogInner::new(
        TransactionRole::Server,
        id,
        invite_req,
        None,
        Some("sip:bob@bob.example.com:5060".to_string()),
    )
    .unwrap();
    let mut dialog = ServerInviteDialog { inner, invite_pending: true };
    let prack = Request {
        method: Method::PRack,
        uri: "sip:bob@example.com:5060".to_string(),
        headers: vec![
            Header::Via("SIP/2.0/UDP 198.51.100.1:5060;branch=z9hG4bKprack01".to_string()),
            Header::CSeq("2 PRACK".to_string()),
            Header::From("Alice <sip:alice@example.com>;tag=alice-tag".to_string()),
            Header::To("Bob <sip:bob@example.com>;tag=bob-tag".to_string()),
            Header::CallId("test-call-prack".to_string()),
            Header::Other("RAck".to_string(), "1 1 INVITE".to_string()),
            Header::Contact("<sip:alice@198.51.100.1:5060>".to_string()),
            Header::MaxForwards("70".to_string()),
            Header::ContentLength("0".to_string()),
        ],
        body: vec![],
    };
    match dialog.handle(&prack).unwrap() {
        DialogAction::Reply(code) => assert_eq!(code, 200),
        _ => panic!("a PRACK is answered 200 OK"),
    }
    assert!(!dialog.inner.is_confirmed());
}

#[test]
fn authenticate_without_challenge_is_a_dialog_error() {
    let mut ep = endpoint();
    let req = register_with_branch("z9hG4bKabc");
    let key = TransactionKey::from_request(&req, TransactionRole::Client).unwrap();
    let tx = Transaction::new_client(key, req, &mut ep, None);
    let mut resp = unauthorized();
    resp.headers.retain(|h| !matches!(h, Header::WwwAuthenticate(_)));
    let cred = Credential { username: "alice".to_string(), password: "x".to_string(), realm: None };
    match handle_client_authenticate(2, &tx, &resp, &cred, &mut ep) {
        Err(rsipstack::error::Error::DialogError(m, id, status)) => {
            assert_eq!(m, "missing proxy/www authenticate");
            assert_eq!(id.from_tag, "1928301774");
            assert_eq!(status, Some(401));
        }
        _ => panic!("a response without a challenge is a dialog error"),
    }
}
