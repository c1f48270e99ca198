use rsipstack::error::Error;
use rsipstack::message::{Header, Method, Request, Response, SipConnection, SipMessage};
use rsipstack::transaction::endpoint::{EndpointInner, Incoming};
use rsipstack::transaction::key::{TransactionKey, TransactionRole};
use rsipstack::transaction::transaction::{
    can_transition_states, next_interval, RequestStep, ResponseStep, TimerStep, Transaction,
};
use rsipstack::transaction::{TransactionState, TransactionTimer, TransactionType};

fn endpoint() -> EndpointInner {
    EndpointInner::new("rsipstack-test".to_string(), None, vec![Method::Invite, Method::Ack, Method::Bye])
}

fn request(method: Method, cseq: &str) -> Request {
    Request {
        method,
        uri: "sip:bob@restsend.com".to_string(),
        headers: vec![
            Header::Via("SIP/2.0/UDP 127.0.0.1:5060;branch=z9hG4bKnashds".to_string()),
            Header::CSeq(cseq.to_string()),
            Header::From("Alice <sip:alice@restsend.com>;tag=alice-tag".to_string()),
            Header::To("Bob <sip:bob@restsend.com>".to_string()),
            Header::CallId("call-id-flow@restsend.com".to_string()),
        ],
        body: vec![],
    }
}

fn response_to(req: &Request, status: u16) -> Response {
    Response { status_code: status, headers: req.headers.clone(), body: vec![] }
}

fn udp() -> Option<SipConnection> {
    Some(SipConnection { id: 7, reliable: false })
}

#[test]
fn endpoint_defaults() {
    let ep = endpoint();
    assert_eq!(ep.timer_interval, 20);
    assert_eq!(ep.option.t1, 500);
    assert_eq!(ep.option.t2, 4000);
    assert_eq!(ep.option.t4, 4000);
    assert_eq!(ep.option.t1x64, 32000);
    assert_eq!(ep.transactions.len(), 0);
    assert_eq!(ep.finished_transactions.len(), 0);
    assert!(!ep.incoming_attached);
    let ep = EndpointInner::new("ua".to_string(), Some(5), vec![]);
    assert_eq!(ep.timer_interval, 5);
}

#[test]
fn client_non_invite_transaction_flow() {
    let mut ep = endpoint();
    let req = request(Method::Register, "1 REGISTER");
    let key = TransactionKey::from_request(&req, TransactionRole::Client).unwrap();
    let mut tx = Transaction::new_client(key.clone(), req.clone(), &mut ep, udp());
    assert_eq!(tx.transaction_type, TransactionType::ClientNonInvite);
    assert_eq!(tx.state, TransactionState::Nothing);
    assert_eq!(ep.transactions.len(), 1);
    assert!(ep.transactions.contains(&key));

    tx.prepare_send().unwrap();
    tx.on_sent(&mut ep).unwrap();
    assert_eq!(tx.state, TransactionState::Trying);
    // timers A and B on an unreliable transport
    assert_eq!(ep.timers.len(), 2);

    // a 100 in Trying is a retransmission of the state: nothing is passed on
    assert!(matches!(tx.on_received_response(response_to(&req, 100), &mut ep), ResponseStep::Ignore));
    assert_eq!(tx.state, TransactionState::Trying);

    match tx.on_received_response(response_to(&req, 180), &mut ep) {
        ResponseStep::Deliver(passed) => assert_eq!(passed.status_code, 180),
        _ => panic!("a 180 is passed on"),
    }
    assert_eq!(tx.state, TransactionState::Proceeding);

    match tx.on_received_response(response_to(&req, 200), &mut ep) {
        ResponseStep::Deliver(passed) => assert_eq!(passed.status_code, 200),
        _ => panic!("a 200 is passed on"),
    }
    assert_eq!(tx.state, TransactionState::Terminated);
    assert!(tx.take_terminate());
    assert!(!tx.take_terminate());
    assert_eq!(ep.transactions.len(), 0);
    // the timer B started on entering Trying was replaced, not cancelled, on
    // entering Proceeding; when it fires it belongs to no live transaction
    assert_eq!(ep.timers.len(), 1);
    assert!(ep.on_timer_fired(TransactionTimer::TimerB(key.clone())).is_none());

    // once terminated, nothing more is passed on
    assert!(matches!(tx.on_received_response(response_to(&req, 200), &mut ep), ResponseStep::Ignore));
}

#[test]
fn client_transaction_without_connection_cannot_send() {
    let mut ep = endpoint();
    let req = request(Method::Options, "3 OPTIONS");
    let key = TransactionKey::from_request(&req, TransactionRole::Client).unwrap();
    let mut tx = Transaction::new_client(key.clone(), req, &mut ep, None);
    assert!(tx.prepare_send().is_err());
    match tx.on_sent(&mut ep) {
        Err(Error::TransactionError(text, k)) => {
            assert_eq!(text, "no connection found");
            assert_eq!(k, key);
        },
        _ => panic!("sending without a connection fails"),
    }
    assert_eq!(tx.state, TransactionState::Nothing);
    assert_eq!(ep.timers.len(), 0);
}

#[test]
fn client_invite_timers() {
    let mut ep = endpoint();
    let req = request(Method::Invite, "1 INVITE");
    let key = TransactionKey::from_request(&req, TransactionRole::Client).unwrap();
    let mut tx = Transaction::new_client(key.clone(), req.clone(), &mut ep, udp());
    assert_eq!(tx.transaction_type, TransactionType::ClientInvite);
    tx.on_sent(&mut ep).unwrap();

    match tx.on_timer(TransactionTimer::TimerA(key.clone(), 500), &mut ep) {
        TimerStep::Retransmit(Some(SipMessage::Request(again)), next) => {
            assert_eq!(again, req);
            assert_eq!(next, TransactionTimer::TimerA(key.clone(), 1000));
        }
        _ => panic!("timer A retransmits the request"),
    }
    // the interval doubles up to T2, 4 s
    match tx.on_timer(TransactionTimer::TimerA(key.clone(), 4000), &mut ep) {
        TimerStep::Retransmit(_, next) => assert_eq!(next, TransactionTimer::TimerA(key.clone(), 4000)),
        _ => panic!("timer A retransmits the request"),
    }
    match tx.on_timer(TransactionTimer::TimerA(key.clone(), 2500), &mut ep) {
        TimerStep::Retransmit(_, next) => assert_eq!(next, TransactionTimer::TimerA(key.clone(), 4000)),
        _ => panic!("timer A retransmits the request"),
    }
    match tx.on_timer(TransactionTimer::TimerB(key.clone()), &mut ep) {
        TimerStep::InformTimeout(resp) => assert_eq!(resp.status_code, 408),
        _ => panic!("timer B times the request out"),
    }
    // a timer that does not belong to the state changes nothing
    assert!(matches!(tx.on_timer(TransactionTimer::TimerK(key.clone()), &mut ep), TimerStep::Nothing));

    // a 2xx confirms an INVITE client transaction, and timer K ends it
    assert!(matches!(tx.on_received_response(response_to(&req, 200), &mut ep), ResponseStep::Deliver(_)));
    assert_eq!(tx.state, TransactionState::Confirmed);
    match tx.on_timer(TransactionTimer::TimerK(key.clone()), &mut ep) {
        TimerStep::Terminated(Ok(state)) => assert_eq!(state, TransactionState::Terminated),
        _ => panic!("timer K terminates"),
    }
    assert_eq!(tx.state, TransactionState::Terminated);
    assert_eq!(ep.transactions.len(), 0);
}

#[test]
fn retransmission_interval_doubles_up_to_the_cap() {
    assert_eq!(next_interval(500, 32000), 1000);
    assert_eq!(next_interval(20000, 32000), 32000);
    assert_eq!(next_interval(u64::MAX, u64::MAX), u64::MAX);
}

#[test]
fn server_non_invite_transaction_flow() {
    let mut ep = endpoint();
    ep.attach_incoming_sender(true);
    let req = request(Method::Register, "2 REGISTER");
    let conn = SipConnection { id: 3, reliable: false };

    let incoming = ep.on_received_message(SipMessage::Request(req.clone()), conn).unwrap();
    let mut tx = match incoming {
        Incoming::NewTransaction(tx) => tx,
        _ => panic!("a new request starts a server transaction"),
    };
    assert_eq!(tx.transaction_type, TransactionType::ServerNonInvite);
    assert_eq!(tx.state, TransactionState::Trying);
    assert_eq!(tx.connection, Some(conn));
    assert_eq!(ep.transactions.len(), 1);

    // the same request again goes to the live transaction
    match ep.on_received_message(SipMessage::Request(req.clone()), conn).unwrap() {
        Incoming::Forward(key, SipMessage::Request(r)) => {
            assert_eq!(key, tx.key);
            assert_eq!(r, req);
        }
        _ => panic!("a request of a live transaction is forwarded"),
    }

    // before any response the request is passed on to the user
    match tx.on_received_request(req.clone(), None, &mut ep) {
        RequestStep::Deliver(delivered) => assert_eq!(delivered, req),
        _ => panic!("the request is passed on"),
    }
    let trying = tx.make_reply(&ep, 100);
    let state = tx.prepare_respond(&trying).unwrap();
    assert_eq!(state, TransactionState::Trying);
    tx.on_responded(trying, state, &mut ep).unwrap();
    assert_eq!(tx.state, TransactionState::Trying);

    let ok = tx.make_reply(&ep, 200);
    assert_eq!(ok.status_code, 200);
    assert!(ok.headers.contains(&Header::UserAgent("rsipstack-test".to_string())));
    let state = tx.prepare_respond(&ok).unwrap();
    assert_eq!(state, TransactionState::Terminated);
    tx.on_responded(ok.clone(), state, &mut ep).unwrap();
    assert_eq!(tx.state, TransactionState::Terminated);
    assert_eq!(ep.transactions.len(), 0);
    assert_eq!(ep.finished_transactions.len(), 1);

    // a retransmitted request is answered with the kept response
    match ep.on_received_message(SipMessage::Request(req.clone()), conn).unwrap() {
        Incoming::Retransmit(SipMessage::Response(r)) => assert_eq!(r, ok),
        _ => panic!("a finished transaction answers with its last response"),
    }

    // the cleanup timer forgets the finished transaction
    assert!(ep.on_timer_fired(TransactionTimer::TimerCleanup(tx.key.clone())).is_none());
    assert_eq!(ep.finished_transactions.len(), 0);
}

#[test]
fn server_refuses_responses_from_client_side_calls() {
    let mut ep = endpoint();
    let req = request(Method::Register, "4 REGISTER");
    let key = TransactionKey::from_request(&req, TransactionRole::Server).unwrap();
    let tx = Transaction::new_server(key, req.clone(), &mut ep, udp());
    assert_eq!(tx.transaction_type, TransactionType::ServerNonInvite);
    assert!(tx.prepare_send().is_err());
    assert!(tx.prepare_ack().is_err());
}

#[test]
fn endpoint_without_receiver_rejects_new_requests() {
    let mut ep = endpoint();
    let req = request(Method::Options, "1 OPTIONS");
    match ep.on_received_message(SipMessage::Request(req), SipConnection { id: 1, reliable: true }).unwrap() {
        Incoming::Reject(resp, rsipstack::error::Error::TransactionError(msg, key)) => {
            assert_eq!(resp.status_code, 503);
            assert_eq!(msg, "incoming_sender not set");
            assert!(key.to_string().starts_with("s.OPTIONS_1_"));
        }
        _ => panic!("no receiver: 503"),
    }
    assert_eq!(ep.transactions.len(), 0);
}

#[test]
fn endpoint_routes_responses() {
    let mut ep = endpoint();
    let req = request(Method::Register, "5 REGISTER");
    let resp = response_to(&req, 200);
    let conn = SipConnection { id: 2, reliable: true };
    assert!(matches!(
        ep.on_received_message(SipMessage::Response(resp.clone()), conn).unwrap(),
        Incoming::Drop
    ));

    let key = TransactionKey::from_request(&req, TransactionRole::Client).unwrap();
    let _tx = Transaction::new_client(key.clone(), req, &mut ep, Some(conn));
    match ep.on_received_message(SipMessage::Response(resp.clone()), conn).unwrap() {
        Incoming::Forward(k, SipMessage::Response(r)) => {
            assert_eq!(k, key);
            assert_eq!(r, resp);
        }
        _ => panic!("a response of a live client transaction is forwarded"),
    }

    // timers of a live transaction go to it; others are dropped
    assert_eq!(
        ep.on_timer_fired(TransactionTimer::TimerB(key.clone())),
        Some(TransactionTimer::TimerB(key.clone()))
    );
    assert!(ep.on_timer_fired(TransactionTimer::TimerCleanup(key.clone())).is_none());
    assert_eq!(ep.on_timer_fired(TransactionTimer::TimerB(key)), None);

    let mut bad = response_to(&request(Method::Register, "5 REGISTER"), 200);
    bad.headers.retain(|h| !matches!(h, Header::CallId(_)));
    assert!(ep.on_received_message(SipMessage::Response(bad), conn).is_err());
}

#[test]
fn server_invite_ack_confirms() {
    let mut ep = endpoint();
    ep.attach_incoming_sender(true);
    let req = request(Method::Invite, "1 INVITE");
    let conn = SipConnection { id: 9, reliable: false };
    let mut tx = match ep.on_received_message(SipMessage::Request(req.clone()), conn).unwrap() {
        Incoming::NewTransaction(tx) => tx,
        _ => panic!("new INVITE"),
    };
    assert_eq!(tx.transaction_type, TransactionType::ServerInvite);
    assert_eq!(tx.state, TransactionState::Trying);
    let busy = tx.make_reply(&ep, 486);

    let trying = tx.make_reply(&ep, 100);
    assert_eq!(tx.prepare_respond(&trying).unwrap(), TransactionState::Trying);
    tx.on_responded(trying, TransactionState::Trying, &mut ep).unwrap();
    let state = tx.prepare_respond(&busy).unwrap();
    assert_eq!(state, TransactionState::Completed);
    tx.on_responded(busy.clone(), state, &mut ep).unwrap();
    assert_eq!(tx.state, TransactionState::Completed);

    match tx.on_timer(TransactionTimer::TimerG(tx.key.clone(), 500), &mut ep) {
        TimerStep::Retransmit(Some(SipMessage::Response(r)), next) => {
            assert_eq!(r, busy);
            assert_eq!(next, TransactionTimer::TimerG(tx.key.clone(), 1000));
        }
        _ => panic!("timer G resends the final response"),
    }

    let mut ack = request(Method::Ack, "1 ACK");
    ack.headers.retain(|h| !matches!(h, Header::Via(_)));
    ack.headers.insert(0, Header::Via("SIP/2.0/UDP 127.0.0.1:5060;branch=z9hG4bKnashds".to_string()));
    match tx.on_received_request(ack.clone(), None, &mut ep) {
        RequestStep::Deliver(r) => assert_eq!(r, ack),
        _ => panic!("an ACK in Completed is passed on"),
    }
    assert_eq!(tx.state, TransactionState::Confirmed);
    match tx.on_timer(TransactionTimer::TimerK(tx.key.clone()), &mut ep) {
        TimerStep::Terminated(Ok(TransactionState::Terminated)) => {}
        _ => panic!("timer K terminates"),
    }
}

#[test]
fn transitions_only_move_forward() {
    let states = [
        TransactionState::Nothing,
        TransactionState::Calling,
        TransactionState::Trying,
        TransactionState::Proceeding,
        TransactionState::Completed,
        TransactionState::Confirmed,
        TransactionState::Terminated,
    ];
    for (i, from) in states.iter().enumerate() {
        for (j, to) in states.iter().enumerate() {
            if can_transition_states(*from, *to) {
                assert!(i <= j);
                assert_ne!(*to, TransactionState::Calling);
                assert_ne!(*from, TransactionState::Terminated);
            }
        }
    }
    assert!(can_transition_states(TransactionState::Calling, TransactionState::Trying));
    assert!(can_transition_states(TransactionState::Trying, TransactionState::Trying));
    assert!(!can_transition_states(TransactionState::Proceeding, TransactionState::Trying));
}

#[test]
fn reply_finds_the_request_transaction() {
    let ep = endpoint();
    let req = request(Method::Register, "6 REGISTER");
    let client_key = TransactionKey::from_request(&req, TransactionRole::Client).unwrap();
    let resp = ep.make_response(&req, 401, None);
    assert_eq!(TransactionKey::from_response(&resp, TransactionRole::Client).unwrap(), client_key);

    let invite = request(Method::Invite, "8 INVITE");
    let server_key = TransactionKey::from_request(&invite, TransactionRole::Server).unwrap();
    let mut cancel = request(Method::Cancel, "8 CANCEL");
    cancel.headers.retain(|h| !matches!(h, Header::To(_)));
    assert_eq!(TransactionKey::from_request(&cancel, TransactionRole::Server).unwrap(), server_key);
    let ack = request(Method::Ack, "8 ACK");
    assert_eq!(TransactionKey::from_request(&ack, TransactionRole::Server).unwrap(), server_key);
    // on the client side an ACK is a transaction of its own
    let client_ack = TransactionKey::from_request(&ack, TransactionRole::Client).unwrap();
    assert!(client_ack.to_string().starts_with("c.ACK_8_"));
}

#[test]
fn client_invite_acknowledges_a_failure() {
    let mut ep = endpoint();
    let req = request(Method::Invite, "1 INVITE");
    let key = TransactionKey::from_request(&req, TransactionRole::Client).unwrap();
    let mut tx = Transaction::new_client(key, req.clone(), &mut ep, udp());
    assert_eq!(tx.state, TransactionState::Nothing);
    // before the INVITE is sent, responses are ignored
    assert!(matches!(tx.on_received_response(response_to(&req, 486), &mut ep), ResponseStep::Ignore));
    tx.on_sent(&mut ep).unwrap();
    match tx.on_received_response(response_to(&req, 486), &mut ep) {
        ResponseStep::AckThenDeliver(ack, resp) => {
            assert_eq!(resp.status_code, 486);
            assert_eq!(ack.method, Method::Ack);
            assert_eq!(ack.uri, req.uri);
            assert!(ack.headers.contains(&Header::CSeq("1 ACK".to_string())));
            assert!(ack.headers.contains(&Header::Via(
                "SIP/2.0/UDP 127.0.0.1:5060;branch=z9hG4bKnashds".to_string()
            )));
            assert!(ack.body.is_empty());
        }
        _ => panic!("a failure to an INVITE is acknowledged"),
    }
    assert_eq!(tx.state, TransactionState::Terminated);
}

#[test]
fn response_copies_max_forwards_and_adds_user_agent() {
    let ep = endpoint();
    let mut req = request(Method::Options, "9 OPTIONS");
    req.headers.push(Header::MaxForwards("70".to_string()));
    req.headers.push(Header::Contact("<sip:alice@127.0.0.1>".to_string()));
    let resp = ep.make_response(&req, 200, Some(b"body".to_vec()));
    assert_eq!(
        resp.headers,
        vec![
            Header::Via("SIP/2.0/UDP 127.0.0.1:5060;branch=z9hG4bKnashds".to_string()),
            Header::CSeq("9 OPTIONS".to_string()),
            Header::From("Alice <sip:alice@restsend.com>;tag=alice-tag".to_string()),
            Header::To("Bob <sip:bob@restsend.com>".to_string()),
            Header::CallId("call-id-flow@restsend.com".to_string()),
            Header::MaxForwards("70".to_string()),
            Header::UserAgent("rsipstack-test".to_string()),
        ]
    );
    assert_eq!(resp.body, b"body".to_vec());
}

#[test]
fn test_client_invite_transaction_creation() {
    let mut ep = endpoint();
    let req = request(Method::Invite, "1 INVITE");
    let key = TransactionKey::from_request(&req, TransactionRole::Client).unwrap();
    let tx = Transaction::new_client(key.clone(), req, &mut ep, None);
    assert_eq!(tx.state, TransactionState::Nothing);
    assert_eq!(tx.transaction_type, TransactionType::ClientInvite);
    assert!(ep.transactions.contains(&key));
}

#[test]
fn test_server_non_invite_transaction_creation() {
    let mut ep = endpoint();
    let req = request(Method::Register, "1 REGISTER");
    let key = TransactionKey::from_request(&req, TransactionRole::Server).unwrap();
    let tx = Transaction::new_server(key, req, &mut ep, None);
    assert_eq!(tx.state, TransactionState::Trying);
    assert_eq!(tx.transaction_type, TransactionType::ServerNonInvite);
}

#[test]
fn detached_transaction_keeps_its_message_until_cleanup() {
    let mut ep = endpoint();
    let req = request(Method::Invite, "3 INVITE");
    let key = TransactionKey::from_request(&req, TransactionRole::Client).unwrap();
    ep.attach_transaction(&key);
    ep.detach_transaction(&key, Some(SipMessage::Request(req.clone())), 1000);
    assert_eq!(ep.transactions.len(), 0);
    assert_eq!(ep.finished_transactions.len(), 1);
    // T4 after `now` for a request
    assert_eq!(ep.timers.next_deadline(), Some(5000));
    let other = TransactionKey::from_request(&request(Method::Register, "4 REGISTER"), TransactionRole::Server).unwrap();
    ep.detach_transaction(&other, Some(SipMessage::Response(response_to(&req, 200))), u64::MAX - 10);
    assert_eq!(ep.timers.len(), 2);
    assert_eq!(ep.timers.poll(u64::MAX - 1).len(), 1);
    assert_eq!(ep.timers.poll(u64::MAX).len(), 1);
}
