use rsipstack::dialog::client_dialog::ClientInviteDialog;
use rsipstack::dialog::dialog::{DialogInner, DialogState, TerminatedReason};
use rsipstack::dialog::dialog_layer::{Dialog, DialogLayer};
use rsipstack::dialog::DialogId;
use rsipstack::message::{Header, Method, Request, Response, SipAddr};
use rsipstack::rsip_ext::{addr_of_uri, destination_from_request, extract_uri_from_contact};
use rsipstack::transaction::endpoint::EndpointInner;
use rsipstack::transaction::key::TransactionRole;

fn endpoint() -> EndpointInner {
    let mut ep = EndpointInner::new("rsipstack-test".to_string(), None, vec![]);
    ep.set_addrs(vec![SipAddr { transport: Some("UDP".to_string()), addr: "127.0.0.1:5060".to_string() }]);
    ep
}

fn create_invite_request(from_tag: &str, to_tag: &str, call_id: &str, branch: &str) -> Request {
    Request {
        method: Method::Invite,
        uri: "sip:bob@example.com:5060".to_string(),
        headers: vec![
            Header::Via(format!("SIP/2.0/UDP alice.example.com:5060;branch={}", branch)),
            Header::CSeq("1 INVITE".to_string()),
            Header::From(format!("Alice <sip:alice@example.com>;tag={}", from_tag)),
            Header::To(format!("Bob <sip:bob@example.com>;tag={}", to_tag)),
            Header::CallId(call_id.to_string()),
            Header::Contact("<sip:alice@alice.example.com:5060>".to_string()),
            Header::MaxForwards("70".to_string()),
        ],
        body: b"v=0\r\no=alice 2890844526 2890844527 IN IP4 host.atlanta.com\r\n".to_vec(),
    }
}

fn bob_contact() -> Option<String> {
    Some("sip:bob@bob.example.com:5060".to_string())
}

fn alice_contact() -> Option<String> {
    Some("sip:alice@alice.example.com:5060".to_string())
}

#[test]
fn test_dialog_layer_creation() {
    let mut dialog_layer = DialogLayer::new();
    assert_eq!(dialog_layer.len(), 0);
    let seq1 = dialog_layer.increment_last_seq();
    let seq2 = dialog_layer.increment_last_seq();
    assert_eq!(seq2, seq1 + 1);
}

#[test]
fn test_server_invite_dialog_creation() {
    let mut dialog_layer = DialogLayer::new();
    let invite_req = create_invite_request("alice-tag-123", "", "call-id-456", "z9hG4bKnashds");
    let dialog_id = dialog_layer.get_or_create_server_invite(&invite_req, None, bob_contact()).unwrap();
    assert_eq!(dialog_layer.len(), 1);
    assert_eq!(dialog_id.call_id, "call-id-456");
    assert_eq!(dialog_id.from_tag, "alice-tag-123");
    assert!(!dialog_id.to_tag.is_empty());
    match dialog_layer.get_dialog(&dialog_id) {
        Some(Dialog::ServerInvite(d)) => {
            assert_eq!(d.inner.role, TransactionRole::Server);
            assert!(matches!(d.inner.state, DialogState::Calling(_)));
            assert_eq!(d.inner.remote_uri, "sip:alice@alice.example.com:5060");
        }
        _ => panic!("a server dialog is stored"),
    }
}

#[test]
fn test_existing_server_invite_dialog_retrieval() {
    let mut dialog_layer = DialogLayer::new();
    let invite_req1 = create_invite_request("alice-tag-123", "", "call-id-456", "z9hG4bKnashds1");
    let dialog_id = dialog_layer.get_or_create_server_invite(&invite_req1, None, bob_contact()).unwrap();
    let invite_req2 = create_invite_request("alice-tag-123", &dialog_id.to_tag, "call-id-456", "z9hG4bKnashds2");
    let dialog_id2 = dialog_layer.get_or_create_server_invite(&invite_req2, None, bob_contact()).unwrap();
    assert_eq!(dialog_id, dialog_id2);
    assert_eq!(dialog_layer.len(), 1);
}

#[test]
fn test_dialog_retrieval_and_matching() {
    let mut dialog_layer = DialogLayer::new();
    let invite_req = create_invite_request("alice-tag-123", "", "call-id-456", "z9hG4bKnashds");
    let dialog_id = dialog_layer.get_or_create_server_invite(&invite_req, None, bob_contact()).unwrap();
    assert!(dialog_layer.get_dialog(&dialog_id).is_some());

    let bye_req = Request {
        method: Method::Bye,
        uri: "sip:bob@example.com:5060".to_string(),
        headers: vec![
            Header::CSeq("2 BYE".to_string()),
            Header::From(format!("Alice <sip:alice@example.com>;tag={}", dialog_id.from_tag)),
            Header::To(format!("Bob <sip:bob@example.com>;tag={}", dialog_id.to_tag)),
            Header::CallId(dialog_id.call_id.clone()),
        ],
        body: vec![],
    };
    assert!(dialog_layer.match_dialog(&bye_req).is_some());
}

#[test]
fn test_dialog_removal() {
    let mut dialog_layer = DialogLayer::new();
    let invite_req = create_invite_request("alice-tag-123", "", "call-id-456", "z9hG4bKnashds");
    let dialog_id = dialog_layer.get_or_create_server_invite(&invite_req, None, bob_contact()).unwrap();
    assert_eq!(dialog_layer.len(), 1);
    assert!(dialog_layer.get_dialog(&dialog_id).is_some());
    assert!(dialog_layer.remove_dialog(&dialog_id).is_some());
    assert_eq!(dialog_layer.len(), 0);
    assert!(dialog_layer.get_dialog(&dialog_id).is_none());
    assert!(dialog_layer.remove_dialog(&dialog_id).is_none());
}

#[test]
fn test_dialog_layer_with_swapped_tags() {
    let mut dialog_layer = DialogLayer::new();
    let invite_req = create_invite_request("alice-tag-123", "", "call-id-456", "z9hG4bKnashds");
    let dialog_id = dialog_layer.get_or_create_server_invite(&invite_req, None, bob_contact()).unwrap();
    let swapped_id = DialogId {
        call_id: dialog_id.call_id.clone(),
        from_tag: dialog_id.to_tag.clone(),
        to_tag: dialog_id.from_tag.clone(),
    };
    assert!(dialog_layer.get_dialog(&swapped_id).is_some());
    assert_eq!(swapped_id, dialog_id.swap());
    assert_eq!(swapped_id, dialog_id);
}

#[test]
fn test_multiple_dialogs_management() {
    let mut dialog_layer = DialogLayer::new();
    for i in 0..5 {
        let call_id = format!("call-id-{}", i);
        let from_tag = format!("alice-tag-{}", i);
        let branch = format!("z9hG4bKnashds{}", i);
        let invite_req = create_invite_request(&from_tag, "", &call_id, &branch);
        dialog_layer.get_or_create_server_invite(&invite_req, None, bob_contact()).unwrap();
    }
    assert_eq!(dialog_layer.len(), 5);

    let mut dialog_ids = vec![];
    for i in 0..5 {
        let call_id = format!("call-id-{}", i);
        let from_tag = format!("alice-tag-{}", i);
        let test_req = create_invite_request(&from_tag, "", &call_id, "test-branch");
        if let Some(dialog) = dialog_layer.match_dialog(&test_req) {
            dialog_ids.push(dialog.id());
        }
    }
    if let Some(dialog_id) = dialog_ids.first() {
        dialog_layer.remove_dialog(dialog_id);
        assert_eq!(dialog_layer.len(), 4);
    }
}

#[test]
fn test_dialog_error_cases() {
    let mut dialog_layer = DialogLayer::new();
    let invite_req = create_invite_request("alice-tag-123", "non-existent-tag", "call-id-456", "z9hG4bKnashds");
    let result = dialog_layer.get_or_create_server_invite(&invite_req, None, bob_contact());
    assert!(result.is_err());
    assert_eq!(dialog_layer.len(), 0);
}

fn client_inner(id: &DialogId, to_tag: &str) -> DialogInner {
    let invite_req = create_invite_request(&id.from_tag, to_tag, &id.call_id, "z9hG4bKnashds");
    DialogInner::new(TransactionRole::Client, id.clone(), invite_req, None, alice_contact()).unwrap()
}

fn dialog_id(call_id: &str, from_tag: &str, to_tag: &str) -> DialogId {
    DialogId { call_id: call_id.to_string(), from_tag: from_tag.to_string(), to_tag: to_tag.to_string() }
}

#[test]
fn test_client_dialog_creation() {
    let id = dialog_id("test-call-id", "alice-tag", "bob-tag");
    let client_dialog = ClientInviteDialog { inner: client_inner(&id, "") };
    assert_eq!(client_dialog.id(), id);
    assert!(!client_dialog.inner.is_confirmed());
}

#[test]
fn test_client_dialog_sequence_handling() {
    let id = dialog_id("test-call-seq", "alice-tag", "bob-tag");
    let mut client_dialog = ClientInviteDialog { inner: client_inner(&id, "bob-tag") };
    assert_eq!(client_dialog.inner.get_local_seq(), 1);
    assert_eq!(client_dialog.inner.increment_local_seq(), 2);
}

fn ringing() -> Response {
    Response {
        status_code: 180,
        headers: vec![
            Header::Via("SIP/2.0/UDP alice.example.com:5060;branch=z9hG4bKnashds".to_string()),
            Header::CSeq("1 INVITE".to_string()),
            Header::From("Alice <sip:alice@example.com>;tag=alice-tag".to_string()),
            Header::To("Bob <sip:bob@example.com>;tag=bob-tag".to_string()),
            Header::CallId("test-call-flow".to_string()),
            Header::Contact("<sip:bob@bob.example.com:5060>".to_string()),
        ],
        body: vec![],
    }
}

#[test]
fn test_client_dialog_state_transitions() {
    let id = dialog_id("test-call-flow", "alice-tag", "");
    let mut client_dialog = ClientInviteDialog { inner: client_inner(&id, "") };
    assert!(matches!(client_dialog.inner.state, DialogState::Calling(_)));
    client_dialog.inner.transition(DialogState::Trying(id.clone()));
    assert!(matches!(client_dialog.inner.state, DialogState::Trying(_)));
    let ringing_resp = ringing();
    client_dialog.inner.transition(DialogState::Early(id.clone(), ringing_resp.clone()));
    assert!(matches!(client_dialog.inner.state, DialogState::Early(_, _)));
    let mut final_resp = ringing_resp.clone();
    final_resp.status_code = 200;
    client_dialog.inner.transition(DialogState::Confirmed(id.clone(), final_resp));
    assert!(matches!(client_dialog.inner.state, DialogState::Confirmed(_, _)));
    assert!(client_dialog.inner.is_confirmed());
}

#[test]
fn test_client_dialog_termination_scenarios() {
    let id1 = dialog_id("test-call-term-early", "alice-tag", "");
    let mut client_dialog_1 = ClientInviteDialog { inner: client_inner(&id1, "") };
    client_dialog_1.inner.transition(DialogState::Terminated(id1.clone(), TerminatedReason::UasBusy));
    assert!(matches!(client_dialog_1.inner.state, DialogState::Terminated(_, TerminatedReason::UasBusy)));

    let id2 = dialog_id("test-call-term-normal", "alice-tag", "bob-tag");
    let mut client_dialog_2 = ClientInviteDialog { inner: client_inner(&id2, "bob-tag") };
    client_dialog_2.inner.transition(DialogState::Confirmed(
        id2.clone(),
        Response { status_code: 200, headers: vec![], body: vec![] },
    ));
    assert!(client_dialog_2.inner.is_confirmed());
    client_dialog_2.inner.transition(DialogState::Terminated(id2.clone(), TerminatedReason::UacBye));
    assert!(matches!(client_dialog_2.inner.state, DialogState::Terminated(_, TerminatedReason::UacBye)));
    // an ended dialog stays ended
    client_dialog_2.inner.transition(DialogState::Trying(id2.clone()));
    assert!(client_dialog_2.inner.is_terminated());
}

#[test]
fn test_make_request_preserves_remote_target_and_route_order() {
    let ep = endpoint();
    let id = dialog_id("route-order-call", "from-tag", "to-tag");
    let mut client_dialog = ClientInviteDialog { inner: client_inner(&id, "to-tag") };
    client_dialog.inner.remote_uri = "sip:uas@192.0.2.55:5080;transport=tcp".to_string();
    client_dialog.inner.route_set = vec![
        "<sip:proxy2.example.com:5070;transport=tcp;lr>".to_string(),
        "<sip:proxy1.example.com:5060;transport=tcp;lr>".to_string(),
    ];
    let outbound_addr = addr_of_uri(&extract_uri_from_contact("sip:uac.example.com:5060;transport=tcp").unwrap());
    let request = client_dialog
        .inner
        .make_request(&ep, Method::Bye, None, Some(outbound_addr), None, None, None)
        .unwrap();
    assert_eq!(request.uri, "sip:uas@192.0.2.55:5080;transport=tcp", "Request-URI must stay the remote target");
    let routes: Vec<String> = request
        .headers
        .iter()
        .filter_map(|h| match h {
            Header::Route(r) => Some(r.clone()),
            _ => None,
        })
        .collect();
    assert_eq!(
        routes,
        vec![
            "<sip:proxy2.example.com:5070;transport=tcp;lr>".to_string(),
            "<sip:proxy1.example.com:5060;transport=tcp;lr>".to_string()
        ],
        "Route headers must match the stored route set order"
    );
    let destination =
        destination_from_request(&request).expect("route-enabled request should resolve to a destination");
    let expected = addr_of_uri(&extract_uri_from_contact("<sip:proxy2.example.com:5070;transport=tcp>").unwrap());
    assert_eq!(destination, expected, "First Route entry must determine the transport destination");
    assert_eq!(destination.addr, "proxy2.example.com:5070");
    // the BYE advanced the local sequence number
    assert_eq!(client_dialog.inner.get_local_seq(), 2);
    assert!(request.headers.contains(&Header::CSeq("2 BYE".to_string())));
}

#[test]
fn test_dialog_make_request() {
    let ep = endpoint();
    let id = dialog_id("test-call-id-123", "alice-tag-456", "bob-tag-789");
    let mut invite_req = create_invite_request("alice-tag-456", "", "test-call-id-123", "z9hG4bKnashds");
    invite_req.headers[0] =
        Header::Via("SIP/2.0/UDP alice.example.com:5060;branch=z9hG4bKnashds;received=172.0.0.1".to_string());
    let mut inner = DialogInner::new(TransactionRole::Client, id, invite_req, None, alice_contact()).unwrap();
    let vias = inner.build_vias_from_request(&ep).expect("Failed to build vias");
    assert_eq!(vias.len(), 1);
    assert!(vias[0].contains(";received=172.0.0.1"));
    assert!(!vias[0].contains("branch=z9hG4bKnashds;"));
    assert!(vias[0].contains(";branch=z9hG4bK"));
    let bye = inner.make_request_with_vias(&ep, Method::Bye, None, vias.clone(), None, None);
    assert_eq!(bye.method, Method::Bye);
    assert_eq!(bye.headers[0], Header::Via(vias[0].clone()));
}
