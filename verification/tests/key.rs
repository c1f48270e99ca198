use rsipstack::message::{Header, Method, Request, Response};
use rsipstack::transaction::key::{TransactionKey, TransactionRole};

fn register_request() -> Request {
    Request {
        method: Method::Register,
        uri: "sips:restsend.com".to_string(),
        headers: vec![
            Header::Via("SIP/2.0/TLS sip.restsend.com:5061;branch=z9hG4bKnashd92".to_string()),
            Header::CSeq("2 REGISTER".to_string()),
            Header::From("Bob <sips:bob@sip.restsend.com>;tag=ja743ks76zlflH".to_string()),
            Header::CallId("1j9FpLxk3uxtm8tn@sip.restsend.com".to_string()),
        ],
        body: vec![],
    }
}

#[test]
fn key_test_transaction_key() {
    let register_req = register_request();
    let key = TransactionKey::from_request(&register_req, TransactionRole::Client).unwrap();
    assert_eq!(
        key.to_string(),
        "c.REGISTER_2_1j9FpLxk3uxtm8tn@sip.restsend.com_ja743ks76zlflH_z9hG4bKnashd92"
    );
    let register_resp = Response {
        status_code: 200,
        headers: vec![
            Header::Via("SIP/2.0/TLS client.sip.restsend.com:5061;branch=z9hG4bKnashd92".to_string()),
            Header::CSeq("2 REGISTER".to_string()),
            Header::From("Bob <sips:bob@sip.restsend.com>;tag=ja743ks76zlflH".to_string()),
            Header::CallId("1j9FpLxk3uxtm8tn@sip.restsend.com".to_string()),
        ],
        body: vec![],
    };
    let key = TransactionKey::from_response(&register_resp, TransactionRole::Server).unwrap();
    assert_eq!(
        key.to_string(),
        "s.REGISTER_2_1j9FpLxk3uxtm8tn@sip.restsend.com_ja743ks76zlflH_z9hG4bKnashd92"
    );

    let mut ack_req = register_request();
    ack_req.method = Method::Ack;
    ack_req.headers.retain(|h| !matches!(h, Header::CSeq(_)));
    ack_req.headers.push(Header::CSeq("2 ACK".to_string()));
    let key = TransactionKey::from_request(&ack_req, TransactionRole::Server).unwrap();
    assert_eq!(
        key.to_string(),
        "s.INVITE_2_1j9FpLxk3uxtm8tn@sip.restsend.com_ja743ks76zlflH_z9hG4bKnashd92"
    );
}

#[test]
fn test_transactions_test_transaction_key() {
    let register_req = Request {
        method: Method::Register,
        uri: "sips:example.com".to_string(),
        headers: vec![
            Header::Via("SIP/2.0/TLS client.biloxi.example.com:5061;branch=z9hG4bKnashd92".to_string()),
            Header::CSeq("2 REGISTER".to_string()),
            Header::From("Bob <sips:bob@biloxi.example.com>;tag=ja743ks76zlflH".to_string()),
            Header::CallId("1j9FpLxk3uxtm8tn@biloxi.example.com".to_string()),
        ],
        body: vec![],
    };
    assert!(TransactionKey::from_request(&register_req, TransactionRole::Client).is_ok());
}

#[test]
fn key_without_branch_uses_sent_by() {
    let req = Request {
        method: Method::Options,
        uri: "sip:example.com".to_string(),
        headers: vec![
            Header::Via("SIP/2.0/UDP host.example.com:5060".to_string()),
            Header::CSeq("7 OPTIONS".to_string()),
            Header::From("<sip:a@example.com>;tag=t1".to_string()),
            Header::CallId("cid".to_string()),
        ],
        body: vec![],
    };
    let key = TransactionKey::from_request(&req, TransactionRole::Server).unwrap();
    assert_eq!(key.to_string(), "s.OPTIONS_7_cid_t1_host.example.com:5060.2543");
}

#[test]
fn key_errors() {
    let mut req = register_request();
    req.headers.retain(|h| !matches!(h, Header::From(_)));
    req.headers.push(Header::From("Bob <sips:bob@sip.restsend.com>".to_string()));
    let err = TransactionKey::from_request(&req, TransactionRole::Client).unwrap_err();
    assert!(matches!(err, rsipstack::error::Error::Error(ref m) if m == "from tags missing"));

    let mut req = register_request();
    req.headers.retain(|h| !matches!(h, Header::Via(_)));
    let err = TransactionKey::from_request(&req, TransactionRole::Client).unwrap_err();
    assert!(matches!(err, rsipstack::error::Error::SipMessageError(_)));

    let mut req = register_request();
    req.headers.retain(|h| !matches!(h, Header::CallId(_)));
    let err = TransactionKey::from_request(&req, TransactionRole::Client).unwrap_err();
    assert!(matches!(err, rsipstack::error::Error::SipMessageError(_)));
}
