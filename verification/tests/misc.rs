use rsipstack::contact::CustomContactTokenizer;
use rsipstack::message::{Header, HeaderKind};
use rsipstack::rsip_ext::{extract_uri_from_contact, header_pop, push_front};
use rsipstack::transaction::{make_call_id, make_tag, make_via_branch, random_text};

#[test]
fn test_random_text() {
    let text = random_text(10);
    assert_eq!(text.len(), 10);
    let branch = make_via_branch();
    let branch = branch.to_string();
    assert_eq!(branch.len(), 27);
}

#[test]
fn test_linphone_contact() {
    let line = "<sip:bob@localhost;transport=udp>;expires=3600;+org.linphone.specs=\"lime\"";
    let contact_uri = extract_uri_from_contact(line).expect("failed to parse contact");
    assert_eq!(contact_uri.to_text(), "sip:bob@localhost;transport=UDP");

    let line = "<sip:bob@restsend.com;transport=udp>;message-expires=2419200;+sip.instance=\"<urn:uuid:12345-81fa-4fe3-aa6c-17bffdbcf619>\"";
    let contact_uri = extract_uri_from_contact(line).expect("failed to parse contact");
    assert_eq!(contact_uri.to_text(), "sip:bob@restsend.com;transport=UDP");
}

#[test]
fn test_rsip_headers_ext() {
    let mut headers: Vec<Header> = vec![
        Header::Via("SIP/2.0/TCP".into()),
        Header::Via("SIP/2.0/UDP".into()),
        Header::Via("SIP/2.0/WSS".into()),
    ];
    let via = Header::Via("SIP/2.0/TLS".into());
    push_front(&mut headers, via);
    assert_eq!(headers.iter().count(), 4);

    header_pop(&mut headers, HeaderKind::Via);
    assert_eq!(headers.iter().count(), 3);

    assert_eq!(
        headers.iter().collect::<Vec<_>>(),
        vec![
            &Header::Via("SIP/2.0/TCP".into()),
            &Header::Via("SIP/2.0/UDP".into()),
            &Header::Via("SIP/2.0/WSS".into())
        ]
    );
}

#[test]
fn test_send() {
    fn assert_send<T: Send>() {}
    assert_send::<rsipstack::transaction::endpoint::EndpointInner>();
}

#[test]
fn fresh_identifiers_have_their_shape() {
    let branch = make_via_branch();
    assert!(branch.starts_with(";branch=z9hG4bK"));
    assert!(branch[15..].chars().all(|c| c.is_ascii_alphanumeric()));
    let tag = make_tag();
    assert_eq!(tag.len(), 8);
    let call_id = make_call_id(Some("example.org"));
    assert_eq!(&call_id[22..], "@example.org");
    let call_id = make_call_id(None);
    assert!(call_id.ends_with("@restsend.com"));
}

#[test]
fn tokenizer_reads_bracketed_and_plain_values() {
    let t = CustomContactTokenizer::from_str("  \"Bob\" <sip:bob@host;ob;x=1?h=2>;expires=60 ").unwrap();
    assert_eq!(t.uri(), "sip:bob@host;ob;x=1?h=2");
    let names: Vec<(String, Option<String>)> = t.params.iter().map(|p| (p.name.clone(), p.value.clone())).collect();
    assert_eq!(names, vec![("ob".to_string(), None), ("x".to_string(), Some("1".to_string()))]);

    let t = CustomContactTokenizer::from_str("sip:alice@example.com;a=\"q v\";b").unwrap();
    assert_eq!(t.uri(), "sip:alice@example.com;a=\"q v\";b");
    let names: Vec<(String, Option<String>)> = t.params.iter().map(|p| (p.name.clone(), p.value.clone())).collect();
    assert_eq!(names, vec![("a".to_string(), Some("q v".to_string())), ("b".to_string(), None)]);

    match CustomContactTokenizer::from_str("   ") {
        Err(rsipstack::error::Error::Error(m)) => assert_eq!(m, "empty contact header"),
        _ => panic!("an empty contact is refused"),
    }

    let t = CustomContactTokenizer::from_plain("sip:x@y;;a=1");
    assert!(t.params.is_empty());
    let t = CustomContactTokenizer::from_plain("sip:x@y;a=;b=2");
    let names: Vec<(String, Option<String>)> = t.params.iter().map(|p| (p.name.clone(), p.value.clone())).collect();
    assert_eq!(names, vec![("a".to_string(), None)]);
}

#[test]
fn lenient_contact_keeps_parameters() {
    let uri = extract_uri_from_contact("sip:dave@example.com;transport=tcp").unwrap();
    assert_eq!(uri.to_text(), "sip:dave@example.com");
    let uri = extract_uri_from_contact("<sip:erin@example.com;ob>;+sip.instance=\"<urn:x>\"").unwrap();
    assert!(uri.to_text().starts_with("sip:erin@example.com"));
    assert!(uri.to_text().contains(";ob"));
}
