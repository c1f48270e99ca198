use rsipstack::bench::{answer_roll, call_duration_secs, calls_per_second, calls_to_create, parse_server_uri, should_answer};

#[test]
fn server_uri_gets_scheme_and_default_port() {
    let u = parse_server_uri("example.com").unwrap();
    assert_eq!(u.to_text(), "sip:example.com:5060");
    assert_eq!(u.host_port, "example.com:5060");
    assert!(u.has_port);
    let u = parse_server_uri("sip:example.com:5080").unwrap();
    assert_eq!(u.to_text(), "sip:example.com:5080");
    let u = parse_server_uri("sip:bob@10.0.0.1;transport=tcp").unwrap();
    assert_eq!(u.host_port, "10.0.0.1:5060");
    assert!(u.to_text().starts_with("sip:bob@10.0.0.1:5060;transport="));
}

#[test]
fn server_uri_errors() {
    let err = parse_server_uri("sip:").unwrap_err();
    match err {
        rsipstack::error::Error::Error(m) => assert!(m.starts_with("Invalid server URI: ")),
        other => panic!("unexpected error {:?}", other),
    }
}

#[test]
fn answer_probability() {
    assert!(answer_roll(42, 50));
    assert!(!answer_roll(50, 50));
    assert!(!answer_roll(0, 0));
    for _ in 0..20 {
        assert!(should_answer(100));
        assert!(!should_answer(0));
    }
}

#[test]
fn call_rate() {
    assert_eq!(calls_per_second(10, 40, 3), Some(10));
    assert_eq!(calls_per_second(10, 41, 2), Some(15));
    assert_eq!(calls_per_second(0, 5, 0), None);
}

#[test]
fn calls_to_keep_the_concurrency() {
    assert_eq!(calls_to_create(10, 4, 100), 6);
    assert_eq!(calls_to_create(10, 12, 100), 0);
    assert_eq!(calls_to_create(500, 0, 100), 100);
    assert_eq!(calls_to_create(0, 0, 100), 0);
    for _ in 0..20 {
        let d = call_duration_secs();
        assert!((3..=10).contains(&d));
    }
}
