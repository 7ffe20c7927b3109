use imap::builder::{Builder, ConnectionType};
use imap::connector::Connector;
use imap::error::ImapError;
use imap::messages::{Message, Messages};
use imap::scan::{find_first, same_bytes};
use imap::tag::{next_tag, reset_tag_counter, TagCounter};
use imap::tls::{host_of, parse_server_name};
use imap::types::common::Status;
use imap::types::response::{Envelope, FetchData, Response, UntaggedResponse};

#[test]
fn tags_count_up_from_one() {
    let mut counter = TagCounter::new();
    assert_eq!(next_tag(&mut counter), "A0001");
    assert_eq!(next_tag(&mut counter), "A0002");
    for _ in 2..9 {
        next_tag(&mut counter);
    }
    assert_eq!(next_tag(&mut counter), "A0010");
    for _ in 10..99 {
        next_tag(&mut counter);
    }
    assert_eq!(next_tag(&mut counter), "A0100");
    for _ in 100..999 {
        next_tag(&mut counter);
    }
    assert_eq!(next_tag(&mut counter), "A1000");
    for _ in 1000..9999 {
        next_tag(&mut counter);
    }
    assert_eq!(next_tag(&mut counter), "A10000");
    assert!(!counter.exhausted());
    reset_tag_counter(&mut counter);
    assert_eq!(next_tag(&mut counter), "A0001");
}

#[test]
fn messages_are_taken_in_order() {
    let mut messages = Messages::new(vec![
        Message::new("Subject1".to_string()),
        Message::new("Subject2".to_string()),
    ]);
    let first = messages.try_next().unwrap().unwrap();
    assert_eq!(first.subject(), "Subject1");
    let second = messages.try_next().unwrap().unwrap();
    assert_eq!(second.subject(), "Subject2");
    assert_eq!(messages.try_next(), Ok(None));
    assert_eq!(messages.try_next(), Ok(None));
}

#[test]
fn builder_chooses_the_transport() {
    assert_eq!(Builder::new("imap.example.com:993").build().host(), Ok("imap.example.com".to_string()));
    assert_eq!(Builder::new("h:1").plain().tls().build().host(), Ok("h".to_string()));
    let refused = Err(ImapError::ConnectionFailed("Connection type not implemented".to_string()));
    assert_eq!(Builder::new("h:1").starttls().build().host(), refused);
    assert_eq!(Builder::new("h:1").plain().build().host(), refused);
    assert_eq!(Connector::new("no-port", ConnectionType::Plain).host(), refused);
    assert_eq!(
        Connector::new("no-port", ConnectionType::Tls).host(),
        Err(ImapError::InvalidAddressFormat("no-port".to_string()))
    );
    assert_eq!(Connector::new("h:1", ConnectionType::Tls).address(), "h:1");
}

#[test]
fn the_host_is_what_stands_before_the_last_colon() {
    assert_eq!(host_of("example.com:993"), Ok("example.com".to_string()));
    assert_eq!(host_of("[::1]:993"), Ok("[::1]".to_string()));
    assert_eq!(host_of("host:"), Ok("host".to_string()));
    assert_eq!(host_of(":143"), Ok(String::new()));
    assert_eq!(host_of("example.com"), Err(ImapError::InvalidAddressFormat("example.com".to_string())));
    assert_eq!(host_of(""), Err(ImapError::InvalidAddressFormat(String::new())));
}

#[test]
fn server_names_are_checked() {
    assert!(parse_server_name("imap.example.com:993").is_ok());
    assert!(parse_server_name("192.0.2.1:993").is_ok());
    assert_eq!(
        parse_server_name("not a name:993").err(),
        Some(ImapError::InvalidDnsName("invalid dns name".to_string()))
    );
    assert_eq!(
        parse_server_name(":993").err(),
        Some(ImapError::InvalidDnsName("invalid dns name".to_string()))
    );
    assert_eq!(
        parse_server_name("imap.example.com").err(),
        Some(ImapError::InvalidAddressFormat("imap.example.com".to_string()))
    );
}

#[test]
fn errors_describe_themselves() {
    assert_eq!(ImapError::ConnectionFailed("x".to_string()).message(), "Connection failed: x");
    assert_eq!(ImapError::InvalidAddressFormat("a".to_string()).message(), "Invalid address format: a");
    assert_eq!(ImapError::InvalidDnsName("d".to_string()).message(), "DNS name error: d");
    assert_eq!(ImapError::IoError("broken pipe".to_string()).message(), "broken pipe");
}

#[test]
fn terminator_search_finds_the_first_one() {
    assert_eq!(find_first(b"ab\r\ncd\r\n", b"\r\n"), Some(2));
    assert_eq!(find_first(b"ab\rcd\n", b"\r\n"), None);
    assert_eq!(find_first(b"\r\n", b"\r\n"), Some(0));
    assert_eq!(find_first(b"abc", b""), Some(0));
    assert!(same_bytes(b"A0001", b"A0001"));
    assert!(!same_bytes(b"A0001", b"A0002"));
    assert!(!same_bytes(b"A0001", b"A000"));
    assert!(same_bytes(b"", b""));
}

#[test]
fn structured_responses_hold_their_parts() {
    let r = Response::Untagged(UntaggedResponse::Fetch {
        seq: 3,
        data: FetchData::Envelope(Envelope { subject: Some("s".to_string()) }),
    });
    assert_eq!(r.clone(), r);
    let t = Response::Tagged {
        tag: "A1".to_string(),
        status: Status::Okay,
        code: None,
        text: "done".to_string(),
    };
    assert_ne!(t, Response::Continuation(None));
    assert_ne!(Status::No, Status::Bad);
}
