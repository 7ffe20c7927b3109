use imap::client::{AuthenticatedState, Client, ConnectedState};
use imap::engine::{Action, CommandMessage, Engine};
use imap::error::ImapError;
use imap::parser::{Response, Status};
use imap::types::response::Envelope;

/// Submits a command and plays the server's answer; returns the lines
/// handed to the command's slot.
fn exchange(engine: &mut Engine, command: CommandMessage, sent: &str, answer: &str) -> Vec<Response> {
    let slot = command.slot;
    let tag = command.tag.clone();
    assert_eq!(engine.submit(command), vec![Action::Write(sent.as_bytes().to_vec())]);
    assert_eq!(engine.prepare_read(), vec![]);
    let mut delivered = None;
    for action in engine.on_bytes(answer.as_bytes()) {
        if let Action::Complete { tag: t, slot: s, lines } = action {
            assert_eq!(t, tag);
            assert_eq!(s, slot);
            assert!(delivered.is_none());
            delivered = Some(lines);
        }
    }
    delivered.unwrap()
}

#[test]
fn login_select_and_fetch_two_envelopes() {
    let mut engine = Engine::new();
    assert_eq!(engine.prepare_read(), vec![]);
    let mut greeted = engine.on_bytes(b"* OK server ready\r\n");
    assert_eq!(greeted.len(), 1);
    let greeting = match greeted.remove(0) {
        Action::Greeted(g) => g,
        _ => panic!("expected the greeting"),
    };
    let mut client: Client<ConnectedState> = Client::connect(&greeting).unwrap();

    let login = client.login_command("bob", "secret", 1);
    assert_eq!(login.tag, b"A0001".to_vec());
    let lines = exchange(&mut engine, login, "A0001 LOGIN bob secret\r\n", "A0001 OK LOGIN completed\r\n");
    let mut session: Client<AuthenticatedState> = client.login(b"A0001", &lines).unwrap();

    let select = session.select_command("INBOX", 2);
    let lines = exchange(
        &mut engine,
        select,
        "A0002 SELECT INBOX\r\n",
        "* 2 EXISTS\r\nA0002 OK SELECT completed\r\n",
    );
    assert_eq!(lines.len(), 2);
    assert_eq!(session.selected(b"A0002", &lines), Ok(()));

    let fetch = session.fetch_command(2, 3);
    let lines = exchange(
        &mut engine,
        fetch,
        "A0003 FETCH 1:2 (ENVELOPE)\r\n",
        "* 1 FETCH (ENVELOPE (\"Mon, 1 Jan 2024 10:00:00 +0000\" \"Hello\" NIL NIL))\r\n\
* 2 FETCH (ENVELOPE (\"Tue, 2 Jan 2024 10:00:00 +0000\" \"Second \\\"one\\\"\" NIL NIL))\r\n\
A0003 OK FETCH completed\r\n",
    );
    assert_eq!(lines.len(), 3);
    assert_eq!(
        session.fetch(&lines),
        vec![
            Envelope { subject: Some("Hello".to_string()) },
            Envelope { subject: Some("Second \"one\"".to_string()) },
        ]
    );
}

fn greeting(status: Status) -> Response {
    Response::Greeting { status, text: b"x".to_vec() }
}

fn tagged(tag: &str, status: Status) -> Response {
    Response::Tagged { tag: tag.as_bytes().to_vec(), status, text: b"x".to_vec() }
}

fn failed(text: &str) -> ImapError {
    ImapError::ConnectionFailed(text.to_string())
}

#[test]
fn only_ok_and_preauth_open_a_session() {
    assert!(Client::connect(&greeting(Status::Okay)).is_ok());
    assert!(Client::connect(&greeting(Status::PreAuth)).is_ok());
    for status in [Status::No, Status::Bad, Status::Bye] {
        assert_eq!(Client::connect(&greeting(status)).err(), Some(failed("Invalid greeting from server")));
    }
    assert_eq!(
        Client::connect(&tagged("A1", Status::Okay)).err(),
        Some(failed("Expected greeting from server"))
    );
    assert_eq!(
        Client::connect(&Response::Continuation { text: b"x".to_vec() }).err(),
        Some(failed("Expected greeting from server"))
    );
}

#[test]
fn login_fails_on_anything_but_ok() {
    let client = || Client::connect(&greeting(Status::Okay)).unwrap();
    assert!(client().login(b"A0001", &[greeting(Status::Okay), tagged("A0001", Status::Okay)]).is_ok());
    assert_eq!(client().login(b"A0001", &[tagged("A0001", Status::No)]).err(), Some(failed("Login failed")));
    assert_eq!(client().login(b"A0001", &[tagged("A0001", Status::Bad)]).err(), Some(failed("Login failed")));
    assert_eq!(
        client().login(b"A0001", &[tagged("A0002", Status::Okay)]).err(),
        Some(failed("Connection closed unexpectedly"))
    );
    assert_eq!(client().login(b"A0001", &[]).err(), Some(failed("Connection closed unexpectedly")));
    assert_eq!(
        client().login(b"A0001", &[tagged("A0001", Status::Okay), greeting(Status::Okay)]).err(),
        Some(failed("Connection closed unexpectedly"))
    );
}

#[test]
fn tags_run_on_across_the_login() {
    let mut client = Client::connect(&greeting(Status::Okay)).unwrap();
    assert!(!client.exhausted());
    let first = client.login_command("a b", "c", 10);
    assert_eq!(first.tag, b"A0001".to_vec());
    assert_eq!(first.command, b"A0001 LOGIN \"a b\" c\r\n".to_vec());
    assert_eq!(first.slot, 10);
    let second = client.login_command("u", "p", 11);
    assert_eq!(second.command, b"A0002 LOGIN u p\r\n".to_vec());
    let mut session = client.login(b"A0002", &[tagged("A0002", Status::Okay)]).unwrap();
    let third = session.select_command("Sent Items", 12);
    assert_eq!(third.tag, b"A0003".to_vec());
    assert_eq!(third.command, b"A0003 SELECT \"Sent Items\"\r\n".to_vec());
    let fourth = session.fetch_command(10, 13);
    assert_eq!(fourth.command, b"A0004 FETCH 1:10 (ENVELOPE)\r\n".to_vec());
    assert_eq!(session.selected(b"A0003", &[tagged("A0003", Status::No)]), Err(failed("SELECT failed")));
    assert_eq!(session.selected(b"A0003", &[]), Err(failed("Connection closed unexpectedly")));
}

#[test]
fn fetch_reads_untagged_data_only() {
    let session = Client::connect(&greeting(Status::Okay)).unwrap().login(b"A1", &[tagged("A1", Status::Okay)]).unwrap();
    let line = |n: &str, text: &str| Response::Untagged {
        status: Status::Unknown(n.as_bytes().to_vec()),
        text: text.as_bytes().to_vec(),
    };
    let lines = vec![
        line("1", "FETCH (ENVELOPE (\"d\" \"one\" NIL))"),
        Response::Tagged {
            tag: b"A9".to_vec(),
            status: Status::Okay,
            text: b"* 5 FETCH (ENVELOPE (\"d\" \"forged\" NIL))".to_vec(),
        },
        line("2", "EXISTS"),
        line("3", "FETCH (ENVELOPE (NIL NIL NIL))"),
    ];
    assert_eq!(
        session.fetch(&lines),
        vec![Envelope { subject: Some("one".to_string()) }, Envelope { subject: None }]
    );
    assert_eq!(session.fetch(&[]), vec![]);
}
