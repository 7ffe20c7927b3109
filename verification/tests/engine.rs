use imap::buffer::{ReadBuffer, GROW_STEP, INITIAL_CAPACITY, LINE_CAP};
use imap::engine::model::{Fatal, Phase, Rejection};
use imap::engine::{Action, CommandMessage, Engine};
use imap::parser::{Response, Status};

fn command(tag: &str, line: &str, slot: u64) -> CommandMessage {
    CommandMessage { tag: tag.as_bytes().to_vec(), command: line.as_bytes().to_vec(), slot }
}

fn greeting() -> Response {
    Response::Greeting { status: Status::Okay, text: b"server ready".to_vec() }
}

fn untagged(token: &str, text: &str) -> Response {
    Response::Untagged {
        status: Status::Unknown(token.as_bytes().to_vec()),
        text: text.as_bytes().to_vec(),
    }
}

fn tagged(tag: &str, status: Status, text: &str) -> Response {
    Response::Tagged { tag: tag.as_bytes().to_vec(), status, text: text.as_bytes().to_vec() }
}

fn ready() -> Engine {
    let mut e = Engine::new();
    assert_eq!(e.on_bytes(b"* OK server ready\r\n"), vec![Action::Greeted(greeting())]);
    assert_eq!(e.phase(), Phase::Ready);
    e
}

#[test]
fn a_new_engine_waits_for_the_greeting() {
    let mut e = Engine::new();
    assert_eq!(e.phase(), Phase::AwaitingGreeting);
    assert!(!e.is_closed());
    assert_eq!(e.spare(), INITIAL_CAPACITY);
    assert_eq!(e.queued(), 0);
    assert_eq!(e.prepare_read(), vec![]);
    assert_eq!(e.on_bytes(b"* OK ser"), vec![]);
    assert_eq!(e.phase(), Phase::AwaitingGreeting);
    assert_eq!(e.spare(), INITIAL_CAPACITY - 8);
    assert_eq!(e.on_bytes(b"ver ready\r\n"), vec![Action::Greeted(greeting())]);
    assert_eq!(e.phase(), Phase::Ready);
    assert_eq!(e.spare(), INITIAL_CAPACITY);
}

#[test]
fn lines_before_the_greeting_are_dropped() {
    let mut e = Engine::new();
    assert_eq!(e.on_bytes(b"* 2 EXISTS\r\n+ go on\r\nA1 OK early\r\n"), vec![]);
    assert_eq!(e.phase(), Phase::AwaitingGreeting);
    assert_eq!(
        e.on_bytes(b"* PREAUTH hello\r\n* 1 RECENT\r\n"),
        vec![
            Action::Greeted(Response::Greeting {
                status: Status::PreAuth,
                text: b"hello".to_vec()
            }),
            Action::Publish(untagged("1", "RECENT")),
        ]
    );
}

#[test]
fn a_submission_before_the_greeting_is_refused() {
    let mut e = Engine::new();
    assert_eq!(
        e.submit(command("A0001", "A0001 NOOP\r\n", 1)),
        vec![Action::Reject { slot: 1, reason: Rejection::NotReady }]
    );
    assert_eq!(e.queued(), 0);
}

#[test]
fn a_command_is_written_and_completed() {
    let mut e = ready();
    assert_eq!(
        e.submit(command("A0001", "A0001 NOOP\r\n", 7)),
        vec![Action::Write(b"A0001 NOOP\r\n".to_vec())]
    );
    assert_eq!(
        e.on_bytes(b"* 3 EXISTS\r\nA0001 OK NOOP completed\r\n"),
        vec![
            Action::Publish(untagged("3", "EXISTS")),
            Action::Complete {
                tag: b"A0001".to_vec(),
                slot: 7,
                lines: vec![untagged("3", "EXISTS"), tagged("A0001", Status::Okay, "NOOP completed")],
            },
        ]
    );
    assert_eq!(e.on_bytes(b"* 4 EXISTS\r\n"), vec![Action::Publish(untagged("4", "EXISTS"))]);
}

#[test]
fn commands_complete_in_the_order_of_submission() {
    let mut e = ready();
    assert_eq!(e.submit(command("C1", "C1 NOOP\r\n", 1)), vec![Action::Write(b"C1 NOOP\r\n".to_vec())]);
    assert_eq!(e.submit(command("C2", "C2 CHECK\r\n", 2)), vec![]);
    assert_eq!(e.submit(command("C3", "C3 CLOSE\r\n", 3)), vec![]);
    assert_eq!(e.queued(), 2);
    assert_eq!(
        e.on_bytes(b"C1 OK one\r\n"),
        vec![
            Action::Complete {
                tag: b"C1".to_vec(),
                slot: 1,
                lines: vec![tagged("C1", Status::Okay, "one")]
            },
            Action::Write(b"C2 CHECK\r\n".to_vec()),
        ]
    );
    assert_eq!(
        e.on_bytes(b"C2 NO two\r\nC3 BAD three\r\n"),
        vec![
            Action::Complete {
                tag: b"C2".to_vec(),
                slot: 2,
                lines: vec![tagged("C2", Status::No, "two")]
            },
            Action::Write(b"C3 CLOSE\r\n".to_vec()),
            Action::Complete {
                tag: b"C3".to_vec(),
                slot: 3,
                lines: vec![tagged("C3", Status::Bad, "three")]
            },
        ]
    );
    assert_eq!(e.queued(), 0);
}

#[test]
fn each_slot_receives_the_completion_with_its_own_tag() {
    let mut e = ready();
    let tags = ["T5", "T1", "T9", "T3"];
    let mut actions = Vec::new();
    for (i, tag) in tags.iter().enumerate() {
        actions.extend(e.submit(command(tag, &format!("{} NOOP\r\n", tag), 100 + i as u64)));
    }
    for tag in tags.iter() {
        actions.extend(e.on_bytes(format!("* 1 EXISTS\r\n{} OK done\r\n", tag).as_bytes()));
    }
    let mut seen = 0;
    for a in actions {
        if let Action::Complete { tag, slot, lines } = a {
            assert_eq!(tag, tags[seen].as_bytes().to_vec());
            assert_eq!(slot, 100 + seen as u64);
            assert_eq!(
                lines,
                vec![untagged("1", "EXISTS"), tagged(tags[seen], Status::Okay, "done")]
            );
            seen += 1;
        }
    }
    assert_eq!(seen, 4);
}

#[test]
fn a_stray_tag_is_unsolicited_and_kept_out_of_the_collected_lines() {
    let mut e = ready();
    assert_eq!(e.on_bytes(b"Z9 OK nobody asked\r\n"), vec![Action::Publish(tagged("Z9", Status::Okay, "nobody asked"))]);
    e.submit(command("A1", "A1 NOOP\r\n", 1));
    assert_eq!(
        e.on_bytes(b"A2 OK not yours\r\n+ more\r\n* OK [ALERT] hi\r\nA1 OK done\r\n"),
        vec![
            Action::Publish(tagged("A2", Status::Okay, "not yours")),
            Action::Publish(Response::Continuation { text: b"more".to_vec() }),
            Action::Publish(Response::Greeting { status: Status::Okay, text: b"[ALERT] hi".to_vec() }),
            Action::Complete {
                tag: b"A1".to_vec(),
                slot: 1,
                lines: vec![
                    Response::Continuation { text: b"more".to_vec() },
                    Response::Greeting { status: Status::Okay, text: b"[ALERT] hi".to_vec() },
                    tagged("A1", Status::Okay, "done"),
                ],
            },
        ]
    );
}

#[test]
fn a_pending_tag_cannot_be_submitted_again() {
    let mut e = ready();
    e.submit(command("A1", "A1 NOOP\r\n", 1));
    e.submit(command("A2", "A2 NOOP\r\n", 2));
    assert_eq!(
        e.submit(command("A1", "A1 CHECK\r\n", 3)),
        vec![Action::Reject { slot: 3, reason: Rejection::DuplicateTag }]
    );
    assert_eq!(
        e.submit(command("A2", "A2 CHECK\r\n", 4)),
        vec![Action::Reject { slot: 4, reason: Rejection::DuplicateTag }]
    );
    assert_eq!(e.queued(), 1);
    e.on_bytes(b"A1 OK done\r\n");
    assert_eq!(e.submit(command("A1", "A1 CHECK\r\n", 5)), vec![]);
    assert_eq!(e.queued(), 1);
}

#[test]
fn the_end_of_the_stream_fails_everything_pending() {
    let mut e = ready();
    e.submit(command("A1", "A1 NOOP\r\n", 1));
    e.submit(command("A2", "A2 NOOP\r\n", 2));
    e.submit(command("A3", "A3 NOOP\r\n", 3));
    assert_eq!(
        e.on_eof(),
        vec![
            Action::Fail { tag: b"A1".to_vec(), slot: 1 },
            Action::Fail { tag: b"A2".to_vec(), slot: 2 },
            Action::Fail { tag: b"A3".to_vec(), slot: 3 },
            Action::Shutdown(Fatal::Eof),
        ]
    );
    assert!(e.is_closed());
    assert_eq!(e.on_eof(), vec![]);
    assert_eq!(e.on_transport_error(), vec![]);
    assert_eq!(e.on_bytes(b"A1 OK late\r\n"), vec![]);
    assert_eq!(e.prepare_read(), vec![]);
    assert_eq!(
        e.submit(command("A4", "A4 NOOP\r\n", 4)),
        vec![Action::Reject { slot: 4, reason: Rejection::ConnectionClosed }]
    );
}

#[test]
fn a_transport_error_ends_the_connection() {
    let mut e = Engine::new();
    assert_eq!(e.on_transport_error(), vec![Action::Shutdown(Fatal::Transport)]);
    assert!(e.is_closed());
}

#[test]
fn a_malformed_line_ends_the_connection_after_what_came_before_it() {
    let mut e = ready();
    e.submit(command("A1", "A1 NOOP\r\n", 1));
    assert_eq!(
        e.on_bytes(b"* 1 EXISTS\r\nthis is no message\r\nA1 OK never seen\r\n"),
        vec![
            Action::Publish(untagged("1", "EXISTS")),
            Action::Fail { tag: b"A1".to_vec(), slot: 1 },
            Action::Shutdown(Fatal::Malformed),
        ]
    );
    assert!(e.is_closed());
}

#[test]
fn the_buffer_grows_by_steps_up_to_the_ceiling() {
    let mut b = ReadBuffer::new();
    assert_eq!((b.len(), b.capacity(), b.spare()), (0, INITIAL_CAPACITY, INITIAL_CAPACITY));
    let mut capacities = vec![b.capacity()];
    loop {
        let room = b.spare();
        b.extend(&vec![b'x'; room]);
        if !b.ensure_room() {
            break;
        }
        capacities.push(b.capacity());
    }
    assert_eq!(capacities, vec![1024, 3072, 5120, 7168, 8192]);
    assert_eq!(GROW_STEP, 2048);
    assert_eq!(b.len(), LINE_CAP);
    assert_eq!(b.as_slice(), &vec![b'x'; LINE_CAP][..]);
    b.consume(LINE_CAP - 3);
    assert_eq!(b.as_slice(), b"xxx");
    assert!(b.ensure_room());
    assert_eq!(b.capacity(), LINE_CAP);
}

#[test]
fn a_peer_that_never_ends_its_line_is_cut_off_at_the_ceiling() {
    let mut e = ready();
    e.submit(command("A1", "A1 NOOP\r\n", 1));
    let mut total = 0;
    let mut shutdowns = 0;
    let mut reads = 0;
    loop {
        let actions = e.prepare_read();
        if e.is_closed() {
            assert_eq!(
                actions,
                vec![
                    Action::Fail { tag: b"A1".to_vec(), slot: 1 },
                    Action::Shutdown(Fatal::BufferCeiling)
                ]
            );
            shutdowns += 1;
            break;
        }
        assert_eq!(actions, vec![]);
        let room = e.spare();
        assert!(room > 0);
        let chunk = vec![b'a'; room.min(1000)];
        assert_eq!(e.on_bytes(&chunk), vec![]);
        total += chunk.len();
        reads += 1;
        assert!(reads < 100);
    }
    assert_eq!(total, LINE_CAP);
    assert_eq!(shutdowns, 1);
    assert_eq!(e.prepare_read(), vec![]);
}

#[test]
fn a_line_that_ends_in_time_frees_the_buffer() {
    let mut e = ready();
    let mut line = vec![b'*', b' ', b'X', b' '];
    line.extend(vec![b'y'; LINE_CAP - 6]);
    line.extend_from_slice(b"\r\n");
    assert_eq!(line.len(), LINE_CAP);
    let mut sent = 0;
    let mut published = Vec::new();
    while sent < line.len() {
        assert_eq!(e.prepare_read(), vec![]);
        let n = e.spare().min(line.len() - sent);
        published.extend(e.on_bytes(&line[sent..sent + n]));
        sent += n;
    }
    assert_eq!(published.len(), 1);
    assert!(!e.is_closed());
    assert_eq!(e.spare(), LINE_CAP);
}

#[test]
fn more_bytes_than_there_is_room_for_end_the_connection() {
    let mut e = ready();
    let room = e.spare();
    assert_eq!(e.on_bytes(&vec![b'a'; room + 1]), vec![Action::Shutdown(Fatal::BufferCeiling)]);
    assert!(e.is_closed());
}
