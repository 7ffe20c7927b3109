use imap::parser::mailbox::{
    parse_flags, parse_mailbox_name, parse_sequence_set, parse_single_sequence, sequence_matches,
    Flag, MailboxInfo, MailboxStatus, SequenceSet, SystemFlag,
};

#[test]
fn test_parse_mailbox_name() {
    let input = "INBOX";
    let result = parse_mailbox_name(input);
    assert!(result.is_ok());
    let name = result.unwrap();
    assert_eq!(name, "INBOX");

    let input = "Sent Items extra";
    let result = parse_mailbox_name(input);
    assert!(result.is_ok());
    let name = result.unwrap();
    assert_eq!(name, "Sent");
}

#[test]
fn test_parse_flags() {
    // Empty flags
    let input = "()";
    let result = parse_flags(input);
    assert!(result.is_ok());
    let flags = result.unwrap();
    assert_eq!(flags, vec![]);

    // Single flag
    let input = "(\\Seen)";
    let result = parse_flags(input);
    assert!(result.is_ok());
    let flags = result.unwrap();
    assert_eq!(flags, vec![Flag::System(SystemFlag::Seen)]);

    // Multiple flags
    let input = "(\\Seen \\Flagged $Custom)";
    let result = parse_flags(input);
    assert!(result.is_ok());
    let flags = result.unwrap();
    assert_eq!(
        flags,
        vec![
            Flag::System(SystemFlag::Seen),
            Flag::System(SystemFlag::Flagged),
            Flag::Keyword("$Custom".to_string())
        ]
    );

    let input = "($Test1 $Test2 \\Recent)";
    let result = parse_flags(input);
    assert!(result.is_ok());
    let flags = result.unwrap();
    assert_eq!(
        flags,
        vec![
            Flag::Keyword("$Test1".to_string()),
            Flag::Keyword("$Test2".to_string()),
            Flag::System(SystemFlag::Recent)
        ]
    );
}

#[test]
fn test_parse_sequence_set() {
    // Single numbers
    let result = parse_sequence_set("1");
    assert!(result.is_ok());
    assert_eq!(result.unwrap(), SequenceSet::Single(1));

    let result = parse_sequence_set("42");
    assert!(result.is_ok());
    assert_eq!(result.unwrap(), SequenceSet::Single(42));

    // Star (*)
    let result = parse_sequence_set("*");
    assert!(result.is_ok());
    assert_eq!(result.unwrap(), SequenceSet::Range(u32::MAX, None));

    // Ranges
    let result = parse_sequence_set("1:5");
    assert!(result.is_ok());
    assert_eq!(result.unwrap(), SequenceSet::Range(1, Some(5)));

    let result = parse_sequence_set("1:*");
    assert!(result.is_ok());
    assert_eq!(result.unwrap(), SequenceSet::Range(1, None));

    let result = parse_sequence_set("10:20");
    assert!(result.is_ok());
    assert_eq!(result.unwrap(), SequenceSet::Range(10, Some(20)));

    // Lists
    let result = parse_sequence_set("1,3");
    assert!(result.is_ok());
    match result.unwrap() {
        SequenceSet::List(list) => {
            assert_eq!(list.len(), 2);
            assert_eq!(list[0], SequenceSet::Single(1));
            assert_eq!(list[1], SequenceSet::Single(3));
        }
        _ => panic!("Expected List variant"),
    }

    let result = parse_sequence_set("1,3,5");
    assert!(result.is_ok());
    match result.unwrap() {
        SequenceSet::List(list) => {
            assert_eq!(list.len(), 3);
            assert_eq!(list[0], SequenceSet::Single(1));
            assert_eq!(list[1], SequenceSet::Single(3));
            assert_eq!(list[2], SequenceSet::Single(5));
        }
        _ => panic!("Expected List variant"),
    }
}

#[test]
fn test_sequence_matches() {
    let test_cases = vec![
        // (sequence_set_str, msg_num, max_msg, should_match)
        ("1", 1, 3, true),
        ("1", 2, 3, false),
        ("1", 3, 3, false),
        ("*", 1, 3, false),
        ("*", 2, 3, false),
        ("*", 3, 3, true),
        ("1:3", 1, 3, true),
        ("1:3", 2, 3, true),
        ("1:3", 3, 3, true),
        ("1:*", 1, 3, true),
        ("1:*", 2, 3, true),
        ("1:*", 3, 3, true),
        ("2:3", 1, 3, false),
        ("2:3", 2, 3, true),
        ("2:3", 3, 3, true),
        ("1,3", 1, 3, true),
        ("1,3", 2, 3, false),
        ("1,3", 3, 3, true),
    ];

    for (seq_str, msg_num, max_msg, expected) in test_cases {
        let seq = parse_sequence_set(seq_str).unwrap();
        let matches = sequence_matches(&seq, msg_num, max_msg);
        assert_eq!(
            matches, expected,
            "Sequence '{}' with msg {} (max {}) should match: {}",
            seq_str, msg_num, max_msg, expected
        );
    }
}

#[test]
fn test_mailbox_status_creation() {
    let status = MailboxStatus {
        messages: 2,
        recent: 2,
        uid_next: 3,
        uid_validity: 1234567890,
        unseen: Some(2),
        flags: vec![
            Flag::Keyword("$Test1".to_string()),
            Flag::Keyword("$Test2".to_string()),
            Flag::System(SystemFlag::Recent),
        ],
        permanent_flags: vec![
            Flag::Keyword("$Test1".to_string()),
            Flag::Keyword("$Test2".to_string()),
        ],
    };

    assert_eq!(status.messages, 2);
    assert_eq!(status.recent, 2);
    assert_eq!(status.uid_next, 3);
    assert_eq!(status.unseen, Some(2));
    assert_eq!(status.flags.len(), 3);
    assert_eq!(status.permanent_flags.len(), 2);
}

#[test]
fn test_flag_operations() {
    let mut flags = vec![
        Flag::Keyword("$Test2".to_string()),
        Flag::Keyword("$Test1".to_string()),
        Flag::System(SystemFlag::Recent),
        Flag::Keyword("$Test1".to_string()), // Duplicate
    ];

    flags.sort_by(|a, b| format!("{a:?}").cmp(&format!("{b:?}")));
    flags.dedup();

    assert_eq!(flags.len(), 3); // Should have removed duplicate
}

#[test]
fn test_invalid_sequence_sets() {
    assert!(parse_sequence_set("").is_err());
    assert!(parse_sequence_set("abc").is_err());
    assert!(parse_sequence_set("1:2:3").is_err());
    assert!(parse_sequence_set("1:abc").is_err());
}

#[test]
fn test_edge_case_sequences() {
    let result = parse_sequence_set("45:30");
    assert!(result.is_ok());
    match result.unwrap() {
        SequenceSet::Range(45, Some(30)) => {
            assert!(!sequence_matches(&SequenceSet::Range(45, Some(30)), 1, 3));
            assert!(!sequence_matches(&SequenceSet::Range(45, Some(30)), 40, 50));
        }
        _ => panic!("Expected Range variant"),
    }
}

#[test]
fn mailbox_name_of_empty_input_is_refused() {
    assert_eq!(parse_mailbox_name(""), Err("Empty mailbox name".to_string()));
}

#[test]
fn mailbox_name_skips_leading_white_space() {
    assert_eq!(parse_mailbox_name("  \t Drafts rest"), Ok("Drafts".to_string()));
    assert_eq!(parse_mailbox_name("   "), Ok(String::new()));
    assert_eq!(parse_mailbox_name("\u{3000}Archive\u{a0}x"), Ok("Archive".to_string()));
}

#[test]
fn flags_need_parentheses() {
    let refused = Err("Flags must be enclosed in parentheses".to_string());
    assert_eq!(parse_flags("\\Seen"), refused);
    assert_eq!(parse_flags("(\\Seen"), refused);
    assert_eq!(parse_flags("\\Seen)"), refused);
    assert_eq!(parse_flags("("), refused);
    assert_eq!(parse_flags(""), refused);
}

#[test]
fn flags_tolerate_white_space() {
    assert_eq!(
        parse_flags("  ( \\Answered   \\Deleted\t\\Draft custom )  "),
        Ok(vec![
            Flag::System(SystemFlag::Answered),
            Flag::System(SystemFlag::Deleted),
            Flag::System(SystemFlag::Draft),
            Flag::Keyword("custom".to_string()),
        ])
    );
    assert_eq!(parse_flags("(\\seen)"), Ok(vec![Flag::Keyword("\\seen".to_string())]));
}

#[test]
fn single_sequence_errors_name_the_text() {
    assert_eq!(parse_single_sequence("abc"), Err("Invalid number: abc".to_string()));
    assert_eq!(parse_single_sequence(""), Err("Invalid number: ".to_string()));
    assert_eq!(parse_single_sequence("1:2:3"), Err("Invalid range format: 1:2:3".to_string()));
    assert_eq!(parse_single_sequence("x:3"), Err("Invalid start number: x".to_string()));
    assert_eq!(parse_single_sequence("1:abc"), Err("Invalid end number: abc".to_string()));
    assert_eq!(parse_single_sequence("*:3"), Err("Invalid start number: *".to_string()));
}

#[test]
fn numbers_are_read_as_the_standard_library_reads_them() {
    assert_eq!(parse_single_sequence("+7"), Ok(SequenceSet::Single(7)));
    assert_eq!(parse_single_sequence("007"), Ok(SequenceSet::Single(7)));
    assert_eq!(parse_single_sequence("4294967295"), Ok(SequenceSet::Single(u32::MAX)));
    assert!(parse_single_sequence("4294967296").is_err());
    assert!(parse_single_sequence("+").is_err());
    assert!(parse_single_sequence("-1").is_err());
    assert!(parse_single_sequence("1 ").is_err());
    for text in ["0", "12", "+12", "99999999999", "1a", "", "+", "++1", "4294967295"] {
        let ours = parse_single_sequence(text).ok();
        let theirs = text.parse::<u32>().ok().map(SequenceSet::Single);
        assert_eq!(ours, theirs);
    }
}

#[test]
fn list_fails_with_the_error_of_its_first_bad_piece() {
    assert_eq!(parse_sequence_set("1,,3"), Err("Invalid number: ".to_string()));
    assert_eq!(parse_sequence_set("1,x,y"), Err("Invalid number: x".to_string()));
    assert_eq!(parse_sequence_set("1,"), Err("Invalid number: ".to_string()));
    assert_eq!(
        parse_sequence_set("1:3,5,7:*"),
        Ok(SequenceSet::List(vec![
            SequenceSet::Range(1, Some(3)),
            SequenceSet::Single(5),
            SequenceSet::Range(7, None),
        ]))
    );
}

#[test]
fn nested_lists_match_what_any_member_matches() {
    let nested = SequenceSet::List(vec![
        SequenceSet::Single(9),
        SequenceSet::List(vec![SequenceSet::Range(2, Some(4)), SequenceSet::Single(u32::MAX)]),
    ]);
    assert!(sequence_matches(&nested, 3, 20));
    assert!(sequence_matches(&nested, 9, 20));
    assert!(sequence_matches(&nested, 20, 20));
    assert!(!sequence_matches(&nested, 5, 20));
    assert!(!sequence_matches(&SequenceSet::List(vec![]), 1, 1));
    assert!(sequence_matches(&SequenceSet::Range(u32::MAX, None), 7, 7));
    assert_eq!(nested.clone(), nested);
}

#[test]
fn mailbox_info_holds_what_it_is_given() {
    let info = MailboxInfo {
        name: "INBOX".to_string(),
        flags: vec![Flag::System(SystemFlag::Seen)],
        permanent_flags: vec![],
        uid_validity: 7,
        uid_next: 8,
        exists: 2,
        recent: 1,
    };
    assert_eq!(info.clone(), info);
    assert_eq!(info.exists, 2);
}
