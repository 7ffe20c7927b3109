use imap::parser::fetch::{
    fetch_envelopes, find_subsequence, literal_bounds, parse_literal, parse_number, parse_quoted,
    parse_string, skip_ws, Envelope,
};

fn subject(s: &str) -> Envelope {
    Envelope { subject: Some(s.to_string()) }
}

#[test]
fn envelopes_of_two_fetch_lines() {
    let buf = b"* 1 FETCH (ENVELOPE (\"Mon, 1 Jan 2024\" \"First subject\" NIL NIL))\r\n\
* 2 FETCH (ENVELOPE (\"Tue, 2 Jan 2024\" \"Second subject\" NIL NIL))\r\n\
A0003 OK FETCH completed\r\n";
    assert_eq!(
        fetch_envelopes(buf),
        vec![(1, subject("First subject")), (2, subject("Second subject"))]
    );
}

#[test]
fn envelope_subjects_as_nil_and_literal() {
    let buf = b"* 7 FETCH (ENVELOPE (NIL NIL ((\"a\"))))\r\n* 8 FETCH (UID 3 ENVELOPE ( {3}\r\nabc {5}\r\nh\"l)o x))\r\n";
    assert_eq!(
        fetch_envelopes(buf),
        vec![(7, Envelope { subject: None }), (8, subject("h\"l)o"))]
    );
}

#[test]
fn an_unreadable_subject_degrades_to_none() {
    assert_eq!(
        fetch_envelopes(b"* 4 FETCH (ENVELOPE (\"date\" (oops) NIL))\r\n"),
        vec![(4, Envelope { subject: None })]
    );
    assert_eq!(
        fetch_envelopes(b"* 4 FETCH (ENVELOPE (\"date\" \"unterminated"),
        vec![(4, Envelope { subject: None })]
    );
}

#[test]
fn text_that_is_no_fetch_response_is_passed_over() {
    assert_eq!(fetch_envelopes(b""), vec![]);
    assert_eq!(fetch_envelopes(b"* 2 EXISTS\r\n* OK hi\r\nA1 OK done\r\n"), vec![]);
    assert_eq!(fetch_envelopes(b"* x FETCH (ENVELOPE (\"d\" \"s\"))"), vec![]);
    assert_eq!(fetch_envelopes(b"* 1 FETCH (FLAGS ())\r\n"), vec![]);
    assert_eq!(fetch_envelopes(b"* 1 FETCH (ENVELOPE (oops \"s\" x))"), vec![]);
    assert_eq!(fetch_envelopes(b"* 99999999999 FETCH (ENVELOPE (\"d\" \"s\" x))"), vec![]);
    assert_eq!(
        fetch_envelopes(b"* * * 5 FETCH (ENVELOPE (\"d\" \"s\" x))"),
        vec![(5, subject("s"))]
    );
    assert_eq!(
        fetch_envelopes(b"* 1 EXISTS\r\n* 2 FETCH (ENVELOPE (\"d\" \"two\" NIL))\r\n"),
        vec![(1, subject("two"))]
    );
}

#[test]
fn numbers() {
    assert_eq!(parse_number(b"  42 rest", 0), Some((42, 4)));
    assert_eq!(parse_number(b"x42", 1), Some((42, 3)));
    assert_eq!(parse_number(b"007", 0), Some((7, 3)));
    assert_eq!(parse_number(b"4294967295", 0), Some((4294967295, 10)));
    assert_eq!(parse_number(b"4294967296", 0), None);
    assert_eq!(parse_number(b"99999999999999999999999999", 0), None);
    assert_eq!(parse_number(b"abc", 0), None);
    assert_eq!(parse_number(b"   ", 0), None);
    assert_eq!(parse_number(b"12", 2), None);
    assert_eq!(parse_number(b"12", 9), None);
    assert_eq!(parse_number(b"+5", 0), None);
}

#[test]
fn quoted_strings() {
    assert_eq!(parse_quoted(b"\"hello\" x", 1), Some(("hello".to_string(), 7)));
    assert_eq!(parse_quoted(b"\"\"", 1), Some((String::new(), 2)));
    assert_eq!(parse_quoted(b"a\\\"b\\\\c\" tail", 0), Some(("a\"b\\c".to_string(), 8)));
    assert_eq!(parse_quoted(b"no end", 0), None);
    assert_eq!(parse_quoted(b"ends in escape\\", 0), None);
    assert_eq!(parse_quoted(b"x\"", 5), None);
    assert_eq!(parse_quoted(&[0xe9, b'"'], 0), Some(("\u{e9}".to_string(), 2)));
}

#[test]
fn literals() {
    assert_eq!(literal_bounds(b"{5}\r\nhello rest", 0), Some((5, 10)));
    assert_eq!(parse_literal(b"{5}\r\nhello rest", 0), Some(("hello".to_string(), 10)));
    assert_eq!(parse_literal(b"x {0}\r\n", 2), Some((String::new(), 7)));
    assert_eq!(parse_literal(b"{03}\r\nabc", 0), Some(("abc".to_string(), 9)));
    assert_eq!(parse_literal(b"{5}\r\nhell", 0), None);
    assert_eq!(parse_literal(b"{}\r\n", 0), None);
    assert_eq!(parse_literal(b"{5}\nhello", 0), None);
    assert_eq!(parse_literal(b"{5 }\r\nhello", 0), None);
    assert_eq!(parse_literal(b"{5", 0), None);
    assert_eq!(parse_literal(b"{5}\r", 0), None);
    assert_eq!(parse_literal(b"5}\r\nhello", 0), None);
    assert_eq!(parse_literal(b"{5}\r\nhello", 20), None);
    assert_eq!(parse_literal(b"{99999999999999999999999999999}\r\nhello", 0), None);
    assert_eq!(parse_literal(&[b'{', b'2', b'}', 13, 10, 0xff, b'a'], 0), Some(("\u{fffd}a".to_string(), 7)));
    assert_eq!(parse_literal("{2}\r\n\u{e9}".as_bytes(), 0), Some(("\u{e9}".to_string(), 7)));
}

#[test]
fn string_fields() {
    assert_eq!(parse_string(b"  NIL ", 0), Some((None, 5)));
    assert_eq!(parse_string(b" \"a b\" ", 0), Some((Some("a b".to_string()), 6)));
    assert_eq!(parse_string(b"{1}\r\nx", 0), Some((Some("x".to_string()), 6)));
    assert_eq!(parse_string(b"atom ", 0), None);
    assert_eq!(parse_string(b"   ", 0), None);
    assert_eq!(parse_string(b"", 0), None);
    assert_eq!(parse_string(b"\"\"", 0), None);
    assert_eq!(parse_string(b"\"\" ", 0), Some((Some(String::new()), 2)));
    assert_eq!(parse_string(b"NIL", 7), None);
}

#[test]
fn white_space_is_skipped() {
    let mut i = 0;
    skip_ws(b" \t\r\n\x0cx ", &mut i);
    assert_eq!(i, 5);
    skip_ws(b" \t\r\n\x0cx ", &mut i);
    assert_eq!(i, 5);
    let mut j = 1;
    skip_ws(b"a\x0bb", &mut j);
    assert_eq!(j, 1);
    let mut k = 9;
    skip_ws(b"  ", &mut k);
    assert_eq!(k, 9);
    let mut m = 0;
    skip_ws(b"   ", &mut m);
    assert_eq!(m, 3);
}

#[test]
fn first_occurrences() {
    assert_eq!(find_subsequence(b"foo bar baz", b"ba"), Some(4));
    assert_eq!(find_subsequence(b"foo bar baz", b"foo"), Some(0));
    assert_eq!(find_subsequence(b"foo bar baz", b"baz"), Some(8));
    assert_eq!(find_subsequence(b"foo bar baz", b"quux"), None);
    assert_eq!(find_subsequence(b"aaab", b"aab"), Some(1));
    assert_eq!(find_subsequence(b"abc", b""), Some(0));
    assert_eq!(find_subsequence(b"", b""), Some(0));
    assert_eq!(find_subsequence(b"", b"a"), None);
    assert_eq!(find_subsequence(b"ab", b"abc"), None);
}
