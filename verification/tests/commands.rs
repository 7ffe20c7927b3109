use imap::commands::{join_search_keys, CommandBuilder, FetchItem, StoreAction};
use imap::format::{join_paren_space, push_decimal, quote_astring, WireText};
use imap::types::command::{SearchKey, SequenceBound, SequenceRange, SequenceSet, StatusItem};
use imap::types::common::Flag;

#[test]
fn astring_is_bare_where_it_can_be() {
    assert_eq!(quote_astring("INBOX"), "INBOX");
    assert_eq!(quote_astring("bob"), "bob");
    assert_eq!(quote_astring("a.b-c_d/e+f!#$&'=?^`|~"), "a.b-c_d/e+f!#$&'=?^`|~");
}

#[test]
fn astring_is_quoted_where_it_must_be() {
    assert_eq!(quote_astring(""), "\"\"");
    assert_eq!(quote_astring("My Folder"), "\"My Folder\"");
    assert_eq!(quote_astring("a\"b"), "\"a\\\"b\"");
    assert_eq!(quote_astring("a\\b"), "\"a\\\\b\"");
    assert_eq!(quote_astring("\\"), "\"\\\\\"");
    assert_eq!(quote_astring("(x)"), "\"(x)\"");
    assert_eq!(quote_astring("{3}"), "\"{3}\"");
    assert_eq!(quote_astring("50%"), "\"50%\"");
    assert_eq!(quote_astring("*"), "\"*\"");
    assert_eq!(quote_astring("a]"), "\"a]\"");
    assert_eq!(quote_astring("tab\there"), "\"tab\there\"");
    assert_eq!(quote_astring("caf\u{e9}"), "\"caf\u{e9}\"");
    assert_eq!(quote_astring("\u{7f}"), "\"\u{7f}\"");
}

#[test]
fn decimal_numerals() {
    for n in [0u64, 7, 10, 99, 100, 4294967295, u64::MAX] {
        let mut s = String::from("n=");
        push_decimal(&mut s, n);
        assert_eq!(s, format!("n={}", n));
    }
}

#[test]
fn sequence_sets_are_written_with_commas() {
    assert_eq!(SequenceSet::new().to_string(), "");
    assert!(SequenceSet::new().is_empty());
    assert!(SequenceSet::default().is_empty());
    assert_eq!(SequenceSet::all().to_string(), "*");
    assert!(!SequenceSet::all().is_empty());
    let set = SequenceSet::new()
        .add_single(3)
        .add_range(SequenceBound::Number(5), SequenceBound::Star)
        .add_star()
        .add_range(SequenceBound::Number(10), SequenceBound::Number(12));
    assert_eq!(set.to_string(), "3,5:*,*,10:12");
    assert_eq!(SequenceBound::Number(0).to_string(), "0");
    assert_eq!(SequenceBound::Star.to_string(), "*");
    assert_eq!(SequenceRange::Single(SequenceBound::Number(4294967295)).to_string(), "4294967295");
}

#[test]
fn flags_and_items_are_written_by_name() {
    assert_eq!(Flag::Seen.to_string(), "\\Seen");
    assert_eq!(Flag::Answered.to_string(), "\\Answered");
    assert_eq!(Flag::Flagged.to_string(), "\\Flagged");
    assert_eq!(Flag::Deleted.to_string(), "\\Deleted");
    assert_eq!(Flag::Draft.to_string(), "\\Draft");
    assert_eq!(Flag::Recent.to_string(), "\\Recent");
    assert_eq!(Flag::Keyword("$Junk".to_string()).to_string(), "$Junk");
    assert_eq!(StatusItem::Messages.to_string(), "MESSAGES");
    assert_eq!(StatusItem::Recent.to_string(), "RECENT");
    assert_eq!(StatusItem::UidNext.to_string(), "UIDNEXT");
    assert_eq!(StatusItem::UidValidity.to_string(), "UIDVALIDITY");
    assert_eq!(StatusItem::Unseen.to_string(), "UNSEEN");
    let items = [
        (FetchItem::All, "ALL"),
        (FetchItem::Fast, "FAST"),
        (FetchItem::Full, "FULL"),
        (FetchItem::Body, "BODY"),
        (FetchItem::BodyPeek, "BODY.PEEK"),
        (FetchItem::BodySection("HEADER".to_string()), "BODY[HEADER]"),
        (FetchItem::BodyPeekSection("1.2".to_string()), "BODY.PEEK[1.2]"),
        (FetchItem::Envelope, "ENVELOPE"),
        (FetchItem::Flags, "FLAGS"),
        (FetchItem::InternalDate, "INTERNALDATE"),
        (FetchItem::Rfc822, "RFC822"),
        (FetchItem::Rfc822Header, "RFC822.HEADER"),
        (FetchItem::Rfc822Text, "RFC822.TEXT"),
        (FetchItem::Rfc822Size, "RFC822.SIZE"),
        (FetchItem::Uid, "UID"),
    ];
    for (item, text) in items {
        assert_eq!(item.to_string(), text);
    }
}

#[test]
fn lists_in_parentheses() {
    assert_eq!(join_paren_space::<Flag>(&[]), "()");
    assert_eq!(join_paren_space(&[Flag::Seen]), "(\\Seen)");
    assert_eq!(
        join_paren_space(&[StatusItem::Messages, StatusItem::UidNext, StatusItem::Unseen]),
        "(MESSAGES UIDNEXT UNSEEN)"
    );
}

#[test]
fn search_keys_are_written_with_their_arguments() {
    let s = |v: &str| v.to_string();
    let set = SequenceSet::new().add_range(SequenceBound::Number(1), SequenceBound::Number(5)).add_single(7);
    let keys = vec![
        (SearchKey::All, "ALL"),
        (SearchKey::Answered, "ANSWERED"),
        (SearchKey::Bcc(s("a b")), "BCC \"a b\""),
        (SearchKey::Before(s("1-Feb-1994")), "BEFORE 1-Feb-1994"),
        (SearchKey::Body(s("hello")), "BODY hello"),
        (SearchKey::Cc(s("x@y")), "CC x@y"),
        (SearchKey::Deleted, "DELETED"),
        (SearchKey::Draft, "DRAFT"),
        (SearchKey::Flagged, "FLAGGED"),
        (SearchKey::From(s("Smith")), "FROM Smith"),
        (SearchKey::Header { name: s("X-A"), value: s("b c") }, "HEADER X-A \"b c\""),
        (SearchKey::Keyword(s("$Junk")), "KEYWORD $Junk"),
        (SearchKey::Larger(100), "LARGER 100"),
        (SearchKey::New, "NEW"),
        (SearchKey::Not(Box::new(SearchKey::Seen)), "NOT (SEEN)"),
        (SearchKey::Old, "OLD"),
        (SearchKey::On(s("1-Feb-1994")), "ON 1-Feb-1994"),
        (
            SearchKey::Or(
                Box::new(SearchKey::Seen),
                Box::new(SearchKey::Not(Box::new(SearchKey::From(s("bob"))))),
            ),
            "OR (SEEN) (NOT (FROM bob))",
        ),
        (SearchKey::Recent, "RECENT"),
        (SearchKey::Seen, "SEEN"),
        (SearchKey::SentBefore(s("d")), "SENTBEFORE d"),
        (SearchKey::SentOn(s("d")), "SENTON d"),
        (SearchKey::SentSince(s("d")), "SENTSINCE d"),
        (SearchKey::Since(s("d")), "SINCE d"),
        (SearchKey::Smaller(0), "SMALLER 0"),
        (SearchKey::Subject(s("")), "SUBJECT \"\""),
        (SearchKey::Text(s("say \"hi\"")), "TEXT \"say \\\"hi\\\"\""),
        (SearchKey::To(s("me")), "TO me"),
        (SearchKey::Unanswered, "UNANSWERED"),
        (SearchKey::Undeleted, "UNDELETED"),
        (SearchKey::Undraft, "UNDRAFT"),
        (SearchKey::Unflagged, "UNFLAGGED"),
        (SearchKey::Unkeyword(s("$Junk")), "UNKEYWORD $Junk"),
        (SearchKey::Unseen, "UNSEEN"),
        (SearchKey::Uid(set), "UID 1:5,7"),
    ];
    for (key, text) in &keys {
        assert_eq!(key.to_string(), *text);
        assert_eq!(key.clone(), *key);
    }
    assert_eq!(join_search_keys(&[]), "");
    assert_eq!(join_search_keys(&[SearchKey::Seen, SearchKey::Larger(5)]), "SEEN LARGER 5");
}

#[test]
fn commands_without_arguments() {
    assert_eq!(CommandBuilder::new("A0001").capability().as_string(), "A0001 CAPABILITY\r\n");
    assert_eq!(CommandBuilder::new("A0001").noop().as_string(), "A0001 NOOP\r\n");
    assert_eq!(CommandBuilder::new("A0001").logout().as_string(), "A0001 LOGOUT\r\n");
    assert_eq!(CommandBuilder::new("A0001").starttls().as_string(), "A0001 STARTTLS\r\n");
    assert_eq!(CommandBuilder::new("A0001").check().as_string(), "A0001 CHECK\r\n");
    assert_eq!(CommandBuilder::new("A0001").close().as_string(), "A0001 CLOSE\r\n");
    assert_eq!(CommandBuilder::new("t").expunge().as_string(), "t EXPUNGE\r\n");
}

#[test]
fn commands_on_mailboxes() {
    assert_eq!(CommandBuilder::new("a").authenticate("PLAIN").as_string(), "a AUTHENTICATE PLAIN\r\n");
    assert_eq!(CommandBuilder::new("a").select("INBOX").as_string(), "a SELECT INBOX\r\n");
    assert_eq!(CommandBuilder::new("a").select("My Folder").as_string(), "a SELECT \"My Folder\"\r\n");
    assert_eq!(CommandBuilder::new("a").examine("INBOX").as_string(), "a EXAMINE INBOX\r\n");
    assert_eq!(CommandBuilder::new("a").create("New").as_string(), "a CREATE New\r\n");
    assert_eq!(CommandBuilder::new("a").delete("Old").as_string(), "a DELETE Old\r\n");
    assert_eq!(CommandBuilder::new("a").rename("a b", "c").as_string(), "a RENAME \"a b\" c\r\n");
    assert_eq!(CommandBuilder::new("a").subscribe("News").as_string(), "a SUBSCRIBE News\r\n");
    assert_eq!(CommandBuilder::new("a").unsubscribe("News").as_string(), "a UNSUBSCRIBE News\r\n");
    assert_eq!(CommandBuilder::new("a").list("", "*").as_string(), "a LIST \"\" \"*\"\r\n");
    assert_eq!(CommandBuilder::new("a").lsub("ref", "INBOX").as_string(), "a LSUB ref INBOX\r\n");
    assert_eq!(
        CommandBuilder::new("a").status("INBOX", vec![StatusItem::Messages, StatusItem::Unseen]).as_string(),
        "a STATUS INBOX (MESSAGES UNSEEN)\r\n"
    );
    assert_eq!(CommandBuilder::new("a").status("INBOX", vec![]).as_string(), "a STATUS INBOX ()\r\n");
}

#[test]
fn append_command() {
    let bare = CommandBuilder::new("a").append("INBOX");
    assert_eq!(bare.as_string(), "a APPEND INBOX\r\n");
    assert_eq!(bare.literal_bytes(), None);
    let full = CommandBuilder::new("a")
        .append("Sent Items")
        .literal(b"hello".to_vec())
        .internal_date("01-Jan-2024 00:00:00 +0000")
        .flags(vec![Flag::Seen, Flag::Keyword("$x".to_string())]);
    assert_eq!(
        full.as_string(),
        "a APPEND \"Sent Items\" (\\Seen $x) \"01-Jan-2024 00:00:00 +0000\" {5}\r\n"
    );
    assert_eq!(full.literal_bytes(), Some(&b"hello"[..]));
    let empty = CommandBuilder::new("a").append("INBOX").flags(vec![]).literal(Vec::new());
    assert_eq!(empty.as_string(), "a APPEND INBOX {0}\r\n");
}

#[test]
fn search_command() {
    assert_eq!(CommandBuilder::new("a").search().as_string(), "a SEARCH\r\n");
    assert_eq!(
        CommandBuilder::new("a")
            .search()
            .key(SearchKey::From("bob".to_string()))
            .charset("UTF-8")
            .keys(vec![SearchKey::Unseen, SearchKey::Larger(10)])
            .key(SearchKey::All)
            .as_string(),
        "a SEARCH CHARSET UTF-8 FROM bob UNSEEN LARGER 10 ALL\r\n"
    );
    assert_eq!(CommandBuilder::new("a").uid().search().key(SearchKey::All).as_string(), "a UID SEARCH ALL\r\n");
}

#[test]
fn fetch_command() {
    let set = || SequenceSet::new().add_range(SequenceBound::Number(1), SequenceBound::Number(2));
    assert_eq!(CommandBuilder::new("A0003").fetch(set()).add_item(FetchItem::Envelope).as_string(), "A0003 FETCH 1:2 (ENVELOPE)\r\n");
    assert_eq!(CommandBuilder::new("a").fetch(set()).as_string(), "a FETCH 1:2\r\n");
    assert_eq!(
        CommandBuilder::new("a")
            .fetch(set())
            .add_item(FetchItem::Uid)
            .items(vec![FetchItem::Flags, FetchItem::Rfc822Size])
            .add_item(FetchItem::BodyPeekSection("HEADER".to_string()))
            .as_string(),
        "a FETCH 1:2 (FLAGS RFC822.SIZE BODY.PEEK[HEADER])\r\n"
    );
    assert_eq!(CommandBuilder::new("a").uid().fetch(SequenceSet::all()).add_item(FetchItem::Fast).as_string(), "a UID FETCH * (FAST)\r\n");
}

#[test]
fn store_command() {
    let set = || SequenceSet::new().add_single(1);
    assert_eq!(CommandBuilder::new("a").store(set()).as_string(), "a STORE 1 FLAGS ()\r\n");
    assert_eq!(CommandBuilder::new("a").store(set()).flags(vec![Flag::Seen]).as_string(), "a STORE 1 FLAGS (\\Seen)\r\n");
    assert_eq!(CommandBuilder::new("a").store(set()).silent().flags(vec![Flag::Seen]).as_string(), "a STORE 1 FLAGS.SILENT (\\Seen)\r\n");
    assert_eq!(CommandBuilder::new("a").store(set()).add().flags(vec![Flag::Deleted]).as_string(), "a STORE 1 +FLAGS (\\Deleted)\r\n");
    assert_eq!(CommandBuilder::new("a").store(set()).silent().add().flags(vec![Flag::Deleted]).as_string(), "a STORE 1 +FLAGS.SILENT (\\Deleted)\r\n");
    assert_eq!(CommandBuilder::new("a").store(set()).remove().flags(vec![Flag::Draft, Flag::Flagged]).as_string(), "a STORE 1 -FLAGS (\\Draft \\Flagged)\r\n");
    assert_eq!(CommandBuilder::new("a").store(set()).remove().silent().as_string(), "a STORE 1 -FLAGS.SILENT ()\r\n");
    assert_eq!(CommandBuilder::new("a").store(set()).add().replace().as_string(), "a STORE 1 FLAGS ()\r\n");
    assert_eq!(CommandBuilder::new("a").uid().store(set()).add().as_string(), "a UID STORE 1 +FLAGS ()\r\n");
    assert_ne!(StoreAction::Add, StoreAction::Remove);
}

#[test]
fn copy_command() {
    let set = || SequenceSet::new().add_range(SequenceBound::Number(1), SequenceBound::Star);
    assert_eq!(CommandBuilder::new("a").copy(set(), "Trash").as_string(), "a COPY 1:* Trash\r\n");
    assert_eq!(CommandBuilder::new("a").uid().copy(set(), "My Trash").as_string(), "a UID COPY 1:* \"My Trash\"\r\n");
}

#[test]
fn login_command_needs_both_arguments_in_either_order() {
    let one = CommandBuilder::new("A0001").login().username("bob").password("secret");
    let other = CommandBuilder::new("A0001").login().password("secret").username("bob");
    assert_eq!(one.as_string(), "A0001 LOGIN bob secret\r\n");
    assert_eq!(other.as_string(), one.as_string());
}

#[test]
fn login_arguments_are_quoted_where_they_must_be() {
    let line = CommandBuilder::new("A0001").login().username("bo\"b").password("p\\w d").as_string();
    assert_eq!(line, "A0001 LOGIN \"bo\\\"b\" \"p\\\\w d\"\r\n");
    let line = CommandBuilder::new("A0001").login().username("").password("x y").as_string();
    assert_eq!(line, "A0001 LOGIN \"\" \"x y\"\r\n");
}
