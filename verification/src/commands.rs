//! Command builders: from a tag and typed arguments to a command line.
//!
//! A command line is the tag, the command's name and its arguments, single
//! spaces between them, and the line terminator. A line can only be had
//! from a value that holds every argument the command requires.

use crate::format::{astring, decimal, join, join_paren_space, paren_joined, push_decimal,
    push_joined, quote_astring, texts, WireText};
use crate::types::command::{SearchKey, SequenceRange, SequenceSet, StatusItem};
use crate::types::common::Flag;
use vstd::prelude::*;
use vstd::string::StringExecFns;

verus! {

/// A data item that a fetch command asks for.
#[derive(Debug, Clone, PartialEq, Eq)]
pub enum FetchItem {
    All,
    Fast,
    Full,
    Body,
    BodyPeek,
    BodySection(String),
    BodyPeekSection(String),
    Envelope,
    Flags,
    InternalDate,
    Rfc822,
    Rfc822Header,
    Rfc822Text,
    Rfc822Size,
    Uid,
}

impl WireText for FetchItem {
    open spec fn text(&self) -> Seq<char> {
        match self {
            FetchItem::All => "ALL"@,
            FetchItem::Fast => "FAST"@,
            FetchItem::Full => "FULL"@,
            FetchItem::Body => "BODY"@,
            FetchItem::BodyPeek => "BODY.PEEK"@,
            FetchItem::BodySection(sec) => "BODY["@ + sec@ + "]"@,
            FetchItem::BodyPeekSection(sec) => "BODY.PEEK["@ + sec@ + "]"@,
            FetchItem::Envelope => "ENVELOPE"@,
            FetchItem::Flags => "FLAGS"@,
            FetchItem::InternalDate => "INTERNALDATE"@,
            FetchItem::Rfc822 => "RFC822"@,
            FetchItem::Rfc822Header => "RFC822.HEADER"@,
            FetchItem::Rfc822Text => "RFC822.TEXT"@,
            FetchItem::Rfc822Size => "RFC822.SIZE"@,
            FetchItem::Uid => "UID"@,
        }
    }

    fn to_string(&self) -> (s: String) {
        match self {
            FetchItem::All => String::from_str("ALL"),
            FetchItem::Fast => String::from_str("FAST"),
            FetchItem::Full => String::from_str("FULL"),
            FetchItem::Body => String::from_str("BODY"),
            FetchItem::BodyPeek => String::from_str("BODY.PEEK"),
            FetchItem::BodySection(sec) => {
                let mut s = String::from_str("BODY[");
                s.append(sec.as_str());
                s.append("]");
                s
            },
            FetchItem::BodyPeekSection(sec) => {
                let mut s = String::from_str("BODY.PEEK[");
                s.append(sec.as_str());
                s.append("]");
                s
            },
            FetchItem::Envelope => String::from_str("ENVELOPE"),
            FetchItem::Flags => String::from_str("FLAGS"),
            FetchItem::InternalDate => String::from_str("INTERNALDATE"),
            FetchItem::Rfc822 => String::from_str("RFC822"),
            FetchItem::Rfc822Header => String::from_str("RFC822.HEADER"),
            FetchItem::Rfc822Text => String::from_str("RFC822.TEXT"),
            FetchItem::Rfc822Size => String::from_str("RFC822.SIZE"),
            FetchItem::Uid => String::from_str("UID"),
        }
    }
}

/// The search criteria, a space between each two.
pub fn join_search_keys(keys: &[SearchKey]) -> (s: String)
    ensures
        s@ == join(texts(keys@), " "@),
{
    let mut s = String::new();
    push_joined(&mut s, keys);
    assert(s@ =~= join(texts(keys@), " "@));
    s
}

/// The line of a command without arguments.
pub open spec fn simple_line(tag: Seq<char>, name: Seq<char>) -> Seq<char> {
    tag + " "@ + name + "\r\n"@
}

/// The line of a command with one argument, written as it is given.
pub open spec fn arg_line(tag: Seq<char>, name: Seq<char>, arg: Seq<char>) -> Seq<char> {
    tag + " "@ + name + " "@ + arg + "\r\n"@
}

/// The line of a command with two arguments, written as they are given.
pub open spec fn pair_line(tag: Seq<char>, name: Seq<char>, a: Seq<char>, b: Seq<char>) -> Seq<
    char,
> {
    tag + " "@ + name + " "@ + a + " "@ + b + "\r\n"@
}

/// The start of every command line: a tag, to which a command is chosen.
pub struct CommandBuilder {
    tag: String,
}

/// A command without arguments.
pub struct SimpleCommand {
    tag: String,
    name: &'static str,
}

/// A command with one argument that is sent as it is given.
pub struct SimpleWithArg {
    tag: String,
    name: &'static str,
    arg: String,
}

/// A command on one mailbox.
pub struct MailboxCommand {
    tag: String,
    name: &'static str,
    mailbox: String,
}

/// The command that renames a mailbox.
pub struct RenameCommand {
    tag: String,
    from: String,
    to: String,
}

/// A command that lists mailboxes.
pub struct ListCommand {
    tag: String,
    name: &'static str,
    reference: String,
    pattern: String,
}

/// The command that asks for the status of a mailbox.
pub struct StatusCommand {
    tag: String,
    mailbox: String,
    items: Vec<StatusItem>,
}

/// The command that copies messages to a mailbox.
pub struct CopyCommand {
    tag: String,
    uid: bool,
    set: SequenceSet,
    mailbox: String,
}

/// A tag for which the commands that work on unique identifiers are chosen.
pub struct UidScope {
    tag: String,
}

impl SimpleCommand {
    /// The command line.
    pub closed spec fn line(&self) -> Seq<char> {
        simple_line(self.tag@, self.name@)
    }

    fn new(tag: String, name: &'static str) -> (c: Self)
        ensures
            c.line() == simple_line(tag@, name@),
    {
        Self { tag, name }
    }

    /// The command line: tag, name, terminator.
    pub fn as_string(&self) -> (s: String)
        ensures
            s@ == self.line(),
    {
        let mut s = self.tag.clone();
        s.append(" ");
        s.append(self.name);
        s.append("\r\n");
        s
    }
}

impl SimpleWithArg {
    /// The command line.
    pub closed spec fn line(&self) -> Seq<char> {
        arg_line(self.tag@, self.name@, self.arg@)
    }

    fn new(tag: String, name: &'static str, arg: &str) -> (c: Self)
        ensures
            c.line() == arg_line(tag@, name@, arg@),
    {
        Self { tag, name, arg: String::from_str(arg) }
    }

    /// The command line: tag, name, the argument as it was given.
    pub fn as_string(&self) -> (s: String)
        ensures
            s@ == self.line(),
    {
        let mut s = self.tag.clone();
        s.append(" ");
        s.append(self.name);
        s.append(" ");
        s.append(self.arg.as_str());
        s.append("\r\n");
        s
    }
}

impl MailboxCommand {
    /// The command line.
    pub closed spec fn line(&self) -> Seq<char> {
        arg_line(self.tag@, self.name@, astring(self.mailbox@))
    }

    fn new(tag: String, name: &'static str, mailbox: &str) -> (c: Self)
        ensures
            c.line() == arg_line(tag@, name@, astring(mailbox@)),
    {
        Self { tag, name, mailbox: String::from_str(mailbox) }
    }

    /// The command line: tag, name, the mailbox as a string argument.
    pub fn as_string(&self) -> (s: String)
        ensures
            s@ == self.line(),
    {
        let mut s = self.tag.clone();
        s.append(" ");
        s.append(self.name);
        s.append(" ");
        let m = quote_astring(self.mailbox.as_str());
        s.append(m.as_str());
        s.append("\r\n");
        s
    }
}

impl RenameCommand {
    /// The command line.
    pub closed spec fn line(&self) -> Seq<char> {
        pair_line(self.tag@, "RENAME"@, astring(self.from@), astring(self.to@))
    }

    fn new(tag: String, from: &str, to: &str) -> (c: Self)
        ensures
            c.line() == pair_line(tag@, "RENAME"@, astring(from@), astring(to@)),
    {
        Self { tag, from: String::from_str(from), to: String::from_str(to) }
    }

    /// The command line: tag, `RENAME`, both names as string arguments.
    pub fn as_string(&self) -> (s: String)
        ensures
            s@ == self.line(),
    {
        let mut s = self.tag.clone();
        s.append(" ");
        s.append("RENAME");
        s.append(" ");
        let a = quote_astring(self.from.as_str());
        s.append(a.as_str());
        s.append(" ");
        let b = quote_astring(self.to.as_str());
        s.append(b.as_str());
        s.append("\r\n");
        s
    }
}

impl ListCommand {
    /// The command line.
    pub closed spec fn line(&self) -> Seq<char> {
        pair_line(self.tag@, self.name@, astring(self.reference@), astring(self.pattern@))
    }

    fn new(tag: String, name: &'static str, reference: &str, pattern: &str) -> (c: Self)
        ensures
            c.line() == pair_line(tag@, name@, astring(reference@), astring(pattern@)),
    {
        Self {
            tag,
            name,
            reference: String::from_str(reference),
            pattern: String::from_str(pattern),
        }
    }

    /// The command line: tag, name, reference and pattern as string
    /// arguments.
    pub fn as_string(&self) -> (s: String)
        ensures
            s@ == self.line(),
    {
        let mut s = self.tag.clone();
        s.append(" ");
        s.append(self.name);
        s.append(" ");
        let a = quote_astring(self.reference.as_str());
        s.append(a.as_str());
        s.append(" ");
        let b = quote_astring(self.pattern.as_str());
        s.append(b.as_str());
        s.append("\r\n");
        s
    }
}

impl StatusCommand {
    /// The command line.
    pub closed spec fn line(&self) -> Seq<char> {
        pair_line(
            self.tag@,
            "STATUS"@,
            astring(self.mailbox@),
            paren_joined(texts(self.items@)),
        )
    }

    fn new(tag: String, mailbox: &str, items: Vec<StatusItem>) -> (c: Self)
        ensures
            c.line() == pair_line(
                tag@,
                "STATUS"@,
                astring(mailbox@),
                paren_joined(texts(items@)),
            ),
    {
        Self { tag, mailbox: String::from_str(mailbox), items }
    }

    /// The command line: tag, `STATUS`, the mailbox as a string argument,
    /// the items in parentheses.
    pub fn as_string(&self) -> (s: String)
        ensures
            s@ == self.line(),
    {
        let mut s = self.tag.clone();
        s.append(" ");
        s.append("STATUS");
        s.append(" ");
        let a = quote_astring(self.mailbox.as_str());
        s.append(a.as_str());
        s.append(" ");
        let b = join_paren_space(self.items.as_slice());
        s.append(b.as_str());
        s.append("\r\n");
        s
    }
}

/// The name of a command, with `UID` before it where it works on unique
/// identifiers.
pub open spec fn scoped(uid: bool, name: Seq<char>) -> Seq<char> {
    if uid {
        "UID "@ + name
    } else {
        name
    }
}

fn push_scoped(out: &mut String, uid: bool, name: &str)
    ensures
        final(out)@ == old(out)@ + scoped(uid, name@),
{
    if uid {
        out.append("UID ");
        out.append(name);
        assert(out@ =~= old(out)@ + scoped(uid, name@));
    } else {
        out.append(name);
    }
}

/// The wire text of a sequence set.
pub open spec fn set_text(set: Seq<SequenceRange>) -> Seq<char> {
    join(texts(set), ","@)
}

impl CopyCommand {
    /// The command line.
    pub closed spec fn line(&self) -> Seq<char> {
        pair_line(
            self.tag@,
            scoped(self.uid, "COPY"@),
            set_text(self.set@),
            astring(self.mailbox@),
        )
    }

    fn new(tag: String, uid: bool, set: SequenceSet, mailbox: &str) -> (c: Self)
        ensures
            c.line() == pair_line(
                tag@,
                scoped(uid, "COPY"@),
                set_text(set@),
                astring(mailbox@),
            ),
    {
        Self { tag, uid, set, mailbox: String::from_str(mailbox) }
    }

    /// The command line: tag, `COPY` or `UID COPY`, the sequence set, the
    /// mailbox as a string argument.
    pub fn as_string(&self) -> (s: String)
        ensures
            s@ == self.line(),
    {
        let mut s = self.tag.clone();
        s.append(" ");
        push_scoped(&mut s, self.uid, "COPY");
        s.append(" ");
        let a = self.set.to_string();
        s.append(a.as_str());
        s.append(" ");
        let b = quote_astring(self.mailbox.as_str());
        s.append(b.as_str());
        s.append("\r\n");
        s
    }
}


/// The command that appends a message to a mailbox, while it is made up.
pub struct AppendCommandBuilder {
    tag: String,
    mailbox: String,
    flags: Vec<Flag>,
    internal_date: Option<String>,
    literal: Option<Vec<u8>>,
}

/// The mathematical value of an [`AppendCommandBuilder`].
pub struct AppendView {
    pub tag: Seq<char>,
    pub mailbox: Seq<char>,
    pub flags: Seq<Flag>,
    pub internal_date: Option<Seq<char>>,
    pub literal: Option<Seq<u8>>,
}

impl View for AppendCommandBuilder {
    type V = AppendView;

    closed spec fn view(&self) -> AppendView {
        AppendView {
            tag: self.tag@,
            mailbox: self.mailbox@,
            flags: self.flags@,
            internal_date: match self.internal_date {
                Some(d) => Some(d@),
                None => None,
            },
            literal: match self.literal {
                Some(l) => Some(l@),
                None => None,
            },
        }
    }
}

/// The line of an append command: tag, `APPEND`, the mailbox as a string
/// argument; the flags in parentheses, if there are any; the date as a
/// string argument, if one is set; and the length of the literal in
/// braces, if one is set. The literal itself follows on the server's
/// request and is no part of the line.
pub open spec fn append_line(v: AppendView) -> Seq<char> {
    v.tag + " APPEND "@ + astring(v.mailbox) + (if v.flags.len() > 0 {
        " "@ + paren_joined(texts(v.flags))
    } else {
        Seq::empty()
    }) + (match v.internal_date {
        Some(d) => " "@ + astring(d),
        None => Seq::empty(),
    }) + (match v.literal {
        Some(l) => " {"@ + decimal(l.len()) + "}\r\n"@,
        None => "\r\n"@,
    })
}

impl AppendCommandBuilder {
    fn new(tag: String, mailbox: &str) -> (b: Self)
        ensures
            b@ == (AppendView {
                tag: tag@,
                mailbox: mailbox@,
                flags: Seq::empty(),
                internal_date: None,
                literal: None,
            }),
    {
        Self {
            tag,
            mailbox: String::from_str(mailbox),
            flags: Vec::new(),
            internal_date: None,
            literal: None,
        }
    }

    /// Sets the flags of the message.
    pub fn flags(self, flags: Vec<Flag>) -> (b: Self)
        ensures
            b@ == (AppendView { flags: flags@, ..self@ }),
    {
        Self {
            tag: self.tag,
            mailbox: self.mailbox,
            flags,
            internal_date: self.internal_date,
            literal: self.literal,
        }
    }

    /// Sets the date of the message.
    pub fn internal_date(self, rfc822_date_time: &str) -> (b: Self)
        ensures
            b@ == (AppendView { internal_date: Some(rfc822_date_time@), ..self@ }),
    {
        Self {
            tag: self.tag,
            mailbox: self.mailbox,
            flags: self.flags,
            internal_date: Some(String::from_str(rfc822_date_time)),
            literal: self.literal,
        }
    }

    /// Sets the message itself.
    pub fn literal(self, bytes: Vec<u8>) -> (b: Self)
        ensures
            b@ == (AppendView { literal: Some(bytes@), ..self@ }),
    {
        Self {
            tag: self.tag,
            mailbox: self.mailbox,
            flags: self.flags,
            internal_date: self.internal_date,
            literal: Some(bytes),
        }
    }

    /// The command line.
    pub fn as_string(&self) -> (s: String)
        ensures
            s@ == append_line(self@),
    {
        let mut s = self.tag.clone();
        s.append(" APPEND ");
        let m = quote_astring(self.mailbox.as_str());
        s.append(m.as_str());
        let ghost head = s@;
        if self.flags.len() > 0 {
            s.append(" ");
            let f = join_paren_space(self.flags.as_slice());
            s.append(f.as_str());
            assert(s@ =~= head + (" "@ + paren_joined(texts(self.flags@))));
        } else {
            assert(s@ =~= head + Seq::<char>::empty());
        }
        let ghost flagged = s@;
        match &self.internal_date {
            Some(date) => {
                s.append(" ");
                let d = quote_astring(date.as_str());
                s.append(d.as_str());
                assert(s@ =~= flagged + (" "@ + astring(date@)));
            },
            None => {
                assert(s@ =~= flagged + Seq::<char>::empty());
            },
        }
        let ghost dated = s@;
        match &self.literal {
            Some(l) => {
                s.append(" {");
                push_decimal(&mut s, l.len() as u64);
                s.append("}\r\n");
                assert(s@ =~= dated + (" {"@ + decimal(l@.len()) + "}\r\n"@));
            },
            None => {
                s.append("\r\n");
            },
        }
        s
    }

    /// The message that follows the command line, if one is set.
    pub fn literal_bytes(&self) -> (r: Option<&[u8]>)
        ensures
            match r {
                Some(b) => self@.literal == Some(b@),
                None => self@.literal is None,
            },
    {
        match &self.literal {
            Some(l) => Some(l.as_slice()),
            None => None,
        }
    }
}

/// The search command, while it is made up.
pub struct SearchCommandBuilder {
    tag: String,
    charset: Option<String>,
    keys: Vec<SearchKey>,
    uid: bool,
}

/// The mathematical value of a [`SearchCommandBuilder`].
pub struct SearchView {
    pub tag: Seq<char>,
    pub charset: Option<Seq<char>>,
    pub keys: Seq<SearchKey>,
    pub uid: bool,
}

impl View for SearchCommandBuilder {
    type V = SearchView;

    closed spec fn view(&self) -> SearchView {
        SearchView {
            tag: self.tag@,
            charset: match self.charset {
                Some(c) => Some(c@),
                None => None,
            },
            keys: self.keys@,
            uid: self.uid,
        }
    }
}

/// The line of a search command: tag, `SEARCH` or `UID SEARCH`; the
/// character set behind `CHARSET`, if one is set; and the criteria, if
/// there are any.
pub open spec fn search_line(v: SearchView) -> Seq<char> {
    v.tag + " "@ + scoped(v.uid, "SEARCH"@) + (match v.charset {
        Some(c) => " CHARSET "@ + c,
        None => Seq::empty(),
    }) + (if v.keys.len() > 0 {
        " "@ + join(texts(v.keys), " "@)
    } else {
        Seq::empty()
    }) + "\r\n"@
}

impl SearchCommandBuilder {
    fn new(tag: String, charset: Option<String>) -> (b: Self)
        ensures
            b@ == (SearchView {
                tag: tag@,
                charset: match charset {
                    Some(c) => Some(c@),
                    None => None,
                },
                keys: Seq::empty(),
                uid: false,
            }),
    {
        Self { tag, charset, keys: Vec::new(), uid: false }
    }

    /// Sets the character set of the criteria.
    pub fn charset(self, charset: &str) -> (b: Self)
        ensures
            b@ == (SearchView { charset: Some(charset@), ..self@ }),
    {
        Self {
            tag: self.tag,
            charset: Some(String::from_str(charset)),
            keys: self.keys,
            uid: self.uid,
        }
    }

    /// Adds one criterion behind those that are there.
    pub fn key(self, key: SearchKey) -> (b: Self)
        ensures
            b@ == (SearchView { keys: self@.keys.push(key), ..self@ }),
    {
        let mut keys = self.keys;
        keys.push(key);
        Self { tag: self.tag, charset: self.charset, keys, uid: self.uid }
    }

    /// Adds criteria behind those that are there, in their order.
    pub fn keys(self, keys: Vec<SearchKey>) -> (b: Self)
        ensures
            b@ == (SearchView { keys: self@.keys + keys@, ..self@ }),
    {
        let mut all = self.keys;
        let mut more = keys;
        all.append(&mut more);
        Self { tag: self.tag, charset: self.charset, keys: all, uid: self.uid }
    }

    /// The command line.
    pub fn as_string(&self) -> (s: String)
        ensures
            s@ == search_line(self@),
    {
        let mut s = self.tag.clone();
        s.append(" ");
        push_scoped(&mut s, self.uid, "SEARCH");
        let ghost head = s@;
        match &self.charset {
            Some(cs) => {
                s.append(" CHARSET ");
                s.append(cs.as_str());
                assert(s@ =~= head + (" CHARSET "@ + cs@));
            },
            None => {
                assert(s@ =~= head + Seq::<char>::empty());
            },
        }
        let ghost with_charset = s@;
        if self.keys.len() > 0 {
            s.append(" ");
            let k = join_search_keys(self.keys.as_slice());
            s.append(k.as_str());
            assert(s@ =~= with_charset + (" "@ + join(texts(self.keys@), " "@)));
        } else {
            assert(s@ =~= with_charset + Seq::<char>::empty());
        }
        s.append("\r\n");
        s
    }
}

/// The fetch command, while it is made up.
pub struct FetchCommandBuilder {
    tag: String,
    uid: bool,
    set: SequenceSet,
    items: Vec<FetchItem>,
}

/// The mathematical value of a [`FetchCommandBuilder`].
pub struct FetchView {
    pub tag: Seq<char>,
    pub uid: bool,
    pub set: Seq<SequenceRange>,
    pub items: Seq<FetchItem>,
}

impl View for FetchCommandBuilder {
    type V = FetchView;

    closed spec fn view(&self) -> FetchView {
        FetchView { tag: self.tag@, uid: self.uid, set: self.set@, items: self.items@ }
    }
}

/// The line of a fetch command: tag, `FETCH` or `UID FETCH`, the sequence
/// set, and the data items in parentheses, if there are any.
pub open spec fn fetch_line(v: FetchView) -> Seq<char> {
    v.tag + " "@ + scoped(v.uid, "FETCH"@) + " "@ + set_text(v.set) + (if v.items.len() > 0 {
        " "@ + paren_joined(texts(v.items))
    } else {
        Seq::empty()
    }) + "\r\n"@
}

impl FetchCommandBuilder {
    fn new(tag: String, uid: bool, set: SequenceSet) -> (b: Self)
        ensures
            b@ == (FetchView { tag: tag@, uid, set: set@, items: Seq::empty() }),
    {
        Self { tag, uid, set, items: Vec::new() }
    }

    /// Sets the data items, in place of those that are there.
    pub fn items(self, items: Vec<FetchItem>) -> (b: Self)
        ensures
            b@ == (FetchView { items: items@, ..self@ }),
    {
        Self { tag: self.tag, uid: self.uid, set: self.set, items }
    }

    /// Adds one data item behind those that are there.
    pub fn add_item(self, item: FetchItem) -> (b: Self)
        ensures
            b@ == (FetchView { items: self@.items.push(item), ..self@ }),
    {
        let mut items = self.items;
        items.push(item);
        Self { tag: self.tag, uid: self.uid, set: self.set, items }
    }

    /// The command line.
    pub fn as_string(&self) -> (s: String)
        ensures
            s@ == fetch_line(self@),
    {
        let mut s = self.tag.clone();
        s.append(" ");
        push_scoped(&mut s, self.uid, "FETCH");
        s.append(" ");
        let t = self.set.to_string();
        s.append(t.as_str());
        let ghost head = s@;
        if self.items.len() > 0 {
            s.append(" ");
            let i = join_paren_space(self.items.as_slice());
            s.append(i.as_str());
            assert(s@ =~= head + (" "@ + paren_joined(texts(self.items@))));
        } else {
            assert(s@ =~= head + Seq::<char>::empty());
        }
        s.append("\r\n");
        s
    }
}

/// What a store command does with the flags it names.
#[derive(Debug, Clone, Copy, PartialEq, Eq, Structural)]
pub enum StoreAction {
    Replace,
    Add,
    Remove,
}

/// The store command, while it is made up.
pub struct StoreCommandBuilder {
    tag: String,
    uid: bool,
    set: SequenceSet,
    action: StoreAction,
    silent: bool,
    flags: Vec<Flag>,
}

/// The mathematical value of a [`StoreCommandBuilder`].
pub struct StoreCommandView {
    pub tag: Seq<char>,
    pub uid: bool,
    pub set: Seq<SequenceRange>,
    pub action: StoreAction,
    pub silent: bool,
    pub flags: Seq<Flag>,
}

impl View for StoreCommandBuilder {
    type V = StoreCommandView;

    closed spec fn view(&self) -> StoreCommandView {
        StoreCommandView {
            tag: self.tag@,
            uid: self.uid,
            set: self.set@,
            action: self.action,
            silent: self.silent,
            flags: self.flags@,
        }
    }
}

/// The data item of a store command: `FLAGS`, with `+` or `-` before it
/// where flags are added or removed, and `.SILENT` behind it where no
/// answer is wanted; then a space.
pub open spec fn store_item(action: StoreAction, silent: bool) -> Seq<char> {
    match (action, silent) {
        (StoreAction::Replace, false) => "FLAGS "@,
        (StoreAction::Replace, true) => "FLAGS.SILENT "@,
        (StoreAction::Add, false) => "+FLAGS "@,
        (StoreAction::Add, true) => "+FLAGS.SILENT "@,
        (StoreAction::Remove, false) => "-FLAGS "@,
        (StoreAction::Remove, true) => "-FLAGS.SILENT "@,
    }
}

/// The line of a store command: tag, `STORE` or `UID STORE`, the sequence
/// set, the data item, and the flags in parentheses.
pub open spec fn store_line(v: StoreCommandView) -> Seq<char> {
    v.tag + " "@ + scoped(v.uid, "STORE"@) + " "@ + set_text(v.set) + " "@ + store_item(
        v.action,
        v.silent,
    ) + paren_joined(texts(v.flags)) + "\r\n"@
}

impl StoreCommandBuilder {
    fn new(tag: String, uid: bool, set: SequenceSet) -> (b: Self)
        ensures
            b@ == (StoreCommandView {
                tag: tag@,
                uid,
                set: set@,
                action: StoreAction::Replace,
                silent: false,
                flags: Seq::empty(),
            }),
    {
        Self { tag, uid, set, action: StoreAction::Replace, silent: false, flags: Vec::new() }
    }

    fn with_action(self, action: StoreAction) -> (b: Self)
        ensures
            b@ == (StoreCommandView { action, ..self@ }),
    {
        Self {
            tag: self.tag,
            uid: self.uid,
            set: self.set,
            action,
            silent: self.silent,
            flags: self.flags,
        }
    }

    /// The flags named replace those of the messages.
    pub fn replace(self) -> (b: Self)
        ensures
            b@ == (StoreCommandView { action: StoreAction::Replace, ..self@ }),
    {
        self.with_action(StoreAction::Replace)
    }

    /// The flags named are added to those of the messages.
    pub fn add(self) -> (b: Self)
        ensures
            b@ == (StoreCommandView { action: StoreAction::Add, ..self@ }),
    {
        self.with_action(StoreAction::Add)
    }

    /// The flags named are removed from those of the messages.
    pub fn remove(self) -> (b: Self)
        ensures
            b@ == (StoreCommandView { action: StoreAction::Remove, ..self@ }),
    {
        self.with_action(StoreAction::Remove)
    }

    /// No answer is wanted for the messages changed.
    pub fn silent(self) -> (b: Self)
        ensures
            b@ == (StoreCommandView { silent: true, ..self@ }),
    {
        Self {
            tag: self.tag,
            uid: self.uid,
            set: self.set,
            action: self.action,
            silent: true,
            flags: self.flags,
        }
    }

    /// Sets the flags that the command names.
    pub fn flags(self, flags: Vec<Flag>) -> (b: Self)
        ensures
            b@ == (StoreCommandView { flags: flags@, ..self@ }),
    {
        Self {
            tag: self.tag,
            uid: self.uid,
            set: self.set,
            action: self.action,
            silent: self.silent,
            flags,
        }
    }

    /// The command line.
    pub fn as_string(&self) -> (s: String)
        ensures
            s@ == store_line(self@),
    {
        let mut s = self.tag.clone();
        s.append(" ");
        push_scoped(&mut s, self.uid, "STORE");
        s.append(" ");
        let t = self.set.to_string();
        s.append(t.as_str());
        s.append(" ");
        match (self.action, self.silent) {
            (StoreAction::Replace, false) => s.append("FLAGS "),
            (StoreAction::Replace, true) => s.append("FLAGS.SILENT "),
            (StoreAction::Add, false) => s.append("+FLAGS "),
            (StoreAction::Add, true) => s.append("+FLAGS.SILENT "),
            (StoreAction::Remove, false) => s.append("-FLAGS "),
            (StoreAction::Remove, true) => s.append("-FLAGS.SILENT "),
        }
        let f = join_paren_space(self.flags.as_slice());
        s.append(f.as_str());
        s.append("\r\n");
        s
    }
}

/// The place of a user name that is still missing.
pub struct NoUsername;

/// A user name.
pub struct HasUsername(String);

/// The place of a password that is still missing.
pub struct NoPassword;

/// A password.
pub struct HasPassword(String);

impl HasUsername {
    /// The name.
    pub closed spec fn name(&self) -> Seq<char> {
        self.0@
    }
}

impl HasPassword {
    /// The password.
    pub closed spec fn secret(&self) -> Seq<char> {
        self.0@
    }
}

/// The login command, while it is made up. The two parameters say which of
/// user name and password it holds; only with both does it have a line.
pub struct LoginCommandBuilder<U = NoUsername, P = NoPassword> {
    tag: String,
    username: U,
    password: P,
}

/// The line of a login command: tag, `LOGIN`, user name and password as
/// string arguments.
pub open spec fn login_line(tag: Seq<char>, user: Seq<char>, pass: Seq<char>) -> Seq<char> {
    pair_line(tag, "LOGIN"@, astring(user), astring(pass))
}

impl<U, P> LoginCommandBuilder<U, P> {
    /// The tag of the command.
    pub closed spec fn tag(&self) -> Seq<char> {
        self.tag@
    }

    /// What the builder holds in the place of the user name.
    pub closed spec fn user(&self) -> U {
        self.username
    }

    /// What the builder holds in the place of the password.
    pub closed spec fn pass(&self) -> P {
        self.password
    }
}

impl LoginCommandBuilder<NoUsername, NoPassword> {
    fn new(tag: &str) -> (b: Self)
        ensures
            b.tag() == tag@,
    {
        Self { tag: String::from_str(tag), username: NoUsername, password: NoPassword }
    }
}

impl<P> LoginCommandBuilder<NoUsername, P> {
    /// Supplies the user name.
    pub fn username(self, username: &str) -> (b: LoginCommandBuilder<HasUsername, P>)
        ensures
            b.tag() == self.tag(),
            b.user().name() == username@,
            b.pass() == self.pass(),
    {
        LoginCommandBuilder {
            tag: self.tag,
            username: HasUsername(String::from_str(username)),
            password: self.password,
        }
    }
}

impl<U> LoginCommandBuilder<U, NoPassword> {
    /// Supplies the password.
    pub fn password(self, password: &str) -> (b: LoginCommandBuilder<U, HasPassword>)
        ensures
            b.tag() == self.tag(),
            b.user() == self.user(),
            b.pass().secret() == password@,
    {
        LoginCommandBuilder {
            tag: self.tag,
            username: self.username,
            password: HasPassword(String::from_str(password)),
        }
    }
}

impl LoginCommandBuilder<HasUsername, HasPassword> {
    /// The command line. Only a builder that holds both the user name and
    /// the password has one.
    pub fn as_string(&self) -> (s: String)
        ensures
            s@ == login_line(self.tag(), self.user().name(), self.pass().secret()),
    {
        let mut s = self.tag.clone();
        s.append(" ");
        s.append("LOGIN");
        s.append(" ");
        let u = quote_astring(self.username.0.as_str());
        s.append(u.as_str());
        s.append(" ");
        let p = quote_astring(self.password.0.as_str());
        s.append(p.as_str());
        s.append("\r\n");
        s
    }
}

impl CommandBuilder {
    /// The tag that the command will carry.
    pub closed spec fn tag(&self) -> Seq<char> {
        self.tag@
    }

    /// Starts a command with the given tag.
    pub fn new(tag: &str) -> (b: Self)
        ensures
            b.tag() == tag@,
    {
        Self { tag: String::from_str(tag) }
    }

    /// `CAPABILITY`.
    pub fn capability(self) -> (c: SimpleCommand)
        ensures
            c.line() == simple_line(self.tag(), "CAPABILITY"@),
    {
        SimpleCommand::new(self.tag, "CAPABILITY")
    }

    /// `NOOP`.
    pub fn noop(self) -> (c: SimpleCommand)
        ensures
            c.line() == simple_line(self.tag(), "NOOP"@),
    {
        SimpleCommand::new(self.tag, "NOOP")
    }

    /// `LOGOUT`.
    pub fn logout(self) -> (c: SimpleCommand)
        ensures
            c.line() == simple_line(self.tag(), "LOGOUT"@),
    {
        SimpleCommand::new(self.tag, "LOGOUT")
    }

    /// `STARTTLS`.
    pub fn starttls(self) -> (c: SimpleCommand)
        ensures
            c.line() == simple_line(self.tag(), "STARTTLS"@),
    {
        SimpleCommand::new(self.tag, "STARTTLS")
    }

    /// `AUTHENTICATE` with the name of a mechanism.
    pub fn authenticate(self, mechanism: &str) -> (c: SimpleWithArg)
        ensures
            c.line() == arg_line(self.tag(), "AUTHENTICATE"@, mechanism@),
    {
        SimpleWithArg::new(self.tag, "AUTHENTICATE", mechanism)
    }

    /// `LOGIN`, still without user name and password.
    pub fn login(self) -> (b: LoginCommandBuilder<NoUsername, NoPassword>)
        ensures
            b.tag() == self.tag(),
    {
        LoginCommandBuilder::new(self.tag.as_str())
    }

    /// `SELECT` of a mailbox.
    pub fn select(self, mailbox: &str) -> (c: MailboxCommand)
        ensures
            c.line() == arg_line(self.tag(), "SELECT"@, astring(mailbox@)),
    {
        MailboxCommand::new(self.tag, "SELECT", mailbox)
    }

    /// `EXAMINE` of a mailbox.
    pub fn examine(self, mailbox: &str) -> (c: MailboxCommand)
        ensures
            c.line() == arg_line(self.tag(), "EXAMINE"@, astring(mailbox@)),
    {
        MailboxCommand::new(self.tag, "EXAMINE", mailbox)
    }

    /// `CREATE` of a mailbox.
    pub fn create(self, mailbox: &str) -> (c: MailboxCommand)
        ensures
            c.line() == arg_line(self.tag(), "CREATE"@, astring(mailbox@)),
    {
        MailboxCommand::new(self.tag, "CREATE", mailbox)
    }

    /// `DELETE` of a mailbox.
    pub fn delete(self, mailbox: &str) -> (c: MailboxCommand)
        ensures
            c.line() == arg_line(self.tag(), "DELETE"@, astring(mailbox@)),
    {
        MailboxCommand::new(self.tag, "DELETE", mailbox)
    }

    /// `RENAME` of a mailbox.
    pub fn rename(self, from: &str, to: &str) -> (c: RenameCommand)
        ensures
            c.line() == pair_line(self.tag(), "RENAME"@, astring(from@), astring(to@)),
    {
        RenameCommand::new(self.tag, from, to)
    }

    /// `SUBSCRIBE` to a mailbox.
    pub fn subscribe(self, mailbox: &str) -> (c: MailboxCommand)
        ensures
            c.line() == arg_line(self.tag(), "SUBSCRIBE"@, astring(mailbox@)),
    {
        MailboxCommand::new(self.tag, "SUBSCRIBE", mailbox)
    }

    /// `UNSUBSCRIBE` from a mailbox.
    pub fn unsubscribe(self, mailbox: &str) -> (c: MailboxCommand)
        ensures
            c.line() == arg_line(self.tag(), "UNSUBSCRIBE"@, astring(mailbox@)),
    {
        MailboxCommand::new(self.tag, "UNSUBSCRIBE", mailbox)
    }

    /// `LIST` of the mailboxes that match a pattern.
    pub fn list(self, reference: &str, pattern: &str) -> (c: ListCommand)
        ensures
            c.line() == pair_line(self.tag(), "LIST"@, astring(reference@), astring(pattern@)),
    {
        ListCommand::new(self.tag, "LIST", reference, pattern)
    }

    /// `LSUB` of the subscribed mailboxes that match a pattern.
    pub fn lsub(self, reference: &str, pattern: &str) -> (c: ListCommand)
        ensures
            c.line() == pair_line(self.tag(), "LSUB"@, astring(reference@), astring(pattern@)),
    {
        ListCommand::new(self.tag, "LSUB", reference, pattern)
    }

    /// `STATUS` of a mailbox, for the items named.
    pub fn status(self, mailbox: &str, items: Vec<StatusItem>) -> (c: StatusCommand)
        ensures
            c.line() == pair_line(
                self.tag(),
                "STATUS"@,
                astring(mailbox@),
                paren_joined(texts(items@)),
            ),
    {
        StatusCommand::new(self.tag, mailbox, items)
    }

    /// `APPEND` to a mailbox, still without flags, date and message.
    pub fn append(self, mailbox: &str) -> (b: AppendCommandBuilder)
        ensures
            b@ == (AppendView {
                tag: self.tag(),
                mailbox: mailbox@,
                flags: Seq::empty(),
                internal_date: None,
                literal: None,
            }),
    {
        AppendCommandBuilder::new(self.tag, mailbox)
    }

    /// `CHECK`.
    pub fn check(self) -> (c: SimpleCommand)
        ensures
            c.line() == simple_line(self.tag(), "CHECK"@),
    {
        SimpleCommand::new(self.tag, "CHECK")
    }

    /// `CLOSE`.
    pub fn close(self) -> (c: SimpleCommand)
        ensures
            c.line() == simple_line(self.tag(), "CLOSE"@),
    {
        SimpleCommand::new(self.tag, "CLOSE")
    }

    /// `EXPUNGE`.
    pub fn expunge(self) -> (c: SimpleCommand)
        ensures
            c.line() == simple_line(self.tag(), "EXPUNGE"@),
    {
        SimpleCommand::new(self.tag, "EXPUNGE")
    }

    /// `SEARCH`, still without criteria.
    pub fn search(self) -> (b: SearchCommandBuilder)
        ensures
            b@ == (SearchView { tag: self.tag(), charset: None, keys: Seq::empty(), uid: false }),
    {
        SearchCommandBuilder::new(self.tag, None)
    }

    /// `FETCH` from the messages of a sequence set, still without items.
    pub fn fetch(self, set: SequenceSet) -> (b: FetchCommandBuilder)
        ensures
            b@ == (FetchView { tag: self.tag(), uid: false, set: set@, items: Seq::empty() }),
    {
        FetchCommandBuilder::new(self.tag, false, set)
    }

    /// `STORE` on the messages of a sequence set, still without flags.
    pub fn store(self, set: SequenceSet) -> (b: StoreCommandBuilder)
        ensures
            b@ == (StoreCommandView {
                tag: self.tag(),
                uid: false,
                set: set@,
                action: StoreAction::Replace,
                silent: false,
                flags: Seq::empty(),
            }),
    {
        StoreCommandBuilder::new(self.tag, false, set)
    }

    /// `COPY` of the messages of a sequence set to a mailbox.
    pub fn copy(self, set: SequenceSet, mailbox: &str) -> (c: CopyCommand)
        ensures
            c.line() == pair_line(self.tag(), "COPY"@, set_text(set@), astring(mailbox@)),
    {
        CopyCommand::new(self.tag, false, set, mailbox)
    }

    /// The commands that work on unique identifiers.
    pub fn uid(self) -> (u: UidScope)
        ensures
            u.tag() == self.tag(),
    {
        UidScope { tag: self.tag }
    }
}

impl UidScope {
    /// The tag that the command will carry.
    pub closed spec fn tag(&self) -> Seq<char> {
        self.tag@
    }

    /// `UID SEARCH`, still without criteria.
    pub fn search(self) -> (b: SearchCommandBuilder)
        ensures
            b@ == (SearchView { tag: self.tag(), charset: None, keys: Seq::empty(), uid: true }),
    {
        let b = SearchCommandBuilder::new(self.tag, None);
        SearchCommandBuilder { tag: b.tag, charset: b.charset, keys: b.keys, uid: true }
    }

    /// `UID FETCH` from the messages of a set, still without items.
    pub fn fetch(self, set: SequenceSet) -> (b: FetchCommandBuilder)
        ensures
            b@ == (FetchView { tag: self.tag(), uid: true, set: set@, items: Seq::empty() }),
    {
        FetchCommandBuilder::new(self.tag, true, set)
    }

    /// `UID STORE` on the messages of a set, still without flags.
    pub fn store(self, set: SequenceSet) -> (b: StoreCommandBuilder)
        ensures
            b@ == (StoreCommandView {
                tag: self.tag(),
                uid: true,
                set: set@,
                action: StoreAction::Replace,
                silent: false,
                flags: Seq::empty(),
            }),
    {
        StoreCommandBuilder::new(self.tag, true, set)
    }

    /// `UID COPY` of the messages of a set to a mailbox.
    pub fn copy(self, set: SequenceSet, mailbox: &str) -> (c: CopyCommand)
        ensures
            c.line() == pair_line(self.tag(), "UID COPY"@, set_text(set@), astring(mailbox@)),
    {
        let c = CopyCommand::new(self.tag, true, set, mailbox);
        proof {
            reveal_strlit("UID COPY");
            reveal_strlit("UID ");
            reveal_strlit("COPY");
            assert("UID COPY"@ =~= "UID "@ + "COPY"@);
        }
        c
    }
}

} // verus!
