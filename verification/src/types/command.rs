//! The arguments of commands, and how each is written on the wire.

use crate::format::{astring, decimal, join, push_decimal, quote_astring, texts, WireText};
use vstd::prelude::*;
use vstd::string::StringExecFns;

verus! {

/// One end of a sequence range: a message number, or `*` for the last
/// message.
#[derive(Debug, Clone, Copy, PartialEq, Eq)]
pub enum SequenceBound {
    Number(u32),
    Star,
}

impl WireText for SequenceBound {
    open spec fn text(&self) -> Seq<char> {
        match self {
            SequenceBound::Number(n) => decimal(*n as nat),
            SequenceBound::Star => "*"@,
        }
    }

    fn to_string(&self) -> (s: String) {
        match self {
            SequenceBound::Number(n) => {
                let mut s = String::new();
                push_decimal(&mut s, *n as u64);
                assert(s@ =~= decimal(*n as nat));
                s
            },
            SequenceBound::Star => String::from_str("*"),
        }
    }
}

/// One part of a sequence set: a single position, or a range.
#[derive(Debug, Clone, Copy, PartialEq, Eq)]
pub enum SequenceRange {
    Single(SequenceBound),
    Range(SequenceBound, SequenceBound),
}

impl WireText for SequenceRange {
    open spec fn text(&self) -> Seq<char> {
        match self {
            SequenceRange::Single(b) => b.text(),
            SequenceRange::Range(s, e) => s.text() + ":"@ + e.text(),
        }
    }

    fn to_string(&self) -> (s: String) {
        match self {
            SequenceRange::Single(b) => b.to_string(),
            SequenceRange::Range(s, e) => {
                let mut out = s.to_string();
                out.append(":");
                let end = e.to_string();
                out.append(end.as_str());
                out
            },
        }
    }
}

/// A set of message positions: parts, written with commas between them.
#[derive(Debug, PartialEq, Eq)]
pub struct SequenceSet {
    pub(crate) parts: Vec<SequenceRange>,
}

impl View for SequenceSet {
    type V = Seq<SequenceRange>;

    closed spec fn view(&self) -> Seq<SequenceRange> {
        self.parts@
    }
}

impl Clone for SequenceSet {
    fn clone(&self) -> (r: Self)
        ensures
            r@ == self@,
    {
        let mut parts: Vec<SequenceRange> = Vec::new();
        let mut i: usize = 0;
        while i < self.parts.len()
            invariant
                i <= self.parts@.len(),
                parts@ == self.parts@.take(i as int),
            decreases self.parts@.len() - i,
        {
            parts.push(self.parts[i]);
            assert(self.parts@.take(i + 1) =~= self.parts@.take(i as int).push(
                self.parts@[i as int],
            ));
            i += 1;
        }
        assert(self.parts@.take(self.parts@.len() as int) =~= self.parts@);
        SequenceSet { parts }
    }
}

impl Default for SequenceSet {
    fn default() -> (s: SequenceSet)
        ensures
            s@ == Seq::<SequenceRange>::empty(),
    {
        SequenceSet::new()
    }
}

impl SequenceSet {
    /// The empty set.
    pub fn new() -> (s: SequenceSet)
        ensures
            s@ == Seq::<SequenceRange>::empty(),
    {
        SequenceSet { parts: Vec::new() }
    }

    /// The set of the last message alone, `*`.
    pub fn all() -> (s: SequenceSet)
        ensures
            s@ == seq![SequenceRange::Single(SequenceBound::Star)],
    {
        let mut parts = Vec::new();
        parts.push(SequenceRange::Single(SequenceBound::Star));
        assert(parts@ =~= seq![SequenceRange::Single(SequenceBound::Star)]);
        SequenceSet { parts }
    }

    /// The set with the position `n` added as its last part.
    pub fn add_single(self, n: u32) -> (s: SequenceSet)
        ensures
            s@ == self@.push(SequenceRange::Single(SequenceBound::Number(n))),
    {
        let mut parts = self.parts;
        parts.push(SequenceRange::Single(SequenceBound::Number(n)));
        SequenceSet { parts }
    }

    /// The set with `*` added as its last part.
    pub fn add_star(self) -> (s: SequenceSet)
        ensures
            s@ == self@.push(SequenceRange::Single(SequenceBound::Star)),
    {
        let mut parts = self.parts;
        parts.push(SequenceRange::Single(SequenceBound::Star));
        SequenceSet { parts }
    }

    /// The set with the range from `start` to `end` added as its last part.
    pub fn add_range(self, start: SequenceBound, end: SequenceBound) -> (s: SequenceSet)
        ensures
            s@ == self@.push(SequenceRange::Range(start, end)),
    {
        let mut parts = self.parts;
        parts.push(SequenceRange::Range(start, end));
        SequenceSet { parts }
    }

    /// Whether the set has no part.
    pub fn is_empty(&self) -> (b: bool)
        ensures
            b == (self@.len() == 0),
    {
        self.parts.len() == 0
    }
}

impl WireText for SequenceSet {
    open spec fn text(&self) -> Seq<char> {
        join(texts(self@), ","@)
    }

    fn to_string(&self) -> (s: String) {
        let mut out = String::new();
        let mut i: usize = 0;
        assert(texts(self@.take(0)) =~= Seq::<Seq<char>>::empty());
        assert(out@ =~= join(texts(self@.take(0)), ","@));
        while i < self.parts.len()
            invariant
                i <= self@.len(),
                self@ == self.parts@,
                out@ == join(texts(self@.take(i as int)), ","@),
            decreases self@.len() - i,
        {
            let ghost before = texts(self@.take(i as int));
            let ghost after = texts(self@.take(i + 1));
            if i > 0 {
                out.append(",");
            }
            let t = self.parts[i].to_string();
            out.append(t.as_str());
            proof {
                assert(after.drop_last() =~= before);
                assert(after.last() == self@[i as int].text());
                if i == 0 {
                    assert(join(before, ","@) =~= Seq::<char>::empty());
                }
                assert(out@ =~= join(after, ","@));
            }
            i += 1;
        }
        assert(self@.take(self@.len() as int) =~= self@);
        out
    }
}

/// An item that a status command asks for.
#[derive(Debug, Clone, Copy, PartialEq, Eq, Structural)]
pub enum StatusItem {
    Messages,
    Recent,
    UidNext,
    UidValidity,
    Unseen,
}

impl WireText for StatusItem {
    open spec fn text(&self) -> Seq<char> {
        match self {
            StatusItem::Messages => "MESSAGES"@,
            StatusItem::Recent => "RECENT"@,
            StatusItem::UidNext => "UIDNEXT"@,
            StatusItem::UidValidity => "UIDVALIDITY"@,
            StatusItem::Unseen => "UNSEEN"@,
        }
    }

    fn to_string(&self) -> (s: String) {
        match self {
            StatusItem::Messages => String::from_str("MESSAGES"),
            StatusItem::Recent => String::from_str("RECENT"),
            StatusItem::UidNext => String::from_str("UIDNEXT"),
            StatusItem::UidValidity => String::from_str("UIDVALIDITY"),
            StatusItem::Unseen => String::from_str("UNSEEN"),
        }
    }
}

/// A search criterion.
#[derive(Debug, PartialEq, Eq)]
pub enum SearchKey {
    All,
    Answered,
    Bcc(String),
    Before(String),
    Body(String),
    Cc(String),
    Deleted,
    Draft,
    Flagged,
    From(String),
    Header { name: String, value: String },
    Keyword(String),
    Larger(u32),
    New,
    Not(Box<SearchKey>),
    Old,
    On(String),
    Or(Box<SearchKey>, Box<SearchKey>),
    Recent,
    Seen,
    SentBefore(String),
    SentOn(String),
    SentSince(String),
    Since(String),
    Smaller(u32),
    Subject(String),
    Text(String),
    To(String),
    Unanswered,
    Undeleted,
    Undraft,
    Unflagged,
    Unkeyword(String),
    Unseen,
    Uid(SequenceSet),
}

/// How a search criterion is written: its name, and behind a space its
/// argument. Free text is written as a string argument, quoted where it
/// must be; a date, a keyword, a number and a sequence set are written as
/// they are; the criteria under `NOT` and `OR` stand in parentheses.
pub open spec fn search_key_text(k: SearchKey) -> Seq<char>
    decreases k,
{
    match k {
        SearchKey::All => "ALL"@,
        SearchKey::Answered => "ANSWERED"@,
        SearchKey::Bcc(s) => "BCC "@ + astring(s@),
        SearchKey::Before(s) => "BEFORE "@ + s@,
        SearchKey::Body(s) => "BODY "@ + astring(s@),
        SearchKey::Cc(s) => "CC "@ + astring(s@),
        SearchKey::Deleted => "DELETED"@,
        SearchKey::Draft => "DRAFT"@,
        SearchKey::Flagged => "FLAGGED"@,
        SearchKey::From(s) => "FROM "@ + astring(s@),
        SearchKey::Header { name, value } => "HEADER "@ + astring(name@) + " "@ + astring(value@),
        SearchKey::Keyword(s) => "KEYWORD "@ + s@,
        SearchKey::Larger(n) => "LARGER "@ + decimal(n as nat),
        SearchKey::New => "NEW"@,
        SearchKey::Not(k) => "NOT ("@ + search_key_text(*k) + ")"@,
        SearchKey::Old => "OLD"@,
        SearchKey::On(s) => "ON "@ + s@,
        SearchKey::Or(a, b) => "OR ("@ + search_key_text(*a) + ") ("@ + search_key_text(*b)
            + ")"@,
        SearchKey::Recent => "RECENT"@,
        SearchKey::Seen => "SEEN"@,
        SearchKey::SentBefore(s) => "SENTBEFORE "@ + s@,
        SearchKey::SentOn(s) => "SENTON "@ + s@,
        SearchKey::SentSince(s) => "SENTSINCE "@ + s@,
        SearchKey::Since(s) => "SINCE "@ + s@,
        SearchKey::Smaller(n) => "SMALLER "@ + decimal(n as nat),
        SearchKey::Subject(s) => "SUBJECT "@ + astring(s@),
        SearchKey::Text(s) => "TEXT "@ + astring(s@),
        SearchKey::To(s) => "TO "@ + astring(s@),
        SearchKey::Unanswered => "UNANSWERED"@,
        SearchKey::Undeleted => "UNDELETED"@,
        SearchKey::Undraft => "UNDRAFT"@,
        SearchKey::Unflagged => "UNFLAGGED"@,
        SearchKey::Unkeyword(s) => "UNKEYWORD "@ + s@,
        SearchKey::Unseen => "UNSEEN"@,
        SearchKey::Uid(set) => "UID "@ + set.text(),
    }
}

fn word_then(word: &str, arg: &str) -> (s: String)
    ensures
        s@ == word@ + arg@,
{
    let mut s = String::from_str(word);
    s.append(arg);
    s
}

fn word_then_astring(word: &str, arg: &str) -> (s: String)
    ensures
        s@ == word@ + astring(arg@),
{
    let q = quote_astring(arg);
    word_then(word, q.as_str())
}

fn word_then_number(word: &str, n: u32) -> (s: String)
    ensures
        s@ == word@ + decimal(n as nat),
{
    let mut s = String::from_str(word);
    push_decimal(&mut s, n as u64);
    s
}

fn search_key_string(k: &SearchKey) -> (s: String)
    ensures
        s@ == search_key_text(*k),
    decreases k,
{
    match k {
        SearchKey::All => String::from_str("ALL"),
        SearchKey::Answered => String::from_str("ANSWERED"),
        SearchKey::Bcc(s) => word_then_astring("BCC ", s.as_str()),
        SearchKey::Before(s) => word_then("BEFORE ", s.as_str()),
        SearchKey::Body(s) => word_then_astring("BODY ", s.as_str()),
        SearchKey::Cc(s) => word_then_astring("CC ", s.as_str()),
        SearchKey::Deleted => String::from_str("DELETED"),
        SearchKey::Draft => String::from_str("DRAFT"),
        SearchKey::Flagged => String::from_str("FLAGGED"),
        SearchKey::From(s) => word_then_astring("FROM ", s.as_str()),
        SearchKey::Header { name, value } => {
            let mut out = word_then_astring("HEADER ", name.as_str());
            out.append(" ");
            let v = quote_astring(value.as_str());
            out.append(v.as_str());
            out
        },
        SearchKey::Keyword(s) => word_then("KEYWORD ", s.as_str()),
        SearchKey::Larger(n) => word_then_number("LARGER ", *n),
        SearchKey::New => String::from_str("NEW"),
        SearchKey::Not(inner) => {
            let t = search_key_string(inner);
            let mut out = word_then("NOT (", t.as_str());
            out.append(")");
            out
        },
        SearchKey::Old => String::from_str("OLD"),
        SearchKey::On(s) => word_then("ON ", s.as_str()),
        SearchKey::Or(a, b) => {
            let ta = search_key_string(a);
            let tb = search_key_string(b);
            let mut out = word_then("OR (", ta.as_str());
            out.append(") (");
            out.append(tb.as_str());
            out.append(")");
            out
        },
        SearchKey::Recent => String::from_str("RECENT"),
        SearchKey::Seen => String::from_str("SEEN"),
        SearchKey::SentBefore(s) => word_then("SENTBEFORE ", s.as_str()),
        SearchKey::SentOn(s) => word_then("SENTON ", s.as_str()),
        SearchKey::SentSince(s) => word_then("SENTSINCE ", s.as_str()),
        SearchKey::Since(s) => word_then("SINCE ", s.as_str()),
        SearchKey::Smaller(n) => word_then_number("SMALLER ", *n),
        SearchKey::Subject(s) => word_then_astring("SUBJECT ", s.as_str()),
        SearchKey::Text(s) => word_then_astring("TEXT ", s.as_str()),
        SearchKey::To(s) => word_then_astring("TO ", s.as_str()),
        SearchKey::Unanswered => String::from_str("UNANSWERED"),
        SearchKey::Undeleted => String::from_str("UNDELETED"),
        SearchKey::Undraft => String::from_str("UNDRAFT"),
        SearchKey::Unflagged => String::from_str("UNFLAGGED"),
        SearchKey::Unkeyword(s) => word_then("UNKEYWORD ", s.as_str()),
        SearchKey::Unseen => String::from_str("UNSEEN"),
        SearchKey::Uid(set) => {
            let t = set.to_string();
            word_then("UID ", t.as_str())
        },
    }
}

fn search_key_copy(k: &SearchKey) -> (r: SearchKey)
    ensures
        search_key_text(r) == search_key_text(*k),
    decreases k,
{
    match k {
        SearchKey::All => SearchKey::All,
        SearchKey::Answered => SearchKey::Answered,
        SearchKey::Bcc(s) => SearchKey::Bcc(s.clone()),
        SearchKey::Before(s) => SearchKey::Before(s.clone()),
        SearchKey::Body(s) => SearchKey::Body(s.clone()),
        SearchKey::Cc(s) => SearchKey::Cc(s.clone()),
        SearchKey::Deleted => SearchKey::Deleted,
        SearchKey::Draft => SearchKey::Draft,
        SearchKey::Flagged => SearchKey::Flagged,
        SearchKey::From(s) => SearchKey::From(s.clone()),
        SearchKey::Header { name, value } => SearchKey::Header {
            name: name.clone(),
            value: value.clone(),
        },
        SearchKey::Keyword(s) => SearchKey::Keyword(s.clone()),
        SearchKey::Larger(n) => SearchKey::Larger(*n),
        SearchKey::New => SearchKey::New,
        SearchKey::Not(inner) => SearchKey::Not(Box::new(search_key_copy(inner))),
        SearchKey::Old => SearchKey::Old,
        SearchKey::On(s) => SearchKey::On(s.clone()),
        SearchKey::Or(a, b) => SearchKey::Or(
            Box::new(search_key_copy(a)),
            Box::new(search_key_copy(b)),
        ),
        SearchKey::Recent => SearchKey::Recent,
        SearchKey::Seen => SearchKey::Seen,
        SearchKey::SentBefore(s) => SearchKey::SentBefore(s.clone()),
        SearchKey::SentOn(s) => SearchKey::SentOn(s.clone()),
        SearchKey::SentSince(s) => SearchKey::SentSince(s.clone()),
        SearchKey::Since(s) => SearchKey::Since(s.clone()),
        SearchKey::Smaller(n) => SearchKey::Smaller(*n),
        SearchKey::Subject(s) => SearchKey::Subject(s.clone()),
        SearchKey::Text(s) => SearchKey::Text(s.clone()),
        SearchKey::To(s) => SearchKey::To(s.clone()),
        SearchKey::Unanswered => SearchKey::Unanswered,
        SearchKey::Undeleted => SearchKey::Undeleted,
        SearchKey::Undraft => SearchKey::Undraft,
        SearchKey::Unflagged => SearchKey::Unflagged,
        SearchKey::Unkeyword(s) => SearchKey::Unkeyword(s.clone()),
        SearchKey::Unseen => SearchKey::Unseen,
        SearchKey::Uid(set) => SearchKey::Uid(set.clone()),
    }
}

impl Clone for SearchKey {
    fn clone(&self) -> (r: Self)
        ensures
            search_key_text(r) == search_key_text(*self),
    {
        search_key_copy(self)
    }
}

impl WireText for SearchKey {
    open spec fn text(&self) -> Seq<char> {
        search_key_text(*self)
    }

    fn to_string(&self) -> (s: String) {
        search_key_string(self)
    }
}

} // verus!
