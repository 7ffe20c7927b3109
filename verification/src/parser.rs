//! The frame decoder: from a prefix of the byte stream to at most one
//! server message and the number of bytes it occupied.

use crate::scan::{find_first, first_occurrence, lemma_first_occurrence_some, occurs_at};
use vstd::prelude::*;
use vstd::slice::{slice_subrange, slice_to_vec};

pub mod auth;
pub mod fetch;
pub mod framing;
pub mod greeting;
pub mod mailbox;

verus! {

/// The status word of a server message.
#[derive(Debug, PartialEq, Eq)]
pub enum Status {
    Okay,
    No,
    Bad,
    PreAuth,
    Bye,
    /// Any other token in the status position, as raw bytes.
    Unknown(Vec<u8>),
}

/// The mathematical value of a [`Status`].
pub enum StatusView {
    Okay,
    No,
    Bad,
    PreAuth,
    Bye,
    Unknown(Seq<u8>),
}

impl View for Status {
    type V = StatusView;

    open spec fn view(&self) -> StatusView {
        match self {
            Status::Okay => StatusView::Okay,
            Status::No => StatusView::No,
            Status::Bad => StatusView::Bad,
            Status::PreAuth => StatusView::PreAuth,
            Status::Bye => StatusView::Bye,
            Status::Unknown(t) => StatusView::Unknown(t@),
        }
    }
}

impl Clone for Status {
    fn clone(&self) -> (r: Self)
        ensures
            r@ == self@,
    {
        match self {
            Status::Okay => Status::Okay,
            Status::No => Status::No,
            Status::Bad => Status::Bad,
            Status::PreAuth => Status::PreAuth,
            Status::Bye => Status::Bye,
            Status::Unknown(t) => Status::Unknown(t.clone()),
        }
    }
}

/// One message from the server.
#[derive(Debug, PartialEq, Eq)]
pub enum Response {
    /// The opening line, or any later untagged line with a status word.
    Greeting { status: Status, text: Vec<u8> },
    /// Untagged data: a token that is no status word, then text.
    Untagged { status: Status, text: Vec<u8> },
    /// The completion of the command that carried `tag`.
    Tagged { tag: Vec<u8>, status: Status, text: Vec<u8> },
    /// A request for more data for the command in progress.
    Continuation { text: Vec<u8> },
}

/// The mathematical value of a [`Response`].
pub enum ResponseView {
    Greeting { status: StatusView, text: Seq<u8> },
    Untagged { status: StatusView, text: Seq<u8> },
    Tagged { tag: Seq<u8>, status: StatusView, text: Seq<u8> },
    Continuation { text: Seq<u8> },
}

impl View for Response {
    type V = ResponseView;

    open spec fn view(&self) -> ResponseView {
        match self {
            Response::Greeting { status, text } => ResponseView::Greeting {
                status: status@,
                text: text@,
            },
            Response::Untagged { status, text } => ResponseView::Untagged {
                status: status@,
                text: text@,
            },
            Response::Tagged { tag, status, text } => ResponseView::Tagged {
                tag: tag@,
                status: status@,
                text: text@,
            },
            Response::Continuation { text } => ResponseView::Continuation { text: text@ },
        }
    }
}

impl Clone for Response {
    fn clone(&self) -> (r: Self)
        ensures
            r@ == self@,
    {
        match self {
            Response::Greeting { status, text } => Response::Greeting {
                status: status.clone(),
                text: text.clone(),
            },
            Response::Untagged { status, text } => Response::Untagged {
                status: status.clone(),
                text: text.clone(),
            },
            Response::Tagged { tag, status, text } => Response::Tagged {
                tag: tag.clone(),
                status: status.clone(),
                text: text.clone(),
            },
            Response::Continuation { text } => Response::Continuation { text: text.clone() },
        }
    }
}

/// Why a buffer could not be decoded.
#[derive(Debug, Clone, Copy, PartialEq, Eq)]
pub enum ParserError {
    /// The buffer ends before the message does.
    Incomplete,
    /// A terminated line that matches no message grammar.
    InvalidResponse,
}

impl ParserError {
    /// The text that describes the error.
    pub fn message(&self) -> (s: String)
        ensures
            s@ == (match self {
                ParserError::Incomplete => "Need more data"@,
                ParserError::InvalidResponse => "Invalid IMAP response"@,
            }),
    {
        match self {
            ParserError::Incomplete => "Need more data".to_owned(),
            ParserError::InvalidResponse => "Invalid IMAP response".to_owned(),
        }
    }
}

/// The line terminator, carriage return and line feed.
pub open spec fn crlf() -> Seq<u8> {
    seq![13u8, 10u8]
}

/// The single space that separates the parts of a line.
pub open spec fn space() -> Seq<u8> {
    seq![32u8]
}

/// The marker that opens an untagged line.
pub open spec fn untagged_marker() -> Seq<u8> {
    seq![42u8, 32u8]
}

/// The marker that opens a continuation request.
pub open spec fn continuation_marker() -> Seq<u8> {
    seq![43u8, 32u8]
}

pub open spec fn is_alphanumeric(b: u8) -> bool {
    (48 <= b <= 57) || (65 <= b <= 90) || (97 <= b <= 122)
}

/// The bytes of which a tag is made: letters, digits, `_`, `-` and `.`.
pub open spec fn is_tag_byte(b: u8) -> bool {
    is_alphanumeric(b) || b == 95 || b == 45 || b == 46
}

/// The bytes of which a status token is made: letters, digits and
/// ``!#$&'*+-/=?^_`|~``.
pub open spec fn is_token_byte(b: u8) -> bool {
    is_alphanumeric(b) || b == 33 || b == 35 || b == 36 || b == 38 || b == 39 || b == 42 || b == 43
        || b == 45 || b == 47 || b == 61 || b == 63 || b == 94 || b == 95 || b == 96 || b == 124
        || b == 126
}

/// A tag: one or more tag bytes.
pub open spec fn is_tag(s: Seq<u8>) -> bool {
    s.len() > 0 && forall|i: int| 0 <= i < s.len() ==> is_tag_byte(#[trigger] s[i])
}

/// A token: one or more token bytes.
pub open spec fn is_token(s: Seq<u8>) -> bool {
    s.len() > 0 && forall|i: int| 0 <= i < s.len() ==> is_token_byte(#[trigger] s[i])
}

/// The text of a message: one or more bytes, none a carriage return or a
/// line feed.
pub open spec fn is_text(s: Seq<u8>) -> bool {
    s.len() > 0 && forall|i: int| 0 <= i < s.len() ==> #[trigger] s[i] != 13 && s[i] != 10
}

/// The token that stands for a status on the wire.
pub open spec fn status_token(s: StatusView) -> Seq<u8> {
    match s {
        StatusView::Okay => seq![79u8, 75u8],
        StatusView::No => seq![78u8, 79u8],
        StatusView::Bad => seq![66u8, 65u8, 68u8],
        StatusView::PreAuth => seq![80u8, 82u8, 69u8, 65u8, 85u8, 84u8, 72u8],
        StatusView::Bye => seq![66u8, 89u8, 69u8],
        StatusView::Unknown(t) => t,
    }
}

/// The status that a token stands for: one of the five status words
/// (`OK`, `NO`, `BAD`, `PREAUTH`, `BYE`, in capitals), or the token itself.
pub open spec fn status_of(token: Seq<u8>) -> StatusView {
    if token == status_token(StatusView::Okay) {
        StatusView::Okay
    } else if token == status_token(StatusView::No) {
        StatusView::No
    } else if token == status_token(StatusView::Bad) {
        StatusView::Bad
    } else if token == status_token(StatusView::PreAuth) {
        StatusView::PreAuth
    } else if token == status_token(StatusView::Bye) {
        StatusView::Bye
    } else {
        StatusView::Unknown(token)
    }
}

/// The statuses that may complete a command: `OK`, `NO` and `BAD`.
pub open spec fn is_completion_status(s: StatusView) -> bool {
    s is Okay || s is No || s is Bad
}

/// `s` cut at its first space: what stands before it and what follows it.
pub open spec fn split_space(s: Seq<u8>) -> Option<(Seq<u8>, Seq<u8>)> {
    match first_occurrence(s, space()) {
        Some(i) => Some((s.take(i), s.skip(i + 1))),
        None => None,
    }
}

/// Whether `s` begins with `prefix`.
pub open spec fn starts_with(s: Seq<u8>, prefix: Seq<u8>) -> bool {
    prefix.len() <= s.len() && s.take(prefix.len() as int) == prefix
}

/// The message that an untagged line holds behind its marker: a token, a
/// space and text. A status word makes it a greeting, any other token
/// untagged data.
pub open spec fn parse_untagged(rest: Seq<u8>) -> Option<ResponseView> {
    match split_space(rest) {
        Some((token, text)) => if is_token(token) && is_text(text) {
            let status = status_of(token);
            if status is Unknown {
                Some(ResponseView::Untagged { status, text })
            } else {
                Some(ResponseView::Greeting { status, text })
            }
        } else {
            None
        },
        None => None,
    }
}

/// The completion that a line without marker holds: a tag, a space, one of
/// `OK`, `NO` and `BAD`, a space and text.
pub open spec fn parse_tagged(line: Seq<u8>) -> Option<ResponseView> {
    match split_space(line) {
        Some((tag, rest)) => match split_space(rest) {
            Some((token, text)) => if is_tag(tag) && is_completion_status(status_of(token))
                && is_text(text) {
                Some(ResponseView::Tagged { tag, status: status_of(token), text })
            } else {
                None
            },
            None => None,
        },
        None => None,
    }
}

/// The message that a line holds, the terminator taken off; `None` where it
/// matches no grammar. The untagged marker is tried first, then the
/// continuation marker; every other line must be a tagged completion.
pub open spec fn parse_line(line: Seq<u8>) -> Option<ResponseView> {
    if starts_with(line, untagged_marker()) {
        parse_untagged(line.skip(2))
    } else if starts_with(line, continuation_marker()) {
        if is_text(line.skip(2)) {
            Some(ResponseView::Continuation { text: line.skip(2) })
        } else {
            None
        }
    } else {
        parse_tagged(line)
    }
}

/// What decoding a buffer gives.
pub enum Decoded {
    /// A message, and the number of bytes it took from the front.
    Complete(ResponseView, int),
    /// No terminator in the buffer yet.
    Incomplete,
    /// A terminated line that is no message.
    Malformed,
}

/// The decoding of `buf`. Everything before the first terminator is the
/// line; without a terminator the buffer is incomplete, whatever it holds.
pub open spec fn decode_spec(buf: Seq<u8>) -> Decoded {
    match first_occurrence(buf, crlf()) {
        None => Decoded::Incomplete,
        Some(end) => match parse_line(buf.take(end)) {
            Some(m) => Decoded::Complete(m, end + 2),
            None => Decoded::Malformed,
        },
    }
}

/// What a result of [`decode`] says, as a value of [`Decoded`].
pub open spec fn decoded(r: Result<Option<(Response, usize)>, ParserError>) -> Decoded {
    match r {
        Ok(Some((m, n))) => Decoded::Complete(m@, n as int),
        Ok(None) => Decoded::Incomplete,
        Err(_) => Decoded::Malformed,
    }
}


fn tag_byte(b: u8) -> (r: bool)
    ensures
        r == is_tag_byte(b),
{
    (48 <= b && b <= 57) || (65 <= b && b <= 90) || (97 <= b && b <= 122) || b == 95 || b == 45
        || b == 46
}

fn token_byte(b: u8) -> (r: bool)
    ensures
        r == is_token_byte(b),
{
    (48 <= b && b <= 57) || (65 <= b && b <= 90) || (97 <= b && b <= 122) || b == 33 || b == 35
        || b == 36 || b == 38 || b == 39 || b == 42 || b == 43 || b == 45 || b == 47 || b == 61
        || b == 63 || b == 94 || b == 95 || b == 96 || b == 124 || b == 126
}

fn tag_ok(s: &[u8]) -> (r: bool)
    ensures
        r == is_tag(s@),
{
    let mut i: usize = 0;
    while i < s.len()
        invariant
            i <= s@.len(),
            forall|j: int| 0 <= j < i ==> is_tag_byte(#[trigger] s@[j]),
        decreases s@.len() - i,
    {
        if !tag_byte(s[i]) {
            return false;
        }
        i += 1;
    }
    s.len() > 0
}

fn token_ok(s: &[u8]) -> (r: bool)
    ensures
        r == is_token(s@),
{
    let mut i: usize = 0;
    while i < s.len()
        invariant
            i <= s@.len(),
            forall|j: int| 0 <= j < i ==> is_token_byte(#[trigger] s@[j]),
        decreases s@.len() - i,
    {
        if !token_byte(s[i]) {
            return false;
        }
        i += 1;
    }
    s.len() > 0
}

fn text_ok(s: &[u8]) -> (r: bool)
    ensures
        r == is_text(s@),
{
    let mut i: usize = 0;
    while i < s.len()
        invariant
            i <= s@.len(),
            forall|j: int| 0 <= j < i ==> #[trigger] s@[j] != 13 && s@[j] != 10,
        decreases s@.len() - i,
    {
        if s[i] == 13 || s[i] == 10 {
            return false;
        }
        i += 1;
    }
    s.len() > 0
}

/// Reads the status that a token stands for.
pub fn parse_status(token: &[u8]) -> (s: Status)
    ensures
        s@ == status_of(token@),
{
    let n = token.len();
    if n == 2 && token[0] == 79 && token[1] == 75 {
        assert(token@ =~= status_token(StatusView::Okay));
        Status::Okay
    } else if n == 2 && token[0] == 78 && token[1] == 79 {
        assert(token@ =~= status_token(StatusView::No));
        Status::No
    } else if n == 3 && token[0] == 66 && token[1] == 65 && token[2] == 68 {
        assert(token@ =~= status_token(StatusView::Bad));
        Status::Bad
    } else if n == 7 && token[0] == 80 && token[1] == 82 && token[2] == 69 && token[3] == 65
        && token[4] == 85 && token[5] == 84 && token[6] == 72 {
        assert(token@ =~= status_token(StatusView::PreAuth));
        Status::PreAuth
    } else if n == 3 && token[0] == 66 && token[1] == 89 && token[2] == 69 {
        assert(token@ =~= status_token(StatusView::Bye));
        Status::Bye
    } else {
        proof {
            let t = token@;
            assert(t != status_token(StatusView::Okay)) by {
                if t == status_token(StatusView::Okay) {
                    assert(t[0] == 79 && t[1] == 75);
                }
            }
            assert(t != status_token(StatusView::No)) by {
                if t == status_token(StatusView::No) {
                    assert(t[0] == 78 && t[1] == 79);
                }
            }
            assert(t != status_token(StatusView::Bad)) by {
                if t == status_token(StatusView::Bad) {
                    assert(t[0] == 66 && t[1] == 65 && t[2] == 68);
                }
            }
            assert(t != status_token(StatusView::PreAuth)) by {
                if t == status_token(StatusView::PreAuth) {
                    assert(t[0] == 80 && t[1] == 82 && t[2] == 69 && t[3] == 65 && t[4] == 85
                        && t[5] == 84 && t[6] == 72);
                }
            }
            assert(t != status_token(StatusView::Bye)) by {
                if t == status_token(StatusView::Bye) {
                    assert(t[0] == 66 && t[1] == 89 && t[2] == 69);
                }
            }
        }
        Status::Unknown(slice_to_vec(token))
    }
}

fn split_at_space(s: &[u8]) -> (r: Option<(&[u8], &[u8])>)
    ensures
        match r {
            Some((a, b)) => split_space(s@) == Some((a@, b@)),
            None => split_space(s@) is None,
        },
{
    let sp: [u8; 1] = [32u8];
    assert(sp@ =~= space());
    let n = s.len();
    match find_first(s, sp.as_slice()) {
        Some(i) => {
            proof {
                lemma_first_occurrence_some(s@, space());
                assert(space().len() == 1);
                assert(occurs_at(s@, space(), i as int));
            }
            let a = slice_subrange(s, 0, i);
            let b = slice_subrange(s, i + 1, n);
            Some((a, b))
        },
        None => None,
    }
}

fn has_marker(s: &[u8], first: u8) -> (r: bool)
    ensures
        r == starts_with(s@, seq![first, 32u8]),
{
    if s.len() >= 2 && s[0] == first && s[1] == 32 {
        assert(s@.take(2) =~= seq![first, 32u8]);
        true
    } else {
        proof {
            if s@.len() >= 2 && s@.take(2) == seq![first, 32u8] {
                assert(s@.take(2)[0] == first && s@.take(2)[1] == 32u8);
            }
        }
        false
    }
}

fn untagged_line(rest: &[u8]) -> (r: Option<Response>)
    ensures
        match r {
            Some(m) => parse_untagged(rest@) == Some(m@),
            None => parse_untagged(rest@) is None,
        },
{
    match split_at_space(rest) {
        Some((token, text)) => {
            if token_ok(token) && text_ok(text) {
                let status = parse_status(token);
                let text = slice_to_vec(text);
                match status {
                    Status::Unknown(_) => Some(Response::Untagged { status, text }),
                    _ => Some(Response::Greeting { status, text }),
                }
            } else {
                None
            }
        },
        None => None,
    }
}

fn tagged_line(line: &[u8]) -> (r: Option<Response>)
    ensures
        match r {
            Some(m) => parse_tagged(line@) == Some(m@),
            None => parse_tagged(line@) is None,
        },
{
    match split_at_space(line) {
        Some((tag, rest)) => match split_at_space(rest) {
            Some((token, text)) => {
                if !tag_ok(tag) || !text_ok(text) {
                    return None;
                }
                let status = parse_status(token);
                match status {
                    Status::Okay | Status::No | Status::Bad => Some(
                        Response::Tagged {
                            tag: slice_to_vec(tag),
                            status,
                            text: slice_to_vec(text),
                        },
                    ),
                    _ => None,
                }
            },
            None => None,
        },
        None => None,
    }
}

fn line_message(line: &[u8]) -> (r: Option<Response>)
    ensures
        match r {
            Some(m) => parse_line(line@) == Some(m@),
            None => parse_line(line@) is None,
        },
{
    if has_marker(line, 42) {
        untagged_line(slice_subrange(line, 2, line.len()))
    } else if has_marker(line, 43) {
        let text = slice_subrange(line, 2, line.len());
        if text_ok(text) {
            Some(Response::Continuation { text: slice_to_vec(text) })
        } else {
            None
        }
    } else {
        tagged_line(line)
    }
}

/// Decodes at most one message from the front of `buf`.
///
/// Returns the message and the number of bytes it occupies, terminator
/// included; `Ok(None)` while `buf` holds no terminator; and
/// `Err(ParserError::InvalidResponse)` where the first terminated line is no
/// message. The buffer is only read.
pub fn decode(buf: &[u8]) -> (r: Result<Option<(Response, usize)>, ParserError>)
    ensures
        decoded(r) == decode_spec(buf@),
        r is Err ==> r == Err::<Option<(Response, usize)>, ParserError>(
            ParserError::InvalidResponse,
        ),
        r matches Ok(Some((_, n))) ==> 2 <= n <= buf@.len(),
{
    let terminator: [u8; 2] = [13u8, 10u8];
    assert(terminator@ =~= crlf());
    let n = buf.len();
    match find_first(buf, terminator.as_slice()) {
        None => Ok(None),
        Some(end) => {
            proof {
                lemma_first_occurrence_some(buf@, crlf());
                assert(crlf().len() == 2);
                assert(occurs_at(buf@, crlf(), end as int));
                assert(end + 2 <= n);
            }
            match line_message(slice_subrange(buf, 0, end)) {
                Some(m) => Ok(Some((m, end + 2))),
                None => Err(ParserError::InvalidResponse),
            }
        },
    }
}

} // verus!
