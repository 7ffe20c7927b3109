//! The wire form of a message, and what ties it to the decoder: a message
//! decodes from its own wire form, whatever follows it, and from nothing
//! shorter.

use crate::parser::{continuation_marker, crlf, decode_spec, is_completion_status, is_tag,
    is_text, is_token, is_token_byte, parse_line, space, split_space, starts_with, status_of,
    status_token, untagged_marker, Decoded, Response, ResponseView, Status, StatusView};
use crate::scan::{first_occurrence, lemma_first_occurrence_is, lemma_first_occurrence_some,
    occurs_at};
use vstd::prelude::*;

verus! {

/// The line that carries `m`, without its terminator.
pub open spec fn line_of(m: ResponseView) -> Seq<u8> {
    match m {
        ResponseView::Greeting { status, text } => untagged_marker() + status_token(status)
            + space() + text,
        ResponseView::Untagged { status, text } => untagged_marker() + status_token(status)
            + space() + text,
        ResponseView::Tagged { tag, status, text } => tag + space() + status_token(status)
            + space() + text,
        ResponseView::Continuation { text } => continuation_marker() + text,
    }
}

/// The bytes that carry `m` on the wire: its line and the terminator.
pub open spec fn wire(m: ResponseView) -> Seq<u8> {
    line_of(m) + crlf()
}

/// Whether `m` is a message that the decoder can produce: a greeting
/// carries a status word, untagged data a token that is none, a completion
/// a tag and one of `OK`, `NO` and `BAD`; the text is never empty and holds
/// no carriage return or line feed.
pub open spec fn well_formed(m: ResponseView) -> bool {
    match m {
        ResponseView::Greeting { status, text } => !(status is Unknown) && is_text(text),
        ResponseView::Untagged { status, text } => {
            &&& status is Unknown
            &&& is_token(status->Unknown_0)
            &&& status_of(status->Unknown_0) is Unknown
            &&& is_text(text)
        },
        ResponseView::Tagged { tag, status, text } => is_tag(tag) && is_completion_status(status)
            && is_text(text),
        ResponseView::Continuation { text } => is_text(text),
    }
}

/// The wire forms of `ms`, one after the other.
pub open spec fn wire_all(ms: Seq<ResponseView>) -> Seq<u8>
    decreases ms.len(),
{
    if ms.len() == 0 {
        Seq::empty()
    } else {
        wire(ms.first()) + wire_all(ms.drop_first())
    }
}

/// One decode-and-consume cycle after the other, for as long as the front
/// of the buffer is a complete message: the messages in the order met, and
/// the bytes that are left.
pub open spec fn drain(buf: Seq<u8>) -> (Seq<ResponseView>, Seq<u8>)
    decreases buf.len(),
{
    match decode_spec(buf) {
        Decoded::Complete(m, n) => if 0 < n <= buf.len() {
            let (ms, rest) = drain(buf.skip(n));
            (seq![m] + ms, rest)
        } else {
            (Seq::empty(), buf)
        },
        _ => (Seq::empty(), buf),
    }
}

/// The wire form of a status word is a token, and reads back as the status.
pub proof fn lemma_status_token(s: StatusView)
    requires
        !(s is Unknown),
    ensures
        is_token(status_token(s)),
        status_of(status_token(s)) == s,
{
    let ok = status_token(StatusView::Okay);
    let no = status_token(StatusView::No);
    let bad = status_token(StatusView::Bad);
    let pre = status_token(StatusView::PreAuth);
    let bye = status_token(StatusView::Bye);
    assert(ok[0] == 79 && no[0] == 78 && bad[1] == 65 && bye[1] == 89);
    assert(ok.len() == 2 && no.len() == 2 && bad.len() == 3 && pre.len() == 7 && bye.len() == 3);
    let t = status_token(s);
    assert forall|i: int| 0 <= i < t.len() implies is_token_byte(#[trigger] t[i]) by {
        assert(65 <= t[i] <= 90);
    }
}

/// A line that does not hold the separator before offset `|a|` is cut there.
proof fn lemma_split_space(a: Seq<u8>, b: Seq<u8>)
    requires
        forall|i: int| 0 <= i < a.len() ==> #[trigger] a[i] != 32,
    ensures
        split_space(a + space() + b) == Some((a, b)),
{
    let s = a + space() + b;
    let k = a.len() as int;
    assert(s.subrange(k, k + 1) =~= space());
    assert forall|j: int| 0 <= j < k implies !occurs_at(s, space(), j) by {
        if occurs_at(s, space(), j) {
            assert(s.subrange(j, j + 1)[0] == 32);
            assert(s[j] == a[j]);
        }
    }
    lemma_first_occurrence_is(s, space(), k);
    assert(s.take(k) =~= a);
    assert(s.skip(k + 1) =~= b);
}

/// The terminator that follows a line without carriage return is the first
/// in the buffer.
proof fn lemma_first_terminator(line: Seq<u8>, rest: Seq<u8>)
    requires
        forall|i: int| 0 <= i < line.len() ==> #[trigger] line[i] != 13,
    ensures
        first_occurrence(line + crlf() + rest, crlf()) == Some(line.len() as int),
{
    let s = line + crlf() + rest;
    let k = line.len() as int;
    assert(s.subrange(k, k + 2) =~= crlf());
    assert forall|j: int| 0 <= j < k implies !occurs_at(s, crlf(), j) by {
        if occurs_at(s, crlf(), j) {
            assert(s.subrange(j, j + 2)[0] == 13);
            assert(s[j] == line[j]);
        }
    }
    lemma_first_occurrence_is(s, crlf(), k);
}

/// A terminated line without carriage return holds no terminator in any of
/// its proper prefixes.
proof fn lemma_prefix_has_no_terminator(line: Seq<u8>, k: int)
    requires
        forall|i: int| 0 <= i < line.len() ==> #[trigger] line[i] != 13,
        0 <= k < line.len() + 2,
    ensures
        first_occurrence((line + crlf()).take(k), crlf()) is None,
{
    let p = (line + crlf()).take(k);
    assert(crlf().len() == 2);
    assert forall|j: int| !occurs_at(p, crlf(), j) by {
        if occurs_at(p, crlf(), j) {
            assert(p.subrange(j, j + 2)[0] == 13);
            assert(p[j] == line[j]);
        }
    }
}

/// No byte of a well-formed message's line is a carriage return.
proof fn lemma_line_has_no_cr(m: ResponseView)
    requires
        well_formed(m),
    ensures
        forall|i: int| 0 <= i < line_of(m).len() ==> #[trigger] line_of(m)[i] != 13,
{
    let l = line_of(m);
    match m {
        ResponseView::Greeting { status, text } => {
            lemma_status_token(status);
        },
        ResponseView::Untagged { status, text } => {},
        ResponseView::Tagged { tag, status, text } => {
            lemma_status_token(status);
        },
        ResponseView::Continuation { text } => {},
    }
}

/// A well-formed message is what its line parses to.
proof fn lemma_parse_line_of(m: ResponseView)
    requires
        well_formed(m),
    ensures
        parse_line(line_of(m)) == Some(m),
{
    let l = line_of(m);
    match m {
        ResponseView::Greeting { status, text } => {
            lemma_status_token(status);
            let tok = status_token(status);
            assert(l.take(2) =~= untagged_marker());
            assert(l.skip(2) =~= tok + space() + text);
            lemma_split_space(tok, text);
        },
        ResponseView::Untagged { status, text } => {
            let tok = status_token(status);
            assert(l.take(2) =~= untagged_marker());
            assert(l.skip(2) =~= tok + space() + text);
            lemma_split_space(tok, text);
        },
        ResponseView::Tagged { tag, status, text } => {
            lemma_status_token(status);
            let tok = status_token(status);
            assert(l[0] == tag[0]);
            assert(!starts_with(l, untagged_marker())) by {
                if starts_with(l, untagged_marker()) {
                    assert(l.take(2)[0] == 42);
                }
            }
            assert(!starts_with(l, continuation_marker())) by {
                if starts_with(l, continuation_marker()) {
                    assert(l.take(2)[0] == 43);
                }
            }
            assert(l =~= tag + space() + (tok + space() + text));
            lemma_split_space(tag, tok + space() + text);
            lemma_split_space(tok, text);
        },
        ResponseView::Continuation { text } => {
            assert(l.take(2) =~= continuation_marker());
            assert(l.skip(2) =~= text);
            assert(!starts_with(l, untagged_marker())) by {
                if starts_with(l, untagged_marker()) {
                    assert(l.take(2)[0] == 42);
                }
            }
        },
    }
}

/// A well-formed message decodes from its own wire form, whatever follows
/// it in the buffer, and takes exactly its own bytes.
pub proof fn lemma_decode_wire(m: ResponseView, rest: Seq<u8>)
    requires
        well_formed(m),
    ensures
        decode_spec(wire(m) + rest) == Decoded::Complete(m, wire(m).len() as int),
{
    let l = line_of(m);
    lemma_line_has_no_cr(m);
    lemma_first_terminator(l, rest);
    lemma_parse_line_of(m);
    assert(wire(m) + rest =~= l + crlf() + rest);
    assert((l + crlf() + rest).take(l.len() as int) =~= l);
}

/// What the decoder produces is well formed, and the bytes it consumed are
/// the message's wire form.
pub proof fn lemma_decode_sound(buf: Seq<u8>)
    requires
        decode_spec(buf) is Complete,
    ensures
        well_formed(decode_spec(buf)->Complete_0),
        wire(decode_spec(buf)->Complete_0) == buf.take(decode_spec(buf)->Complete_1),
        2 <= decode_spec(buf)->Complete_1 <= buf.len(),
{
    let m = decode_spec(buf)->Complete_0;
    let n = decode_spec(buf)->Complete_1;
    lemma_first_occurrence_some(buf, crlf());
    let end = first_occurrence(buf, crlf())->0;
    assert(occurs_at(buf, crlf(), end));
    let line = buf.take(end);
    assert(buf.take(n) =~= line + crlf()) by {
        assert(buf.subrange(end, end + 2) == crlf());
        assert(buf.take(n) =~= buf.take(end) + buf.subrange(end, end + 2));
    }
    if starts_with(line, untagged_marker()) {
        let rest = line.skip(2);
        lemma_first_occurrence_some(rest, space());
        let i = first_occurrence(rest, space())->0;
        assert(occurs_at(rest, space(), i));
        let token = rest.take(i);
        let text = rest.skip(i + 1);
        assert(rest =~= token + space() + text) by {
            assert(rest.subrange(i, i + 1) == space());
            assert(rest =~= rest.take(i) + rest.subrange(i, i + 1) + rest.skip(i + 1));
        }
        assert(line =~= line.take(2) + rest);
        if !(status_of(token) is Unknown) {
            lemma_status_token(status_of(token));
        }
        assert(status_token(status_of(token)) == token);
        assert(line_of(m) =~= line);
    } else if starts_with(line, continuation_marker()) {
        assert(line =~= line.take(2) + line.skip(2));
        assert(line_of(m) =~= line);
    } else {
        lemma_first_occurrence_some(line, space());
        let i = first_occurrence(line, space())->0;
        assert(occurs_at(line, space(), i));
        let tag = line.take(i);
        let rest = line.skip(i + 1);
        assert(line =~= tag + space() + rest) by {
            assert(line.subrange(i, i + 1) == space());
            assert(line =~= line.take(i) + line.subrange(i, i + 1) + line.skip(i + 1));
        }
        lemma_first_occurrence_some(rest, space());
        let k = first_occurrence(rest, space())->0;
        assert(occurs_at(rest, space(), k));
        let token = rest.take(k);
        let text = rest.skip(k + 1);
        assert(rest =~= token + space() + text) by {
            assert(rest.subrange(k, k + 1) == space());
            assert(rest =~= rest.take(k) + rest.subrange(k, k + 1) + rest.skip(k + 1));
        }
        lemma_status_token(status_of(token));
        assert(status_token(status_of(token)) == token);
        assert(line_of(m) =~= line);
    }
}

/// Framing: a buffer made of the wire forms of well-formed messages, one
/// after the other, decodes cycle by cycle into exactly those messages, in
/// their order, and nothing is left over.
pub proof fn lemma_framing(ms: Seq<ResponseView>)
    requires
        forall|i: int| 0 <= i < ms.len() ==> well_formed(#[trigger] ms[i]),
    ensures
        drain(wire_all(ms)) == (ms, Seq::<u8>::empty()),
    decreases ms.len(),
{
    if ms.len() == 0 {
        assert(decode_spec(Seq::<u8>::empty()) is Incomplete) by {
            assert forall|j: int| !occurs_at(Seq::<u8>::empty(), crlf(), j) by {
                assert(crlf().len() == 2);
            }
        }
        assert(ms =~= Seq::<ResponseView>::empty());
    } else {
        let m = ms.first();
        let tail = ms.drop_first();
        assert forall|i: int| 0 <= i < tail.len() implies well_formed(#[trigger] tail[i]) by {
            assert(tail[i] == ms[i + 1]);
        }
        lemma_framing(tail);
        lemma_decode_wire(m, wire_all(tail));
        let buf = wire_all(ms);
        let n = wire(m).len() as int;
        assert(crlf().len() == 2);
        assert(buf.skip(n) =~= wire_all(tail));
        assert(seq![m] + tail =~= ms);
    }
}

/// Incremental decoding: every proper prefix of a well-formed message's
/// wire form is incomplete, never malformed and never a message; once the
/// remaining bytes are joined to it, the whole decodes to the message.
pub proof fn lemma_incremental(m: ResponseView, k: int)
    requires
        well_formed(m),
        0 <= k < wire(m).len(),
    ensures
        decode_spec(wire(m).take(k)) is Incomplete,
        decode_spec(wire(m).take(k) + wire(m).skip(k)) == Decoded::Complete(
            m,
            wire(m).len() as int,
        ),
{
    lemma_line_has_no_cr(m);
    lemma_prefix_has_no_terminator(line_of(m), k);
    lemma_decode_wire(m, Seq::empty());
    assert(wire(m).take(k) + wire(m).skip(k) =~= wire(m) + Seq::<u8>::empty());
}

impl Response {
    /// The bytes that carry this message on the wire.
    pub fn to_wire(&self) -> (out: Vec<u8>)
        ensures
            out@ == wire(self@),
    {
        let mut out: Vec<u8> = Vec::new();
        match self {
            Response::Greeting { status, text } => {
                out.push(42);
                out.push(32);
                status.append_token(&mut out);
                out.push(32);
                out.extend_from_slice(text.as_slice());
            },
            Response::Untagged { status, text } => {
                out.push(42);
                out.push(32);
                status.append_token(&mut out);
                out.push(32);
                out.extend_from_slice(text.as_slice());
            },
            Response::Tagged { tag, status, text } => {
                out.extend_from_slice(tag.as_slice());
                out.push(32);
                status.append_token(&mut out);
                out.push(32);
                out.extend_from_slice(text.as_slice());
            },
            Response::Continuation { text } => {
                out.push(43);
                out.push(32);
                out.extend_from_slice(text.as_slice());
            },
        }
        assert(out@ =~= line_of(self@));
        out.push(13);
        out.push(10);
        assert(out@ =~= wire(self@));
        out
    }
}

impl Status {
    /// Appends the token that stands for this status on the wire.
    pub fn append_token(&self, out: &mut Vec<u8>)
        ensures
            final(out)@ == old(out)@ + status_token(self@),
    {
        match self {
            Status::Okay => {
                out.push(79);
                out.push(75);
            },
            Status::No => {
                out.push(78);
                out.push(79);
            },
            Status::Bad => {
                out.push(66);
                out.push(65);
                out.push(68);
            },
            Status::PreAuth => {
                out.push(80);
                out.push(82);
                out.push(69);
                out.push(65);
                out.push(85);
                out.push(84);
                out.push(72);
            },
            Status::Bye => {
                out.push(66);
                out.push(89);
                out.push(69);
            },
            Status::Unknown(t) => {
                out.extend_from_slice(t.as_slice());
            },
        }
        assert(out@ =~= old(out)@ + status_token(self@));
    }
}

} // verus!
