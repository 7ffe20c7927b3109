//! The envelope extractor: a tolerant scan of response text, lines joined,
//! for the envelopes of fetch responses.

use crate::format::push_char;
use crate::scan::{first_occurrence, lemma_first_occurrence_is, lemma_first_occurrence_some,
    occurs_at};
pub use crate::types::response::Envelope;
use crate::types::response::EnvelopeView;
use vstd::prelude::*;
use vstd::slice::slice_subrange;

verus! {

/// ASCII white space: space, tab, line feed, form feed, carriage return.
pub open spec fn is_space_byte(b: u8) -> bool {
    b == 32 || b == 9 || b == 10 || b == 12 || b == 13
}

/// An ASCII decimal digit.
pub open spec fn is_digit_byte(b: u8) -> bool {
    48 <= b <= 57
}

/// The first offset at or behind `i` that holds no white space.
pub open spec fn after_spaces(buf: Seq<u8>, i: int) -> int
    decreases buf.len() - i,
{
    if 0 <= i < buf.len() && is_space_byte(buf[i]) {
        after_spaces(buf, i + 1)
    } else {
        i
    }
}

/// The first offset at or behind `i` that holds no digit.
pub open spec fn after_digits(buf: Seq<u8>, i: int) -> int
    decreases buf.len() - i,
{
    if 0 <= i < buf.len() && is_digit_byte(buf[i]) {
        after_digits(buf, i + 1)
    } else {
        i
    }
}

/// The number that a string of decimal digits denotes.
pub open spec fn digits_value(s: Seq<u8>) -> nat
    decreases s.len(),
{
    if s.len() == 0 {
        0
    } else {
        digits_value(s.drop_last()) * 10 + (s.last() - 48) as nat
    }
}

/// A number behind optional white space: the digits that follow it, as far
/// as they go, if there is at least one and their value fits 32 bits; with
/// it the offset behind the last digit.
pub open spec fn number_at(buf: Seq<u8>, i: int) -> Option<(u32, int)> {
    let start = after_spaces(buf, i);
    let end = after_digits(buf, start);
    if end == start {
        None
    } else if digits_value(buf.subrange(start, end)) > u32::MAX {
        None
    } else {
        Some((digits_value(buf.subrange(start, end)) as u32, end))
    }
}

/// The character that a byte of a quoted string stands for: the one with
/// the byte's value as its code point.
pub open spec fn byte_char(b: u8) -> char {
    b as char
}

/// `r` with `c` put in front of its text.
pub open spec fn with_first(c: char, r: Option<(Seq<char>, int)>) -> Option<(Seq<char>, int)> {
    match r {
        Some((s, n)) => Some((seq![c] + s, n)),
        None => None,
    }
}

/// The rest of a quoted string from offset `i` on, the opening quote being
/// passed: its text up to the closing quote, and the offset behind that
/// quote. A backslash makes the byte that follows it part of the text,
/// whatever it is. `None` where the buffer ends before the string does.
pub open spec fn quoted_at(buf: Seq<u8>, i: int, escaped: bool) -> Option<(Seq<char>, int)>
    decreases buf.len() - i,
{
    if i < 0 || i >= buf.len() {
        None
    } else if escaped {
        with_first(byte_char(buf[i]), quoted_at(buf, i + 1, false))
    } else if buf[i] == 92 {
        quoted_at(buf, i + 1, true)
    } else if buf[i] == 34 {
        Some((Seq::empty(), i + 1))
    } else {
        with_first(byte_char(buf[i]), quoted_at(buf, i + 1, false))
    }
}

/// The content of a literal that opens at offset `i`: `{`, one or more
/// digits, `}`, a line terminator, and then as many bytes as the digits
/// say. The result is the range of those bytes. `None` where the form is
/// not met or the buffer holds fewer bytes than announced.
pub open spec fn literal_at(buf: Seq<u8>, i: int) -> Option<(int, int)> {
    if !(0 <= i < buf.len()) || buf[i] != 123 {
        None
    } else {
        let start = i + 1;
        let end = after_digits(buf, start);
        let n = digits_value(buf.subrange(start, end));
        if end == start {
            None
        } else if !(end + 2 < buf.len() && buf[end] == 125 && buf[end + 1] == 13 && buf[end + 2]
            == 10) {
            None
        } else if end + 3 + n > buf.len() {
            None
        } else {
            Some((end + 3, end + 3 + n))
        }
    }
}

/// The text that `String::from_utf8_lossy` makes of a byte string.
pub uninterp spec fn utf8_lossy(bytes: Seq<u8>) -> Seq<char>;

/// The three bytes of `NIL`.
pub open spec fn nil() -> Seq<u8> {
    seq![78u8, 73u8, 76u8]
}

/// A string field behind optional white space: `NIL`, a quoted string or a
/// literal; with it the offset behind the field. A field that opens less
/// than three bytes before the end of the buffer is not read.
pub open spec fn string_at(buf: Seq<u8>, i: int) -> Option<(Option<Seq<char>>, int)> {
    let j = after_spaces(buf, i);
    if j < 0 || j + 3 > buf.len() {
        None
    } else if buf.subrange(j, j + 3) == nil() {
        Some((None, j + 3))
    } else if buf[j] == 34 {
        match quoted_at(buf, j + 1, false) {
            Some((s, n)) => Some((Some(s), n)),
            None => None,
        }
    } else if buf[j] == 123 {
        match literal_at(buf, j) {
            Some((from, to)) => Some((Some(utf8_lossy(buf.subrange(from, to))), to)),
            None => None,
        }
    } else {
        None
    }
}

/// The marker of an untagged line.
pub open spec fn star() -> Seq<u8> {
    seq![42u8, 32u8]
}

/// ` FETCH `, spaces included.
pub open spec fn fetch_word() -> Seq<u8> {
    seq![32u8, 70u8, 69u8, 84u8, 67u8, 72u8, 32u8]
}

/// `ENVELOPE (`.
pub open spec fn envelope_word() -> Seq<u8> {
    seq![69u8, 78u8, 86u8, 69u8, 76u8, 79u8, 80u8, 69u8, 32u8, 40u8]
}

/// The first occurrence of `needle` at or behind offset `i`, as an offset
/// into `buf`.
pub open spec fn next_occurrence(buf: Seq<u8>, i: int, needle: Seq<u8>) -> Option<int> {
    match first_occurrence(buf.skip(i), needle) {
        Some(pos) => Some(i + pos),
        None => None,
    }
}

/// One round of the scan from offset `i`: the envelope found, if the text
/// behind the next `* ` has the form of one, and the offset at which the
/// next round starts. `None` where no `* ` is left.
///
/// The form is: a number, then somewhere behind it ` FETCH `, then
/// somewhere behind that `ENVELOPE (`, then the date field and the subject
/// field. Where a part is missing the round ends behind the last part that
/// was there, without an envelope. A subject that cannot be read is `None`.
pub open spec fn scan_round(buf: Seq<u8>, i: int) -> Option<(Option<(u32, EnvelopeView)>, int)> {
    match next_occurrence(buf, i, star()) {
        None => None,
        Some(at) => {
            let start = at + 2;
            match number_at(buf, start) {
                None => Some((None, start)),
                Some((num, after_num)) => match next_occurrence(buf, after_num, fetch_word()) {
                    None => Some((None, after_num)),
                    Some(f) => match next_occurrence(buf, f + 7, envelope_word()) {
                        None => Some((None, f + 7)),
                        Some(e) => match string_at(buf, e + 10) {
                            None => Some((None, e + 10)),
                            Some((date, next)) => match string_at(buf, next) {
                                Some((subject, last)) => Some(
                                    (Some((num, EnvelopeView { subject })), last),
                                ),
                                None => Some((Some((num, EnvelopeView { subject: None })), next)),
                            },
                        },
                    },
                },
            }
        },
    }
}

/// The envelopes that the scan finds from offset `i` on, in their order,
/// each with the number that its line opens with.
pub open spec fn envelopes_from(buf: Seq<u8>, i: int) -> Seq<(u32, EnvelopeView)>
    decreases buf.len() - i,
{
    match scan_round(buf, i) {
        None => Seq::empty(),
        Some((found, next)) => if i < next <= buf.len() {
            (match found {
                Some(e) => seq![e],
                None => Seq::empty(),
            }) + envelopes_from(buf, next)
        } else {
            Seq::empty()
        },
    }
}

/// The values of a list of numbered envelopes.
pub open spec fn envelope_views(v: Seq<(u32, Envelope)>) -> Seq<(u32, EnvelopeView)> {
    v.map_values(|e: (u32, Envelope)| (e.0, e.1@))
}


/// `String::from_utf8_lossy` of std, made an owned string: the text that
/// the bytes decode to, a replacement character standing for what is no
/// valid UTF-8.
#[verifier::external_body]
fn lossy_text(bytes: &[u8]) -> (s: String)
    ensures
        s@ == utf8_lossy(bytes@),
{
    String::from_utf8_lossy(bytes).into_owned()
}

fn space_byte(b: u8) -> (r: bool)
    ensures
        r == is_space_byte(b),
{
    b == 32 || b == 9 || b == 10 || b == 12 || b == 13
}

fn digit_byte(b: u8) -> (r: bool)
    ensures
        r == is_digit_byte(b),
{
    48 <= b && b <= 57
}

/// Moves `i` past white space.
pub fn skip_ws(buf: &[u8], i: &mut usize)
    ensures
        *final(i) == after_spaces(buf@, *old(i) as int),
        *old(i) <= *final(i),
        *old(i) <= buf@.len() ==> *final(i) <= buf@.len(),
{
    while *i < buf.len() && space_byte(buf[*i])
        invariant
            *old(i) <= *i,
            *old(i) <= buf@.len() ==> *i <= buf@.len(),
            after_spaces(buf@, *i as int) == after_spaces(buf@, *old(i) as int),
        decreases buf@.len() - *i,
    {
        *i += 1;
    }
}

/// Finds the first occurrence of `needle` in `hay`. An empty needle occurs
/// at offset zero.
pub fn find_subsequence(hay: &[u8], needle: &[u8]) -> (r: Option<usize>)
    ensures
        match r {
            Some(i) => first_occurrence(hay@, needle@) == Some(i as int),
            None => first_occurrence(hay@, needle@) is None,
        },
{
    let n = needle.len();
    let h = hay.len();
    if n > h {
        assert forall|j: int| !occurs_at(hay@, needle@, j) by {}
        return None;
    }
    let mut i: usize = 0;
    while i <= h - n
        invariant
            n <= h,
            h == hay@.len(),
            n == needle@.len(),
            i <= h - n + 1,
            forall|j: int| 0 <= j < i ==> !occurs_at(hay@, needle@, j),
        decreases h - n + 1 - i,
    {
        let mut k: usize = 0;
        while k < n && hay[i + k] == needle[k]
            invariant
                n <= h,
                h == hay@.len(),
                n == needle@.len(),
                i <= h - n,
                k <= n,
                forall|t: int| 0 <= t < k ==> hay@[i + t] == needle@[t],
            decreases n - k,
        {
            k += 1;
        }
        if k == n {
            proof {
                assert(hay@.subrange(i as int, i + n) =~= needle@);
                lemma_first_occurrence_is(hay@, needle@, i as int);
            }
            return Some(i);
        }
        proof {
            if occurs_at(hay@, needle@, i as int) {
                assert(hay@.subrange(i as int, i + n)[k as int] == needle@[k as int]);
            }
        }
        i += 1;
    }
    assert forall|j: int| !occurs_at(hay@, needle@, j) by {}
    None
}

proof fn lemma_digits_grow(s: Seq<u8>)
    requires
        s.len() > 0,
        is_digit_byte(s.last()),
    ensures
        digits_value(s) >= digits_value(s.drop_last()),
        digits_value(s) == digits_value(s.drop_last()) * 10 + (s.last() - 48),
{
}

/// Reads a number behind optional white space.
///
/// Returns the number and the offset behind its last digit; `None` where
/// no digit stands there or the digits denote more than 32 bits hold.
pub fn parse_number(buf: &[u8], i: usize) -> (r: Option<(u32, usize)>)
    ensures
        match r {
            Some((n, end)) => number_at(buf@, i as int) == Some((n, end as int)),
            None => number_at(buf@, i as int) is None,
        },
        r matches Some((_, end)) ==> i <= end <= buf@.len(),
{
    let mut j = i;
    skip_ws(buf, &mut j);
    let start = j;
    if start >= buf.len() {
        return None;
    }
    let mut value: u64 = 0;
    let mut overflow = false;
    assert(buf@.subrange(start as int, start as int) =~= Seq::<u8>::empty());
    while j < buf.len() && digit_byte(buf[j])
        invariant
            start <= j <= buf@.len(),
            after_digits(buf@, j as int) == after_digits(buf@, start as int),
            !overflow ==> value == digits_value(buf@.subrange(start as int, j as int)) && value
                <= u32::MAX,
            overflow ==> digits_value(buf@.subrange(start as int, j as int)) > u32::MAX,
        decreases buf@.len() - j,
    {
        proof {
            let s = buf@.subrange(start as int, j + 1);
            assert(s.drop_last() =~= buf@.subrange(start as int, j as int));
            lemma_digits_grow(s);
        }
        if !overflow {
            let d: u64 = (buf[j] - 48) as u64;
            value = value * 10 + d;
            if value > 0xffff_ffff {
                overflow = true;
            }
        }
        j += 1;
    }
    if j == start || overflow {
        None
    } else {
        Some((value as u32, j))
    }
}

/// Reads the rest of a quoted string from offset `i` on, behind the
/// opening quote.
///
/// Returns the text and the offset behind the closing quote; `None` where
/// the buffer ends before the string does.
pub fn parse_quoted(buf: &[u8], i: usize) -> (r: Option<(String, usize)>)
    ensures
        match r {
            Some((s, end)) => quoted_at(buf@, i as int, false) == Some((s@, end as int)),
            None => quoted_at(buf@, i as int, false) is None,
        },
        r matches Some((_, end)) ==> i < end <= buf@.len(),
{
    let mut out = String::new();
    let mut escaped = false;
    let mut j = i;
    let ghost goal = quoted_at(buf@, i as int, false);
    while j < buf.len()
        invariant
            i <= j,
            goal == quoted_at(buf@, i as int, false),
            match quoted_at(buf@, j as int, escaped) {
                Some((s, n)) => goal == Some((out@ + s, n)),
                None => goal is None,
            },
        decreases buf@.len() - j,
    {
        let b = buf[j];
        proof {
            let rest = quoted_at(buf@, j + 1, false);
            if rest is Some {
                let (text, end) = rest->0;
                assert(out@.push(byte_char(b)) + text =~= out@ + (seq![byte_char(b)] + text));
            }
        }
        if escaped {
            push_char(&mut out, b as char);
            escaped = false;
            j += 1;
        } else if b == 92 {
            escaped = true;
            j += 1;
        } else if b == 34 {
            assert(out@ + Seq::<char>::empty() =~= out@);
            return Some((out, j + 1));
        } else {
            push_char(&mut out, b as char);
            j += 1;
        }
    }
    None
}

/// Finds the content of a literal that opens at offset `i`.
///
/// Returns the range of the content's bytes; `None` where no literal
/// stands at `i` or the buffer holds fewer bytes than it announces.
pub fn literal_bounds(buf: &[u8], i: usize) -> (r: Option<(usize, usize)>)
    ensures
        match r {
            Some((from, to)) => literal_at(buf@, i as int) == Some((from as int, to as int)),
            None => literal_at(buf@, i as int) is None,
        },
        r matches Some((from, to)) ==> i < from <= to <= buf@.len(),
{
    let len = buf.len();
    if i >= len || buf[i] != 123 {
        return None;
    }
    let start = i + 1;
    let mut j = start;
    let mut n: usize = 0;
    let mut big = false;
    assert(buf@.subrange(start as int, start as int) =~= Seq::<u8>::empty());
    while j < len && digit_byte(buf[j])
        invariant
            len == buf@.len(),
            start <= j <= len,
            after_digits(buf@, j as int) == after_digits(buf@, start as int),
            !big ==> n == digits_value(buf@.subrange(start as int, j as int)) && n <= len,
            big ==> digits_value(buf@.subrange(start as int, j as int)) > len,
        decreases len - j,
    {
        proof {
            let s = buf@.subrange(start as int, j + 1);
            assert(s.drop_last() =~= buf@.subrange(start as int, j as int));
            lemma_digits_grow(s);
        }
        if !big {
            let d: usize = (buf[j] - 48) as usize;
            if n > len / 10 {
                big = true;
            } else if d > len - n * 10 {
                big = true;
            } else {
                n = n * 10 + d;
            }
        }
        j += 1;
    }
    if j == start {
        return None;
    }
    if !(len - j > 2 && buf[j] == 125 && buf[j + 1] == 13 && buf[j + 2] == 10) {
        return None;
    }
    let from = j + 3;
    if big || n > len - from {
        return None;
    }
    Some((from, from + n))
}

/// Reads a literal that opens at offset `i`.
///
/// Returns its content as text, bytes that are no valid UTF-8 replaced, and
/// the offset behind the content.
pub fn parse_literal(buf: &[u8], i: usize) -> (r: Option<(String, usize)>)
    ensures
        match r {
            Some((s, end)) => {
                &&& literal_at(buf@, i as int) matches Some((from, to))
                &&& to == end
                &&& s@ == utf8_lossy(buf@.subrange(from, to))
            },
            None => literal_at(buf@, i as int) is None,
        },
        r matches Some((_, end)) ==> i < end <= buf@.len(),
{
    match literal_bounds(buf, i) {
        Some((from, to)) => Some((lossy_text(slice_subrange(buf, from, to)), to)),
        None => None,
    }
}

/// Reads a string field behind optional white space: `NIL`, a quoted
/// string or a literal.
///
/// Returns the field, `None` for `NIL`, and the offset behind it; `None`
/// where no such field stands there.
pub fn parse_string(buf: &[u8], i: usize) -> (r: Option<(Option<String>, usize)>)
    ensures
        match r {
            Some((s, end)) => string_at(buf@, i as int) == Some(
                (
                    match s {
                        Some(t) => Some(t@),
                        None => None,
                    },
                    end as int,
                ),
            ),
            None => string_at(buf@, i as int) is None,
        },
        r matches Some((_, end)) ==> i < end <= buf@.len(),
{
    let len = buf.len();
    let mut j = i;
    skip_ws(buf, &mut j);
    if j >= len || len - j < 3 {
        return None;
    }
    if buf[j] == 78 && buf[j + 1] == 73 && buf[j + 2] == 76 {
        assert(buf@.subrange(j as int, j + 3) =~= nil());
        return Some((None, j + 3));
    }
    proof {
        if buf@.subrange(j as int, j + 3) == nil() {
            let w = buf@.subrange(j as int, j + 3);
            assert(w[0] == 78 && w[1] == 73 && w[2] == 76);
        }
    }
    if buf[j] == 34 {
        match parse_quoted(buf, j + 1) {
            Some((s, n)) => Some((Some(s), n)),
            None => None,
        }
    } else if buf[j] == 123 {
        match parse_literal(buf, j) {
            Some((s, n)) => Some((Some(s), n)),
            None => None,
        }
    } else {
        None
    }
}

fn find_from(buf: &[u8], i: usize, needle: &[u8]) -> (r: Option<usize>)
    requires
        i <= buf@.len(),
    ensures
        match r {
            Some(at) => next_occurrence(buf@, i as int, needle@) == Some(at as int),
            None => next_occurrence(buf@, i as int, needle@) is None,
        },
        r matches Some(at) ==> i <= at && at + needle@.len() <= buf@.len(),
{
    let len = buf.len();
    match find_subsequence(slice_subrange(buf, i, len), needle) {
        Some(pos) => {
            proof {
                assert(buf@.subrange(i as int, len as int) =~= buf@.skip(i as int));
                lemma_first_occurrence_some(buf@.skip(i as int), needle@);
                assert(occurs_at(buf@.skip(i as int), needle@, pos as int));
            }
            Some(i + pos)
        },
        None => {
            assert(buf@.subrange(i as int, len as int) =~= buf@.skip(i as int));
            None
        },
    }
}

fn scan_one(buf: &[u8], i: usize) -> (r: Option<(Option<(u32, Envelope)>, usize)>)
    requires
        i <= buf@.len(),
    ensures
        match r {
            Some((found, next)) => scan_round(buf@, i as int) == Some(
                (
                    match found {
                        Some((n, e)) => Some((n, e@)),
                        None => None,
                    },
                    next as int,
                ),
            ),
            None => scan_round(buf@, i as int) is None,
        },
        r matches Some((_, next)) ==> i < next <= buf@.len(),
{
    let marker: [u8; 2] = [42, 32];
    let fetch: [u8; 7] = [32, 70, 69, 84, 67, 72, 32];
    let envelope: [u8; 10] = [69, 78, 86, 69, 76, 79, 80, 69, 32, 40];
    assert(marker@ =~= star());
    assert(fetch@ =~= fetch_word());
    assert(envelope@ =~= envelope_word());
    assert(star().len() == 2 && fetch_word().len() == 7 && envelope_word().len() == 10);
    let len = buf.len();
    let at = match find_from(buf, i, marker.as_slice()) {
        Some(at) => at,
        None => {
            return None;
        },
    };
    let start = at + 2;
    let (num, after_num) = match parse_number(buf, start) {
        Some(v) => v,
        None => {
            return Some((None, start));
        },
    };
    let f = match find_from(buf, after_num, fetch.as_slice()) {
        Some(f) => f,
        None => {
            return Some((None, after_num));
        },
    };
    let e = match find_from(buf, f + 7, envelope.as_slice()) {
        Some(e) => e,
        None => {
            return Some((None, f + 7));
        },
    };
    let next = match parse_string(buf, e + 10) {
        Some((_, next)) => next,
        None => {
            return Some((None, e + 10));
        },
    };
    match parse_string(buf, next) {
        Some((subject, last)) => Some((Some((num, Envelope { subject })), last)),
        None => Some((Some((num, Envelope { subject: None })), next)),
    }
}

/// Extracts the envelopes of the fetch responses in `buf`, the text of a
/// command's response lines joined together.
///
/// Each envelope comes with the number that its line opens with, in the
/// order of the lines. Text that has not the form of a fetch response with
/// an envelope is passed over, and a subject that cannot be read is `None`:
/// the scan never fails.
pub fn fetch_envelopes(buf: &[u8]) -> (res: Vec<(u32, Envelope)>)
    ensures
        envelope_views(res@) == envelopes_from(buf@, 0),
{
    let mut res: Vec<(u32, Envelope)> = Vec::new();
    let mut i: usize = 0;
    assert(envelope_views(res@) =~= Seq::<(u32, EnvelopeView)>::empty());
    assert(envelope_views(res@) + envelopes_from(buf@, 0) =~= envelopes_from(buf@, 0));
    loop
        invariant_except_break
            i <= buf@.len(),
            envelope_views(res@) + envelopes_from(buf@, i as int) == envelopes_from(buf@, 0),
        ensures
            envelope_views(res@) == envelopes_from(buf@, 0),
        decreases buf@.len() - i,
    {
        let ghost before = envelope_views(res@);
        match scan_one(buf, i) {
            None => {
                assert(before + Seq::<(u32, EnvelopeView)>::empty() =~= before);
                break ;
            },
            Some((found, next)) => {
                let ghost rest = envelopes_from(buf@, next as int);
                match found {
                    Some(e) => {
                        assert(envelope_views(res@.push(e)) =~= before.push((e.0, e.1@)));
                        assert(before.push((e.0, e.1@)) + rest =~= before + (seq![(e.0, e.1@)]
                            + rest));
                        res.push(e);
                    },
                    None => {
                        assert(before + (Seq::<(u32, EnvelopeView)>::empty() + rest) =~= before
                            + rest);
                    },
                }
                i = next;
            },
        }
    }
    res
}

} // verus!
