//! Mailbox data, and the parsers of mailbox names, flag lists and sequence
//! sets as they are written in text.

use crate::format::{all_digits, chars_of, is_digit_char, number_value, same_text,
    string_of};
use vstd::prelude::*;
use vstd::slice::slice_subrange;
use vstd::string::StringExecFns;

verus! {

/// A flag: one of the six that the protocol defines, or a keyword.
#[derive(Debug, Clone, PartialEq)]
pub enum Flag {
    System(SystemFlag),
    Keyword(String),
}

/// The flags that the protocol defines.
#[derive(Debug, Clone, Copy, PartialEq, Eq, Structural)]
pub enum SystemFlag {
    Seen,
    Answered,
    Flagged,
    Deleted,
    Draft,
    Recent,
}

/// The mathematical value of a [`Flag`].
pub enum FlagView {
    System(SystemFlag),
    Keyword(Seq<char>),
}

impl View for Flag {
    type V = FlagView;

    open spec fn view(&self) -> FlagView {
        match self {
            Flag::System(f) => FlagView::System(*f),
            Flag::Keyword(k) => FlagView::Keyword(k@),
        }
    }
}

/// The state of a mailbox as a status response reports it.
#[derive(Debug, Clone, PartialEq)]
pub struct MailboxStatus {
    pub messages: u32,
    pub recent: u32,
    pub uid_next: u32,
    pub uid_validity: u32,
    pub unseen: Option<u32>,
    pub flags: Vec<Flag>,
    pub permanent_flags: Vec<Flag>,
}

/// A set of message numbers. In a range, an end of `None` stands for `*`,
/// the last message; so does the number `u32::MAX` as a single number or
/// as the start of a range.
#[derive(Debug, PartialEq)]
pub enum SequenceSet {
    Single(u32),
    Range(u32, Option<u32>),
    List(Vec<SequenceSet>),
}

/// What is known of a mailbox once it is selected.
#[derive(Debug, Clone, PartialEq)]
pub struct MailboxInfo {
    pub name: String,
    pub flags: Vec<Flag>,
    pub permanent_flags: Vec<Flag>,
    pub uid_validity: u32,
    pub uid_next: u32,
    pub exists: u32,
    pub recent: u32,
}

/// Whether two sequence sets are the same, part by part.
pub open spec fn same_sequence(a: SequenceSet, b: SequenceSet) -> bool
    decreases a,
{
    match (a, b) {
        (SequenceSet::Single(x), SequenceSet::Single(y)) => x == y,
        (SequenceSet::Range(x, e), SequenceSet::Range(y, f)) => x == y && e == f,
        (SequenceSet::List(v), SequenceSet::List(w)) => v@.len() == w@.len() && forall|i: int|
            0 <= i < v@.len() ==> same_sequence(#[trigger] v@[i], w@[i]),
        _ => false,
    }
}

fn sequence_copy(s: &SequenceSet) -> (r: SequenceSet)
    ensures
        same_sequence(*s, r),
    decreases s,
{
    match s {
        SequenceSet::Single(n) => SequenceSet::Single(*n),
        SequenceSet::Range(a, b) => SequenceSet::Range(*a, *b),
        SequenceSet::List(v) => {
            let mut out: Vec<SequenceSet> = Vec::new();
            let mut i: usize = 0;
            while i < v.len()
                invariant
                    i <= v@.len(),
                    *s == SequenceSet::List(*v),
                    out@.len() == i,
                    forall|j: int| 0 <= j < i ==> same_sequence(#[trigger] v@[j], out@[j]),
                decreases v@.len() - i,
            {
                proof {
                    vstd::std_specs::vec::axiom_vec_index_decreases(*v, i as int);
                    assert(decreases_to!(*s => s->List_0));
                }
                out.push(sequence_copy(&v[i]));
                i += 1;
            }
            SequenceSet::List(out)
        },
    }
}

impl Clone for SequenceSet {
    fn clone(&self) -> (r: Self)
        ensures
            same_sequence(*self, r),
    {
        sequence_copy(self)
    }
}

/// White space: the characters with the Unicode property `White_Space`.
pub open spec fn is_white(c: char) -> bool {
    let n = c as u32;
    (9 <= n <= 13) || n == 0x20 || n == 0x85 || n == 0xa0 || n == 0x1680 || (0x2000 <= n <= 0x200a)
        || n == 0x2028 || n == 0x2029 || n == 0x202f || n == 0x205f || n == 0x3000
}

/// The first offset at or behind `i` that holds no white space.
pub open spec fn skip_white(s: Seq<char>, i: int) -> int
    decreases s.len() - i,
{
    if 0 <= i < s.len() && is_white(s[i]) {
        skip_white(s, i + 1)
    } else {
        i
    }
}

/// The first offset at or behind `i` that holds white space, or the end.
pub open spec fn skip_word(s: Seq<char>, i: int) -> int
    decreases s.len() - i,
{
    if 0 <= i < s.len() && !is_white(s[i]) {
        skip_word(s, i + 1)
    } else {
        i
    }
}

/// The length of `s` without the white space at its end.
pub open spec fn trimmed_len(s: Seq<char>) -> int
    decreases s.len(),
{
    if s.len() > 0 && is_white(s.last()) {
        trimmed_len(s.drop_last())
    } else {
        s.len() as int
    }
}

/// `s` without the white space at its start and at its end.
pub open spec fn trimmed(s: Seq<char>) -> Seq<char> {
    let a = skip_white(s, 0);
    let e = trimmed_len(s);
    if a < e {
        s.subrange(a, e)
    } else {
        Seq::empty()
    }
}

/// The first word of `s`: what stands between the white space at its start
/// and the next white space. It is empty where `s` holds nothing else.
pub open spec fn first_word(s: Seq<char>) -> Seq<char> {
    let a = skip_white(s, 0);
    if a < s.len() {
        s.subrange(a, skip_word(s, a))
    } else {
        Seq::empty()
    }
}

/// What [`parse_mailbox_name`] returns for an input.
pub open spec fn mailbox_name(s: Seq<char>) -> Result<Seq<char>, Seq<char>> {
    if s.len() == 0 {
        Err("Empty mailbox name"@)
    } else {
        Ok(first_word(s))
    }
}

/// What a result that holds strings says, as a value of sequences.
pub open spec fn text_result(r: Result<String, String>) -> Result<Seq<char>, Seq<char>> {
    match r {
        Ok(s) => Ok(s@),
        Err(e) => Err(e@),
    }
}

fn white(c: char) -> (r: bool)
    ensures
        r == is_white(c),
{
    let n: u32 = c as u32;
    (9 <= n && n <= 13) || n == 0x20 || n == 0x85 || n == 0xa0 || n == 0x1680 || (0x2000 <= n && n
        <= 0x200a) || n == 0x2028 || n == 0x2029 || n == 0x202f || n == 0x205f || n == 0x3000
}

fn past_white(s: &[char], i: usize) -> (j: usize)
    requires
        i <= s@.len(),
    ensures
        j == skip_white(s@, i as int),
        i <= j <= s@.len(),
        j < s@.len() ==> !is_white(s@[j as int]),
{
    let mut j = i;
    while j < s.len() && white(s[j])
        invariant
            i <= j <= s@.len(),
            skip_white(s@, j as int) == skip_white(s@, i as int),
        decreases s@.len() - j,
    {
        j += 1;
    }
    j
}

fn past_word(s: &[char], i: usize) -> (j: usize)
    requires
        i <= s@.len(),
    ensures
        j == skip_word(s@, i as int),
        i <= j <= s@.len(),
        i < s@.len() && !is_white(s@[i as int]) ==> i < j,
{
    let mut j = i;
    while j < s.len() && !white(s[j])
        invariant
            i <= j <= s@.len(),
            skip_word(s@, j as int) == skip_word(s@, i as int),
        decreases s@.len() - j,
    {
        j += 1;
    }
    j
}

/// Reads the name of a mailbox: the first word of the input.
///
/// Fails on the empty input alone.
pub fn parse_mailbox_name(input: &str) -> (r: Result<String, String>)
    ensures
        text_result(r) == mailbox_name(input@),
{
    let cs = chars_of(input);
    if cs.len() == 0 {
        return Err(String::from_str("Empty mailbox name"));
    }
    let a = past_white(cs.as_slice(), 0);
    if a >= cs.len() {
        let s = String::new();
        return Ok(s);
    }
    let b = past_word(cs.as_slice(), a);
    Ok(string_of(slice_subrange(cs.as_slice(), a, b)))
}

/// The flag that a word stands for: one of the six system flags where it
/// is that flag's name with the backslash before it, a keyword otherwise.
pub open spec fn flag_of(word: Seq<char>) -> FlagView {
    if word == "\\Seen"@ {
        FlagView::System(SystemFlag::Seen)
    } else if word == "\\Answered"@ {
        FlagView::System(SystemFlag::Answered)
    } else if word == "\\Flagged"@ {
        FlagView::System(SystemFlag::Flagged)
    } else if word == "\\Deleted"@ {
        FlagView::System(SystemFlag::Deleted)
    } else if word == "\\Draft"@ {
        FlagView::System(SystemFlag::Draft)
    } else if word == "\\Recent"@ {
        FlagView::System(SystemFlag::Recent)
    } else {
        FlagView::Keyword(word)
    }
}

/// The flags that the words of `s` stand for, from offset `i` on. The
/// words are what white space separates.
pub open spec fn flags_from(s: Seq<char>, i: int) -> Seq<FlagView>
    decreases s.len() - i,
{
    let a = skip_white(s, i);
    let b = skip_word(s, a);
    if i <= a < b <= s.len() {
        seq![flag_of(s.subrange(a, b))] + flags_from(s, b)
    } else {
        Seq::empty()
    }
}

/// What [`parse_flags`] returns for an input: the flags between the
/// parentheses that enclose the input, white space around them aside.
pub open spec fn flag_list(s: Seq<char>) -> Result<Seq<FlagView>, Seq<char>> {
    let t = trimmed(s);
    if t.len() >= 2 && t.first() == '(' && t.last() == ')' {
        Ok(flags_from(t.subrange(1, t.len() - 1), 0))
    } else {
        Err("Flags must be enclosed in parentheses"@)
    }
}

/// The values of a list of flags.
pub open spec fn flag_views(v: Seq<Flag>) -> Seq<FlagView> {
    v.map_values(|f: Flag| f@)
}

/// What a result of [`parse_flags`] says, as a value of sequences.
pub open spec fn flags_result(r: Result<Vec<Flag>, String>) -> Result<Seq<FlagView>, Seq<char>> {
    match r {
        Ok(v) => Ok(flag_views(v@)),
        Err(e) => Err(e@),
    }
}

fn flag_from_word(word: &[char]) -> (f: Flag)
    ensures
        f@ == flag_of(word@),
{
    if same_text(word, "\\Seen") {
        Flag::System(SystemFlag::Seen)
    } else if same_text(word, "\\Answered") {
        Flag::System(SystemFlag::Answered)
    } else if same_text(word, "\\Flagged") {
        Flag::System(SystemFlag::Flagged)
    } else if same_text(word, "\\Deleted") {
        Flag::System(SystemFlag::Deleted)
    } else if same_text(word, "\\Draft") {
        Flag::System(SystemFlag::Draft)
    } else if same_text(word, "\\Recent") {
        Flag::System(SystemFlag::Recent)
    } else {
        Flag::Keyword(string_of(word))
    }
}

fn trimmed_end(s: &[char]) -> (e: usize)
    ensures
        e == trimmed_len(s@),
        e <= s@.len(),
{
    let mut e = s.len();
    assert(s@.take(e as int) =~= s@);
    while e > 0 && white(s[e - 1])
        invariant
            e <= s@.len(),
            trimmed_len(s@.take(e as int)) == trimmed_len(s@),
        decreases e,
    {
        assert(s@.take(e as int).drop_last() =~= s@.take(e - 1));
        e -= 1;
    }
    e
}

/// Reads a list of flags in parentheses, such as `(\Seen \Flagged $Custom)`.
///
/// Fails where the input, white space around it aside, is not enclosed in
/// parentheses.
pub fn parse_flags(input: &str) -> (r: Result<Vec<Flag>, String>)
    ensures
        flags_result(r) == flag_list(input@),
{
    let cs = chars_of(input);
    let s = cs.as_slice();
    let a = past_white(s, 0);
    let e = trimmed_end(s);
    if !(a < e && e - a >= 2 && s[a] == '(' && s[e - 1] == ')') {
        return Err(String::from_str("Flags must be enclosed in parentheses"));
    }
    let inner = slice_subrange(s, a + 1, e - 1);
    assert(inner@ =~= trimmed(input@).subrange(1, trimmed(input@).len() - 1));
    let mut flags: Vec<Flag> = Vec::new();
    let mut i: usize = 0;
    assert(flag_views(flags@) + flags_from(inner@, 0) =~= flags_from(inner@, 0));
    loop
        invariant_except_break
            i <= inner@.len(),
            flag_views(flags@) + flags_from(inner@, i as int) == flags_from(inner@, 0),
        ensures
            flag_views(flags@) == flags_from(inner@, 0),
        decreases inner@.len() - i,
    {
        let ghost before = flag_views(flags@);
        let from = past_white(inner, i);
        if from >= inner.len() {
            assert(before + Seq::<FlagView>::empty() =~= before);
            break ;
        }
        let to = past_word(inner, from);
        let flag = flag_from_word(slice_subrange(inner, from, to));
        proof {
            let rest = flags_from(inner@, to as int);
            assert(flag_views(flags@.push(flag)) =~= before.push(flag@));
            assert(before.push(flag@) + rest =~= before + (seq![flag@] + rest));
        }
        flags.push(flag);
        i = to;
    }
    Ok(flags)
}

/// The number that `s` denotes as a whole: one or more decimal digits, a
/// plus sign before them if one likes, whose value 32 bits can hold.
pub open spec fn number_of(s: Seq<char>) -> Option<u32> {
    let d = if s.len() > 0 && s[0] == '+' {
        s.skip(1)
    } else {
        s
    };
    if d.len() > 0 && all_digits(d) && number_value(d) <= u32::MAX {
        Some(number_value(d) as u32)
    } else {
        None
    }
}

/// The first offset at or behind `i` that holds `c`, or the end.
pub open spec fn find_char(s: Seq<char>, c: char, i: int) -> int
    decreases s.len() - i,
{
    if 0 <= i < s.len() && s[i] != c {
        find_char(s, c, i + 1)
    } else {
        i
    }
}

/// Whether `c` occurs in `s`.
pub open spec fn has_char(s: Seq<char>, c: char) -> bool {
    find_char(s, c, 0) < s.len()
}

/// The sequence set that a text without comma stands for, or the reason
/// why it stands for none.
///
/// With a colon it is a range: a number, the colon, and a number or `*`;
/// a second colon is an error. Without one it is `*`, which reads as the
/// range from `u32::MAX` with an open end, or a single number.
pub open spec fn single_sequence(s: Seq<char>) -> Result<SequenceSet, Seq<char>> {
    if has_char(s, ':') {
        let i = find_char(s, ':', 0);
        let a = s.take(i);
        let b = s.skip(i + 1);
        if has_char(b, ':') {
            Err("Invalid range format: "@ + s)
        } else {
            match number_of(a) {
                None => Err("Invalid start number: "@ + a),
                Some(start) => if b == seq!['*'] {
                    Ok(SequenceSet::Range(start, None))
                } else {
                    match number_of(b) {
                        None => Err("Invalid end number: "@ + b),
                        Some(end) => Ok(SequenceSet::Range(start, Some(end))),
                    }
                },
            }
        }
    } else if s == seq!['*'] {
        Ok(SequenceSet::Range(u32::MAX, None))
    } else {
        match number_of(s) {
            None => Err("Invalid number: "@ + s),
            Some(n) => Ok(SequenceSet::Single(n)),
        }
    }
}

/// What a parser of one sequence owes for a text.
pub open spec fn single_outcome(s: Seq<char>, r: Result<SequenceSet, String>) -> bool {
    match r {
        Ok(set) => single_sequence(s) == Ok::<SequenceSet, Seq<char>>(set),
        Err(e) => single_sequence(s) == Err::<SequenceSet, Seq<char>>(e@),
    }
}

/// The pieces of `s` from offset `i` on that commas separate.
pub open spec fn pieces(s: Seq<char>, i: int) -> Seq<Seq<char>>
    decreases s.len() - i,
{
    let j = find_char(s, ',', i);
    if 0 <= i <= j < s.len() {
        seq![s.subrange(i, j)] + pieces(s, j + 1)
    } else if 0 <= i <= s.len() {
        seq![s.subrange(i, s.len() as int)]
    } else {
        Seq::empty()
    }
}

/// What [`parse_sequence_set`] owes for a text.
///
/// A text without comma is read as one sequence. A text with commas is
/// read piece by piece: it is the list of what the pieces stand for, in
/// their order, or the error of the first piece that stands for nothing.
pub open spec fn sequence_set_outcome(s: Seq<char>, r: Result<SequenceSet, String>) -> bool {
    if !has_char(s, ',') {
        single_outcome(s, r)
    } else {
        let ps = pieces(s, 0);
        match r {
            Ok(set) => {
                &&& set matches SequenceSet::List(v)
                &&& v@.len() == ps.len()
                &&& forall|k: int|
                    0 <= k < ps.len() ==> single_sequence(#[trigger] ps[k]) == Ok::<
                        SequenceSet,
                        Seq<char>,
                    >(v@[k])
            },
            Err(e) => exists|k: int|
                {
                    &&& 0 <= k < ps.len()
                    &&& single_sequence(#[trigger] ps[k]) == Err::<SequenceSet, Seq<char>>(e@)
                    &&& forall|j: int| 0 <= j < k ==> single_sequence(#[trigger] ps[j]) is Ok
                },
        }
    }
}

fn position(s: &[char], c: char, i: usize) -> (j: usize)
    requires
        i <= s@.len(),
    ensures
        j == find_char(s@, c, i as int),
        i <= j <= s@.len(),
{
    let mut j = i;
    while j < s.len() && s[j] != c
        invariant
            i <= j <= s@.len(),
            find_char(s@, c, j as int) == find_char(s@, c, i as int),
        decreases s@.len() - j,
    {
        j += 1;
    }
    j
}

proof fn lemma_number_grows(s: Seq<char>)
    requires
        s.len() > 0,
        is_digit_char(s.last()),
    ensures
        number_value(s) >= number_value(s.drop_last()),
        number_value(s) == number_value(s.drop_last()) * 10 + (s.last() as u32 - 48),
{
}

fn number(s: &[char]) -> (r: Option<u32>)
    ensures
        r == number_of(s@),
{
    let len = s.len();
    let start: usize = if len > 0 && s[0] == '+' {
        1
    } else {
        0
    };
    let ghost d = s@.skip(start as int);
    proof {
        if start == 0 {
            assert(d =~= s@);
        }
    }
    if start >= len {
        return None;
    }
    let mut j = start;
    let mut value: u64 = 0;
    assert(s@.subrange(start as int, start as int) =~= Seq::<char>::empty());
    while j < len
        invariant
            len == s@.len(),
            start <= j <= len,
            start < len,
            d == s@.skip(start as int),
            d == (if s@.len() > 0 && s@[0] == '+' {
                s@.skip(1)
            } else {
                s@
            }),
            forall|k: int| start <= k < j ==> is_digit_char(#[trigger] s@[k]),
            value == number_value(s@.subrange(start as int, j as int)),
            value <= u32::MAX,
        decreases len - j,
    {
        let n: u32 = s[j] as u32;
        if !(48 <= n && n <= 57) {
            assert(d[j - start] == s@[j as int]);
            assert(!is_digit_char(d[j - start]));
            return None;
        }
        proof {
            let t = s@.subrange(start as int, j + 1);
            assert(t.drop_last() =~= s@.subrange(start as int, j as int));
            lemma_number_grows(t);
        }
        let next: u64 = value * 10 + (n - 48) as u64;
        if next > 0xffff_ffff {
            proof {
                if all_digits(d) {
                    lemma_number_monotone(d, j + 1 - start);
                    assert(d.take(j + 1 - start) =~= s@.subrange(start as int, j + 1));
                }
            }
            return None;
        }
        value = next;
        j += 1;
    }
    assert(s@.subrange(start as int, len as int) =~= d);
    assert(all_digits(d)) by {
        assert forall|k: int| 0 <= k < d.len() implies is_digit_char(#[trigger] d[k]) by {
            assert(d[k] == s@[k + start]);
        }
    }
    Some(value as u32)
}

/// The value of a string of digits is at least that of each of its
/// prefixes.
proof fn lemma_number_monotone(d: Seq<char>, k: int)
    requires
        0 <= k <= d.len(),
        all_digits(d),
    ensures
        number_value(d.take(k)) <= number_value(d),
    decreases d.len() - k,
{
    if k < d.len() {
        lemma_number_monotone(d, k + 1);
        let t = d.take(k + 1);
        assert(t.drop_last() =~= d.take(k));
        assert(t.last() == d[k]);
    } else {
        assert(d.take(k) =~= d);
    }
}

fn message(prefix: &str, text: &[char]) -> (s: String)
    ensures
        s@ == prefix@ + text@,
{
    let mut s = String::from_str(prefix);
    let t = string_of(text);
    s.append(t.as_str());
    s
}

fn star_alone(s: &[char]) -> (r: bool)
    ensures
        r == (s@ == seq!['*']),
{
    if s.len() == 1 && s[0] == '*' {
        assert(s@ =~= seq!['*']);
        true
    } else {
        proof {
            if s@ == seq!['*'] {
                assert(s@.len() == 1 && s@[0] == '*');
            }
        }
        false
    }
}

fn single(s: &[char]) -> (r: Result<SequenceSet, String>)
    ensures
        single_outcome(s@, r),
{
    let len = s.len();
    let i = position(s, ':', 0);
    if i < len {
        let a = slice_subrange(s, 0, i);
        let b = slice_subrange(s, i + 1, len);
        assert(a@ =~= s@.take(i as int));
        assert(b@ =~= s@.skip(i + 1));
        if position(b, ':', 0) < b.len() {
            return Err(message("Invalid range format: ", s));
        }
        let start = match number(a) {
            Some(n) => n,
            None => {
                return Err(message("Invalid start number: ", a));
            },
        };
        if star_alone(b) {
            return Ok(SequenceSet::Range(start, None));
        }
        match number(b) {
            Some(end) => Ok(SequenceSet::Range(start, Some(end))),
            None => Err(message("Invalid end number: ", b)),
        }
    } else if star_alone(s) {
        Ok(SequenceSet::Range(u32::MAX, None))
    } else {
        match number(s) {
            Some(n) => Ok(SequenceSet::Single(n)),
            None => Err(message("Invalid number: ", s)),
        }
    }
}

/// Reads one sequence: a number, `*`, or a range such as `1:5` or `1:*`.
pub fn parse_single_sequence(input: &str) -> (r: Result<SequenceSet, String>)
    ensures
        single_outcome(input@, r),
{
    let cs = chars_of(input);
    single(cs.as_slice())
}

/// Reads a sequence set such as `1:*`, `1,3` or `1:5`.
///
/// The start of a range may exceed its end: such a range is read as it is
/// written, and no message belongs to it.
pub fn parse_sequence_set(input: &str) -> (r: Result<SequenceSet, String>)
    ensures
        sequence_set_outcome(input@, r),
{
    let cs = chars_of(input);
    let s = cs.as_slice();
    let len = s.len();
    if position(s, ',', 0) >= len {
        return single(s);
    }
    let ghost ps = pieces(s@, 0);
    let mut parts: Vec<SequenceSet> = Vec::new();
    let mut i: usize = 0;
    assert(Seq::<Seq<char>>::empty() + pieces(s@, 0) =~= ps);
    loop
        invariant_except_break
            len == s@.len(),
            s@ == input@,
            has_char(input@, ','),
            i <= len,
            ps == pieces(s@, 0),
            parts@.len() <= ps.len(),
            ps.take(parts@.len() as int) + pieces(s@, i as int) == ps,
            forall|k: int|
                0 <= k < parts@.len() ==> single_sequence(#[trigger] ps[k]) == Ok::<
                    SequenceSet,
                    Seq<char>,
                >(parts@[k]),
        ensures
            parts@.len() == ps.len(),
            ps == pieces(input@, 0),
            forall|k: int|
                0 <= k < parts@.len() ==> single_sequence(#[trigger] ps[k]) == Ok::<
                    SequenceSet,
                    Seq<char>,
                >(parts@[k]),
        decreases len - i,
    {
        let ghost done = parts@.len() as int;
        let j = position(s, ',', i);
        let piece = slice_subrange(s, i, j);
        proof {
            let rest = pieces(s@, i as int);
            assert(rest[0] == piece@);
            assert(ps[done] == (ps.take(done) + rest)[done]);
            assert(ps[done] == piece@);
        }
        match single(piece) {
            Ok(set) => {
                parts.push(set);
            },
            Err(e) => {
                proof {
                    assert forall|k: int| 0 <= k < done implies single_sequence(
                        #[trigger] ps[k],
                    ) is Ok by {}
                    assert(single_sequence(ps[done]) == Err::<SequenceSet, Seq<char>>(e@));
                }
                return Err(e);
            },
        }
        if j >= len {
            proof {
                let rest = pieces(s@, i as int);
                assert(rest.len() == 1);
                assert((ps.take(done) + rest).len() == done + 1);
            }
            break ;
        }
        proof {
            let rest = pieces(s@, i as int);
            let next = pieces(s@, j + 1);
            assert(rest =~= seq![piece@] + next);
            assert(ps.take(done + 1) =~= ps.take(done).push(ps[done]));
            assert(ps.take(done + 1) + next =~= ps.take(done) + rest);
        }
        i = j + 1;
    }
    Ok(SequenceSet::List(parts))
}

/// Whether a message number belongs to a sequence set, in a mailbox whose
/// last message has the number `max`.
///
/// `u32::MAX` as a single number or as the start of a range stands for
/// `max`, and so does the open end of a range. A range whose start exceeds
/// its end holds no message. A list holds what any of its members holds.
pub open spec fn matches_sequence(seq: SequenceSet, msg: u32, max: u32) -> bool
    decreases seq,
{
    match seq {
        SequenceSet::Single(n) => if n == u32::MAX {
            msg == max
        } else {
            msg == n
        },
        SequenceSet::Range(start, end) => {
            let first = if start == u32::MAX {
                max
            } else {
                start
            };
            let last = match end {
                Some(e) => e,
                None => max,
            };
            first <= msg <= last
        },
        SequenceSet::List(v) => exists|i: int|
            0 <= i < v@.len() && matches_sequence(#[trigger] v@[i], msg, max),
    }
}

/// Checks whether a message number belongs to a sequence set.
pub fn sequence_matches(seq: &SequenceSet, msg_num: u32, max_msg: u32) -> (r: bool)
    ensures
        r == matches_sequence(*seq, msg_num, max_msg),
    decreases seq,
{
    match seq {
        SequenceSet::Single(n) => {
            if *n == u32::MAX {
                msg_num == max_msg
            } else {
                msg_num == *n
            }
        },
        SequenceSet::Range(start, end) => {
            let first = if *start == u32::MAX {
                max_msg
            } else {
                *start
            };
            let last = match end {
                Some(e) => *e,
                None => max_msg,
            };
            msg_num >= first && msg_num <= last
        },
        SequenceSet::List(v) => {
            let mut i: usize = 0;
            while i < v.len()
                invariant
                    i <= v@.len(),
                    *seq == SequenceSet::List(*v),
                    forall|k: int|
                        0 <= k < i ==> !matches_sequence(#[trigger] v@[k], msg_num, max_msg),
                decreases v@.len() - i,
            {
                proof {
                    vstd::std_specs::vec::axiom_vec_index_decreases(*v, i as int);
                    assert(decreases_to!(*seq => seq->List_0));
                }
                if sequence_matches(&v[i], msg_num, max_msg) {
                    assert(matches_sequence(v@[i as int], msg_num, max_msg));
                    return true;
                }
                i += 1;
            }
            false
        },
    }
}

} // verus!
