//! Wire-level text formatting shared by the command serialisers.

use vstd::prelude::*;
use vstd::string::StringExecFns;

verus! {

/// The decimal digit that stands for `d`, for `d` below ten.
pub open spec fn digit_char(d: nat) -> char {
    if d == 0 {
        '0'
    } else if d == 1 {
        '1'
    } else if d == 2 {
        '2'
    } else if d == 3 {
        '3'
    } else if d == 4 {
        '4'
    } else if d == 5 {
        '5'
    } else if d == 6 {
        '6'
    } else if d == 7 {
        '7'
    } else if d == 8 {
        '8'
    } else {
        '9'
    }
}

/// The shortest decimal numeral of `n`: no leading zero, `"0"` for zero.
pub open spec fn decimal(n: nat) -> Seq<char>
    decreases n,
{
    if n < 10 {
        seq![digit_char(n)]
    } else {
        decimal(n / 10).push(digit_char(n % 10))
    }
}


/// `String::push` of std: the string grows by exactly the character given.
#[verifier::external_body]
pub(crate) fn push_char(s: &mut String, c: char)
    ensures
        final(s)@ == old(s)@.push(c),
{
    s.push(c);
}

/// What one character becomes inside a quoted string: a quote or a backslash
/// is preceded by a backslash, every other character stands for itself.
pub open spec fn escape_char(c: char) -> Seq<char> {
    if c == '"' || c == '\\' {
        seq!['\\', c]
    } else {
        seq![c]
    }
}

/// The characters of `s`, each escaped for use inside a quoted string.
pub open spec fn escaped(s: Seq<char>) -> Seq<char>
    decreases s.len(),
{
    if s.len() == 0 {
        Seq::empty()
    } else {
        escaped(s.drop_last()) + escape_char(s.last())
    }
}

/// `s` as a quoted string: escaped, between two double quotes.
pub open spec fn quoted(s: Seq<char>) -> Seq<char> {
    seq!['"'] + escaped(s) + seq!['"']
}

/// Whether `c` may stand in an unquoted atom: printable ASCII other than
/// space and the characters the wire grammar reserves,
/// `(`, `)`, `{`, `%`, `*`, `"`, `\` and `]`.
pub open spec fn is_atom_char(c: char) -> bool {
    &&& 0x21 <= c as u32 <= 0x7e
    &&& c != '('
    &&& c != ')'
    &&& c != '{'
    &&& c != '%'
    &&& c != '*'
    &&& c != '"'
    &&& c != '\\'
    &&& c != ']'
}

/// Whether `s` can be sent as it is: not empty and free of special characters.
pub open spec fn is_atom(s: Seq<char>) -> bool {
    s.len() > 0 && forall|i: int| 0 <= i < s.len() ==> is_atom_char(#[trigger] s[i])
}

/// The wire form of an arbitrary string argument: the string itself when it
/// is an atom, its quoted form otherwise.
pub open spec fn astring(s: Seq<char>) -> Seq<char> {
    if is_atom(s) {
        s
    } else {
        quoted(s)
    }
}

fn atom_char(c: char) -> (b: bool)
    ensures
        b == is_atom_char(c),
{
    let n: u32 = c as u32;
    0x21 <= n && n <= 0x7e && c != '(' && c != ')' && c != '{' && c != '%' && c != '*' && c != '"'
        && c != '\\' && c != ']'
}

/// Renders a string argument for the wire. A value made only of atom
/// characters is sent bare; anything else, the empty string included, is
/// quoted, with embedded quotes and backslashes escaped.
pub fn quote_astring(input: &str) -> (out: String)
    ensures
        out@ == astring(input@),
{
    let mut body = String::new();
    push_char(&mut body, '"');
    let mut plain = true;
    let mut count: usize = 0;
    let mut it = input.chars();
    for c in iter: it
        invariant
            iter.seq() == input@,
            body@ == seq!['"'] + escaped(input@.take(iter.index() as int)),
            plain == forall|i: int| 0 <= i < iter.index() ==> is_atom_char(#[trigger] input@[i]),
    {
        if c == '"' || c == '\\' {
            push_char(&mut body, '\\');
        }
        push_char(&mut body, c);
        if !atom_char(c) {
            plain = false;
        }
        proof {
            let k = iter.index() as int;
            assert(input@.take(k + 1).drop_last() == input@.take(k));
        }
    }
    proof {
        assert(input@.take(input@.len() as int) == input@);
    }
    if plain && !input.is_empty() {
        input.to_owned()
    } else {
        push_char(&mut body, '"');
        body
    }
}


/// An ASCII decimal digit.
pub open spec fn is_digit_char(c: char) -> bool {
    48 <= c as u32 <= 57
}

/// Whether `s` holds digits only.
pub open spec fn all_digits(s: Seq<char>) -> bool {
    forall|i: int| 0 <= i < s.len() ==> is_digit_char(#[trigger] s[i])
}

/// The number that a string of decimal digits denotes.
pub open spec fn number_value(s: Seq<char>) -> nat
    decreases s.len(),
{
    if s.len() == 0 {
        0
    } else {
        number_value(s.drop_last()) * 10 + (s.last() as u32 - 48) as nat
    }
}

/// A numeral denotes the number it was made of.
pub proof fn lemma_decimal_value(n: nat)
    ensures
        number_value(decimal(n)) == n,
        decimal(n).len() > 0,
    decreases n,
{
    if n < 10 {
        assert(decimal(n).drop_last() =~= Seq::<char>::empty());
        assert(number_value(Seq::<char>::empty()) == 0);
    } else {
        lemma_decimal_value(n / 10);
        assert(decimal(n).drop_last() =~= decimal(n / 10));
    }
}

/// A zero in front of a string of digits leaves its value as it is.
pub proof fn lemma_leading_zero(s: Seq<char>)
    ensures
        number_value(seq!['0'] + s) == number_value(s),
    decreases s.len(),
{
    let z = seq!['0'] + s;
    if s.len() == 0 {
        assert(z.drop_last() =~= Seq::<char>::empty());
        assert(number_value(Seq::<char>::empty()) == 0);
    } else {
        lemma_leading_zero(s.drop_last());
        assert(z.drop_last() =~= seq!['0'] + s.drop_last());
    }
}

fn digit(d: u64) -> (c: char)
    requires
        d < 10,
    ensures
        c == digit_char(d as nat),
{
    if d == 0 {
        '0'
    } else if d == 1 {
        '1'
    } else if d == 2 {
        '2'
    } else if d == 3 {
        '3'
    } else if d == 4 {
        '4'
    } else if d == 5 {
        '5'
    } else if d == 6 {
        '6'
    } else if d == 7 {
        '7'
    } else if d == 8 {
        '8'
    } else {
        '9'
    }
}

/// Appends the decimal numeral of `n`.
pub fn push_decimal(out: &mut String, n: u64)
    ensures
        final(out)@ == old(out)@ + decimal(n as nat),
    decreases n,
{
    if n >= 10 {
        push_decimal(out, n / 10);
        push_char(out, digit(n % 10));
        assert(out@ =~= old(out)@ + decimal(n as nat));
    } else {
        push_char(out, digit(n));
        assert(out@ =~= old(out)@ + decimal(n as nat));
    }
}

/// What is written on the wire for a value.
pub trait WireText {
    /// The characters that stand for the value.
    spec fn text(&self) -> Seq<char>;

    /// The characters that stand for the value, as a string.
    fn to_string(&self) -> (s: String)
        ensures
            s@ == self.text(),
    ;
}

/// The wire texts of a list of values.
pub open spec fn texts<T: WireText>(items: Seq<T>) -> Seq<Seq<char>> {
    items.map_values(|t: T| t.text())
}

/// The items, one after the other, with `sep` between each two.
pub open spec fn join(items: Seq<Seq<char>>, sep: Seq<char>) -> Seq<char>
    decreases items.len(),
{
    if items.len() == 0 {
        Seq::empty()
    } else if items.len() == 1 {
        items[0]
    } else {
        join(items.drop_last(), sep) + sep + items.last()
    }
}

/// Appends the wire texts of `items`, a space between each two.
pub fn push_joined<T: WireText>(out: &mut String, items: &[T])
    ensures
        final(out)@ == old(out)@ + join(texts(items@), " "@),
{
    let mut i: usize = 0;
    assert(texts(items@.take(0)) =~= Seq::<Seq<char>>::empty());
    assert(out@ =~= old(out)@ + join(texts(items@.take(0)), " "@));
    while i < items.len()
        invariant
            i <= items@.len(),
            out@ == old(out)@ + join(texts(items@.take(i as int)), " "@),
        decreases items@.len() - i,
    {
        let ghost before = texts(items@.take(i as int));
        let ghost after = texts(items@.take(i + 1));
        if i > 0 {
            out.append(" ");
        }
        let t = items[i].to_string();
        out.append(t.as_str());
        proof {
            assert(after.drop_last() =~= before);
            assert(after.last() == items@[i as int].text());
            if i == 0 {
                assert(join(before, " "@) =~= Seq::<char>::empty());
                assert(out@ =~= old(out)@ + join(after, " "@));
            } else {
                assert(out@ =~= old(out)@ + join(after, " "@));
            }
        }
        i += 1;
    }
    assert(items@.take(items@.len() as int) =~= items@);
}

/// The items between parentheses, a space between each two.
pub open spec fn paren_joined(items: Seq<Seq<char>>) -> Seq<char> {
    "("@ + join(items, " "@) + ")"@
}

/// The wire texts of `items` between parentheses, a space between each two.
pub fn join_paren_space<T: WireText>(items: &[T]) -> (s: String)
    ensures
        s@ == paren_joined(texts(items@)),
{
    let mut s = String::from_str("(");
    push_joined(&mut s, items);
    s.append(")");
    s
}


/// The characters of a string, in a vector.
pub fn chars_of(s: &str) -> (v: Vec<char>)
    ensures
        v@ == s@,
{
    let mut v: Vec<char> = Vec::new();
    let mut it = s.chars();
    for c in iter: it
        invariant
            iter.seq() == s@,
            v@ == s@.take(iter.index() as int),
    {
        v.push(c);
        assert(s@.take(iter.index() + 1) =~= s@.take(iter.index() as int).push(c));
    }
    assert(s@.take(s@.len() as int) =~= s@);
    v
}

/// The string made of the given characters.
pub fn string_of(chars: &[char]) -> (s: String)
    ensures
        s@ == chars@,
{
    let mut s = String::new();
    let mut i: usize = 0;
    while i < chars.len()
        invariant
            i <= chars@.len(),
            s@ == chars@.take(i as int),
        decreases chars@.len() - i,
    {
        push_char(&mut s, chars[i]);
        assert(chars@.take(i + 1) =~= chars@.take(i as int).push(chars@[i as int]));
        i += 1;
    }
    assert(chars@.take(chars@.len() as int) =~= chars@);
    s
}

/// Whether the characters are those of the string.
pub fn same_text(chars: &[char], text: &str) -> (r: bool)
    ensures
        r == (chars@ == text@),
{
    let other = chars_of(text);
    if chars.len() != other.len() {
        return false;
    }
    let mut i: usize = 0;
    while i < chars.len()
        invariant
            i <= chars@.len(),
            chars@.len() == other@.len(),
            other@ == text@,
            forall|j: int| 0 <= j < i ==> chars@[j] == other@[j],
        decreases chars@.len() - i,
    {
        if chars[i] != other[i] {
            return false;
        }
        i += 1;
    }
    assert(chars@ =~= other@);
    true
}

} // verus!
