//! Command tags: one counter for each connection, and a tag for each
//! number it gives out.

use crate::format::{decimal, lemma_decimal_value, lemma_leading_zero, number_value, push_char,
    push_decimal};
use vstd::prelude::*;

verus! {

/// The source of the tags of one connection. It counts from one, and never
/// gives a number out twice.
#[derive(Debug)]
pub struct TagCounter {
    next: u32,
}

impl View for TagCounter {
    type V = nat;

    /// The number that the next tag will carry.
    closed spec fn view(&self) -> nat {
        self.next as nat
    }
}

/// The zeros that bring the numeral of `n` to four digits.
pub open spec fn padding(n: nat) -> Seq<char> {
    if n < 10 {
        seq!['0', '0', '0']
    } else if n < 100 {
        seq!['0', '0']
    } else if n < 1000 {
        seq!['0']
    } else {
        Seq::empty()
    }
}

/// The tag with the number `n`: the letter `A` and the decimal numeral of
/// `n`, of four digits at least.
pub open spec fn tag_text(n: nat) -> Seq<char> {
    seq!['A'] + padding(n) + decimal(n)
}

/// The number of a tag can be read off its text.
pub proof fn lemma_tag_number(n: nat)
    ensures
        number_value(tag_text(n).skip(1)) == n,
{
    let d = decimal(n);
    lemma_decimal_value(n);
    lemma_leading_zero(d);
    lemma_leading_zero(seq!['0'] + d);
    lemma_leading_zero(seq!['0'] + (seq!['0'] + d));
    assert(seq!['0', '0'] + d =~= seq!['0'] + (seq!['0'] + d));
    assert(seq!['0', '0', '0'] + d =~= seq!['0'] + (seq!['0'] + (seq!['0'] + d)));
    assert(Seq::<char>::empty() + d =~= d);
    assert(tag_text(n).skip(1) =~= padding(n) + d);
}

/// Tags are unique: different numbers give different tags.
pub proof fn lemma_tags_differ(a: nat, b: nat)
    requires
        a != b,
    ensures
        tag_text(a) != tag_text(b),
{
    lemma_tag_number(a);
    lemma_tag_number(b);
}

impl TagCounter {
    /// A counter whose first tag carries the number one.
    pub fn new() -> (c: TagCounter)
        ensures
            c@ == 1,
    {
        TagCounter { next: 1 }
    }

    /// Whether the counter has given out every number it can.
    pub fn exhausted(&self) -> (b: bool)
        ensures
            b == (self@ >= u32::MAX),
    {
        self.next == u32::MAX
    }
}

/// Gives out the next tag, and moves the counter on by one.
pub fn next_tag(counter: &mut TagCounter) -> (tag: String)
    requires
        old(counter)@ < u32::MAX,
    ensures
        tag@ == tag_text(old(counter)@),
        final(counter)@ == old(counter)@ + 1,
{
    let n = counter.next;
    counter.next = n + 1;
    let mut tag = String::new();
    push_char(&mut tag, 'A');
    if n < 1000 {
        push_char(&mut tag, '0');
    }
    if n < 100 {
        push_char(&mut tag, '0');
    }
    if n < 10 {
        push_char(&mut tag, '0');
    }
    assert(tag@ =~= seq!['A'] + padding(n as nat));
    push_decimal(&mut tag, n as u64);
    tag
}

/// Sets the counter back to one, as for a new connection.
pub fn reset_tag_counter(counter: &mut TagCounter)
    ensures
        final(counter)@ == 1,
{
    counter.next = 1;
}

} // verus!
