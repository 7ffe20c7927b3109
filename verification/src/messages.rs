//! Messages as a caller receives them: one after the other.

use crate::error::ImapError;
use vstd::prelude::*;

verus! {

/// A message of a mailbox, as far as it is read: its subject.
#[derive(Debug, PartialEq, Eq)]
pub struct Message {
    subject: String,
}

impl View for Message {
    type V = Seq<char>;

    /// The subject.
    closed spec fn view(&self) -> Seq<char> {
        self.subject@
    }
}

/// Messages that wait to be taken, the first in front.
#[derive(Debug, PartialEq, Eq)]
pub struct Messages {
    messages: Vec<Message>,
}

/// The subjects of a list of messages.
pub open spec fn subjects(v: Seq<Message>) -> Seq<Seq<char>> {
    v.map_values(|m: Message| m@)
}

impl View for Messages {
    type V = Seq<Seq<char>>;

    /// The subjects of the messages that wait, in their order.
    closed spec fn view(&self) -> Seq<Seq<char>> {
        subjects(self.messages@)
    }
}

impl Message {
    /// A message with the given subject.
    pub fn new(subject: String) -> (m: Self)
        ensures
            m@ == subject@,
    {
        Self { subject }
    }

    /// The subject of the message.
    pub fn subject(&self) -> (s: &str)
        ensures
            s@ == self@,
    {
        self.subject.as_str()
    }
}

impl Messages {
    /// The given messages, in the order given.
    pub fn new(messages: Vec<Message>) -> (m: Self)
        ensures
            m@ == subjects(messages@),
    {
        Self { messages }
    }

    /// Takes the first of the messages that wait. Returns `Ok(None)` where
    /// none is left; it never fails.
    pub fn try_next(&mut self) -> (r: Result<Option<Message>, ImapError>)
        ensures
            r is Ok,
            old(self)@.len() == 0 ==> r == Ok::<Option<Message>, ImapError>(None) && final(self)@
                == old(self)@,
            old(self)@.len() > 0 ==> {
                &&& r matches Ok(Some(m))
                &&& m@ == old(self)@[0]
                &&& final(self)@ == old(self)@.drop_first()
            },
    {
        if self.messages.len() > 0 {
            let ghost before = self.messages@;
            let first = self.messages.remove(0);
            assert(subjects(self.messages@) =~= subjects(before).drop_first());
            Ok(Some(first))
        } else {
            Ok(None)
        }
    }
}

} // verus!
