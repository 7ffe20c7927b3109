//! The session: a handle whose type says how far the session has come, and
//! whose operations are those that are legal there.
//!
//! The handle does no I/O. For each command it gives the command to submit,
//! and then judges the lines that the engine collected for it.

use crate::commands::{arg_line, fetch_line, login_line, CommandBuilder, FetchItem, FetchView};
use crate::engine::model::CommandView;
use crate::engine::{response_views, CommandMessage};
use crate::error::{ImapError, ImapErrorView};
use crate::format::astring;
use crate::parser::fetch::{envelope_views, envelopes_from, fetch_envelopes};
use crate::parser::framing::wire;
use crate::parser::{Response, ResponseView, Status, StatusView};
use crate::scan::same_bytes;
use crate::tag::{next_tag, tag_text, TagCounter};
use crate::types::command::{SequenceBound, SequenceRange, SequenceSet};
use crate::types::response::{Envelope, EnvelopeView};
use vstd::prelude::*;
use vstd::string::{StrSliceExecFns, StringExecFns};
use vstd::utf8::encode_utf8;

verus! {

/// The state of a session that has been greeted and is not logged in.
#[derive(Debug, Clone, Copy, PartialEq, Eq, Structural)]
pub struct ConnectedState;

/// The state of a session that is logged in.
#[derive(Debug, Clone, Copy, PartialEq, Eq, Structural)]
pub struct AuthenticatedState;

/// Another name for [`ConnectedState`].
pub type Connected = ConnectedState;

/// Another name for [`AuthenticatedState`].
pub type Authenticated = AuthenticatedState;

/// The session handle. `State` is one of [`ConnectedState`] and
/// [`AuthenticatedState`]; a transition consumes the handle and gives the
/// handle of the next state.
#[derive(Debug)]
pub struct Client<State> {
    tags: TagCounter,
    state: State,
}

/// The status of the completion among the lines collected for the command
/// with the given tag: that of the last line, where it is the tagged
/// message with that tag.
pub open spec fn completion(tag: Seq<u8>, lines: Seq<ResponseView>) -> Option<StatusView> {
    if lines.len() > 0 && lines.last() is Tagged && lines.last()->Tagged_tag == tag {
        Some(lines.last()->Tagged_status)
    } else {
        None
    }
}

/// The error for a command whose lines hold no completion.
pub open spec fn no_completion() -> ImapErrorView {
    ImapErrorView::ConnectionFailed("Connection closed unexpectedly"@)
}

/// What judging a completion gives: success where it says `OK`, the given
/// failure where it says anything else, and the error of a lost connection
/// where there is none.
pub open spec fn judged(
    tag: Seq<u8>,
    lines: Seq<ResponseView>,
    failure: Seq<char>,
) -> Result<(), ImapErrorView> {
    match completion(tag, lines) {
        Some(StatusView::Okay) => Ok(()),
        Some(_) => Err(ImapErrorView::ConnectionFailed(failure)),
        None => Err(no_completion()),
    }
}

/// The command that carries the tag with number `n` and the given line.
pub open spec fn command_of(n: nat, line: Seq<char>, slot: u64) -> CommandView {
    CommandView { tag: encode_utf8(tag_text(n)), command: encode_utf8(line), slot }
}

/// The text of the untagged data among `lines`, as it came over the wire.
pub open spec fn untagged_text(lines: Seq<ResponseView>) -> Seq<u8>
    decreases lines.len(),
{
    if lines.len() == 0 {
        Seq::empty()
    } else {
        untagged_text(lines.drop_last()) + (if lines.last() is Untagged {
            wire(lines.last())
        } else {
            Seq::empty()
        })
    }
}

/// The envelopes in the untagged data among `lines`, in their order.
pub open spec fn fetched(lines: Seq<ResponseView>) -> Seq<EnvelopeView> {
    unnumbered(envelopes_from(untagged_text(lines), 0))
}

/// The envelopes of a numbered list, without their numbers.
pub open spec fn unnumbered(v: Seq<(u32, EnvelopeView)>) -> Seq<EnvelopeView> {
    v.map_values(|e: (u32, EnvelopeView)| e.1)
}

/// The values of a list of envelopes.
pub open spec fn plain_envelope_views(v: Seq<Envelope>) -> Seq<EnvelopeView> {
    v.map_values(|e: Envelope| e@)
}

/// The sequence set `1:count`.
pub open spec fn first_messages(count: u32) -> Seq<SequenceRange> {
    seq![SequenceRange::Range(SequenceBound::Number(1), SequenceBound::Number(count))]
}

fn judge(tag: &[u8], lines: &[Response], failure: &str) -> (r: Result<(), ImapError>)
    ensures
        match r {
            Ok(_) => judged(tag@, response_views(lines@), failure@) is Ok,
            Err(e) => judged(tag@, response_views(lines@), failure@) == Err::<(), ImapErrorView>(
                e@,
            ),
        },
{
    let n = lines.len();
    if n == 0 {
        return Err(ImapError::ConnectionFailed(String::from_str("Connection closed unexpectedly")));
    }
    assert(response_views(lines@).last() == lines@[n - 1]@);
    match &lines[n - 1] {
        Response::Tagged { tag: t, status, .. } => {
            if !same_bytes(t.as_slice(), tag) {
                return Err(
                    ImapError::ConnectionFailed(
                        String::from_str("Connection closed unexpectedly"),
                    ),
                );
            }
            match status {
                Status::Okay => Ok(()),
                _ => Err(ImapError::ConnectionFailed(String::from_str(failure))),
            }
        },
        _ => Err(ImapError::ConnectionFailed(String::from_str("Connection closed unexpectedly"))),
    }
}

impl<State> Client<State> {
    /// The number that the next tag of this session will carry.
    pub closed spec fn next_number(&self) -> nat {
        self.tags@
    }

    /// Whether the session has used up its tags.
    pub fn exhausted(&self) -> (b: bool)
        ensures
            b == (self.next_number() >= u32::MAX),
    {
        self.tags.exhausted()
    }

    fn command(&mut self, line: String, slot: u64, tag: String) -> (c: CommandMessage)
        ensures
            c@ == (CommandView {
                tag: encode_utf8(tag@),
                command: encode_utf8(line@),
                slot,
            }),
            final(self).next_number() == old(self).next_number(),
    {
        CommandMessage {
            tag: tag.as_str().as_bytes_vec(),
            command: line.as_str().as_bytes_vec(),
            slot,
        }
    }
}

impl Client<ConnectedState> {
    /// Opens the session on the server's greeting.
    ///
    /// Succeeds where the message is a greeting with the status `OK` or
    /// `PREAUTH`. The session's first tag will carry the number one.
    pub fn connect(greeting: &Response) -> (r: Result<Client<ConnectedState>, ImapError>)
        ensures
            match r {
                Ok(c) => {
                    &&& greeting@ is Greeting
                    &&& (greeting@->Greeting_status is Okay || greeting@->Greeting_status
                        is PreAuth)
                    &&& c.next_number() == 1
                },
                Err(e) => if greeting@ is Greeting {
                    &&& !(greeting@->Greeting_status is Okay)
                    &&& !(greeting@->Greeting_status is PreAuth)
                    &&& e@ == ImapErrorView::ConnectionFailed("Invalid greeting from server"@)
                } else {
                    e@ == ImapErrorView::ConnectionFailed("Expected greeting from server"@)
                },
            },
    {
        match greeting {
            Response::Greeting { status, .. } => match status {
                Status::Okay | Status::PreAuth => Ok(
                    Client { tags: TagCounter::new(), state: ConnectedState },
                ),
                _ => Err(
                    ImapError::ConnectionFailed(String::from_str("Invalid greeting from server")),
                ),
            },
            _ => Err(
                ImapError::ConnectionFailed(String::from_str("Expected greeting from server")),
            ),
        }
    }

    /// The login command for the given user, to be submitted with `slot`
    /// as its completion slot. It takes the session's next tag.
    pub fn login_command(&mut self, user: &str, pass: &str, slot: u64) -> (c: CommandMessage)
        requires
            old(self).next_number() < u32::MAX,
        ensures
            c@ == command_of(
                old(self).next_number(),
                login_line(tag_text(old(self).next_number()), user@, pass@),
                slot,
            ),
            final(self).next_number() == old(self).next_number() + 1,
    {
        let tag = next_tag(&mut self.tags);
        let line = CommandBuilder::new(tag.as_str()).login().username(user).password(
            pass,
        ).as_string();
        self.command(line, slot, tag)
    }

    /// Judges the lines collected for the login command that carried `tag`.
    ///
    /// On the completion `OK` the session is logged in, and the handle of
    /// the logged-in session continues the numbering of the tags. Any other
    /// outcome is an error, and the handle is gone.
    pub fn login(self, tag: &[u8], lines: &[Response]) -> (r: Result<
        Client<AuthenticatedState>,
        ImapError,
    >)
        ensures
            match r {
                Ok(c) => judged(tag@, response_views(lines@), "Login failed"@) is Ok
                    && c.next_number() == self.next_number(),
                Err(e) => judged(tag@, response_views(lines@), "Login failed"@) == Err::<
                    (),
                    ImapErrorView,
                >(e@),
            },
    {
        match judge(tag, lines, "Login failed") {
            Ok(_) => Ok(Client { tags: self.tags, state: AuthenticatedState }),
            Err(e) => Err(e),
        }
    }
}

impl Client<AuthenticatedState> {
    /// The command that selects a mailbox, to be submitted with `slot` as
    /// its completion slot. It takes the session's next tag.
    pub fn select_command(&mut self, mailbox: &str, slot: u64) -> (c: CommandMessage)
        requires
            old(self).next_number() < u32::MAX,
        ensures
            c@ == command_of(
                old(self).next_number(),
                arg_line(tag_text(old(self).next_number()), "SELECT"@, astring(mailbox@)),
                slot,
            ),
            final(self).next_number() == old(self).next_number() + 1,
    {
        let tag = next_tag(&mut self.tags);
        let line = CommandBuilder::new(tag.as_str()).select(mailbox).as_string();
        self.command(line, slot, tag)
    }

    /// Judges the lines collected for the select command that carried
    /// `tag`: only the completion `OK` lets the fetch go on.
    pub fn selected(&self, tag: &[u8], lines: &[Response]) -> (r: Result<(), ImapError>)
        ensures
            match r {
                Ok(_) => judged(tag@, response_views(lines@), "SELECT failed"@) is Ok,
                Err(e) => judged(tag@, response_views(lines@), "SELECT failed"@) == Err::<
                    (),
                    ImapErrorView,
                >(e@),
            },
    {
        judge(tag, lines, "SELECT failed")
    }

    /// The command that fetches the envelopes of the messages `1:count`,
    /// to be submitted with `slot` as its completion slot. It takes the
    /// session's next tag.
    pub fn fetch_command(&mut self, count: u32, slot: u64) -> (c: CommandMessage)
        requires
            old(self).next_number() < u32::MAX,
        ensures
            c@ == command_of(
                old(self).next_number(),
                fetch_line(
                    FetchView {
                        tag: tag_text(old(self).next_number()),
                        uid: false,
                        set: first_messages(count),
                        items: seq![FetchItem::Envelope],
                    },
                ),
                slot,
            ),
            final(self).next_number() == old(self).next_number() + 1,
    {
        let tag = next_tag(&mut self.tags);
        let set = SequenceSet::new().add_range(
            SequenceBound::Number(1),
            SequenceBound::Number(count),
        );
        assert(set@ =~= first_messages(count));
        let b = CommandBuilder::new(tag.as_str()).fetch(set).add_item(FetchItem::Envelope);
        assert(b@.items =~= seq![FetchItem::Envelope]);
        let line = b.as_string();
        self.command(line, slot, tag)
    }

    /// Assembles the envelopes from the lines collected for a fetch
    /// command: those that the untagged data among the lines holds, in the
    /// order of the lines.
    pub fn fetch(&self, lines: &[Response]) -> (envelopes: Vec<Envelope>)
        ensures
            plain_envelope_views(envelopes@) == fetched(response_views(lines@)),
    {
        let mut joined: Vec<u8> = Vec::new();
        let mut i: usize = 0;
        assert(response_views(lines@).take(0) =~= Seq::<ResponseView>::empty());
        while i < lines.len()
            invariant
                i <= lines@.len(),
                joined@ == untagged_text(response_views(lines@).take(i as int)),
            decreases lines@.len() - i,
        {
            proof {
                let now = response_views(lines@).take(i + 1);
                assert(now.drop_last() =~= response_views(lines@).take(i as int));
                assert(now.last() == lines@[i as int]@);
            }
            match &lines[i] {
                Response::Untagged { .. } => {
                    let w = lines[i].to_wire();
                    joined.extend_from_slice(w.as_slice());
                },
                _ => {
                    assert(joined@ + Seq::<u8>::empty() =~= joined@);
                },
            }
            i += 1;
        }
        assert(response_views(lines@).take(lines@.len() as int) =~= response_views(lines@));
        let mut found = fetch_envelopes(joined.as_slice());
        let mut envelopes: Vec<Envelope> = Vec::new();
        let ghost all = envelopes_from(joined@, 0);
        let ghost numbered = found@;
        let mut k: usize = 0;
        let n = found.len();
        assert(plain_envelope_views(envelopes@) =~= unnumbered(all.take(0)));
        while found.len() > 0
            invariant
                k + found@.len() == n,
                n == numbered.len(),
                envelopes@.len() == k,
                found@ == numbered.skip(k as int),
                envelope_views(numbered) == all,
                plain_envelope_views(envelopes@) == unnumbered(all.take(k as int)),
            decreases found@.len(),
        {
            let ghost head = found@[0];
            let (_, e) = found.remove(0);
            proof {
                assert(all.len() == numbered.len());
                assert(head == numbered[k as int]);
                assert(e == head.1);
                assert(unnumbered(all.take(k + 1)).len() == k + 1);
                assert(unnumbered(all.take(k + 1))[k as int] == all[k as int].1);
                assert(numbered.skip(k as int)[0] == numbered[k as int]);
                assert(all[k as int] == (numbered[k as int].0, numbered[k as int].1@));
                assert(found@ =~= numbered.skip(k + 1));
                assert(all.take(k + 1) =~= all.take(k as int).push(all[k as int]));
                let grown = plain_envelope_views(envelopes@.push(e));
                let wanted = unnumbered(all.take(k + 1));
                assert(grown.len() == wanted.len());
                assert forall|j: int| 0 <= j < grown.len() implies grown[j] == wanted[j] by {
                    if j < k {
                        assert(plain_envelope_views(envelopes@)[j] == envelopes@[j]@);
                        assert(unnumbered(all.take(k as int))[j] == all.take(k as int)[j].1);
                    }
                }
                assert(grown =~= wanted);
            }
            envelopes.push(e);
            k += 1;
        }
        assert(all.take(k as int) =~= all);
        envelopes
    }
}

} // verus!
