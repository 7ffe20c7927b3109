//! The connection engine as a mathematical state machine: its state, the
//! events that reach it, and the state and actions that each event leads to.

use crate::buffer::{capacity_wf, grown, has_room};
use crate::parser::{decode_spec, Decoded, ResponseView};
use vstd::prelude::*;

verus! {

/// Where the engine stands in the life of a connection.
#[derive(Debug, Clone, Copy, PartialEq, Eq, Structural)]
pub enum Phase {
    /// Nothing but the greeting is expected; no command may be sent.
    AwaitingGreeting,
    /// Commands are accepted and completions routed.
    Ready,
    /// The connection has ended; nothing is pending any more.
    Closed,
}

/// Why a connection ended.
#[derive(Debug, Clone, Copy, PartialEq, Eq, Structural)]
pub enum Fatal {
    /// The peer closed the stream.
    Eof,
    /// Reading from or writing to the transport failed.
    Transport,
    /// The buffer is full at its ceiling and holds no complete message.
    BufferCeiling,
    /// A terminated line that is no message.
    Malformed,
}

/// Why a submission was refused.
#[derive(Debug, Clone, Copy, PartialEq, Eq, Structural)]
pub enum Rejection {
    /// The greeting has not arrived yet.
    NotReady,
    /// The connection has ended.
    ConnectionClosed,
    /// A pending command already carries the tag.
    DuplicateTag,
}

/// A submitted command: its tag, the bytes to send, and the completion slot
/// that its submitter waits on.
pub struct CommandView {
    pub tag: Seq<u8>,
    pub command: Seq<u8>,
    pub slot: u64,
}

/// The command on the wire, and the lines collected for it so far.
pub struct ActiveView {
    pub tag: Seq<u8>,
    pub slot: u64,
    pub collected: Seq<ResponseView>,
}

/// The state of the engine.
pub struct EngineView {
    pub phase: Phase,
    /// The unconsumed tail of the stream.
    pub buffer: Seq<u8>,
    /// The capacity that the read buffer has grown to.
    pub room: nat,
    /// The command in flight.
    pub active: Option<ActiveView>,
    /// The commands that wait for it to complete, oldest first.
    pub queue: Seq<CommandView>,
}

/// What the engine asks of the code that runs it.
pub enum ActionView {
    /// The greeting has arrived.
    Greeted(ResponseView),
    /// Put these bytes on the wire.
    Write(Seq<u8>),
    /// Hand the collected lines to the completion slot of the command.
    Complete { tag: Seq<u8>, slot: u64, lines: Seq<ResponseView> },
    /// Hand the message to the subscribers of unsolicited data.
    Publish(ResponseView),
    /// Fail the pending command: the connection has closed.
    Fail { tag: Seq<u8>, slot: u64 },
    /// Refuse the submission; the command never became pending.
    Reject { slot: u64, reason: Rejection },
    /// Close the unsolicited channel and stop.
    Shutdown(Fatal),
}

/// What can happen to the engine.
pub enum Event {
    /// A read is about to be made.
    Reserve,
    /// A read brought these bytes.
    Bytes(Seq<u8>),
    /// A read met the end of the stream.
    Eof,
    /// A read or a write failed.
    TransportError,
    /// A caller submits a command.
    Submit(CommandView),
}

/// The state of an engine that has just been started.
pub open spec fn initial() -> EngineView {
    EngineView {
        phase: Phase::AwaitingGreeting,
        buffer: Seq::empty(),
        room: crate::buffer::INITIAL_CAPACITY as nat,
        active: None,
        queue: Seq::empty(),
    }
}

/// The commands of a queue, each as its tag and its slot.
pub open spec fn queued_pairs(q: Seq<CommandView>) -> Seq<(Seq<u8>, u64)> {
    q.map_values(|c: CommandView| (c.tag, c.slot))
}

/// The failure of each command of a queue.
pub open spec fn queued_failures(q: Seq<CommandView>) -> Seq<ActionView> {
    q.map_values(|c: CommandView| ActionView::Fail { tag: c.tag, slot: c.slot })
}

/// The commands that the engine owes an answer, oldest first, each as its
/// tag and its slot: the one in flight, then the queue.
pub open spec fn pending(s: EngineView) -> Seq<(Seq<u8>, u64)> {
    (match s.active {
        Some(a) => seq![(a.tag, a.slot)],
        None => Seq::empty(),
    }) + queued_pairs(s.queue)
}

/// Whether a pending command carries `tag`.
pub open spec fn has_tag(s: EngineView, tag: Seq<u8>) -> bool {
    exists|i: int| 0 <= i < pending(s).len() && (#[trigger] pending(s)[i]).0 == tag
}

/// No two of the commands carry the same tag.
pub open spec fn distinct_tags(p: Seq<(Seq<u8>, u64)>) -> bool {
    forall|i: int, j: int| 0 <= i < j < p.len() ==> (#[trigger] p[i]).0 != (#[trigger] p[j]).0
}

/// The invariant of the engine: the buffer respects its capacity; a command
/// is in flight only in the ready phase, and commands queue only behind one
/// in flight; pending tags are distinct; and no line collected for the
/// command in flight is a tagged one.
pub open spec fn engine_wf(s: EngineView) -> bool {
    &&& capacity_wf(s.buffer.len(), s.room)
    &&& (s.phase is Ready || s.active is None)
    &&& (s.active is None ==> s.queue.len() == 0)
    &&& distinct_tags(pending(s))
    &&& (s.active is Some ==> forall|k: int|
        0 <= k < s.active->0.collected.len() ==> !(#[trigger] s.active->0.collected[k] is Tagged))
}

/// The failure of every pending command, in their order.
pub open spec fn fail_all(s: EngineView) -> Seq<ActionView> {
    (match s.active {
        Some(a) => seq![ActionView::Fail { tag: a.tag, slot: a.slot }],
        None => Seq::empty(),
    }) + queued_failures(s.queue)
}

/// The end of the connection: every pending command fails, the unsolicited
/// channel closes, and the engine keeps nothing.
pub open spec fn shutdown(s: EngineView, cause: Fatal) -> (EngineView, Seq<ActionView>) {
    (
        EngineView { phase: Phase::Closed, active: None, queue: Seq::empty(), ..s },
        fail_all(s).push(ActionView::Shutdown(cause)),
    )
}

/// Whether `m` completes the command in flight: it is tagged, and the tag
/// is that command's.
pub open spec fn completes(s: EngineView, m: ResponseView) -> bool {
    m is Tagged && s.active is Some && s.active->0.tag == m->Tagged_tag
}

/// Where a message goes in the ready phase.
///
/// The completion of the command in flight joins the lines collected for
/// it, the whole goes to the command's slot, and the oldest queued command,
/// if there is one, is written and takes its place. A tagged line with any
/// other tag is unsolicited data, and is kept out of the collected lines.
/// Every other message is published, and joins the lines collected for the
/// command in flight.
pub open spec fn route(s: EngineView, m: ResponseView) -> (EngineView, Seq<ActionView>) {
    if completes(s, m) {
        let a = s.active->0;
        let done = ActionView::Complete { tag: a.tag, slot: a.slot, lines: a.collected.push(m) };
        if s.queue.len() > 0 {
            let next = s.queue.first();
            (
                EngineView {
                    active: Some(
                        ActiveView { tag: next.tag, slot: next.slot, collected: Seq::empty() },
                    ),
                    queue: s.queue.drop_first(),
                    ..s
                },
                seq![done, ActionView::Write(next.command)],
            )
        } else {
            (EngineView { active: None, ..s }, seq![done])
        }
    } else if m is Tagged {
        (s, seq![ActionView::Publish(m)])
    } else {
        (
            match s.active {
                Some(a) => EngineView {
                    active: Some(ActiveView { collected: a.collected.push(m), ..a }),
                    ..s
                },
                None => s,
            },
            seq![ActionView::Publish(m)],
        )
    }
}

/// Where a decoded message goes. Before the greeting every other message
/// is dropped; the greeting makes the engine ready.
pub open spec fn deliver(s: EngineView, m: ResponseView) -> (EngineView, Seq<ActionView>) {
    match s.phase {
        Phase::AwaitingGreeting => if m is Greeting {
            (EngineView { phase: Phase::Ready, ..s }, seq![ActionView::Greeted(m)])
        } else {
            (s, Seq::empty())
        },
        Phase::Ready => route(s, m),
        Phase::Closed => (s, Seq::empty()),
    }
}

/// Decodes and delivers message after message from the front of the
/// buffer, until the buffer holds no complete message or a malformed line
/// ends the connection.
pub open spec fn process(s: EngineView) -> (EngineView, Seq<ActionView>)
    decreases s.buffer.len(),
{
    if s.phase is Closed {
        (s, Seq::empty())
    } else {
        match decode_spec(s.buffer) {
            Decoded::Incomplete => (s, Seq::empty()),
            Decoded::Malformed => shutdown(s, Fatal::Malformed),
            Decoded::Complete(m, n) => if 0 < n <= s.buffer.len() {
                let (s1, a1) = deliver(EngineView { buffer: s.buffer.skip(n), ..s }, m);
                let (s2, a2) = process(s1);
                (s2, a1 + a2)
            } else {
                (s, Seq::empty())
            },
        }
    }
}

/// Before a read: a full buffer grows by one step; one that is full at the
/// ceiling ends the connection.
pub open spec fn make_room(s: EngineView) -> (EngineView, Seq<ActionView>) {
    if s.phase is Closed {
        (s, Seq::empty())
    } else if has_room(s.buffer.len(), s.room) {
        (EngineView { room: grown(s.buffer.len(), s.room), ..s }, Seq::empty())
    } else {
        shutdown(s, Fatal::BufferCeiling)
    }
}

/// After a read: the bytes join the buffer, and every message that is now
/// complete is delivered. Bytes beyond the capacity end the connection.
pub open spec fn receive(s: EngineView, chunk: Seq<u8>) -> (EngineView, Seq<ActionView>) {
    if s.phase is Closed {
        (s, Seq::empty())
    } else if s.buffer.len() + chunk.len() > s.room {
        shutdown(s, Fatal::BufferCeiling)
    } else {
        process(EngineView { buffer: s.buffer + chunk, ..s })
    }
}

/// The transport failed or ended.
pub open spec fn close(s: EngineView, cause: Fatal) -> (EngineView, Seq<ActionView>) {
    if s.phase is Closed {
        (s, Seq::empty())
    } else {
        shutdown(s, cause)
    }
}

/// Whether a submission is taken on: the engine is ready, and no pending
/// command carries the tag.
pub open spec fn accepts(s: EngineView, c: CommandView) -> bool {
    s.phase is Ready && !has_tag(s, c.tag)
}

/// A submission. With nothing in flight the command is written at once;
/// behind a command in flight it waits its turn.
pub open spec fn submit(s: EngineView, c: CommandView) -> (EngineView, Seq<ActionView>) {
    match s.phase {
        Phase::AwaitingGreeting => (
            s,
            seq![ActionView::Reject { slot: c.slot, reason: Rejection::NotReady }],
        ),
        Phase::Closed => (
            s,
            seq![ActionView::Reject { slot: c.slot, reason: Rejection::ConnectionClosed }],
        ),
        Phase::Ready => if has_tag(s, c.tag) {
            (s, seq![ActionView::Reject { slot: c.slot, reason: Rejection::DuplicateTag }])
        } else if s.active is None {
            (
                EngineView {
                    active: Some(
                        ActiveView { tag: c.tag, slot: c.slot, collected: Seq::empty() },
                    ),
                    ..s
                },
                seq![ActionView::Write(c.command)],
            )
        } else {
            (EngineView { queue: s.queue.push(c), ..s }, Seq::empty())
        },
    }
}

/// The state and the actions that an event leads to.
pub open spec fn step(s: EngineView, ev: Event) -> (EngineView, Seq<ActionView>) {
    match ev {
        Event::Reserve => make_room(s),
        Event::Bytes(chunk) => receive(s, chunk),
        Event::Eof => close(s, Fatal::Eof),
        Event::TransportError => close(s, Fatal::Transport),
        Event::Submit(c) => submit(s, c),
    }
}

/// The state after a run of events, and all actions asked for on the way.
pub open spec fn run(s: EngineView, evs: Seq<Event>) -> (EngineView, Seq<ActionView>)
    decreases evs.len(),
{
    if evs.len() == 0 {
        (s, Seq::empty())
    } else {
        let (s1, a1) = run(s, evs.drop_last());
        let (s2, a2) = step(s1, evs.last());
        (s2, a1 + a2)
    }
}

} // verus!
