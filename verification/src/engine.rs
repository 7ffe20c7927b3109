//! The connection engine: one state machine that frames the incoming
//! stream, sends commands one at a time, and routes every message to the
//! command it completes or to the subscribers of unsolicited data.
//!
//! The engine does no I/O. The code that owns the transport tells it what
//! happened, and performs the actions that it answers with, in their order.

use crate::buffer::ReadBuffer;
use crate::engine::laws::lemma_step;
use crate::engine::model::{completes, deliver, engine_wf, has_tag, initial, pending, process,
    queued_failures, route, shutdown, step, ActionView, ActiveView, CommandView, EngineView,
    Event, Fatal, Phase, Rejection};
use crate::parser::{decode, Response, ResponseView};
use crate::scan::same_bytes;
use std::collections::VecDeque;
use vstd::prelude::*;

pub mod laws;
pub mod model;

verus! {

/// A command as a caller submits it.
#[derive(Debug, PartialEq, Eq)]
pub struct CommandMessage {
    /// The tag that the command line opens with.
    pub tag: Vec<u8>,
    /// The whole command line, terminator included.
    pub command: Vec<u8>,
    /// The completion slot that the caller waits on.
    pub slot: u64,
}

impl View for CommandMessage {
    type V = CommandView;

    open spec fn view(&self) -> CommandView {
        CommandView { tag: self.tag@, command: self.command@, slot: self.slot }
    }
}

/// What the engine asks of the code that runs it.
#[derive(Debug, PartialEq, Eq)]
pub enum Action {
    /// The greeting has arrived.
    Greeted(Response),
    /// Put these bytes on the wire.
    Write(Vec<u8>),
    /// Hand the collected lines to the completion slot of the command.
    Complete { tag: Vec<u8>, slot: u64, lines: Vec<Response> },
    /// Hand the message to the subscribers of unsolicited data.
    Publish(Response),
    /// Fail the pending command: the connection has closed.
    Fail { tag: Vec<u8>, slot: u64 },
    /// Refuse the submission; the command never became pending.
    Reject { slot: u64, reason: Rejection },
    /// Close the unsolicited channel and stop.
    Shutdown(Fatal),
}

/// The values of a sequence of messages.
pub open spec fn response_views(v: Seq<Response>) -> Seq<ResponseView> {
    v.map_values(|r: Response| r@)
}

impl View for Action {
    type V = ActionView;

    open spec fn view(&self) -> ActionView {
        match self {
            Action::Greeted(m) => ActionView::Greeted(m@),
            Action::Write(b) => ActionView::Write(b@),
            Action::Complete { tag, slot, lines } => ActionView::Complete {
                tag: tag@,
                slot: *slot,
                lines: response_views(lines@),
            },
            Action::Publish(m) => ActionView::Publish(m@),
            Action::Fail { tag, slot } => ActionView::Fail { tag: tag@, slot: *slot },
            Action::Reject { slot, reason } => ActionView::Reject { slot: *slot, reason: *reason },
            Action::Shutdown(cause) => ActionView::Shutdown(*cause),
        }
    }
}

/// The values of a sequence of commands.
pub open spec fn command_views(v: Seq<CommandMessage>) -> Seq<CommandView> {
    v.map_values(|c: CommandMessage| c@)
}

/// The values of a sequence of actions.
pub open spec fn action_views(v: Seq<Action>) -> Seq<ActionView> {
    v.map_values(|a: Action| a@)
}

struct ActiveCommand {
    tag: Vec<u8>,
    slot: u64,
    collected: Vec<Response>,
}

/// The connection engine.
pub struct Engine {
    phase: Phase,
    buffer: ReadBuffer,
    active: Option<ActiveCommand>,
    queue: VecDeque<CommandMessage>,
}

impl View for Engine {
    type V = EngineView;

    closed spec fn view(&self) -> EngineView {
        EngineView {
            phase: self.phase,
            buffer: self.buffer@,
            room: self.buffer.room(),
            active: match self.active {
                Some(a) => Some(
                    ActiveView {
                        tag: a.tag@,
                        slot: a.slot,
                        collected: response_views(a.collected@),
                    },
                ),
                None => None,
            },
            queue: command_views(self.queue@),
        }
    }
}

proof fn lemma_push_action(v: Seq<Action>, a: Action)
    ensures
        action_views(v.push(a)) == action_views(v).push(a@),
{
    assert(action_views(v.push(a)) =~= action_views(v).push(a@));
}

proof fn lemma_push_response(v: Seq<Response>, m: Response)
    ensures
        response_views(v.push(m)) == response_views(v).push(m@),
{
    assert(response_views(v.push(m)) =~= response_views(v).push(m@));
}

impl Engine {
    /// The invariant of the engine.
    pub open spec fn wf(&self) -> bool {
        engine_wf(self@)
    }

    /// An engine for a connection that has just been opened: it waits for
    /// the greeting, and holds nothing.
    pub fn new() -> (e: Engine)
        ensures
            e.wf(),
            e@ == initial(),
    {
        let e = Engine {
            phase: Phase::AwaitingGreeting,
            buffer: ReadBuffer::new(),
            active: None,
            queue: VecDeque::new(),
        };
        assert(e@.queue =~= Seq::<CommandView>::empty());
        assert(pending(e@) =~= Seq::<(Seq<u8>, u64)>::empty());
        e
    }

    /// Where the engine stands.
    pub fn phase(&self) -> (p: Phase)
        ensures
            p == self@.phase,
    {
        self.phase
    }

    /// Whether the connection has ended.
    pub fn is_closed(&self) -> (b: bool)
        ensures
            b == (self@.phase is Closed),
    {
        match self.phase {
            Phase::Closed => true,
            _ => false,
        }
    }

    /// The number of bytes that the next read may bring.
    pub fn spare(&self) -> (n: usize)
        requires
            self.wf(),
        ensures
            n == self@.room - self@.buffer.len(),
    {
        self.buffer.spare()
    }

    /// The number of commands that wait behind the one in flight.
    pub fn queued(&self) -> (n: usize)
        ensures
            n == self@.queue.len(),
    {
        self.queue.len()
    }

    fn shutdown(&mut self, cause: Fatal, actions: &mut Vec<Action>)
        requires
            old(self).wf(),
        ensures
            final(self).wf(),
            final(self)@ == shutdown(old(self)@, cause).0,
            action_views(final(actions)@) == action_views(old(actions)@) + shutdown(
                old(self)@,
                cause,
            ).1,
    {
        let ghost before = self@;
        let ghost given = action_views(actions@);
        let ghost fails = queued_failures(before.queue);
        let ghost head = match before.active {
            Some(a) => seq![ActionView::Fail { tag: a.tag, slot: a.slot }],
            None => Seq::<ActionView>::empty(),
        };
        match self.active.take() {
            Some(a) => {
                proof {
                    lemma_push_action(actions@, Action::Fail { tag: a.tag, slot: a.slot });
                }
                actions.push(Action::Fail { tag: a.tag, slot: a.slot });
            },
            None => {},
        }
        assert(action_views(actions@) =~= given + head);
        let ghost mut k: int = 0;
        while self.queue.len() > 0
            invariant
                0 <= k <= before.queue.len(),
                command_views(self.queue@) == before.queue.skip(k),
                action_views(actions@) == given + head + fails.take(k),
                fails == queued_failures(before.queue),
                self.phase == before.phase,
                self.buffer@ == before.buffer,
                self.buffer.room() == before.room,
                self.active is None,
            decreases self.queue@.len(),
        {
            let ghost waiting = self.queue@;
            let c = self.queue.pop_front().unwrap();
            proof {
                assert(command_views(waiting).len() == waiting.len());
                assert(before.queue.skip(k).len() == before.queue.len() - k);
                assert forall|i: int| 0 <= i < self.queue@.len() implies command_views(
                    self.queue@,
                )[i] == before.queue.skip(k + 1)[i] by {
                    assert(self.queue@[i] == waiting[i + 1]);
                    assert(command_views(waiting)[i + 1] == before.queue.skip(k)[i + 1]);
                }
                let f = Action::Fail { tag: c.tag, slot: c.slot };
                lemma_push_action(actions@, f);
                assert(self.queue@.len() + 1 == before.queue.skip(k).len());
                assert(c@ == before.queue.skip(k)[0]);
                assert(f@ == fails[k]);
                assert(fails.take(k).push(fails[k]) =~= fails.take(k + 1));
                assert(command_views(self.queue@) =~= before.queue.skip(k + 1));
                k = k + 1;
            }
            actions.push(Action::Fail { tag: c.tag, slot: c.slot });
        }
        proof {
            assert(before.queue.skip(k).len() == 0);
            assert(fails.take(k) =~= fails);
            lemma_push_action(actions@, Action::Shutdown(cause));
        }
        actions.push(Action::Shutdown(cause));
        self.phase = Phase::Closed;
        proof {
            assert(self@.queue =~= Seq::<CommandView>::empty());
            assert(action_views(actions@) =~= given + shutdown(before, cause).1);
            assert(self@ == shutdown(before, cause).0);
            crate::engine::laws::lemma_shutdown(before, cause);
        }
    }

    fn has_tag(&self, tag: &[u8]) -> (b: bool)
        ensures
            b == has_tag(self@, tag@),
    {
        let ghost p = pending(self@);
        let ghost shift: int = if self.active is Some { 1 } else { 0 };
        match &self.active {
            Some(a) => {
                if same_bytes(a.tag.as_slice(), tag) {
                    assert(p[0].0 == tag@);
                    return true;
                }
            },
            None => {},
        }
        let mut i: usize = 0;
        while i < self.queue.len()
            invariant
                i <= self.queue@.len(),
                p == pending(self@),
                shift == (if self.active is Some { 1int } else { 0int }),
                forall|j: int| 0 <= j < shift + i ==> (#[trigger] p[j]).0 != tag@,
            decreases self.queue@.len() - i,
        {
            assert(p[shift + i] == (self.queue@[i as int].tag@, self.queue@[i as int].slot));
            if same_bytes(self.queue[i].tag.as_slice(), tag) {
                return true;
            }
            i += 1;
        }
        assert(p.len() == shift + self.queue@.len());
        false
    }

    fn deliver(&mut self, m: Response, actions: &mut Vec<Action>)
        requires
            old(self).wf(),
        ensures
            final(self).wf(),
            final(self)@ == deliver(old(self)@, m@).0,
            action_views(final(actions)@) == action_views(old(actions)@) + deliver(
                old(self)@,
                m@,
            ).1,
    {
        let ghost before = self@;
        let ghost given = action_views(actions@);
        proof {
            crate::engine::laws::lemma_delivery(before, m@);
        }
        match self.phase {
            Phase::AwaitingGreeting => {
                match m {
                    Response::Greeting { .. } => {
                        proof {
                            lemma_push_action(actions@, Action::Greeted(m));
                        }
                        self.phase = Phase::Ready;
                        actions.push(Action::Greeted(m));
                    },
                    _ => {
                        assert(action_views(actions@) =~= given + Seq::<ActionView>::empty());
                    },
                }
            },
            Phase::Closed => {
                assert(action_views(actions@) =~= given + Seq::<ActionView>::empty());
            },
            Phase::Ready => {
                let done = match (&m, &self.active) {
                    (Response::Tagged { tag, .. }, Some(a)) => same_bytes(
                        a.tag.as_slice(),
                        tag.as_slice(),
                    ),
                    _ => false,
                };
                assert(done == completes(before, m@));
                if done {
                    let a = self.active.take().unwrap();
                    let mut lines = a.collected;
                    proof {
                        lemma_push_response(lines@, m);
                    }
                    lines.push(m);
                    let first = Action::Complete { tag: a.tag, slot: a.slot, lines };
                    proof {
                        lemma_push_action(actions@, first);
                    }
                    actions.push(first);
                    let ghost waiting = self.queue@;
                    match self.queue.pop_front() {
                        Some(next) => {
                            proof {
                                lemma_push_action(actions@, Action::Write(next.command));
                                assert(command_views(waiting)[0] == next@);
                                assert(command_views(self.queue@) =~= before.queue.drop_first());
                            }
                            actions.push(Action::Write(next.command));
                            self.active = Some(
                                ActiveCommand {
                                    tag: next.tag,
                                    slot: next.slot,
                                    collected: Vec::new(),
                                },
                            );
                            assert(self@.active->0.collected =~= Seq::<ResponseView>::empty());
                        },
                        None => {},
                    }
                    assert(action_views(actions@) =~= given + route(before, m@).1);
                } else {
                    let tagged = match &m {
                        Response::Tagged { .. } => true,
                        _ => false,
                    };
                    if !tagged {
                        match self.active.take() {
                            Some(a) => {
                                let mut collected = a.collected;
                                let copy = m.clone();
                                proof {
                                    lemma_push_response(collected@, copy);
                                }
                                collected.push(copy);
                                self.active = Some(
                                    ActiveCommand { tag: a.tag, slot: a.slot, collected },
                                );
                            },
                            None => {},
                        }
                    }
                    proof {
                        lemma_push_action(actions@, Action::Publish(m));
                    }
                    actions.push(Action::Publish(m));
                    assert(action_views(actions@) =~= given + route(before, m@).1);
                }
            },
        }
    }

    /// Tells the engine that a read is about to be made.
    ///
    /// A buffer with spare capacity is left as it is; a full one grows by
    /// one step. A buffer that is full at the ceiling ends the connection:
    /// every pending command fails and the engine closes.
    pub fn prepare_read(&mut self) -> (actions: Vec<Action>)
        requires
            old(self).wf(),
        ensures
            final(self).wf(),
            final(self)@ == step(old(self)@, Event::Reserve).0,
            action_views(actions@) == step(old(self)@, Event::Reserve).1,
    {
        let mut actions: Vec<Action> = Vec::new();
        proof {
            lemma_step(self@, Event::Reserve);
        }
        if self.is_closed() {
            assert(action_views(actions@) =~= Seq::<ActionView>::empty());
            return actions;
        }
        if self.buffer.ensure_room() {
            assert(action_views(actions@) =~= Seq::<ActionView>::empty());
        } else {
            assert(action_views(actions@) =~= Seq::<ActionView>::empty());
            self.shutdown(Fatal::BufferCeiling, &mut actions);
            assert(action_views(actions@) =~= shutdown(old(self)@, Fatal::BufferCeiling).1);
        }
        actions
    }

    /// Hands the engine the bytes that a read brought.
    ///
    /// The bytes join the buffer, and every message that is complete by now
    /// is decoded, consumed and delivered, in order. A malformed line, or
    /// more bytes than the buffer has room for, ends the connection.
    pub fn on_bytes(&mut self, chunk: &[u8]) -> (actions: Vec<Action>)
        requires
            old(self).wf(),
        ensures
            final(self).wf(),
            final(self)@ == step(old(self)@, Event::Bytes(chunk@)).0,
            action_views(actions@) == step(old(self)@, Event::Bytes(chunk@)).1,
    {
        let mut actions: Vec<Action> = Vec::new();
        assert(action_views(actions@) =~= Seq::<ActionView>::empty());
        if self.is_closed() {
            return actions;
        }
        if chunk.len() > self.buffer.spare() {
            self.shutdown(Fatal::BufferCeiling, &mut actions);
            assert(action_views(actions@) =~= shutdown(old(self)@, Fatal::BufferCeiling).1);
            return actions;
        }
        self.buffer.extend(chunk);
        let ghost start = self@;
        assert(start == (EngineView { buffer: old(self)@.buffer + chunk@, ..old(self)@ }));
        assert(pending(start) == pending(old(self)@));
        assert(action_views(actions@) + process(start).1 =~= process(start).1);
        loop
            invariant_except_break
                self.wf(),
                process(self@).0 == process(start).0,
                action_views(actions@) + process(self@).1 == process(start).1,
            ensures
                self.wf(),
                self@ == process(start).0,
                action_views(actions@) == process(start).1,
            decreases self@.buffer.len(),
        {
            let ghost here = self@;
            let ghost given = action_views(actions@);
            if self.is_closed() {
                assert(given + Seq::<ActionView>::empty() =~= given);
                break ;
            }
            match decode(self.buffer.as_slice()) {
                Ok(None) => {
                    assert(given + Seq::<ActionView>::empty() =~= given);
                    break ;
                },
                Err(_) => {
                    self.shutdown(Fatal::Malformed, &mut actions);
                    break ;
                },
                Ok(Some((m, n))) => {
                    self.buffer.consume(n);
                    let ghost cut = self@;
                    assert(cut == (EngineView { buffer: here.buffer.skip(n as int), ..here }));
                    assert(pending(cut) == pending(here));
                    self.deliver(m, &mut actions);
                    proof {
                        let a1 = deliver(cut, m@).1;
                        let a2 = process(self@).1;
                        assert((given + a1) + a2 =~= given + (a1 + a2));
                    }
                },
            }
        }
        actions
    }

    /// Tells the engine that the peer has closed the stream.
    pub fn on_eof(&mut self) -> (actions: Vec<Action>)
        requires
            old(self).wf(),
        ensures
            final(self).wf(),
            final(self)@ == step(old(self)@, Event::Eof).0,
            action_views(actions@) == step(old(self)@, Event::Eof).1,
    {
        self.close(Fatal::Eof)
    }

    /// Tells the engine that a read or a write on the transport has failed.
    pub fn on_transport_error(&mut self) -> (actions: Vec<Action>)
        requires
            old(self).wf(),
        ensures
            final(self).wf(),
            final(self)@ == step(old(self)@, Event::TransportError).0,
            action_views(actions@) == step(old(self)@, Event::TransportError).1,
    {
        self.close(Fatal::Transport)
    }

    fn close(&mut self, cause: Fatal) -> (actions: Vec<Action>)
        requires
            old(self).wf(),
        ensures
            final(self).wf(),
            final(self)@ == crate::engine::model::close(old(self)@, cause).0,
            action_views(actions@) == crate::engine::model::close(old(self)@, cause).1,
    {
        let mut actions: Vec<Action> = Vec::new();
        assert(action_views(actions@) =~= Seq::<ActionView>::empty());
        if !self.is_closed() {
            self.shutdown(cause, &mut actions);
            assert(action_views(actions@) =~= shutdown(old(self)@, cause).1);
        }
        actions
    }

    /// Submits a command.
    ///
    /// With nothing in flight the command is to be written at once and is
    /// then in flight; behind a command in flight it joins the queue. The
    /// submission is refused before the greeting, after the connection has
    /// ended, and where a pending command already carries the tag.
    pub fn submit(&mut self, cmd: CommandMessage) -> (actions: Vec<Action>)
        requires
            old(self).wf(),
        ensures
            final(self).wf(),
            final(self)@ == step(old(self)@, Event::Submit(cmd@)).0,
            action_views(actions@) == step(old(self)@, Event::Submit(cmd@)).1,
    {
        let mut actions: Vec<Action> = Vec::new();
        proof {
            lemma_step(self@, Event::Submit(cmd@));
        }
        let refusal = match self.phase {
            Phase::AwaitingGreeting => Some(Rejection::NotReady),
            Phase::Closed => Some(Rejection::ConnectionClosed),
            Phase::Ready => if self.has_tag(cmd.tag.as_slice()) {
                Some(Rejection::DuplicateTag)
            } else {
                None
            },
        };
        match refusal {
            Some(reason) => {
                actions.push(Action::Reject { slot: cmd.slot, reason });
                assert(action_views(actions@) =~= seq![
                    ActionView::Reject { slot: cmd.slot, reason },
                ]);
            },
            None => {
                if self.active.is_none() {
                    actions.push(Action::Write(cmd.command));
                    self.active = Some(
                        ActiveCommand { tag: cmd.tag, slot: cmd.slot, collected: Vec::new() },
                    );
                    assert(self@.active->0.collected =~= Seq::<ResponseView>::empty());
                    assert(action_views(actions@) =~= seq![ActionView::Write(cmd@.command)]);
                } else {
                    let ghost waiting = self.queue@;
                    self.queue.push_back(cmd);
                    assert(command_views(self.queue@) =~= command_views(waiting).push(cmd@));
                    assert(action_views(actions@) =~= Seq::<ActionView>::empty());
                }
            },
        }
        actions
    }
}

} // verus!
