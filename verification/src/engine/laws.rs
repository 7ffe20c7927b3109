//! What holds of every run of the engine: its invariant, the correlation
//! of completions with the commands they answer, the order in which
//! commands are settled, and the buffer ceiling.

use crate::buffer::{has_room, LINE_CAP};
use crate::engine::model::{accepts, completes, deliver, engine_wf, fail_all, pending, process,
    queued_failures, queued_pairs, route, run, shutdown, step, submit, ActionView, CommandView,
    EngineView, Event, Fatal, Phase};
use crate::parser::{crlf, decode_spec, Decoded, ResponseView};
use crate::scan::first_occurrence;
use vstd::prelude::*;

verus! {

/// The command that an action settles, as its tag and its slot: a
/// completion and a failure settle one, every other action none.
pub open spec fn settled_by(a: ActionView) -> Seq<(Seq<u8>, u64)> {
    match a {
        ActionView::Complete { tag, slot, lines } => seq![(tag, slot)],
        ActionView::Fail { tag, slot } => seq![(tag, slot)],
        _ => Seq::empty(),
    }
}

/// The commands that a run of actions settles, in the order of the actions.
pub open spec fn settled(actions: Seq<ActionView>) -> Seq<(Seq<u8>, u64)>
    decreases actions.len(),
{
    if actions.len() == 0 {
        Seq::empty()
    } else {
        settled(actions.drop_last()) + settled_by(actions.last())
    }
}

/// The command that an event adds to the pending ones: a submission that
/// the engine accepts adds its own, every other event none.
pub open spec fn accepted(s: EngineView, ev: Event) -> Seq<(Seq<u8>, u64)> {
    match ev {
        Event::Submit(c) => if accepts(s, c) {
            seq![(c.tag, c.slot)]
        } else {
            Seq::empty()
        },
        _ => Seq::empty(),
    }
}

/// The commands accepted in the course of a run, in the order of their
/// submission.
pub open spec fn accepted_in(s: EngineView, evs: Seq<Event>) -> Seq<(Seq<u8>, u64)>
    decreases evs.len(),
{
    if evs.len() == 0 {
        Seq::empty()
    } else {
        accepted_in(s, evs.drop_last()) + accepted(run(s, evs.drop_last()).0, evs.last())
    }
}

/// Whether an action hands a command what is its own: the lines of a
/// completion end with the tagged message that carries the command's tag,
/// and no other line among them is tagged.
pub open spec fn completion_ok(a: ActionView) -> bool {
    a matches ActionView::Complete { tag, slot, lines } ==> {
        &&& lines.len() > 0
        &&& lines.last() is Tagged
        &&& lines.last()->Tagged_tag == tag
        &&& forall|k: int| 0 <= k < lines.len() - 1 ==> !(#[trigger] lines[k] is Tagged)
    }
}

/// What one or more steps from `s` to `s2` must observe: the invariant is
/// kept; the commands settled, followed by those still pending, are those
/// that were pending followed by those accepted; and every completion is
/// the command's own.
pub open spec fn orderly(
    s: EngineView,
    s2: EngineView,
    actions: Seq<ActionView>,
    taken: Seq<(Seq<u8>, u64)>,
) -> bool {
    &&& engine_wf(s2)
    &&& settled(actions) + pending(s2) == pending(s) + taken
    &&& forall|i: int| 0 <= i < actions.len() ==> completion_ok(#[trigger] actions[i])
}

proof fn lemma_settled_concat(a: Seq<ActionView>, b: Seq<ActionView>)
    ensures
        settled(a + b) == settled(a) + settled(b),
    decreases b.len(),
{
    if b.len() == 0 {
        assert(a + b =~= a);
        assert(settled(a) + settled(b) =~= settled(a));
    } else {
        lemma_settled_concat(a, b.drop_last());
        assert((a + b).drop_last() =~= a + b.drop_last());
        assert((a + b).last() == b.last());
        assert(settled(a + b) =~= settled(a) + settled(b));
    }
}

proof fn lemma_settled_one(a: ActionView)
    ensures
        settled(seq![a]) == settled_by(a),
{
    assert(seq![a].drop_last() =~= Seq::<ActionView>::empty());
    assert(settled(Seq::<ActionView>::empty()) =~= Seq::<(Seq<u8>, u64)>::empty());
    assert(settled(seq![a]) =~= settled_by(a));
}

proof fn lemma_settled_failures(q: Seq<CommandView>)
    ensures
        settled(queued_failures(q)) == queued_pairs(q),
    decreases q.len(),
{
    if q.len() == 0 {
        assert(settled(queued_failures(q)) =~= queued_pairs(q));
    } else {
        lemma_settled_failures(q.drop_last());
        assert(queued_failures(q).drop_last() =~= queued_failures(q.drop_last()));
        assert(settled(queued_failures(q)) =~= queued_pairs(q));
    }
}

proof fn lemma_orderly_then(
    s: EngineView,
    s1: EngineView,
    a1: Seq<ActionView>,
    t1: Seq<(Seq<u8>, u64)>,
    s2: EngineView,
    a2: Seq<ActionView>,
    t2: Seq<(Seq<u8>, u64)>,
)
    requires
        orderly(s, s1, a1, t1),
        orderly(s1, s2, a2, t2),
    ensures
        orderly(s, s2, a1 + a2, t1 + t2),
{
    lemma_settled_concat(a1, a2);
    assert(settled(a1 + a2) + pending(s2) =~= settled(a1) + (settled(a2) + pending(s2)));
    assert(settled(a1) + (pending(s1) + t2) =~= (settled(a1) + pending(s1)) + t2);
    assert((pending(s) + t1) + t2 =~= pending(s) + (t1 + t2));
}

/// Ending the connection keeps the engine orderly: every pending command
/// is settled, in order.
pub proof fn lemma_shutdown(s: EngineView, cause: Fatal)
    requires
        engine_wf(s),
    ensures
        orderly(s, shutdown(s, cause).0, shutdown(s, cause).1, Seq::empty()),
{
    let (s2, actions) = shutdown(s, cause);
    let fails = queued_failures(s.queue);
    lemma_settled_failures(s.queue);
    assert(actions.drop_last() =~= fail_all(s));
    match s.active {
        Some(a) => {
            let head = seq![ActionView::Fail { tag: a.tag, slot: a.slot }];
            lemma_settled_one(head[0]);
            lemma_settled_concat(head, fails);
        },
        None => {
            assert(fail_all(s) =~= fails);
        },
    }
    assert(settled(actions) =~= pending(s));
    assert(pending(s2) =~= Seq::<(Seq<u8>, u64)>::empty());
    assert(settled(actions) + pending(s2) =~= pending(s) + Seq::<(Seq<u8>, u64)>::empty());
}

proof fn lemma_route(s: EngineView, m: ResponseView)
    requires
        engine_wf(s),
        s.phase is Ready,
    ensures
        orderly(s, route(s, m).0, route(s, m).1, Seq::empty()),
{
    let (s2, actions) = route(s, m);
    let none = Seq::<(Seq<u8>, u64)>::empty();
    if completes(s, m) {
        let a = s.active->0;
        let done = ActionView::Complete { tag: a.tag, slot: a.slot, lines: a.collected.push(m) };
        assert(completion_ok(done));
        if s.queue.len() > 0 {
            let next = s.queue.first();
            let w = ActionView::Write(next.command);
            lemma_settled_one(done);
            lemma_settled_one(w);
            lemma_settled_concat(seq![done], seq![w]);
            assert(seq![done] + seq![w] =~= actions);
            assert(pending(s2) =~= queued_pairs(s.queue));
            assert(settled(actions) + pending(s2) =~= pending(s) + none);
            assert forall|i: int, j: int| 0 <= i < j < pending(s2).len() implies (
            #[trigger] pending(s2)[i]).0 != (#[trigger] pending(s2)[j]).0 by {
                assert(pending(s2)[i] == pending(s)[i + 1]);
                assert(pending(s2)[j] == pending(s)[j + 1]);
            }
        } else {
            lemma_settled_one(done);
            assert(pending(s2) =~= none);
            assert(settled(actions) + pending(s2) =~= pending(s) + none);
        }
    } else {
        lemma_settled_one(ActionView::Publish(m));
        assert(pending(s2) =~= pending(s));
        assert(settled(actions) + pending(s2) =~= pending(s) + none);
    }
}

/// Delivering one message keeps the engine orderly.
pub proof fn lemma_delivery(s: EngineView, m: ResponseView)
    requires
        engine_wf(s),
    ensures
        orderly(s, deliver(s, m).0, deliver(s, m).1, Seq::empty()),
{
    let (s2, actions) = deliver(s, m);
    let none = Seq::<(Seq<u8>, u64)>::empty();
    match s.phase {
        Phase::AwaitingGreeting => {
            if m is Greeting {
                lemma_settled_one(ActionView::Greeted(m));
            }
            assert(pending(s2) =~= pending(s));
            assert(settled(actions) + pending(s2) =~= pending(s) + none);
        },
        Phase::Ready => {
            lemma_route(s, m);
        },
        Phase::Closed => {
            assert(settled(actions) + pending(s2) =~= pending(s) + none);
        },
    }
}

proof fn lemma_process(s: EngineView)
    requires
        engine_wf(s),
    ensures
        orderly(s, process(s).0, process(s).1, Seq::empty()),
    decreases s.buffer.len(),
{
    let none = Seq::<(Seq<u8>, u64)>::empty();
    if s.phase is Closed {
        assert(settled(process(s).1) + pending(s) =~= pending(s) + none);
    } else {
        match decode_spec(s.buffer) {
            Decoded::Incomplete => {
                assert(settled(process(s).1) + pending(s) =~= pending(s) + none);
            },
            Decoded::Malformed => {
                lemma_shutdown(s, Fatal::Malformed);
            },
            Decoded::Complete(m, n) => {
                if 0 < n <= s.buffer.len() {
                    let s0 = EngineView { buffer: s.buffer.skip(n), ..s };
                    assert(pending(s0) == pending(s));
                    let (s1, a1) = deliver(s0, m);
                    lemma_delivery(s0, m);
                    lemma_process(s1);
                    let (s2, a2) = process(s1);
                    lemma_orderly_then(s0, s1, a1, none, s2, a2, none);
                    assert(none + none =~= none);
                } else {
                    assert(settled(process(s).1) + pending(s) =~= pending(s) + none);
                }
            },
        }
    }
}

proof fn lemma_submit(s: EngineView, c: CommandView)
    requires
        engine_wf(s),
    ensures
        orderly(s, submit(s, c).0, submit(s, c).1, accepted(s, Event::Submit(c))),
{
    let (s2, actions) = submit(s, c);
    let none = Seq::<(Seq<u8>, u64)>::empty();
    let taken = accepted(s, Event::Submit(c));
    if accepts(s, c) {
        if s.active is None {
            lemma_settled_one(ActionView::Write(c.command));
            assert(pending(s) =~= none);
            assert(pending(s2) =~= seq![(c.tag, c.slot)]);
            assert(settled(actions) + pending(s2) =~= pending(s) + taken);
        } else {
            assert(pending(s2) =~= pending(s).push((c.tag, c.slot)));
            assert(settled(actions) + pending(s2) =~= pending(s) + taken);
            assert forall|i: int, j: int| 0 <= i < j < pending(s2).len() implies (
            #[trigger] pending(s2)[i]).0 != (#[trigger] pending(s2)[j]).0 by {
                assert(pending(s2)[i] == pending(s)[i]);
                if j < pending(s).len() {
                    assert(pending(s2)[j] == pending(s)[j]);
                }
            }
        }
    } else {
        lemma_settled_one(actions[0]);
        assert(actions =~= seq![actions[0]]);
        assert(settled(actions) + pending(s2) =~= pending(s) + taken);
    }
}

/// One step keeps the engine orderly.
pub proof fn lemma_step(s: EngineView, ev: Event)
    requires
        engine_wf(s),
    ensures
        orderly(s, step(s, ev).0, step(s, ev).1, accepted(s, ev)),
{
    let none = Seq::<(Seq<u8>, u64)>::empty();
    let (s2, actions) = step(s, ev);
    match ev {
        Event::Reserve => {
            if s.phase is Closed || has_room(s.buffer.len(), s.room) {
                assert(pending(s2) == pending(s));
                assert(settled(actions) + pending(s2) =~= pending(s) + none);
            } else {
                lemma_shutdown(s, Fatal::BufferCeiling);
            }
        },
        Event::Bytes(chunk) => {
            if s.phase is Closed {
                assert(settled(actions) + pending(s2) =~= pending(s) + none);
            } else if s.buffer.len() + chunk.len() > s.room {
                lemma_shutdown(s, Fatal::BufferCeiling);
            } else {
                let s0 = EngineView { buffer: s.buffer + chunk, ..s };
                assert(pending(s0) == pending(s));
                lemma_process(s0);
            }
        },
        Event::Eof => {
            if s.phase is Closed {
                assert(settled(actions) + pending(s2) =~= pending(s) + none);
            } else {
                lemma_shutdown(s, Fatal::Eof);
            }
        },
        Event::TransportError => {
            if s.phase is Closed {
                assert(settled(actions) + pending(s2) =~= pending(s) + none);
            } else {
                lemma_shutdown(s, Fatal::Transport);
            }
        },
        Event::Submit(c) => {
            lemma_submit(s, c);
        },
    }
}

/// A run of steps keeps the engine orderly.
pub proof fn lemma_run(s: EngineView, evs: Seq<Event>)
    requires
        engine_wf(s),
    ensures
        orderly(s, run(s, evs).0, run(s, evs).1, accepted_in(s, evs)),
    decreases evs.len(),
{
    let none = Seq::<(Seq<u8>, u64)>::empty();
    if evs.len() == 0 {
        assert(settled(run(s, evs).1) + pending(s) =~= pending(s) + none);
    } else {
        lemma_run(s, evs.drop_last());
        let (s1, a1) = run(s, evs.drop_last());
        lemma_step(s1, evs.last());
        let (s2, a2) = step(s1, evs.last());
        lemma_orderly_then(
            s,
            s1,
            a1,
            accepted_in(s, evs.drop_last()),
            s2,
            a2,
            accepted(s1, evs.last()),
        );
    }
}

/// The invariant holds in every state that the engine can reach.
pub proof fn lemma_invariant(evs: Seq<Event>)
    ensures
        engine_wf(run(crate::engine::model::initial(), evs).0),
{
    let s = crate::engine::model::initial();
    assert(pending(s) =~= Seq::<(Seq<u8>, u64)>::empty());
    lemma_run(s, evs);
}

/// Tag correlation: whatever the events, every completion that the engine
/// hands out ends with the tagged message that carries the command's own
/// tag, holds no other tagged message, and goes to the slot that was
/// submitted with that tag: the commands settled are, pair by pair of tag
/// and slot, the commands that were pending or accepted.
pub proof fn lemma_tag_correlation(s: EngineView, evs: Seq<Event>, i: int)
    requires
        engine_wf(s),
        0 <= i < run(s, evs).1.len(),
        run(s, evs).1[i] is Complete,
    ensures
        ({
            let done = run(s, evs).1[i];
            let lines = done->Complete_lines;
            &&& lines.len() > 0
            &&& lines.last() is Tagged
            &&& lines.last()->Tagged_tag == done->Complete_tag
            &&& forall|k: int| 0 <= k < lines.len() - 1 ==> !(#[trigger] lines[k] is Tagged)
        }),
        settled(run(s, evs).1).is_prefix_of(pending(s) + accepted_in(s, evs)),
{
    lemma_run(s, evs);
    assert(completion_ok(run(s, evs).1[i]));
    lemma_settled_prefix(s, evs);
}

proof fn lemma_settled_prefix(s: EngineView, evs: Seq<Event>)
    requires
        engine_wf(s),
    ensures
        settled(run(s, evs).1).is_prefix_of(pending(s) + accepted_in(s, evs)),
{
    lemma_run(s, evs);
    let done = settled(run(s, evs).1);
    let all = pending(s) + accepted_in(s, evs);
    assert(done + pending(run(s, evs).0) == all);
    assert(all.subrange(0, done.len() as int) =~= done);
}

/// Pipelining in order: over any run, the commands settled so far,
/// followed by those still pending, are the commands that were pending at
/// the start followed by those accepted since, in the order of their
/// submission. No command overtakes another, and none is lost.
pub proof fn lemma_fifo(s: EngineView, evs: Seq<Event>)
    requires
        engine_wf(s),
    ensures
        settled(run(s, evs).1) + pending(run(s, evs).0) == pending(s) + accepted_in(s, evs),
{
    lemma_run(s, evs);
}

/// The buffer ceiling: bytes that bring no terminator are all kept, none
/// dropped and none delivered; and asking for room ends the connection
/// exactly when the buffer is full at the ceiling. Short of that the engine
/// goes on, with room for at least one more byte.
pub proof fn lemma_buffer_ceiling(s: EngineView, chunk: Seq<u8>)
    requires
        engine_wf(s),
        !(s.phase is Closed),
        s.buffer.len() + chunk.len() <= s.room,
        first_occurrence(s.buffer + chunk, crlf()) is None,
    ensures
        step(s, Event::Bytes(chunk)).0 == (EngineView { buffer: s.buffer + chunk, ..s }),
        step(s, Event::Bytes(chunk)).1 == Seq::<ActionView>::empty(),
        step(s, Event::Reserve).0.phase is Closed <==> s.buffer.len() == LINE_CAP,
        s.buffer.len() == LINE_CAP ==> step(s, Event::Reserve).1.last() == ActionView::Shutdown(
            Fatal::BufferCeiling,
        ),
        s.buffer.len() < LINE_CAP ==> {
            &&& step(s, Event::Reserve).0.buffer == s.buffer
            &&& step(s, Event::Reserve).0.buffer.len() < step(s, Event::Reserve).0.room
            &&& step(s, Event::Reserve).1 == Seq::<ActionView>::empty()
        },
{
}

} // verus!
