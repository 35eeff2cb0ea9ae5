use vstd::prelude::*;

use crate::ControlFlow;

verus! {

/// Keys the console reports by name.
#[derive(Debug, Clone, Copy, PartialEq, Eq, Hash, Structural)]
#[non_exhaustive]
pub enum KeyCode {
    Escape,
    Up,
    Down,
    Left,
    Right,
}

#[derive(Debug, Clone, Copy, PartialEq, Eq, Hash, Structural)]
pub enum ButtonState {
    Pressed,
    Released,
}

/// A normalized input event.
#[derive(Debug, Clone, Copy, PartialEq, Eq, Structural)]
#[non_exhaustive]
pub enum Event {
    Quit,
    KeyboardInput { key_code: Option<KeyCode>, key_state: ButtonState },
}

/// The wait loop stops once the host asks to quit or the handler answers `Break`.
pub open spec fn stops_after(event: Event, reply: ControlFlow) -> bool {
    event is Quit || reply is Break
}

/// Whether the wait loop goes on after the handler answered `reply` to `event`.
pub fn loop_flow(event: &Event, reply: ControlFlow) -> (r: ControlFlow)
    ensures
        r is Break <==> stops_after(*event, reply),
{
    match (event, reply) {
        (Event::Quit, _) => ControlFlow::Break,
        (_, ControlFlow::Break) => ControlFlow::Break,
        _ => ControlFlow::Continue,
    }
}

/// The wait loop over a fixed sequence of translated events, where `None` marks a native
/// event without a mapping and `replies[i]` is the handler's answer should event `i` reach it.
///
/// Gives the number of events taken, the number of handler calls, and whether the loop stopped.
pub open spec fn run(events: Seq<Option<Event>>, replies: Seq<ControlFlow>) -> (nat, nat, bool)
    decreases events.len(),
{
    if events.len() == 0 {
        (0, 0, false)
    } else {
        match events[0] {
            None => {
                let t = run(events.drop_first(), replies.drop_first());
                (t.0 + 1, t.1, t.2)
            },
            Some(e) => if stops_after(e, replies[0]) {
                (1, 1, true)
            } else {
                let t = run(events.drop_first(), replies.drop_first());
                (t.0 + 1, t.1 + 1, t.2)
            },
        }
    }
}

/// The number of events in `events` that have a mapping.
pub open spec fn delivered(events: Seq<Option<Event>>) -> nat
    decreases events.len(),
{
    if events.len() == 0 {
        0
    } else {
        (if events[0] is Some {
            1nat
        } else {
            0nat
        }) + delivered(events.drop_first())
    }
}

/// The outcome of a wait loop driven by a fixed event sequence.
#[derive(Debug, Clone, Copy, PartialEq, Eq)]
pub struct LoopRun {
    pub consumed: usize,
    pub handler_calls: usize,
    pub stopped: bool,
}

/// Runs the wait loop over `events`, skipping those without a mapping, answering each
/// delivered event `i` with `replies[i]`, until the loop stops or the events run out.
pub fn run_events(events: &Vec<Option<Event>>, replies: &Vec<ControlFlow>) -> (r: LoopRun)
    requires
        replies@.len() == events@.len(),
    ensures
        (r.consumed as nat, r.handler_calls as nat, r.stopped) == run(events@, replies@),
{
    let n = events.len();
    let mut i: usize = 0;
    let mut calls: usize = 0;
    assert(events@.subrange(0, n as int) =~= events@);
    assert(replies@.subrange(0, n as int) =~= replies@);
    while i < n
        invariant
            n == events@.len(),
            replies@.len() == n,
            i <= n,
            calls <= i,
            ({
                let t = run(events@.subrange(i as int, n as int), replies@.subrange(i as int, n as int));
                run(events@, replies@) == ((t.0 + i) as nat, (t.1 + calls) as nat, t.2)
            }),
        decreases n - i,
    {
        let ghost es = events@.subrange(i as int, n as int);
        let ghost rs = replies@.subrange(i as int, n as int);
        assert(es.drop_first() =~= events@.subrange(i + 1, n as int));
        assert(rs.drop_first() =~= replies@.subrange(i + 1, n as int));
        match &events[i] {
            None => {},
            Some(e) => {
                calls += 1;
                if loop_flow(e, replies[i]) == ControlFlow::Break {
                    return LoopRun { consumed: i + 1, handler_calls: calls, stopped: true };
                }
            },
        }
        i += 1;
    }
    assert(events@.subrange(n as int, n as int).len() == 0);
    LoopRun { consumed: n, handler_calls: calls, stopped: false }
}

/// A quit event ends the wait loop even when the handler always answers `Continue`:
/// whatever follows it, no further event is taken and the handler is not called again.
pub proof fn lemma_quit_ends_loop(
    events: Seq<Option<Event>>,
    rest: Seq<Option<Event>>,
    replies: Seq<ControlFlow>,
)
    requires
        events.len() >= 1,
        events.last() == Some(Event::Quit),
        forall|i: int| 0 <= i < events.len() - 1 ==> events[i] != Some(Event::Quit),
        replies.len() == events.len() + rest.len(),
        forall|i: int| 0 <= i < replies.len() ==> replies[i] == ControlFlow::Continue,
    ensures
        run(events + rest, replies) == (events.len(), delivered(events), true),
    decreases events.len(),
{
    let all = events + rest;
    assert(all[0] == events[0]);
    if events.len() == 1 {
        assert(delivered(events.drop_first()) == 0);
    } else {
        let tail = events.drop_first();
        assert(all.drop_first() =~= tail + rest);
        assert(tail.last() == events.last());
        assert forall|i: int| 0 <= i < tail.len() - 1 implies tail[i] != Some(Event::Quit) by {
            assert(tail[i] == events[i + 1]);
        }
        assert forall|i: int| 0 <= i < replies.drop_first().len() implies replies.drop_first()[i]
            == ControlFlow::Continue by {
            assert(replies.drop_first()[i] == replies[i + 1]);
        }
        lemma_quit_ends_loop(tail, rest, replies.drop_first());
        assert(replies[0] == ControlFlow::Continue);
    }
}

} // verus!
