//! Courses of step machines: what any sequence of events can lead to.

use vstd::prelude::*;

verus! {

/// A machine that says what comes next. Its state names the outside work to do; an event tells
/// what came of that work.
pub trait Machine: Sized {
    type Event;

    /// The state once `event` came of the work that this state asks for.
    spec fn next_state(self, event: Self::Event) -> Self;
}

/// A sequence of states, each of which follows from the one before by an event.
pub open spec fn is_course<M: Machine>(states: Seq<M>, events: Seq<M::Event>) -> bool {
    &&& states.len() == events.len() + 1
    &&& forall|k: int|
        0 <= k < events.len() ==> states[k + 1] == (#[trigger] states[k]).next_state(events[k])
}

/// Somewhere before position `k` of a course, this event came of this state's work.
pub open spec fn met_before<M: Machine>(
    states: Seq<M>,
    events: Seq<M::Event>,
    k: int,
    door: spec_fn(M, M::Event) -> bool,
) -> bool {
    exists|j: int| 0 <= j < k && door(#[trigger] states[j], events[j])
}

/// Where the only way into some states is through one door, a course that is in one of them has
/// gone through it.
pub proof fn lemma_door<M: Machine>(
    states: Seq<M>,
    events: Seq<M::Event>,
    k: int,
    beyond: spec_fn(M) -> bool,
    door: spec_fn(M, M::Event) -> bool,
)
    requires
        is_course(states, events),
        0 <= k < states.len(),
        !beyond(states[0]),
        beyond(states[k]),
        forall|s: M, e: M::Event|
            !beyond(s) && beyond(#[trigger] s.next_state(e)) ==> door(s, e),
    ensures
        met_before(states, events, k, door),
    decreases k,
{
    let before = states[k - 1];
    assert(states[k] == before.next_state(events[k - 1]));
    if beyond(before) {
        lemma_door(states, events, k - 1, beyond, door);
        let j = choose|j: int| 0 <= j < k - 1 && door(#[trigger] states[j], events[j]);
        assert(door(states[j], events[j]));
    } else {
        assert(door(states[k - 1], events[k - 1]));
    }
}

/// The same where only states count that the course can be in: those of which `holds` is kept.
pub proof fn lemma_door_within<M: Machine>(
    states: Seq<M>,
    events: Seq<M::Event>,
    k: int,
    holds: spec_fn(M) -> bool,
    beyond: spec_fn(M) -> bool,
    door: spec_fn(M, M::Event) -> bool,
)
    requires
        is_course(states, events),
        0 <= k < states.len(),
        holds(states[0]),
        !beyond(states[0]),
        beyond(states[k]),
        forall|s: M, e: M::Event| holds(s) ==> holds(#[trigger] s.next_state(e)),
        forall|s: M, e: M::Event|
            holds(s) && !beyond(s) && beyond(#[trigger] s.next_state(e)) ==> door(s, e),
    ensures
        met_before(states, events, k, door),
    decreases k,
{
    let before = states[k - 1];
    assert(states[k] == before.next_state(events[k - 1]));
    if beyond(before) {
        lemma_door_within(states, events, k - 1, holds, beyond, door);
        let j = choose|j: int| 0 <= j < k - 1 && door(#[trigger] states[j], events[j]);
        assert(door(states[j], events[j]));
    } else {
        lemma_kept(states, events, k - 1, holds);
        assert(door(states[k - 1], events[k - 1]));
    }
}

/// What holds at the start and is kept by every step holds all along a course.
pub proof fn lemma_kept<M: Machine>(
    states: Seq<M>,
    events: Seq<M::Event>,
    k: int,
    holds: spec_fn(M) -> bool,
)
    requires
        is_course(states, events),
        0 <= k < states.len(),
        holds(states[0]),
        forall|s: M, e: M::Event| holds(s) ==> holds(#[trigger] s.next_state(e)),
    ensures
        holds(states[k]),
    decreases k,
{
    if k > 0 {
        lemma_kept(states, events, k - 1, holds);
        assert(states[k] == states[k - 1].next_state(events[k - 1]));
    }
}

} // verus!
