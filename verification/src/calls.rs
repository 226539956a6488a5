//! Runs of calls that go through one exclusive reference.
//!
//! What a trait's method does to its receiver is known only by its contract. A function that calls
//! such methods says in its own contract which calls it made: a sequence of exclusive references,
//! one for each call, and the states between them. Each call starts from the state that the one
//! before it left.

use vstd::prelude::*;

verus! {

/// Whether each of `calls` starts from the state at its place in `states`, which has one state more
/// than there are calls: what the run leaves.
pub open spec fn is_chain<T>(calls: Seq<&mut T>, states: Seq<T>) -> bool {
    &&& states.len() == calls.len() + 1
    &&& forall|i: int| 0 <= i < calls.len() ==> *(#[trigger] calls[i]) == states[i]
}

/// A run that starts where another one ended goes on from it.
pub proof fn lemma_chains_join<T>(
    calls: Seq<&mut T>,
    states: Seq<T>,
    later_calls: Seq<&mut T>,
    later_states: Seq<T>,
)
    requires
        is_chain(calls, states),
        is_chain(later_calls, later_states),
        later_states.first() == states.last(),
    ensures
        is_chain(calls + later_calls, states + later_states.drop_first()),
        (states + later_states.drop_first()).first() == states.first(),
        (states + later_states.drop_first()).last() == later_states.last(),
{
    let joined_calls = calls + later_calls;
    let joined = states + later_states.drop_first();
    assert forall|i: int| 0 <= i < joined_calls.len() implies *(#[trigger] joined_calls[i])
        == joined[i] by {
        if i < calls.len() {
            assert(joined_calls[i] == calls[i]);
        } else {
            assert(joined_calls[i] == later_calls[i - calls.len()]);
        }
    }
}

/// A run in which no call changes the state ends as it began.
pub proof fn lemma_unchanged_states<T>(states: Seq<T>, index: int)
    requires
        0 <= index < states.len(),
        forall|i: int|
            #![trigger states[i]]
            0 <= i < states.len() - 1 ==> states[i + 1] == states[i],
    ensures
        states[index] == states[0],
    decreases index,
{
    if index > 0 {
        lemma_unchanged_states(states, index - 1);
        assert(states[(index - 1) + 1] == states[index - 1]);
    }
}

} // verus!
