use vstd::prelude::*;

verus! {

/// Where an instance stands between the compilation of its module and its
/// end.
#[derive(Clone, Copy, Debug, PartialEq, Eq, Structural)]
pub enum InstanceState {
    /// The module is compiled; nothing is bound to its imports yet.
    Compiled,
    /// Every import of the module is bound.
    Linked,
    /// The instance exists and no call is in flight.
    Instantiated,
    /// A call into the instance is in flight.
    Running,
    /// The last call ended in a trap. The instance can be called again.
    Trapped,
    /// The instance is gone.
    Dropped,
}

/// What can happen to an instance.
#[derive(Clone, Copy, Debug, PartialEq, Eq, Structural)]
pub enum InstanceEvent {
    /// The imports were bound.
    Link,
    /// The instance was created.
    Instantiate,
    /// The host called an export.
    Call,
    /// The call in flight returned.
    Return,
    /// The call in flight trapped.
    Trap,
    /// The instance was dropped.
    Drop,
}

/// The state that follows `state` on `event`, or `None` where the event
/// cannot happen in that state.
pub open spec fn next_state(state: InstanceState, event: InstanceEvent) -> Option<InstanceState> {
    match (state, event) {
        (InstanceState::Compiled, InstanceEvent::Link) => Some(InstanceState::Linked),
        (InstanceState::Linked, InstanceEvent::Instantiate) => Some(InstanceState::Instantiated),
        (InstanceState::Instantiated, InstanceEvent::Call) => Some(InstanceState::Running),
        (InstanceState::Trapped, InstanceEvent::Call) => Some(InstanceState::Running),
        (InstanceState::Running, InstanceEvent::Return) => Some(InstanceState::Instantiated),
        (InstanceState::Running, InstanceEvent::Trap) => Some(InstanceState::Trapped),
        (InstanceState::Running, InstanceEvent::Drop) => None,
        (InstanceState::Dropped, InstanceEvent::Drop) => None,
        (_, InstanceEvent::Drop) => Some(InstanceState::Dropped),
        _ => None,
    }
}

/// The state after a series of events, or `None` where one of them could not
/// happen.
pub open spec fn state_after(state: InstanceState, events: Seq<InstanceEvent>) -> Option<
    InstanceState,
>
    decreases events.len(),
{
    if events.len() == 0 {
        Some(state)
    } else {
        match state_after(state, events.drop_last()) {
            Some(reached) => next_state(reached, events.last()),
            None => None,
        }
    }
}

/// Takes an instance from `state` through `event`.
pub fn step(state: InstanceState, event: InstanceEvent) -> (next: Option<InstanceState>)
    ensures
        next == next_state(state, event),
{
    match (state, event) {
        (InstanceState::Compiled, InstanceEvent::Link) => Some(InstanceState::Linked),
        (InstanceState::Linked, InstanceEvent::Instantiate) => Some(InstanceState::Instantiated),
        (InstanceState::Instantiated, InstanceEvent::Call) => Some(InstanceState::Running),
        (InstanceState::Trapped, InstanceEvent::Call) => Some(InstanceState::Running),
        (InstanceState::Running, InstanceEvent::Return) => Some(InstanceState::Instantiated),
        (InstanceState::Running, InstanceEvent::Trap) => Some(InstanceState::Trapped),
        (InstanceState::Running, InstanceEvent::Drop) => None,
        (InstanceState::Dropped, InstanceEvent::Drop) => None,
        (_, InstanceEvent::Drop) => Some(InstanceState::Dropped),
        _ => None,
    }
}

/// Whether an export of an instance in this state can be called.
pub fn callable(state: InstanceState) -> (ready: bool)
    ensures
        ready == (next_state(state, InstanceEvent::Call) is Some),
        ready == (state is Instantiated || state is Trapped),
{
    match state {
        InstanceState::Instantiated => true,
        InstanceState::Trapped => true,
        _ => false,
    }
}

/// Nothing happens to a dropped instance.
pub proof fn lemma_dropped_is_final(event: InstanceEvent)
    ensures
        next_state(InstanceState::Dropped, event) is None,
{
}

/// A trap ends the call, not the instance: after it the instance can be
/// called again, and a call that returns leaves it as it was before the trap.
pub proof fn lemma_trap_is_recoverable()
    ensures
        next_state(InstanceState::Running, InstanceEvent::Trap) == Some(InstanceState::Trapped),
        next_state(InstanceState::Trapped, InstanceEvent::Call) == Some(InstanceState::Running),
        state_after(
            InstanceState::Trapped,
            seq![InstanceEvent::Call, InstanceEvent::Return],
        ) == Some(InstanceState::Instantiated),
{
    let events = seq![InstanceEvent::Call, InstanceEvent::Return];
    assert(events.drop_last() =~= seq![InstanceEvent::Call]);
    assert(events.drop_last().drop_last() =~= Seq::<InstanceEvent>::empty());
    reveal_with_fuel(state_after, 3);
}

/// No export is called before the instance exists: a compiled module
/// reaches a call only through linking and instantiation.
pub proof fn lemma_call_needs_instance(state: InstanceState)
    ensures
        next_state(state, InstanceEvent::Call) is Some ==> state is Instantiated || state
            is Trapped,
        forall|event: InstanceEvent|
            next_state(InstanceState::Compiled, event) == Some(InstanceState::Running) ==> false,
        forall|event: InstanceEvent|
            next_state(InstanceState::Linked, event) == Some(InstanceState::Running) ==> false,
{
}

} // verus!
