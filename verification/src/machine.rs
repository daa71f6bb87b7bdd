//! The state machine that a connection to the broker runs through.
use vstd::prelude::*;

verus! {

/// How far the device has come in setting up its connection.
#[derive(Clone, Copy, Debug, PartialEq, Eq, Structural)]
pub enum State {
    /// There is no connection yet, or it was lost.
    Init,
    /// The command topics have to be subscribed to.
    Subscribing,
    /// Some commands may have to be advertised.
    Republishing,
    /// Everything is set up.
    Active,
}

/// What drives the machine.
#[derive(Clone, Copy, Debug, PartialEq, Eq, Structural)]
pub enum Event {
    /// Try to move on.
    Update,
    /// A command was added that has not been advertised.
    PendingRepublish,
    /// The connection or the session was lost.
    Reset,
}

/// Why an event was refused.
#[derive(Clone, Copy, Debug, PartialEq, Eq, Structural)]
pub enum TransitionError {
    /// The event does not occur in this state.
    InvalidEvent,
    /// The guard of the transition did not pass.
    GuardFailed,
}

/// The state that `event` leads to from `state`, if the event occurs there.
pub open spec fn target(state: State, event: Event) -> Option<State> {
    match (state, event) {
        (_, Event::Reset) => Some(State::Init),
        (State::Init, Event::Update) => Some(State::Subscribing),
        (State::Subscribing, Event::Update) => Some(State::Republishing),
        (State::Republishing, Event::Update) => Some(State::Active),
        (State::Active, Event::PendingRepublish) => Some(State::Republishing),
        _ => None,
    }
}

/// Whether the transitions of `event` depend on a guard.
pub open spec fn guarded(event: Event) -> bool {
    event is Update
}

/// What `event` does in `state`, where `guard` tells whether the guard of a guarded transition
/// passes.
pub open spec fn transition(state: State, event: Event, guard: bool) -> Result<
    State,
    TransitionError,
> {
    match target(state, event) {
        None => Err(TransitionError::InvalidEvent),
        Some(next) => if guarded(event) && !guard {
            Err(TransitionError::GuardFailed)
        } else {
            Ok(next)
        },
    }
}

/// The state after `event`, which is the same state where the event is refused.
pub open spec fn after(state: State, event: Event, guard: bool) -> State {
    match transition(state, event, guard) {
        Ok(next) => next,
        Err(_) => state,
    }
}

impl State {
    /// Processes `event`. The state stays as it is where the event is refused.
    pub fn process_event(&mut self, event: Event, guard: bool) -> (result: Result<
        State,
        TransitionError,
    >)
        ensures
            result == transition(*old(self), event, guard),
            *final(self) == after(*old(self), event, guard),
    {
        let next = match (*self, event) {
            (_, Event::Reset) => State::Init,
            (State::Init, Event::Update) => State::Subscribing,
            (State::Subscribing, Event::Update) => State::Republishing,
            (State::Republishing, Event::Update) => State::Active,
            (State::Active, Event::PendingRepublish) => State::Republishing,
            _ => return Err(TransitionError::InvalidEvent),
        };
        match event {
            Event::Update => if !guard {
                return Err(TransitionError::GuardFailed);
            },
            _ => {},
        }
        *self = next;
        Ok(next)
    }
}

} // verus!
