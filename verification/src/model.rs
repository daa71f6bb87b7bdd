//! What a request interface does, as a function of its state.
use crate::context::{
    all_pending, command_of, filter_of, first_pending, next_advertised, registered, topic_of,
    HandlerView, MAX_COMMAND_TOPIC_LENGTH, MAX_TOPIC_LENGTH,
};
use crate::machine::{after, Event, State};
use crate::poll::{ActionView, PollEvent};
use crate::publication::{advertisement, refusal, success, RouteView, SubscriptionView};
use crate::request::RequestView;
use crate::text::utf8_len;
use vstd::prelude::*;

verus! {

/// The state of a request interface.
#[verifier::ext_equal]
pub struct Model {
    /// How far the connection is set up.
    pub state: State,
    /// The prefix of all command topics.
    pub prefix: Seq<char>,
    /// The registered commands, in the order of their registration.
    pub handlers: Seq<HandlerView>,
}

/// Whether no command occurs twice.
pub open spec fn distinct(handlers: Seq<HandlerView>) -> bool {
    forall|i: int, j: int|
        0 <= i < j < handlers.len() ==> (#[trigger] handlers[i]).command != (
        #[trigger] handlers[j]).command
}

/// Whether every command was advertised.
pub open spec fn all_advertised(handlers: Seq<HandlerView>) -> bool {
    forall|i: int| 0 <= i < handlers.len() ==> (#[trigger] handlers[i]).republished
}

/// Whether no command was advertised.
pub open spec fn none_advertised(handlers: Seq<HandlerView>) -> bool {
    forall|i: int| 0 <= i < handlers.len() ==> !(#[trigger] handlers[i]).republished
}

impl Model {
    /// What holds of every request interface with the given number of slots. No connection is set
    /// up completely before every command was advertised on it.
    pub open spec fn wf(self, slots: nat) -> bool {
        &&& self.handlers.len() <= slots
        &&& utf8_len(self.prefix) <= MAX_TOPIC_LENGTH
        &&& distinct(self.handlers)
        &&& self.state is Subscribing ==> none_advertised(self.handlers)
        &&& self.state is Active ==> all_advertised(self.handlers)
    }

    /// The interface of a device without commands.
    pub open spec fn initial(prefix: Seq<char>) -> Model {
        Model { state: State::Init, prefix, handlers: Seq::empty() }
    }

    /// Whether another command can be registered.
    pub open spec fn accepts(self, slots: nat, command: Seq<char>) -> bool {
        !registered(self.handlers, command) && self.handlers.len() < slots
    }

    /// After `command` was registered. Where the connection was set up, the command has to be
    /// advertised.
    pub open spec fn with_command(self, command: Seq<char>) -> Model {
        Model {
            state: after(self.state, Event::PendingRepublish, true),
            handlers: self.handlers.push(HandlerView { command, republished: false }),
            ..self
        }
    }

    /// After the connection or the session was lost.
    pub open spec fn lost(self) -> Model {
        Model { state: State::Init, ..self }
    }

    /// Advertises the next command that was not, or finds that there is none.
    pub open spec fn advertise(self) -> (Model, ActionView) {
        match first_pending(self.handlers) {
            Some(i) => (
                self,
                ActionView::Publish(advertisement(topic_of(self.prefix, self.handlers[i].command))),
            ),
            None => (Model { state: State::Active, ..self }, ActionView::Receive),
        }
    }

    /// Tries to move on, on a connection that is `connected`.
    pub open spec fn update(self, connected: bool) -> (Model, ActionView) {
        match self.state {
            State::Init => if connected {
                (
                    Model {
                        state: State::Subscribing,
                        handlers: all_pending(self.handlers),
                        ..self
                    },
                    ActionView::Receive,
                )
            } else {
                (self, ActionView::Receive)
            },
            State::Subscribing => (
                self,
                ActionView::Subscribe(
                    SubscriptionView {
                        filter: filter_of(self.prefix),
                        ignore_local_messages: true,
                    },
                ),
            ),
            State::Republishing => self.advertise(),
            State::Active => (self, ActionView::Receive),
        }
    }

    /// The state after `event`, and what is to be done then.
    pub open spec fn step(self, event: PollEvent) -> (Model, ActionView) {
        match event {
            PollEvent::Started { connected } => if connected {
                self.update(true)
            } else {
                self.lost().update(false)
            },
            PollEvent::Subscribed { sent } => if self.state is Subscribing && sent {
                (Model { state: State::Republishing, ..self }, ActionView::Receive)
            } else {
                (self, ActionView::Receive)
            },
            PollEvent::Published { sent } => if self.state is Republishing && sent {
                Model { handlers: next_advertised(self.handlers), ..self }.advertise()
            } else {
                (self, ActionView::Receive)
            },
        }
    }

    /// Whether what `event` leads to can be published: topics have a limit.
    pub open spec fn within_limits(self, event: PollEvent) -> bool {
        self.step(event).1 matches ActionView::Publish(publication) ==> utf8_len(publication.topic)
            <= MAX_COMMAND_TOPIC_LENGTH
    }

    /// What a message on `topic` asks for, and how it is answered along `route`.
    pub open spec fn dispatch(self, topic: Seq<char>, route: Option<RouteView>) -> RequestView {
        match command_of(self.prefix, topic) {
            None => RequestView::Unexpected,
            Some(command) => if !registered(self.handlers, command) {
                RequestView::NotSubscribed {
                    refusal: match route {
                        Some(route) => Some(refusal(route)),
                        None => None,
                    },
                }
            } else {
                match route {
                    Some(route) => RequestView::Call { command, answer: success(route) },
                    None => RequestView::NoResponseTopic { command },
                }
            },
        }
    }
}

} // verus!
