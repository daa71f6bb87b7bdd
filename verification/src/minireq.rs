//! The request interface of a device.
use crate::behaviour::law_new_commands_are_accepted;
use crate::context::{
    command_of, lemma_none_pending, prefix_of, HandlerView, MinireqContext,
    MAX_COMMAND_TOPIC_LENGTH, MAX_TOPIC_LENGTH,
};
use crate::error::Error;
use crate::machine::{Event, State};
use crate::model::Model;
use crate::poll::{poll_result, ActionView, PollAction, PollEvent, Received};
use crate::properties::{
    complete_from, decodable, find_route, is_decodable, lemma_complete_decodable, listed_route,
    reply_route,
};
use crate::publication::{route_view, Payload, Publication, Route};
use crate::request::{request_view, Request, RequestView};
use crate::response_code::ResponseCode;
use crate::text::utf8_len;
use vstd::prelude::*;

verus! {

/// MQTT request/response interface, with room for `SLOTS` commands.
pub struct Minireq<'a, const SLOTS: usize> {
    state: State,
    context: MinireqContext<'a, SLOTS>,
}

impl<'a, const SLOTS: usize> View for Minireq<'a, SLOTS> {
    type V = Model;

    closed spec fn view(&self) -> Model {
        Model {
            state: self.state,
            prefix: self.context.prefix(),
            handlers: self.context.handlers(),
        }
    }
}

impl<'a, const SLOTS: usize> Minireq<'a, SLOTS> {
    /// What every operation keeps.
    pub closed spec fn wf(&self) -> bool {
        &&& self.context.wf()
        &&& self@.wf(SLOTS as nat)
    }

    /// A well-formed interface has a well-formed model.
    pub proof fn lemma_wf(&self)
        requires
            self.wf(),
        ensures
            self@.wf(SLOTS as nat),
    {
    }

    /// Construct a new MQTT request handler.
    ///
    /// # Args
    /// * `device_prefix` - The MQTT device prefix to use for this device.
    pub fn new<E>(device_prefix: &str) -> (result: Result<Self, Error<E>>)
        ensures
            result is Ok <==> utf8_len(prefix_of(device_prefix@)) <= MAX_TOPIC_LENGTH,
            result is Ok <==> utf8_len(device_prefix@ + "/command"@) <= 128,
            result matches Ok(minireq) ==> minireq@.prefix == device_prefix@ + "/command"@,
            result matches Ok(minireq) ==> minireq.wf() && minireq@ == Model::initial(
                prefix_of(device_prefix@),
            ),
            result matches Err(e) ==> e is PrefixTooLong,
    {
        match MinireqContext::new(device_prefix) {
            Some(context) => Ok(Minireq { state: State::Init, context }),
            None => Err(Error::PrefixTooLong),
        }
    }

    /// Associate a handler to be called when receiving the specified request.
    ///
    /// # Args
    /// * `topic` - The command topic to subscribe to. This is appended to the string
    /// `<prefix>/command/`.
    pub fn subscribe<E>(&mut self, topic: &'a str) -> (result: Result<(), Error<E>>)
        requires
            old(self).wf(),
        ensures
            final(self).wf(),
            result is Ok <==> old(self)@.accepts(SLOTS as nat, topic@),
            result is Ok <==> !old(self)@.handlers.map_values(
                |handler: HandlerView| handler.command,
            ).contains(topic@) && old(self)@.handlers.len() < SLOTS,
            result is Ok && old(self)@.state is Active ==> final(self)@.state is Republishing,
            old(self)@.state !is Active ==> final(self)@.state == old(self)@.state,
            result is Ok ==> final(self)@ == old(self)@.with_command(topic@),
            result matches Err(e) ==> e is SubscribeFailed && final(self)@ == old(self)@,
    {
        proof {
            law_new_commands_are_accepted(self@, SLOTS as nat, topic@);
        }
        if !self.context.add(topic) {
            return Err(Error::SubscribeFailed);
        }
        // Have the new command advertised. The event is refused before the connection is set up,
        // when all commands are still going to be advertised.
        let _ = self.state.process_event(Event::PendingRepublish, true);
        Ok(())
    }

    /// Advertises the next command, or finds that all were advertised.
    fn advertise(&mut self) -> (action: PollAction)
        requires
            old(self).wf(),
            old(self)@.state is Republishing,
            old(self)@.advertise().1 matches ActionView::Publish(publication) ==> utf8_len(
                publication.topic,
            ) <= MAX_COMMAND_TOPIC_LENGTH,
        ensures
            final(self).wf(),
            (final(self)@, action@) == old(self)@.advertise(),
            action !is Subscribe,
            action matches PollAction::Publish(publication) ==> {
                &&& publication.retain
                &&& publication.qos is AtLeastOnce
                &&& publication.property is None
                &&& publication.correlation is None
                &&& publication.payload matches Payload::Text(text) && text@ == seq!['{', '}']
            },
    {
        match self.context.republish() {
            Some(publication) => PollAction::Publish(publication),
            None => {
                proof {
                    lemma_none_pending(self@.handlers);
                }
                let _ = self.state.process_event(Event::Update, true);
                PollAction::Receive
            },
        }
    }

    /// Poll the request/response interface: begin a poll, or continue it after the action that the
    /// last call asked for.
    pub fn poll(&mut self, event: PollEvent) -> (action: PollAction)
        requires
            old(self).wf(),
            old(self)@.within_limits(event),
        ensures
            final(self).wf(),
            (final(self)@, action@) == old(self)@.step(event),
            action matches PollAction::Subscribe(subscription) ==> {
                &&& subscription.filter@ == old(self)@.prefix + seq!['/', '#']
                &&& subscription.ignore_local_messages
            },
            action matches PollAction::Publish(publication) ==> {
                &&& publication.retain
                &&& publication.qos is AtLeastOnce
                &&& publication.property is None
                &&& publication.correlation is None
                &&& publication.payload matches Payload::Text(text) && text@ == seq!['{', '}']
            },
    {
        match event {
            PollEvent::Started { connected } => {
                if !connected {
                    let _ = self.state.process_event(Event::Reset, true);
                }
                match self.state {
                    State::Init => {
                        if self.state.process_event(Event::Update, connected).is_ok() {
                            self.context.reset();
                        }
                        PollAction::Receive
                    },
                    State::Subscribing => PollAction::Subscribe(self.context.subscribe()),
                    State::Republishing => self.advertise(),
                    State::Active => PollAction::Receive,
                }
            },
            PollEvent::Subscribed { sent } => {
                if self.state == State::Subscribing {
                    let _ = self.state.process_event(Event::Update, sent);
                }
                PollAction::Receive
            },
            PollEvent::Published { sent } => {
                if self.state == State::Republishing && sent {
                    self.context.republished();
                    self.advertise()
                } else {
                    PollAction::Receive
                }
            },
        }
    }

    /// Whether [`Minireq::poll`] can be called with `event`: whether the topic that it would
    /// publish on is short enough.
    pub fn can_poll(&self, event: PollEvent) -> (result: bool)
        requires
            self.wf(),
        ensures
            result == self@.within_limits(event),
    {
        match event {
            PollEvent::Started { connected: true } if self.state == State::Republishing =>
                self.context.fits(false),
            PollEvent::Published { sent: true } if self.state == State::Republishing =>
                self.context.fits(true),
            _ => true,
        }
    }

    /// Ends a poll once messages were received.
    pub fn finish_poll<E>(&mut self, received: Received<E>) -> (result: Result<(), Error<E>>)
        requires
            old(self).wf(),
        ensures
            final(self).wf(),
            result == poll_result(received),
            final(self)@ == (if received is SessionReset {
                old(self)@.lost()
            } else {
                old(self)@
            }),
    {
        match received {
            Received::Done => Ok(()),
            Received::SessionReset => {
                let _ = self.state.process_event(Event::Reset, true);
                Ok(())
            },
            Received::Failed(other) => Err(Error::from(other)),
        }
    }

    /// What a message on `topic` asks for, and how it is answered along `route`.
    pub fn dispatch<'t>(&self, topic: &'t str, route: Option<Route>) -> (request: Request<'t>)
        requires
            self.wf(),
        ensures
            request@ == self@.dispatch(topic@, route_view(route)),
    {
        let command = match self.context.command(topic) {
            Some(command) => command,
            None => return Request::Unexpected,
        };

        if !self.context.is_registered(command) {
            let refusal = match route {
                Some(route) => Some(
                    Publication::answer(
                        route,
                        ResponseCode::Error,
                        Payload::Text("Command is not subscribed"),
                    ),
                ),
                None => None,
            };
            return Request::NotSubscribed { refusal };
        }
        match route {
            Some(route) => {
                // Assume that the handler will succeed. Where it does not, the error follows.
                let answer = Publication::answer(route, ResponseCode::Success, Payload::Handler);
                Request::Call { command, answer }
            },
            None => Request::NoResponseTopic { command },
        }
    }

    /// What a message on `topic` with the encoded `properties` asks for, and how it is answered. On
    /// a topic that is none of the device's, the properties are not looked at. Otherwise `None`
    /// comes back where reading them meets an identifier that is too long.
    pub fn handle_request<'t>(&self, topic: &'t str, properties: &[u8]) -> (request: Option<
        Request<'t>,
    >)
        requires
            self.wf(),
        ensures
            request_view(request) == (if command_of(self@.prefix, topic@) is None {
                Some(RequestView::Unexpected)
            } else if decodable(properties@) {
                Some(self@.dispatch(topic@, reply_route(properties@)))
            } else {
                None
            }),
            complete_from(properties@, 0) ==> request_view(request) == Some(
                self@.dispatch(topic@, listed_route(properties@)),
            ),
    {
        proof {
            if complete_from(properties@, 0) {
                lemma_complete_decodable(properties@, 0, false, false);
            }
        }
        if self.context.command(topic).is_none() {
            Some(Request::Unexpected)
        } else if is_decodable(properties) {
            let route = find_route(properties);
            Some(self.dispatch(topic, route))
        } else {
            None
        }
    }
}

} // verus!
