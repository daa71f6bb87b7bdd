//! The messages that a device sends to its broker.
use crate::response_code::{ResponseCode, UserProperty, UserPropertyView};
use vstd::prelude::*;

verus! {

/// The quality of service of a message.
#[derive(Clone, Copy, Debug, PartialEq, Eq, Structural)]
pub enum Qos {
    AtMostOnce,
    AtLeastOnce,
    ExactlyOnce,
}

/// What a message says.
#[derive(Clone, Copy, Debug)]
pub enum Payload {
    /// This text.
    Text(&'static str),
    /// What the handler of the request writes.
    Handler,
    /// The error that the handler of the request returned, as text.
    Failure,
}

/// What a [`Payload`] stands for.
#[verifier::ext_equal]
pub enum PayloadView {
    Text(Seq<char>),
    Handler,
    Failure,
}

impl View for Payload {
    type V = PayloadView;

    open spec fn view(&self) -> PayloadView {
        match self {
            Payload::Text(text) => PayloadView::Text(text@),
            Payload::Handler => PayloadView::Handler,
            Payload::Failure => PayloadView::Failure,
        }
    }
}

/// A request for all messages on the topics that a filter covers.
#[derive(Debug)]
pub struct Subscription {
    /// The topic filter.
    pub filter: String,
    /// Whether the broker keeps back what the device itself published.
    pub ignore_local_messages: bool,
}

/// What a [`Subscription`] asks for.
#[verifier::ext_equal]
pub struct SubscriptionView {
    pub filter: Seq<char>,
    pub ignore_local_messages: bool,
}

impl View for Subscription {
    type V = SubscriptionView;

    open spec fn view(&self) -> SubscriptionView {
        SubscriptionView {
            filter: self.filter@,
            ignore_local_messages: self.ignore_local_messages,
        }
    }
}

/// Where the answer to a request goes.
#[derive(Debug)]
pub struct Route {
    /// The response topic that the request named.
    pub topic: String,
    /// The correlation data that the request carried.
    pub correlation: Option<Vec<u8>>,
}

/// What a [`Route`] says.
#[verifier::ext_equal]
pub struct RouteView {
    pub topic: Seq<char>,
    pub correlation: Option<Seq<u8>>,
}

/// The bytes of correlation data.
pub open spec fn correlation_view(correlation: Option<Vec<u8>>) -> Option<Seq<u8>> {
    match correlation {
        Some(data) => Some(data@),
        None => None,
    }
}

impl View for Route {
    type V = RouteView;

    open spec fn view(&self) -> RouteView {
        RouteView { topic: self.topic@, correlation: correlation_view(self.correlation) }
    }
}

/// What an optional [`Route`] says.
pub open spec fn route_view(route: Option<Route>) -> Option<RouteView> {
    match route {
        Some(route) => Some(route@),
        None => None,
    }
}

/// A message to publish.
#[derive(Debug)]
pub struct Publication {
    pub topic: String,
    pub correlation: Option<Vec<u8>>,
    pub property: Option<UserProperty>,
    pub payload: Payload,
    pub qos: Qos,
    pub retain: bool,
}

/// What a [`Publication`] says.
#[verifier::ext_equal]
pub struct PublicationView {
    pub topic: Seq<char>,
    pub correlation: Option<Seq<u8>>,
    pub property: Option<UserPropertyView>,
    pub payload: PayloadView,
    pub qos: Qos,
    pub retain: bool,
}

impl View for Publication {
    type V = PublicationView;

    open spec fn view(&self) -> PublicationView {
        PublicationView {
            topic: self.topic@,
            correlation: correlation_view(self.correlation),
            property: match self.property {
                Some(property) => Some(property@),
                None => None,
            },
            payload: self.payload@,
            qos: self.qos,
            retain: self.retain,
        }
    }
}

/// What an optional [`Publication`] says.
pub open spec fn publication_view(publication: Option<Publication>) -> Option<PublicationView> {
    match publication {
        Some(publication) => Some(publication@),
        None => None,
    }
}

/// The message by which a device advertises the command on `topic`: an empty object, retained.
pub open spec fn advertisement(topic: Seq<char>) -> PublicationView {
    PublicationView {
        topic,
        correlation: None,
        property: None,
        payload: PayloadView::Text("{}"@),
        qos: Qos::AtLeastOnce,
        retain: true,
    }
}

/// The answer to a request along `route`.
pub open spec fn answer(
    route: RouteView,
    code: ResponseCode,
    payload: PayloadView,
) -> PublicationView {
    PublicationView {
        topic: route.topic,
        correlation: route.correlation,
        property: Some(code.user_property()),
        payload,
        qos: Qos::AtLeastOnce,
        retain: false,
    }
}

/// The answer to a request for a command that is not subscribed.
pub open spec fn refusal(route: RouteView) -> PublicationView {
    answer(route, ResponseCode::Error, PayloadView::Text("Command is not subscribed"@))
}

/// The answer to a request that its handler serves.
pub open spec fn success(route: RouteView) -> PublicationView {
    answer(route, ResponseCode::Success, PayloadView::Handler)
}

/// The answer to a request whose handler failed.
pub open spec fn failure(route: RouteView) -> PublicationView {
    answer(route, ResponseCode::Error, PayloadView::Failure)
}

impl Publication {
    /// The message by which a device advertises the command on `topic`.
    pub fn advertisement(topic: &str) -> (publication: Publication)
        ensures
            publication@ == advertisement(topic@),
            publication.topic@ == topic@,
            publication.correlation is None,
            publication.property is None,
            publication.payload matches Payload::Text(text) && text@ == seq!['{', '}'],
            publication.qos is AtLeastOnce,
            publication.retain,
    {
        proof {
            reveal_strlit("{}");
            assert("{}"@ =~= seq!['{', '}']);
        }
        Publication {
            topic: topic.to_owned(),
            correlation: None,
            property: None,
            payload: Payload::Text("{}"),
            qos: Qos::AtLeastOnce,
            retain: true,
        }
    }

    /// The answer to a request along `route`.
    pub fn answer(route: Route, code: ResponseCode, payload: Payload) -> (publication: Publication)
        ensures
            publication@ == answer(route@, code, payload@),
            publication.topic@ == route.topic@,
            correlation_view(publication.correlation) == correlation_view(route.correlation),
            publication.property matches Some(property) && property.key@ == "code"@
                && property.value@ == (if code is Success {
                "Ok"@
            } else {
                "Error"@
            }),
            publication.payload == payload,
            publication.qos is AtLeastOnce,
            !publication.retain,
    {
        Publication {
            topic: route.topic,
            correlation: route.correlation,
            property: Some(code.to_user_property()),
            payload,
            qos: Qos::AtLeastOnce,
            retain: false,
        }
    }
}

/// How publishing the answer of a handler went.
#[derive(Clone, Copy, Debug, PartialEq, Eq, Structural)]
pub enum Sent {
    /// The client took the message, or dropped it for want of a connection.
    Accepted,
    /// The client could not take the message.
    Refused,
    /// The handler returned an error instead of a payload.
    HandlerFailed,
}

/// The same message, with the error of the handler in place of its answer.
pub open spec fn failed(answer: PublicationView) -> PublicationView {
    PublicationView {
        property: Some(ResponseCode::Error.user_property()),
        payload: PayloadView::Failure,
        ..answer
    }
}

/// What is left to publish once the `answer` of a handler was `sent`: only where the handler
/// failed, the error that it returned, which goes where the answer would have gone.
pub fn follow_up(answer: Publication, sent: Sent) -> (publication: Option<Publication>)
    ensures
        publication_view(publication) == (if sent is HandlerFailed {
            Some(failed(answer@))
        } else {
            None
        }),
        publication is Some <==> sent is HandlerFailed,
        publication matches Some(p) ==> {
            &&& p.topic@ == answer.topic@
            &&& correlation_view(p.correlation) == correlation_view(answer.correlation)
            &&& p.property matches Some(property) && property.key@ == "code"@ && property.value@
                == "Error"@
            &&& p.payload is Failure
            &&& p.qos == answer.qos
            &&& p.retain == answer.retain
        },
{
    match sent {
        Sent::HandlerFailed => Some(
            Publication {
                property: Some(ResponseCode::Error.to_user_property()),
                payload: Payload::Failure,
                ..answer
            },
        ),
        _ => None,
    }
}

} // verus!
