//! The conversation between a request interface and its caller, who talks to the broker.
use crate::error::Error;
use crate::publication::{Publication, PublicationView, Subscription, SubscriptionView};
use vstd::prelude::*;

verus! {

/// What the caller reports.
#[derive(Clone, Copy, Debug, PartialEq, Eq, Structural)]
pub enum PollEvent {
    /// A poll begins, with or without a connection to the broker.
    Started { connected: bool },
    /// The client was asked to subscribe, and took the request or not.
    Subscribed { sent: bool },
    /// The client was asked to publish, and took the message or not.
    Published { sent: bool },
}

/// What the caller does next.
#[derive(Debug)]
pub enum PollAction {
    /// Subscribe, and report [`PollEvent::Subscribed`].
    Subscribe(Subscription),
    /// Publish, and report [`PollEvent::Published`].
    Publish(Publication),
    /// Let the client receive messages, and report to
    /// [`Minireq::finish_poll`](crate::minireq::Minireq::finish_poll).
    Receive,
}

/// What a [`PollAction`] asks for.
#[verifier::ext_equal]
pub enum ActionView {
    Subscribe(SubscriptionView),
    Publish(PublicationView),
    Receive,
}

impl View for PollAction {
    type V = ActionView;

    open spec fn view(&self) -> ActionView {
        match self {
            PollAction::Subscribe(subscription) => ActionView::Subscribe(subscription@),
            PollAction::Publish(publication) => ActionView::Publish(publication@),
            PollAction::Receive => ActionView::Receive,
        }
    }
}

/// How receiving messages went, where `E` is the error of the MQTT client.
#[derive(Debug)]
pub enum Received<E> {
    /// All went well.
    Done,
    /// The broker does not remember the session.
    SessionReset,
    /// The client failed in any other way.
    Failed(E),
}

/// What a poll returns.
pub open spec fn poll_result<E>(received: Received<E>) -> Result<(), Error<E>> {
    match received {
        Received::Failed(e) => Err(Error::Mqtt(e)),
        _ => Ok(()),
    }
}

} // verus!
