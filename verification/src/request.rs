//! Inbound requests.
use crate::publication::{publication_view, Publication, PublicationView};
use vstd::prelude::*;

verus! {

/// What an inbound message turned out to be.
#[derive(Debug)]
pub enum Request<'t> {
    /// The topic is none of the device's.
    Unexpected,
    /// The command is not registered. The refusal goes out if the request says where to.
    NotSubscribed { refusal: Option<Publication> },
    /// The command is registered, but the request does not say where the answer goes.
    NoResponseTopic { command: &'t str },
    /// The handler of the command writes the answer.
    Call { command: &'t str, answer: Publication },
}

/// What a [`Request`] says.
#[verifier::ext_equal]
pub enum RequestView {
    Unexpected,
    NotSubscribed { refusal: Option<PublicationView> },
    NoResponseTopic { command: Seq<char> },
    Call { command: Seq<char>, answer: PublicationView },
}

impl<'t> View for Request<'t> {
    type V = RequestView;

    open spec fn view(&self) -> RequestView {
        match self {
            Request::Unexpected => RequestView::Unexpected,
            Request::NotSubscribed { refusal } => RequestView::NotSubscribed {
                refusal: publication_view(*refusal),
            },
            Request::NoResponseTopic { command } => RequestView::NoResponseTopic {
                command: command@,
            },
            Request::Call { command, answer } => RequestView::Call {
                command: command@,
                answer: answer@,
            },
        }
    }
}

/// What an optional [`Request`] says.
pub open spec fn request_view(request: Option<Request<'_>>) -> Option<RequestView> {
    match request {
        Some(request) => Some(request@),
        None => None,
    }
}

} // verus!
