//! MQTT request/response handling.
//!
//! A device owns a topic prefix, `<device prefix>/command`, and offers commands below it. This
//! library decides what such a device says to its broker: which topic filter it subscribes to,
//! which command topics it advertises and when, how an inbound request is dispatched, and how it
//! is answered. Talking to the broker is left to the caller, who performs the
//! [`PollAction`](poll::PollAction)s that [`Minireq::poll`] asks for and reports how they went.

// Much of what is imported is only spoken of in specifications.
#![allow(unused_imports)]

pub mod behaviour;
pub mod context;
pub mod error;
pub mod failure;
pub mod laws;
pub mod machine;
pub mod minireq;
pub mod model;
pub mod poll;
pub mod properties;
pub mod property_laws;
pub mod publication;
pub mod request;
pub mod response;
pub mod response_code;
pub mod text;

pub use context::{HandlerMeta, HandlerSlot};
pub use error::Error;
pub use minireq::Minireq;
pub use response::Response;
pub use response_code::ResponseCode;
