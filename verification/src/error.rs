//! What can go wrong.
use vstd::prelude::*;

verus! {

/// An error of the request interface, where `E` is the error of the MQTT client.
#[derive(Debug, PartialEq)]
pub enum Error<E> {
    /// The command is registered already, or there is no room for another one.
    SubscribeFailed,
    /// The device prefix leaves no room for the command suffix.
    PrefixTooLong,
    /// The MQTT client failed.
    Mqtt(E),
}

impl<E> From<E> for Error<E> {
    fn from(e: E) -> (error: Self) {
        Error::Mqtt(e)
    }
}

impl<E> vstd::std_specs::convert::FromSpecImpl<E> for Error<E> {
    open spec fn obeys_from_spec() -> bool {
        true
    }

    open spec fn from_spec(e: E) -> Self {
        Error::Mqtt(e)
    }
}

} // verus!
