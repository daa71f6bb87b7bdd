//! Responses with a numeric code, and the state machine.
use minireq::machine::{Event, State, TransitionError};
use minireq::Response;

#[test]
fn ok_response() {
    let response = Response::<2>::ok();
    assert_eq!(response.code, 0);
    assert_eq!(response.data.as_str(), "Ok");
}

#[test]
fn custom_response_keeps_what_fits() {
    let response = Response::<9>::custom(5, "123456789");
    assert_eq!((response.code, response.data.as_str()), (5, "123456789"));
    let response = Response::<9>::custom(5, "1234567890");
    assert_eq!((response.code, response.data.as_str()), (5, "Truncated"));
    let response = Response::<1>::custom(6, "1");
    assert_eq!((response.code, response.data.as_str()), (6, "1"));
}

#[test]
fn error_response_shows_the_error() {
    let response = Response::<16>::error("no");
    assert_eq!((response.code, response.data.as_str()), (-1, "\"no\""));
    let response = Response::<5>::error(Some(12));
    assert_eq!((response.code, response.data.as_str()), (-1, "Error"));
    let response = Response::<8>::error(Some(12));
    assert_eq!((response.code, response.data.as_str()), (-1, "Some(12)"));
    let response = Response::<5>::error_message(None);
    assert_eq!((response.code, response.data.as_str()), (-1, "Error"));
    let response = Response::<5>::error("toolong");
    assert_eq!((response.code, response.data.as_str()), (-1, "Error"));
    let message = Some(heapless::String::from("abc"));
    let response = Response::<3>::try_error_message(message).unwrap();
    assert_eq!((response.code, response.data.as_str()), (-1, "abc"));
    let response = Response::<5>::try_error_message(None).unwrap();
    assert_eq!((response.code, response.data.as_str()), (-1, "Error"));
    assert!(Response::<4>::try_error_message(None).is_none());
    let response = Response::<1>::try_error(7).unwrap();
    assert_eq!((response.code, response.data.as_str()), (-1, "7"));
    let response = Response::<5>::try_error("too long").unwrap();
    assert_eq!((response.code, response.data.as_str()), (-1, "Error"));
    assert!(Response::<4>::try_error("too long").is_none());
}

#[test]
fn data_response() {
    let json: Result<heapless::String<20>, ()> = Ok(heapless::String::from("{\"a\":1}"));
    let response = Response::data(json);
    assert_eq!((response.code, response.data.as_str()), (0, "{\"a\":1}"));
    let response = Response::<20>::data(serde_json_core::to_string(&[1u32, 2, 3]));
    assert_eq!((response.code, response.data.as_str()), (0, "[1,2,3]"));
    let response = Response::<18>::data(serde_json_core::to_string(&[1234567u32, 89012345, 3]));
    assert_eq!(
        (response.code, response.data.as_str()),
        (-2, "Response too large")
    );
    let response = Response::<17>::data(Err::<heapless::String<17>, ()>(()));
    assert_eq!((response.code, response.data.as_str()), (-2, "Truncated"));
}

#[test]
fn default_and_copied_responses() {
    let response = Response::<4>::default();
    assert_eq!((response.code, response.data.as_str()), (0, ""));
    let response = Response::<4>::custom(3, "abcd").clone();
    assert_eq!((response.code, response.data.as_str()), (3, "abcd"));
}

#[test]
fn every_state_resets() {
    for start in [
        State::Init,
        State::Subscribing,
        State::Republishing,
        State::Active,
    ] {
        let mut state = start;
        assert_eq!(state.process_event(Event::Reset, false), Ok(State::Init));
        assert_eq!(state, State::Init);
    }
}

#[test]
fn updates_pass_through_the_states() {
    let mut state = State::Init;
    assert_eq!(
        state.process_event(Event::Update, false),
        Err(TransitionError::GuardFailed)
    );
    assert_eq!(state, State::Init);
    assert_eq!(
        state.process_event(Event::Update, true),
        Ok(State::Subscribing)
    );
    assert_eq!(
        state.process_event(Event::PendingRepublish, true),
        Err(TransitionError::InvalidEvent)
    );
    assert_eq!(
        state.process_event(Event::Update, true),
        Ok(State::Republishing)
    );
    assert_eq!(state.process_event(Event::Update, true), Ok(State::Active));
    assert_eq!(
        state.process_event(Event::Update, true),
        Err(TransitionError::InvalidEvent)
    );
    assert_eq!(
        state.process_event(Event::PendingRepublish, false),
        Ok(State::Republishing)
    );
}
