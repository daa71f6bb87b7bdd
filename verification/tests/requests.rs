//! How inbound requests are dispatched and answered.
use minireq::failure::{render, written};
use minireq::poll::PollEvent;
use minireq::properties::is_decodable;
use minireq::publication::{follow_up, Payload, Publication, Qos, Route, Sent};
use minireq::request::Request;
use minireq::{Minireq, ResponseCode};

fn device() -> Minireq<'static, 10> {
    let mut minireq: Minireq<'static, 10> =
        Minireq::new::<()>("minireq/integration/device").unwrap();
    assert!(minireq.subscribe::<()>("test").is_ok());
    minireq
}

fn route() -> Route {
    Route {
        topic: String::from("minireq/integration/device/response"),
        correlation: Some(vec![1, 2, 3]),
    }
}

fn code(publication: &Publication) -> (&'static str, &'static str) {
    let property = publication.property.unwrap();
    (property.key, property.value)
}

/// A property that is text or data.
fn property(id: u8, value: &[u8]) -> Vec<u8> {
    let mut bytes = vec![id, (value.len() >> 8) as u8, value.len() as u8];
    bytes.extend_from_slice(value);
    bytes
}

fn called(request: Request<'_>) -> (String, Publication) {
    match request {
        Request::Call { command, answer } => (String::from(command), answer),
        other => panic!("{:?}", other),
    }
}

#[test]
fn codes_are_user_properties() {
    let ok = ResponseCode::Success.to_user_property();
    assert_eq!((ok.key, ok.value), ("code", "Ok"));
    let error = ResponseCode::Error.to_user_property();
    assert_eq!((error.key, error.value), ("code", "Error"));
}

#[test]
fn registered_command_is_called() {
    let minireq = device();
    let (command, answer) =
        called(minireq.dispatch("minireq/integration/device/command/test", Some(route())));
    assert_eq!(command, "test");
    assert_eq!(answer.topic, "minireq/integration/device/response");
    assert_eq!(answer.correlation, Some(vec![1, 2, 3]));
    assert_eq!(code(&answer), ("code", "Ok"));
    assert!(matches!(answer.payload, Payload::Handler));
    assert_eq!(answer.qos, Qos::AtLeastOnce);
    assert!(!answer.retain);
}

#[test]
fn advertised_topic_leads_back_to_the_command() {
    let mut minireq: Minireq<'_, 10> = Minireq::new::<()>("device").unwrap();
    for command in ["a", "/slash", "", "b/c"] {
        assert!(minireq.subscribe::<()>(command).is_ok());
        let topic = format!("device/command/{}", command);
        assert_eq!(called(minireq.dispatch(&topic, Some(route()))).0, command);
    }
}

#[test]
fn slash_after_the_prefix_is_optional() {
    let minireq = device();
    let (command, _) =
        called(minireq.dispatch("minireq/integration/device/commandtest", Some(route())));
    assert_eq!(command, "test");
    // Only one slash is left out.
    assert!(matches!(
        minireq.dispatch("minireq/integration/device/command//test", Some(route())),
        Request::NotSubscribed { .. }
    ));
}

#[test]
fn unregistered_command_is_refused() {
    let minireq = device();
    let topic = "minireq/integration/device/command/unknown";
    match minireq.dispatch(topic, Some(route())) {
        Request::NotSubscribed {
            refusal: Some(refusal),
        } => {
            assert_eq!(refusal.topic, "minireq/integration/device/response");
            assert_eq!(refusal.correlation, Some(vec![1, 2, 3]));
            assert_eq!(code(&refusal), ("code", "Error"));
            assert!(matches!(
                refusal.payload,
                Payload::Text("Command is not subscribed")
            ));
            assert_eq!(refusal.qos, Qos::AtLeastOnce);
            assert!(!refusal.retain);
        }
        other => panic!("{:?}", other),
    }
    assert!(matches!(
        minireq.dispatch(topic, None),
        Request::NotSubscribed { refusal: None }
    ));
}

#[test]
fn request_without_response_topic_is_not_called() {
    let minireq = device();
    assert!(matches!(
        minireq.dispatch("minireq/integration/device/command/test", None),
        Request::NoResponseTopic { command: "test" }
    ));
}

#[test]
fn other_topics_are_unexpected() {
    let minireq = device();
    for topic in ["", "minireq/integration/device", "another/command/test"] {
        assert!(matches!(
            minireq.dispatch(topic, Some(route())),
            Request::Unexpected
        ));
    }
}

#[test]
fn polling_keeps_commands() {
    let mut minireq = device();
    for connected in [true, true, false, true] {
        minireq.poll(PollEvent::Started { connected });
        let topic = "minireq/integration/device/command/test";
        assert_eq!(called(minireq.dispatch(topic, Some(route()))).0, "test");
    }
}

#[test]
fn handler_error_follows() {
    let minireq = device();
    let topic = "minireq/integration/device/command/test";
    let (_, answer) = called(minireq.dispatch(topic, Some(route())));
    let failure = follow_up(answer, Sent::HandlerFailed).unwrap();
    assert_eq!(failure.topic, "minireq/integration/device/response");
    assert_eq!(failure.correlation, Some(vec![1, 2, 3]));
    assert_eq!(code(&failure), ("code", "Error"));
    assert!(matches!(failure.payload, Payload::Failure));
    assert_eq!(failure.qos, Qos::AtLeastOnce);
    assert!(!failure.retain);

    for sent in [Sent::Accepted, Sent::Refused] {
        let (_, answer) = called(minireq.dispatch(topic, Some(route())));
        assert!(follow_up(answer, sent).is_none());
    }
}

#[test]
fn error_is_written_as_text() {
    let mut buffer = [7u8; 20];
    assert_eq!(render(&"Unknown handler", &mut buffer), Ok(15));
    assert_eq!(&buffer[..15], b"Unknown handler");
    assert_eq!(&buffer[15..], &[7u8; 5]);
    let mut exact = [0u8; 3];
    assert_eq!(render(&105, &mut exact), Ok(3));
    assert_eq!(&exact, b"105");
    let mut small = [0u8; 2];
    assert_eq!(render(&105, &mut small), Err(()));
    assert_eq!(written(10, Ok(4)), Ok(6));
    assert_eq!(written(10, Err(())), Err(()));
}

#[test]
fn properties_say_where_the_answer_goes() {
    let minireq = device();
    let topic = "minireq/integration/device/command/test";
    let mut block = property(0x08, b"response/topic");
    let (command, answer) = called(minireq.handle_request(topic, &block).unwrap());
    assert_eq!(command, "test");
    assert_eq!(answer.topic, "response/topic");
    assert_eq!(answer.correlation, None);

    block.extend(property(0x09, &[0xff; 8]));
    let (_, answer) = called(minireq.handle_request(topic, &block).unwrap());
    assert_eq!(answer.topic, "response/topic");
    assert_eq!(answer.correlation, Some(vec![0xff; 8]));

    let correlated = property(0x09, &[1]);
    assert!(matches!(
        minireq.handle_request(topic, &correlated),
        Some(Request::NoResponseTopic { command: "test" })
    ));
    assert!(matches!(
        minireq.handle_request(topic, &[]),
        Some(Request::NoResponseTopic { command: "test" })
    ));
}

#[test]
fn first_response_topic_counts() {
    let minireq = device();
    let topic = "minireq/integration/device/command/test";
    let mut block = vec![0x01, 1];
    block.extend(property(0x08, b"one"));
    block.extend(property(0x08, b"two"));
    let (_, answer) = called(minireq.handle_request(topic, &block).unwrap());
    assert_eq!(answer.topic, "one");
}

#[test]
fn response_topic_has_to_be_utf8() {
    let minireq = device();
    let topic = "minireq/integration/device/command/test";
    let mut block = property(0x09, &[1]);
    block.extend(property(0x08, &[0xff]));
    block.extend(property(0x08, b"two"));
    block.extend(property(0x09, &[2]));
    let (_, answer) = called(minireq.handle_request(topic, &block).unwrap());
    assert_eq!(answer.topic, "two");
    assert_eq!(answer.correlation, Some(vec![1]));

    // Other text that is not UTF-8 does not hide what follows it.
    let mut block = property(0x26, b"key");
    block.extend(property(0, &[0xff, 0xfe]).drain(1..));
    block.extend(property(0x03, &[0x80]));
    block.extend(property(0x08, b"three"));
    let (_, answer) = called(minireq.handle_request(topic, &block).unwrap());
    assert_eq!(answer.topic, "three");
    assert_eq!(answer.correlation, None);
}

#[test]
fn route_of_any_length_is_read_back() {
    let minireq = device();
    let topic = "minireq/integration/device/command/test";
    for n in [0, 1, 255, 256, 65535] {
        let mut block = property(0x08, "t".repeat(n).as_bytes());
        block.extend(property(0x09, &vec![0x80; n]));
        let (command, answer) = called(minireq.handle_request(topic, &block).unwrap());
        assert_eq!(command, "test");
        assert_eq!(answer.topic, "t".repeat(n));
        assert_eq!(answer.correlation, Some(vec![0x80; n]));
    }
}

#[test]
fn properties_of_every_kind_are_skipped() {
    let minireq = device();
    let topic = "minireq/integration/device/command/test";
    let mut block = vec![
        0x01, 1, 0x02, 0, 0, 0, 1, 0x23, 0, 1, 0x0b, 0xff, 0xff, 0x7f,
    ];
    block.extend(property(0x03, b"text/plain"));
    // A pair: a key, and a value that is not ASCII.
    block.extend(property(0x26, b"key"));
    block.extend(property(0, "\u{43f}\u{440}\u{438}\u{432}".as_bytes()).drain(1..));
    block.extend(property(0x08, "\u{43e}\u{442}\u{432}\u{435}\u{442}".as_bytes()));
    assert!(is_decodable(&block));
    let (_, answer) = called(minireq.handle_request(topic, &block).unwrap());
    assert_eq!(answer.topic, "\u{43e}\u{442}\u{432}\u{435}\u{442}");
}

#[test]
fn bytes_with_the_top_bit_set_are_data() {
    let minireq = device();
    let topic = "minireq/integration/device/command/test";
    // A pair with a key that is UTF-8 but not ASCII.
    let mut block = property(0x26, "\u{43a}\u{43b}\u{44e}\u{447}".as_bytes());
    block.extend(property(0, b"value").drain(1..));
    block.extend(property(0x08, b"response/topic"));
    block.extend(property(0x09, &[0xff; 8]));
    let (_, answer) = called(minireq.handle_request(topic, &block).unwrap());
    assert_eq!(answer.topic, "response/topic");
    assert_eq!(answer.correlation, Some(vec![0xff; 8]));
    // The beginning of another property behind them.
    block.extend([0x02, 0, 0]);
    let (_, answer) = called(minireq.handle_request(topic, &block).unwrap());
    assert_eq!(answer.topic, "response/topic");
    assert_eq!(answer.correlation, Some(vec![0xff; 8]));
    // An identifier that is not known in front of them.
    block.insert(0, 0);
    let (_, answer) = called(minireq.handle_request(topic, &block).unwrap());
    assert_eq!(answer.topic, "response/topic");
    assert_eq!(answer.correlation, Some(vec![0xff; 8]));
    // Behind the last one that matters, nothing is read.
    block.extend([0xff; 8]);
    let (_, answer) = called(minireq.handle_request(topic, &block).unwrap());
    assert_eq!(answer.topic, "response/topic");
    assert_eq!(answer.correlation, Some(vec![0xff; 8]));
    // A key that is not UTF-8, and a run of such bytes behind it.
    let mut block = property(0x26, &[0xff]);
    block.extend([0xff; 6]);
    assert!(!is_decodable(&block));
}

#[test]
fn reading_goes_on_behind_what_is_incomplete() {
    let minireq = device();
    let topic = "minireq/integration/device/command/test";
    let run = [0x80; 6];
    let cases: [&[u8]; 9] = [
        // Identifiers that are not known.
        &[0x00],
        &[0xff, 0x01],
        &[0xff, 0xff, 0xff, 0xff, 0x7f],
        // Integers that are too long.
        &[0x0b, 0xff, 0xff, 0xff, 0xff],
        // A length that is too large, behind which reading goes on.
        &[0x03, 0xff, 0xff],
        &[0x26, 0xff, 0xff],
        &[0x26, 0, 1, b'k', 0xff, 0xff],
        // A key that is not UTF-8.
        &[0x26, 0, 1, 0xff],
        // A complete one.
        &[0x01, 0xff],
    ];
    for start in cases {
        let mut block = start.to_vec();
        block.extend(property(0x08, b"r"));
        block.extend(property(0x09, &run));
        assert!(is_decodable(&block));
        let (_, answer) = called(minireq.handle_request(topic, &block).unwrap());
        assert_eq!(answer.topic, "r");
        assert_eq!(answer.correlation, Some(run.to_vec()));

        let mut block = start.to_vec();
        block.extend(run);
        assert!(!is_decodable(&block));
        assert!(minireq.handle_request(topic, &block).is_none());
    }

    // Of four bytes that are not all there, none is skipped.
    let mut block = property(0x08, b"r");
    block.extend([0x02, 0x09, 0, 0]);
    let (_, answer) = called(minireq.handle_request(topic, &block).unwrap());
    assert_eq!(answer.correlation, Some(vec![]));
}

#[test]
fn identifiers_may_be_padded() {
    let minireq = device();
    let topic = "minireq/integration/device/command/test";
    let padded: [&[u8]; 5] = [
        &[0x88, 0x00],
        &[0x88, 0x80, 0x00],
        &[0x88, 0x80, 0x80, 0x00],
        &[0x88, 0x80, 0x80, 0x80, 0x00],
        &[0x88, 0x80, 0x80, 0x80, 0x70],
    ];
    for id in padded {
        let mut block = id.to_vec();
        block.extend(property(0, &[b'r'; 300]).drain(1..));
        block.extend(property(0x09, &[0xff; 9]));
        let (_, answer) = called(minireq.handle_request(topic, &block).unwrap());
        assert_eq!(answer.topic, "r".repeat(300));
        assert_eq!(answer.correlation, Some(vec![0xff; 9]));
    }
    for id in [&[0x88u8, 0x01][..], &[0x88, 0x81, 0x00], &[0x88, 0x80, 0x80, 0x80, 0x01]] {
        let mut block = id.to_vec();
        block.extend([0, 0]);
        assert!(matches!(
            minireq.handle_request(topic, &block),
            Some(Request::NoResponseTopic { .. })
        ));
    }
}

#[test]
fn any_decodable_block_is_read() {
    let minireq = device();
    let topic = "minireq/integration/device/command/test";
    let values = [
        0x00, 0x01, 0x02, 0x03, 0x08, 0x09, 0x0b, 0x23, 0x26, 0x7f, 0x80, 0x88, 0xff,
    ];
    let mut seed: u64 = 1;
    let mut read = 0;
    for _ in 0..20000 {
        let mut block: Vec<u8> = vec![];
        for _ in 0..24 {
            seed = seed.wrapping_mul(6364136223846793005).wrapping_add(1442695040888963407);
            block.push(values[(seed >> 33) as usize % values.len()]);
        }
        let request = minireq.handle_request(topic, &block);
        assert_eq!(request.is_some(), is_decodable(&block));
        read += request.is_some() as usize;
    }
    assert!(read > 10000);
}

#[test]
fn identifiers_that_are_too_long_are_not_decoded() {
    let minireq = device();
    let topic = "minireq/integration/device/command/test";
    let long = [0xff, 0xff, 0xff, 0xff, 0xff, 0x01];
    assert!(!is_decodable(&long));
    assert!(minireq.handle_request(topic, &long).is_none());
    // On a topic that is none of the device's, the properties do not matter.
    assert!(matches!(
        minireq.handle_request("another/command/test", &long),
        Some(Request::Unexpected)
    ));
    assert!(is_decodable(&long[1..]));
    assert!(is_decodable(&long[..5]));
    // Neither is what is incomplete, unless no such identifier can be in it.
    let incomplete = [0x08, 0, 9, b'a'];
    assert!(is_decodable(&incomplete));
    assert!(matches!(
        minireq.handle_request(topic, &incomplete),
        Some(Request::NoResponseTopic { .. })
    ));
}
