//! The request interface, from registration to polling.
use minireq::poll::{PollAction, PollEvent, Received};
use minireq::publication::{Payload, Publication, Qos};
use minireq::{Error, Minireq};

const STARTED: PollEvent = PollEvent::Started { connected: true };
const SUBSCRIBED: PollEvent = PollEvent::Subscribed { sent: true };
const PUBLISHED: PollEvent = PollEvent::Published { sent: true };

fn device(commands: &[&'static str]) -> Minireq<'static, 10> {
    let mut minireq: Minireq<'static, 10> =
        Minireq::new::<()>("minireq/integration/device").unwrap();
    for command in commands {
        assert!(minireq.subscribe::<()>(command).is_ok());
    }
    minireq
}

fn published(action: PollAction) -> Publication {
    match action {
        PollAction::Publish(publication) => publication,
        other => panic!("{:?}", other),
    }
}

fn is_receive(action: PollAction) -> bool {
    matches!(action, PollAction::Receive)
}

/// Sets up a connection, and returns the topics that were advertised on it.
fn connect(minireq: &mut Minireq<'static, 10>) -> Vec<String> {
    assert!(is_receive(minireq.poll(STARTED)));
    assert!(matches!(minireq.poll(STARTED), PollAction::Subscribe(_)));
    assert!(is_receive(minireq.poll(SUBSCRIBED)));
    let mut topics = vec![];
    let mut action = minireq.poll(STARTED);
    while let PollAction::Publish(publication) = action {
        topics.push(publication.topic);
        assert!(minireq.can_poll(PUBLISHED));
        action = minireq.poll(PUBLISHED);
    }
    assert!(is_receive(action));
    topics
}

#[test]
fn prefix_has_to_leave_room_for_the_suffix() {
    let fits: Result<Minireq<'_, 1>, Error<()>> = Minireq::new(&"a".repeat(120));
    assert!(fits.is_ok());
    let too_long: Result<Minireq<'_, 1>, Error<()>> = Minireq::new(&"a".repeat(121));
    assert!(matches!(too_long, Err(Error::PrefixTooLong)));
    // Bytes are counted, not characters.
    let fits: Result<Minireq<'_, 1>, Error<()>> = Minireq::new(&"\u{e9}".repeat(60));
    assert!(fits.is_ok());
    let too_long: Result<Minireq<'_, 1>, Error<()>> = Minireq::new(&"\u{e9}".repeat(61));
    assert!(matches!(too_long, Err(Error::PrefixTooLong)));
}

#[test]
fn command_is_registered_once() {
    let mut minireq = device(&["test"]);
    assert!(matches!(
        minireq.subscribe::<()>("test"),
        Err(Error::SubscribeFailed)
    ));
    assert!(minireq.subscribe::<()>("tests").is_ok());
}

#[test]
fn slots_run_out() {
    let mut minireq: Minireq<'_, 2> = Minireq::new::<()>("device").unwrap();
    assert!(minireq.subscribe::<()>("a").is_ok());
    assert!(minireq.subscribe::<()>("b").is_ok());
    assert!(matches!(
        minireq.subscribe::<()>("c"),
        Err(Error::SubscribeFailed)
    ));
    let mut none: Minireq<'_, 0> = Minireq::new::<()>("device").unwrap();
    assert!(matches!(
        none.subscribe::<()>("a"),
        Err(Error::SubscribeFailed)
    ));
}

#[test]
fn connection_subscribes_below_the_prefix() {
    let mut minireq = device(&[]);
    assert!(is_receive(minireq.poll(STARTED)));
    match minireq.poll(STARTED) {
        PollAction::Subscribe(subscription) => {
            assert_eq!(subscription.filter, "minireq/integration/device/command/#");
            assert!(subscription.ignore_local_messages);
        }
        other => panic!("{:?}", other),
    }
    // A request that the client did not take is made again.
    assert!(is_receive(minireq.poll(PollEvent::Subscribed { sent: false })));
    assert!(matches!(minireq.poll(STARTED), PollAction::Subscribe(_)));
}

#[test]
fn longest_prefix_has_a_filter() {
    let mut minireq: Minireq<'_, 1> = Minireq::new::<()>(&"a".repeat(120)).unwrap();
    assert!(is_receive(minireq.poll(STARTED)));
    match minireq.poll(STARTED) {
        PollAction::Subscribe(subscription) => assert_eq!(subscription.filter.len(), 130),
        other => panic!("{:?}", other),
    }
}

#[test]
fn connection_advertises_every_command() {
    let mut minireq = device(&["test", "other", "more/of/it"]);
    assert_eq!(
        connect(&mut minireq),
        vec![
            "minireq/integration/device/command/test",
            "minireq/integration/device/command/other",
            "minireq/integration/device/command/more/of/it",
        ]
    );
    // Nothing is left to do.
    assert!(is_receive(minireq.poll(STARTED)));
    assert!(is_receive(minireq.poll(STARTED)));
}

#[test]
fn advertisement_is_a_retained_empty_object() {
    let mut minireq = device(&["test"]);
    minireq.poll(STARTED);
    minireq.poll(STARTED);
    minireq.poll(SUBSCRIBED);
    let publication = published(minireq.poll(STARTED));
    assert_eq!(publication.topic, "minireq/integration/device/command/test");
    assert!(matches!(publication.payload, Payload::Text("{}")));
    assert_eq!(publication.qos, Qos::AtLeastOnce);
    assert!(publication.retain);
    assert!(publication.property.is_none());
    assert_eq!(publication.correlation, None);
}

#[test]
fn new_command_is_advertised() {
    let mut minireq = device(&["test"]);
    connect(&mut minireq);
    assert!(minireq.subscribe::<()>("late").is_ok());
    let publication = published(minireq.poll(STARTED));
    assert_eq!(publication.topic, "minireq/integration/device/command/late");
    assert!(is_receive(minireq.poll(PUBLISHED)));
    assert!(is_receive(minireq.poll(STARTED)));
}

#[test]
fn refused_advertisement_stays_pending() {
    let mut minireq = device(&["a", "b"]);
    minireq.poll(STARTED);
    minireq.poll(STARTED);
    minireq.poll(SUBSCRIBED);
    assert!(published(minireq.poll(STARTED)).topic.ends_with("/a"));
    assert!(published(minireq.poll(PUBLISHED)).topic.ends_with("/b"));
    assert!(is_receive(minireq.poll(PollEvent::Published { sent: false })));
    // The first command is not advertised again.
    assert!(published(minireq.poll(STARTED)).topic.ends_with("/b"));
    assert!(is_receive(minireq.poll(PUBLISHED)));
}

#[test]
fn refused_subscription_is_repeated() {
    let mut minireq = device(&["a"]);
    minireq.poll(STARTED);
    for _ in 0..3 {
        assert!(matches!(minireq.poll(STARTED), PollAction::Subscribe(_)));
        assert!(is_receive(minireq.poll(PollEvent::Subscribed { sent: false })));
    }
    assert!(matches!(minireq.poll(STARTED), PollAction::Subscribe(_)));
    assert!(is_receive(minireq.poll(SUBSCRIBED)));
    assert!(published(minireq.poll(STARTED)).topic.ends_with("/a"));
}

#[test]
fn lost_connection_starts_over() {
    let mut minireq = device(&["a", "b"]);
    let topics = connect(&mut minireq);
    assert!(is_receive(minireq.poll(PollEvent::Started { connected: false })));
    assert!(is_receive(minireq.poll(PollEvent::Started { connected: false })));
    assert_eq!(connect(&mut minireq), topics);
}

#[test]
fn connection_is_lost_half_way() {
    let mut minireq = device(&["a", "b"]);
    minireq.poll(STARTED);
    minireq.poll(STARTED);
    minireq.poll(SUBSCRIBED);
    minireq.poll(STARTED);
    minireq.poll(PUBLISHED);
    assert!(is_receive(minireq.poll(PollEvent::Started { connected: false })));
    assert_eq!(connect(&mut minireq).len(), 2);
}

#[test]
fn session_reset_starts_over() {
    let mut minireq = device(&["a"]);
    let topics = connect(&mut minireq);
    assert_eq!(minireq.finish_poll(Received::<u8>::SessionReset), Ok(()));
    assert_eq!(connect(&mut minireq), topics);
}

#[test]
fn other_errors_are_handed_on() {
    let mut minireq = device(&["a"]);
    connect(&mut minireq);
    assert_eq!(minireq.finish_poll(Received::<u8>::Done), Ok(()));
    assert_eq!(
        minireq.finish_poll(Received::Failed(7u8)),
        Err(Error::Mqtt(7u8))
    );
    // The connection stays set up.
    assert!(is_receive(minireq.poll(STARTED)));
    assert_eq!(Error::from(7u8), Error::Mqtt(7u8));
}

#[test]
fn long_topics_cannot_be_advertised() {
    let longest = "c".repeat(128);
    let too_long = "c".repeat(129);
    let mut minireq: Minireq<'_, 3> = Minireq::new::<()>(&"a".repeat(120)).unwrap();
    assert!(minireq.subscribe::<()>("short").is_ok());
    assert!(minireq.subscribe::<()>(&longest).is_ok());
    assert!(minireq.subscribe::<()>(&too_long).is_ok());
    for event in [STARTED, STARTED, SUBSCRIBED, STARTED] {
        assert!(minireq.can_poll(event));
        minireq.poll(event);
    }
    assert!(minireq.can_poll(PUBLISHED));
    match minireq.poll(PUBLISHED) {
        PollAction::Publish(publication) => assert_eq!(publication.topic.len(), 257),
        other => panic!("{:?}", other),
    }
    assert!(!minireq.can_poll(PUBLISHED));
    assert!(minireq.can_poll(PollEvent::Published { sent: false }));
    assert!(minireq.can_poll(STARTED));
}

#[test]
fn reports_out_of_turn_change_nothing() {
    let mut minireq = device(&["a"]);
    assert!(is_receive(minireq.poll(SUBSCRIBED)));
    assert!(is_receive(minireq.poll(PUBLISHED)));
    assert_eq!(connect(&mut minireq).len(), 1);
}
