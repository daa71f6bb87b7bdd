//! What the operations do, spelled out: the characters that go out, the states that are passed
//! through, and what is found in the list of commands.
use crate::context::{
    advertised, all_pending, command_of, filter_of, first_pending, lemma_first_pending,
    lemma_none_pending, next_advertised, prefix_of, registered, topic_of, HandlerView,
    MAX_COMMAND_TOPIC_LENGTH, MAX_FILTER_LENGTH, MAX_TOPIC_LENGTH,
};
use crate::error::Error;
use crate::machine::{after, transition, Event, State, TransitionError};
use crate::model::Model;
use crate::poll::{poll_result, ActionView, PollAction, PollEvent, Received};
use crate::publication::{
    failed, failure, publication_view, refusal, route_view, success, Payload, PayloadView,
    Publication, PublicationView, Qos, Route, RouteView, Subscription, SubscriptionView,
};
use crate::request::{request_view, Request, RequestView};
use crate::response::{
    custom_response, error_response, has_room, response_view, text_view, Response, ResponseView,
};
use crate::response_code::{ResponseCode, UserProperty, UserPropertyView};
use crate::text::text;
use vstd::prelude::*;
use vstd::std_specs::convert::FromSpec;
use vstd::utf8::encode_utf8;

verus! {

/// The codes go out as the word `code`, with `Ok` or `Error` as its value.
pub proof fn law_codes_are_spelled_out()
    ensures
        ResponseCode::Success.user_property().key == seq!['c', 'o', 'd', 'e'],
        ResponseCode::Error.user_property().key == seq!['c', 'o', 'd', 'e'],
        ResponseCode::Success.user_property().value == seq!['O', 'k'],
        ResponseCode::Error.user_property().value == seq!['E', 'r', 'r', 'o', 'r'],
{
    reveal_strlit("code");
    reveal_strlit("Ok");
    reveal_strlit("Error");
    assert("code"@ =~= seq!['c', 'o', 'd', 'e']);
    assert("Ok"@ =~= seq!['O', 'k']);
    assert("Error"@ =~= seq!['E', 'r', 'r', 'o', 'r']);
}

/// A command prefix is the device prefix and `/command`, and takes up to 128 bytes.
pub proof fn law_prefix_is_spelled_out(device_prefix: Seq<char>)
    ensures
        prefix_of(device_prefix) == device_prefix + seq![
            '/',
            'c',
            'o',
            'm',
            'm',
            'a',
            'n',
            'd',
        ],
        MAX_TOPIC_LENGTH == 128,
{
    reveal_strlit("/command");
    assert("/command"@ =~= seq!['/', 'c', 'o', 'm', 'm', 'a', 'n', 'd']);
}

/// The filter that covers the commands is the command prefix, a slash and the wildcard alone, and
/// there is always room for it.
pub proof fn law_filter_is_spelled_out(prefix: Seq<char>)
    ensures
        filter_of(prefix) == prefix + seq!['/', '#'],
        filter_of(prefix).drop_last() == topic_of(prefix, Seq::empty()),
        MAX_FILTER_LENGTH == MAX_TOPIC_LENGTH + 2,
{
    reveal_strlit("/#");
    reveal_strlit("/");
    assert("/#"@ =~= seq!['/', '#']);
    assert(filter_of(prefix).drop_last() =~= topic_of(prefix, Seq::empty()));
}

/// The topic of a command is the command prefix, a slash and the command.
pub proof fn law_topic_is_spelled_out(prefix: Seq<char>, command: Seq<char>)
    ensures
        topic_of(prefix, command) == prefix + seq!['/'] + command,
{
    reveal_strlit("/");
    assert("/"@ =~= seq!['/']);
}

/// Behind the command prefix, a topic names a command. One slash in front of it is left out.
pub proof fn law_command_is_what_follows_the_prefix(prefix: Seq<char>, rest: Seq<char>)
    ensures
        command_of(prefix, prefix + seq!['/'] + rest) == Some(rest),
        rest.len() == 0 || rest[0] != '/' ==> command_of(prefix, prefix + rest) == Some(rest),
{
    reveal_strlit("/");
    let slashed = prefix + seq!['/'] + rest;
    assert(prefix =~= slashed.subrange(0, prefix.len() as int));
    assert(slashed.skip(prefix.len() as int) =~= seq!['/'] + rest);
    assert("/"@ =~= (seq!['/'] + rest).subrange(0, 1));
    assert((seq!['/'] + rest).skip(1) =~= rest);
    let plain = prefix + rest;
    assert(prefix =~= plain.subrange(0, prefix.len() as int));
    assert(plain.skip(prefix.len() as int) =~= rest);
    if "/"@.is_prefix_of(rest) {
        assert("/"@[0] == rest.subrange(0, 1)[0]);
    }
}

/// A topic that does not begin with the command prefix names no command.
pub proof fn law_other_topics_name_no_command(prefix: Seq<char>, topic: Seq<char>)
    requires
        topic.len() < prefix.len() || topic.take(prefix.len() as int) != prefix,
    ensures
        command_of(prefix, topic) is None,
{
    if prefix.is_prefix_of(topic) {
        assert(topic.take(prefix.len() as int) =~= prefix);
    }
}

/// A command is registered exactly where it is in the list of commands.
pub proof fn law_registered_commands_are_listed(handlers: Seq<HandlerView>, command: Seq<char>)
    ensures
        registered(handlers, command) <==> handlers.map_values(
            |handler: HandlerView| handler.command,
        ).contains(command),
{
    let listed = handlers.map_values(|handler: HandlerView| handler.command);
    if registered(handlers, command) {
        let i = choose|i: int|
            0 <= i < handlers.len() && (#[trigger] handlers[i]).command == command;
        assert(listed[i] == command);
    }
    if listed.contains(command) {
        let i = choose|i: int| 0 <= i < listed.len() && listed[i] == command;
        assert(handlers[i].command == command);
    }
}

/// Another command is accepted exactly where it is not in the list of commands and a slot is free.
pub proof fn law_new_commands_are_accepted(model: Model, slots: nat, command: Seq<char>)
    ensures
        model.accepts(slots, command) <==> !model.handlers.map_values(
            |handler: HandlerView| handler.command,
        ).contains(command) && model.handlers.len() < slots,
{
    law_registered_commands_are_listed(model.handlers, command);
}

/// Registering a command puts it at the end of the list, not advertised. The state changes only
/// where the connection was set up: the new command is then to be advertised.
pub proof fn law_registering_appends(model: Model, command: Seq<char>)
    ensures
        model.with_command(command).prefix == model.prefix,
        model.with_command(command).handlers.len() == model.handlers.len() + 1,
        forall|i: int|
            0 <= i < model.handlers.len() ==> (#[trigger] model.with_command(command).handlers[i])
                == model.handlers[i],
        model.with_command(command).handlers.last().command == command,
        !model.with_command(command).handlers.last().republished,
        model.state is Active ==> model.with_command(command).state is Republishing,
        model.state !is Active ==> model.with_command(command).state == model.state,
{
}

/// A device starts without a connection and without commands.
pub proof fn law_initial_is_empty(prefix: Seq<char>)
    ensures
        Model::initial(prefix).state is Init,
        Model::initial(prefix).prefix == prefix,
        Model::initial(prefix).handlers.len() == 0,
{
}

/// With the connection or the session, only the state is lost.
pub proof fn law_loss_keeps_all_but_the_state(model: Model)
    ensures
        model.lost().state is Init,
        model.lost().prefix == model.prefix,
        model.lost().handlers == model.handlers,
{
}

/// What holds of every request interface: it has no more commands than slots, none of them twice.
/// Before the subscription of a connection no command was advertised on it, and once the
/// connection is set up all were.
pub proof fn law_wf_is_spelled_out(model: Model, slots: nat)
    requires
        model.wf(slots),
    ensures
        model.handlers.len() <= slots,
        encode_utf8(model.prefix).len() <= 128,
        model.handlers.map_values(|handler: HandlerView| handler.command).no_duplicates(),
        forall|i: int|
            0 <= i < model.handlers.len() && model.state is Active ==> (
            #[trigger] model.handlers[i]).republished,
        forall|i: int|
            0 <= i < model.handlers.len() && model.state is Subscribing ==> !(
            #[trigger] model.handlers[i]).republished,
{
    let listed = model.handlers.map_values(|handler: HandlerView| handler.command);
    assert forall|i: int, j: int| 0 <= i < listed.len() && 0 <= j < listed.len() && i != j implies
        listed[i] != listed[j] by {
        if i < j {
            assert(model.handlers[i].command != model.handlers[j].command);
        } else {
            assert(model.handlers[j].command != model.handlers[i].command);
        }
    }
}

/// Updates lead from each state to the next where the guard passes, and are refused by the state
/// that has none. Where the guard does not pass, that is said.
pub proof fn law_updates_advance(guard: bool)
    ensures
        transition(State::Init, Event::Update, true) == Ok::<_, TransitionError>(
            State::Subscribing,
        ),
        transition(State::Subscribing, Event::Update, true) == Ok::<_, TransitionError>(
            State::Republishing,
        ),
        transition(State::Republishing, Event::Update, true) == Ok::<_, TransitionError>(
            State::Active,
        ),
        transition(State::Active, Event::Update, guard) == Err::<State, _>(
            TransitionError::InvalidEvent,
        ),
        forall|state: State|
            state !is Active ==> #[trigger] transition(state, Event::Update, false) == Err::<
                State,
                _,
            >(TransitionError::GuardFailed),
{
}

/// A new command leads out of the last state only, whatever the guard says. A reset leads to the
/// first state from everywhere.
pub proof fn law_other_events_need_no_guard(state: State, guard: bool)
    ensures
        state is Active ==> transition(state, Event::PendingRepublish, guard) == Ok::<
            _,
            TransitionError,
        >(State::Republishing),
        state !is Active ==> transition(state, Event::PendingRepublish, guard) == Err::<State, _>(
            TransitionError::InvalidEvent,
        ),
        transition(state, Event::Reset, guard) == Ok::<_, TransitionError>(State::Init),
{
}

/// An event that is refused changes nothing, and any other leads where it says.
pub proof fn law_refused_events_change_nothing(state: State, event: Event, guard: bool)
    ensures
        transition(state, event, guard) is Err ==> after(state, event, guard) == state,
        transition(state, event, guard) matches Ok(next) ==> after(state, event, guard) == next,
{
}

/// Every message that a poll asks to publish is retained, goes out at least once, says `{}`, and
/// carries neither a property nor correlation data. Its topic is that of a command that was not
/// advertised.
pub proof fn law_advertisements_are_spelled_out(model: Model, event: PollEvent)
    ensures
        model.step(event).1 matches ActionView::Publish(publication) ==> {
            &&& publication.retain
            &&& publication.qos is AtLeastOnce
            &&& publication.payload == PayloadView::Text(seq!['{', '}'])
            &&& publication.property is None
            &&& publication.correlation is None
            &&& exists|i: int|
                0 <= i < model.handlers.len() && !(#[trigger] model.handlers[i]).republished
                    && publication.topic == model.prefix + seq!['/'] + model.handlers[i].command
        },
{
    reveal_strlit("{}");
    assert("{}"@ =~= seq!['{', '}']);
    reveal_strlit("/");
    assert("/"@ =~= seq!['/']);
    match model.step(event).1 {
        ActionView::Publish(publication) => {
            let handlers = model.step(event).0.handlers;
            let i = first_pending(handlers)->0;
            let first = first_pending(model.handlers);
            assert(!handlers[i].republished && 0 <= i < handlers.len());
            if first is Some {
                let k = first->0;
                assert(0 <= k < model.handlers.len());
            }
            assert(!model.handlers[i].republished && handlers[i] == model.handlers[i]);
        },
        _ => {},
    }
}

/// The only subscription that a poll asks for is to everything below the command prefix, without
/// what the device itself publishes, and only while it was not taken.
pub proof fn law_subscriptions_are_spelled_out(model: Model, event: PollEvent)
    ensures
        model.step(event).1 matches ActionView::Subscribe(subscription) ==> {
            &&& model.state is Subscribing
            &&& subscription.filter == model.prefix + seq!['/', '#']
            &&& subscription.ignore_local_messages
        },
{
    law_filter_is_spelled_out(model.prefix);
}

/// Where there is no connection yet, a poll that finds one takes no command to be advertised, and
/// goes on to the subscription.
pub proof fn law_connection_begins_with_the_subscription(model: Model)
    requires
        model.state is Init,
    ensures
        ({
            let (next, action) = model.step(PollEvent::Started { connected: true });
            &&& action is Receive
            &&& next.state is Subscribing
            &&& next.prefix == model.prefix
            &&& next.handlers.len() == model.handlers.len()
            &&& forall|i: int|
                0 <= i < model.handlers.len() ==> (#[trigger] next.handlers[i]).command
                    == model.handlers[i].command && !next.handlers[i].republished
        }),
{
}

/// While the subscription was not taken, every poll on the connection asks for it and changes
/// nothing, whatever commands are registered meanwhile. Once it is taken, the commands follow.
pub proof fn law_subscription_comes_first(model: Model, command: Seq<char>)
    requires
        model.state is Subscribing,
    ensures
        model.step(PollEvent::Started { connected: true }) == (
            model,
            ActionView::Subscribe(
                SubscriptionView {
                    filter: model.prefix + seq!['/', '#'],
                    ignore_local_messages: true,
                },
            ),
        ),
        model.with_command(command).step(PollEvent::Started { connected: true }).1 == model.step(
            PollEvent::Started { connected: true },
        ).1,
        model.step(PollEvent::Subscribed { sent: true }) == (
            Model {
                state: State::Republishing,
                prefix: model.prefix,
                handlers: model.handlers,
            },
            ActionView::Receive,
        ),
        model.step(PollEvent::Subscribed { sent: false }) == (model, ActionView::Receive),
{
    law_filter_is_spelled_out(model.prefix);
}

/// Nothing is published on a connection before its subscription was taken: no other event leads
/// there, nor does registering a command.
pub proof fn law_nothing_is_published_before_the_subscription(
    model: Model,
    event: PollEvent,
    command: Seq<char>,
)
    requires
        model.state is Init || model.state is Subscribing,
    ensures
        model.step(event).1 !is Publish,
        event != (PollEvent::Subscribed { sent: true }) ==> {
            let next = model.step(event).0.state;
            next is Init || next is Subscribing
        },
        model.with_command(command).state == model.state,
{
}

/// While commands are to be advertised, a poll asks for the first that was not, and changes
/// nothing. Once it is taken, the poll goes on as if it had begun with that command advertised.
pub proof fn law_first_command_is_next(model: Model, i: int)
    requires
        model.state is Republishing,
        0 <= i < model.handlers.len(),
        !model.handlers[i].republished,
        forall|j: int| 0 <= j < i ==> (#[trigger] model.handlers[j]).republished,
    ensures
        model.step(PollEvent::Started { connected: true }) == (
            model,
            ActionView::Publish(
                PublicationView {
                    topic: model.prefix + seq!['/'] + model.handlers[i].command,
                    correlation: None,
                    property: None,
                    payload: PayloadView::Text(seq!['{', '}']),
                    qos: Qos::AtLeastOnce,
                    retain: true,
                },
            ),
        ),
        ({
            let marked = Model {
                state: State::Republishing,
                prefix: model.prefix,
                handlers: model.handlers.update(
                    i,
                    HandlerView { command: model.handlers[i].command, republished: true },
                ),
            };
            model.step(PollEvent::Published { sent: true }) == marked.step(
                PollEvent::Started { connected: true },
            )
        }),
        model.step(PollEvent::Published { sent: false }) == (model, ActionView::Receive),
{
    lemma_first_pending(model.handlers, i);
    law_topic_is_spelled_out(model.prefix, model.handlers[i].command);
    reveal_strlit("{}");
    assert("{}"@ =~= seq!['{', '}']);
}

/// Once every command was advertised, the connection is set up.
pub proof fn law_connection_is_set_up_last(model: Model, event: PollEvent)
    requires
        model.state is Republishing,
        forall|i: int| 0 <= i < model.handlers.len() ==> (#[trigger] model.handlers[i]).republished,
        event == (PollEvent::Started { connected: true }) || event == (PollEvent::Published {
            sent: true,
        }),
    ensures
        model.step(event) == (
            Model { state: State::Active, prefix: model.prefix, handlers: model.handlers },
            ActionView::Receive,
        ),
{
    lemma_none_pending(model.handlers);
}

/// A connection that is set up needs nothing but to receive messages. Reports that were not asked
/// for change nothing.
pub proof fn law_polls_are_idle_otherwise(model: Model, sent: bool)
    ensures
        model.state is Active ==> model.step(PollEvent::Started { connected: true }) == (
            model,
            ActionView::Receive,
        ),
        model.state !is Subscribing ==> model.step(PollEvent::Subscribed { sent }) == (
            model,
            ActionView::Receive,
        ),
        model.state !is Republishing ==> model.step(PollEvent::Published { sent }) == (
            model,
            ActionView::Receive,
        ),
{
}

/// Without a connection, whatever the state was, nothing is asked for and all is to be done again.
pub proof fn law_lost_connection_resets_the_state(model: Model)
    ensures
        model.step(PollEvent::Started { connected: false }) == (
            Model { state: State::Init, prefix: model.prefix, handlers: model.handlers },
            ActionView::Receive,
        ),
{
}

/// An event is within the limits exactly where no message is asked for whose topic takes more than
/// 257 bytes.
pub proof fn law_limits_are_spelled_out(model: Model, event: PollEvent)
    ensures
        model.within_limits(event) <==> !(model.step(event).1 matches ActionView::Publish(
            publication,
        ) && encode_utf8(publication.topic).len() > 257),
        MAX_COMMAND_TOPIC_LENGTH == 257,
{
}

/// A message on a topic that does not begin with the command prefix asks for nothing.
pub proof fn law_foreign_topics_are_unexpected(
    model: Model,
    topic: Seq<char>,
    route: Option<RouteView>,
)
    requires
        topic.len() < model.prefix.len() || topic.take(model.prefix.len() as int) != model.prefix,
    ensures
        model.dispatch(topic, route) is Unexpected,
{
    law_other_topics_name_no_command(model.prefix, topic);
}

/// An answer goes along the route of the request, at least once, is not retained, and carries the
/// code `Ok` where the handler writes it. The error of a handler goes the same way under the code
/// `Error`.
pub proof fn law_answers_are_spelled_out(route: RouteView)
    ensures
        success(route).topic == route.topic,
        success(route).correlation == route.correlation,
        success(route).property == Some(
            UserPropertyView { key: seq!['c', 'o', 'd', 'e'], value: seq!['O', 'k'] },
        ),
        success(route).payload is Handler,
        success(route).qos is AtLeastOnce,
        !success(route).retain,
        failure(route) == failed(success(route)),
{
    law_codes_are_spelled_out();
}

/// A refusal goes along the route of the request, at least once, is not retained, carries the code
/// `Error`, and says `Command is not subscribed`.
pub proof fn law_refusals_are_spelled_out(route: RouteView)
    ensures
        refusal(route).topic == route.topic,
        refusal(route).correlation == route.correlation,
        refusal(route).property == Some(
            UserPropertyView {
                key: seq!['c', 'o', 'd', 'e'],
                value: seq!['E', 'r', 'r', 'o', 'r'],
            },
        ),
        refusal(route).payload is Text,
        (refusal(route).payload->0).len() == 25,
        (refusal(route).payload->0).take(8) == seq!['C', 'o', 'm', 'm', 'a', 'n', 'd', ' '],
        (refusal(route).payload->0).skip(8).take(7) == seq!['i', 's', ' ', 'n', 'o', 't', ' '],
        (refusal(route).payload->0).skip(15) == seq![
            's', 'u', 'b', 's', 'c', 'r', 'i', 'b', 'e', 'd',
        ],
        refusal(route).qos is AtLeastOnce,
        !refusal(route).retain,
{
    law_codes_are_spelled_out();
    reveal_strlit("Command is not subscribed");
    let words = "Command is not subscribed"@;
    assert(words.take(8) =~= seq!['C', 'o', 'm', 'm', 'a', 'n', 'd', ' ']);
    assert(words.skip(8).take(7) =~= seq!['i', 's', ' ', 'n', 'o', 't', ' ']);
    assert(words.skip(15) =~= seq!['s', 'u', 'b', 's', 'c', 'r', 'i', 'b', 'e', 'd']);
}

/// The handler is called exactly for a command in the list of commands, on a request that says
/// where the answer goes. A command that is not in the list is refused, where the request says
/// where to.
pub proof fn law_requests_are_dispatched(
    model: Model,
    topic: Seq<char>,
    command: Seq<char>,
    route: RouteView,
)
    requires
        topic == model.prefix + seq!['/'] + command || (topic == model.prefix + command && (
        command.len() == 0 || command[0] != '/')),
    ensures
        ({
            let listed = model.handlers.map_values(
                |handler: HandlerView| handler.command,
            ).contains(command);
            &&& listed ==> model.dispatch(topic, Some(route)) == (RequestView::Call {
                command,
                answer: success(route),
            })
            &&& listed ==> model.dispatch(topic, None) == (RequestView::NoResponseTopic { command })
            &&& !listed ==> model.dispatch(topic, Some(route)) == (RequestView::NotSubscribed {
                refusal: Some(refusal(route)),
            })
            &&& !listed ==> model.dispatch(topic, None) == (RequestView::NotSubscribed {
                refusal: None,
            })
        }),
{
    law_command_is_what_follows_the_prefix(model.prefix, command);
    law_registered_commands_are_listed(model.handlers, command);
}

/// Only a command in the list of commands is ever called.
pub proof fn law_only_listed_commands_are_called(
    model: Model,
    topic: Seq<char>,
    route: Option<RouteView>,
)
    ensures
        model.dispatch(topic, route) matches RequestView::Call { command, .. } ==> {
            &&& route is Some
            &&& model.handlers.map_values(|handler: HandlerView| handler.command).contains(command)
            &&& topic == model.prefix + seq!['/'] + command || topic == model.prefix + command
        },
{
    match model.dispatch(topic, route) {
        RequestView::Call { command, .. } => {
            law_registered_commands_are_listed(model.handlers, command);
            reveal_strlit("/");
            let path = topic.skip(model.prefix.len() as int);
            assert(topic =~= model.prefix + path);
            if "/"@.is_prefix_of(path) {
                assert(path.subrange(0, 1) =~= seq!['/']);
                assert(path =~= seq!['/'] + path.skip(1));
                assert(topic =~= model.prefix + seq!['/'] + path.skip(1));
            }
        },
        _ => {},
    }
}

/// The error of a handler goes out in place of its answer: along the same route and in the same
/// way, but under the code `Error`.
pub proof fn law_errors_take_the_place_of_answers(answer: PublicationView)
    ensures
        failed(answer).topic == answer.topic,
        failed(answer).correlation == answer.correlation,
        failed(answer).qos == answer.qos,
        failed(answer).retain == answer.retain,
        failed(answer).payload is Failure,
        failed(answer).property == Some(
            UserPropertyView {
                key: seq!['c', 'o', 'd', 'e'],
                value: seq!['E', 'r', 'r', 'o', 'r'],
            },
        ),
{
    law_codes_are_spelled_out();
}

/// A poll returns the error of the client where receiving failed, and a lost session is no error.
pub proof fn law_poll_results_are_spelled_out<E>(e: E)
    ensures
        poll_result(Received::<E>::Done) is Ok,
        poll_result(Received::<E>::SessionReset) is Ok,
        poll_result(Received::Failed(e)) == Err::<(), _>(Error::Mqtt(e)),
        <Error<E> as FromSpec<E>>::from_spec(e) == Error::Mqtt(e),
{
}

/// What was not advertised comes in the order of the list, and marking one leaves the others as
/// they are. After a reset, all are to be advertised again.
pub proof fn law_marks_are_spelled_out(handlers: Seq<HandlerView>, i: int)
    requires
        0 <= i < handlers.len(),
    ensures
        first_pending(handlers) == Some(i) <==> !handlers[i].republished && forall|j: int|
            0 <= j < i ==> (#[trigger] handlers[j]).republished,
        first_pending(handlers) is None ==> handlers[i].republished,
        advertised(handlers, i) == handlers.update(
            i,
            HandlerView { command: handlers[i].command, republished: true },
        ),
        first_pending(handlers) == Some(i) ==> next_advertised(handlers) == handlers.update(
            i,
            HandlerView { command: handlers[i].command, republished: true },
        ),
        first_pending(handlers) is None ==> next_advertised(handlers) == handlers,
        all_pending(handlers).len() == handlers.len(),
        all_pending(handlers)[i] == (HandlerView {
            command: handlers[i].command,
            republished: false,
        }),
{
    lemma_none_pending(handlers);
    if !handlers[i].republished && forall|j: int|
        0 <= j < i ==> (#[trigger] handlers[j]).republished {
        lemma_first_pending(handlers, i);
    }
}

/// A response carries its code, and its message where that takes no more bytes than there are.
/// Otherwise it says `Truncated`, for which nine bytes are needed.
pub proof fn law_responses_are_spelled_out(size: usize, code: int, message: Seq<char>)
    ensures
        custom_response(size, code, message).code == code,
        encode_utf8(message).len() <= size ==> custom_response(size, code, message).data
            == message,
        encode_utf8(message).len() > size ==> custom_response(size, code, message).data == seq![
            'T', 'r', 'u', 'n', 'c', 'a', 't', 'e', 'd',
        ],
        has_room(size, message) <==> encode_utf8(message).len() <= size || size >= 9,
{
    reveal_strlit("Truncated");
    assert("Truncated"@ =~= seq!['T', 'r', 'u', 'n', 'c', 'a', 't', 'e', 'd']);
}

/// The response to an error has the code -1 and says what formatting the error gave, or `Error`
/// where it gave nothing and five bytes are there.
pub proof fn law_error_responses_are_spelled_out(size: usize, message: Seq<char>)
    ensures
        error_response(size, Some(message)) == Some(ResponseView { code: -1, data: message }),
        size >= 5 ==> error_response(size, None) == Some(
            ResponseView { code: -1, data: seq!['E', 'r', 'r', 'o', 'r'] },
        ),
        size < 5 ==> error_response(size, None) is None,
{
    reveal_strlit("Error");
    assert("Error"@ =~= seq!['E', 'r', 'r', 'o', 'r']);
}

/// What a publication says is what it holds.
pub proof fn law_publications_say_what_they_hold(publication: Publication)
    ensures
        publication@.topic == publication.topic@,
        publication@.qos == publication.qos,
        publication@.retain == publication.retain,
        publication.correlation is None ==> publication@.correlation is None,
        publication.correlation matches Some(data) ==> publication@.correlation == Some(data@),
        publication.property is None ==> publication@.property is None,
        publication.property matches Some(property) ==> publication@.property == Some(
            UserPropertyView { key: property.key@, value: property.value@ },
        ),
        publication.payload matches Payload::Text(text) ==> publication@.payload
            == PayloadView::Text(text@),
        publication.payload is Handler ==> publication@.payload is Handler,
        publication.payload is Failure ==> publication@.payload is Failure,
        publication_view(Some(publication)) == Some(publication@),
        publication_view(None) is None,
{
}

/// What a property, a subscription and a route say is what they hold.
pub proof fn law_parts_say_what_they_hold(
    property: UserProperty,
    subscription: Subscription,
    route: Route,
)
    ensures
        property@.key == property.key@,
        property@.value == property.value@,
        subscription@.filter == subscription.filter@,
        subscription@.ignore_local_messages == subscription.ignore_local_messages,
        route@.topic == route.topic@,
        route.correlation is None ==> route@.correlation is None,
        route.correlation matches Some(data) ==> route@.correlation == Some(data@),
        route_view(Some(route)) == Some(route@),
        route_view(None) is None,
{
}

/// What an action asks for is what it holds.
pub proof fn law_actions_say_what_they_hold(action: PollAction)
    ensures
        action matches PollAction::Subscribe(subscription) ==> action@ == ActionView::Subscribe(
            subscription@,
        ),
        action matches PollAction::Publish(publication) ==> action@ == ActionView::Publish(
            publication@,
        ),
        action is Receive ==> action@ is Receive,
{
}

/// What a request says is what it holds.
pub proof fn law_requests_say_what_they_hold(request: Request<'_>)
    ensures
        request is Unexpected ==> request@ is Unexpected,
        request matches Request::NotSubscribed { refusal } ==> request@
            == (RequestView::NotSubscribed { refusal: publication_view(refusal) }),
        request matches Request::NoResponseTopic { command } ==> request@
            == (RequestView::NoResponseTopic { command: command@ }),
        request matches Request::Call { command, answer } ==> request@ == (RequestView::Call {
            command: command@,
            answer: answer@,
        }),
        request_view(Some(request)) == Some(request@),
        request_view(None) is None,
{
}

/// What a response says is what it holds.
pub proof fn law_responses_say_what_they_hold<const N: usize>(
    response: Response<N>,
    message: heapless::String<N>,
)
    ensures
        response@.code == response.code,
        response@.data == text(response.data),
        response_view(Some(response)) == Some(response@),
        response_view(None::<Response<N>>) is None,
        text_view(Some(message)) == Some(text(message)),
        text_view(None::<heapless::String<N>>) is None,
{
}

} // verus!
