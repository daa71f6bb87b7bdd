//! What the library promises as a whole.
use crate::context::{
    advertised, all_pending, command_of, filter_of, first_pending, is_first_pending,
    lemma_none_pending, next_advertised, registered, topic_of, HandlerView,
    MAX_COMMAND_TOPIC_LENGTH, MAX_TOPIC_LENGTH,
};
use crate::machine::{target, transition, Event, State, TransitionError};
use crate::model::{all_advertised, Model};
use crate::poll::{ActionView, PollEvent};
use crate::properties::{
    complete_from, correlation_data, data_of, data_property, listed_route, property_end,
    route_properties, value_kind, ValueKind, CORRELATION_DATA, RESPONSE_TOPIC,
};
use crate::publication::{
    advertisement, failed, failure, refusal, success, PublicationView, RouteView, SubscriptionView,
};
use crate::request::RequestView;
use crate::response::{custom_response, has_room};
use crate::response_code::ResponseCode;
use crate::text::{lemma_utf8_len_ascii, lemma_utf8_len_concat, utf8_len};
use vstd::prelude::*;
use vstd::utf8::encode_utf8;

verus! {

/// The state after a conversation, and the actions that were asked for in it.
pub open spec fn run(model: Model, events: Seq<PollEvent>) -> (Model, Seq<ActionView>)
    decreases events.len(),
{
    if events.len() == 0 {
        (model, Seq::empty())
    } else {
        let (next, action) = model.step(events[0]);
        let (end, actions) = run(next, events.drop_first());
        (end, seq![action] + actions)
    }
}

/// `n` messages that the client took.
pub open spec fn published(n: nat) -> Seq<PollEvent> {
    Seq::new(n, |i: int| PollEvent::Published { sent: true })
}

/// A poll begins on a connection.
pub open spec fn started() -> PollEvent {
    PollEvent::Started { connected: true }
}

/// The commands of `handlers`, in their order.
pub open spec fn commands(handlers: Seq<HandlerView>) -> Seq<Seq<char>> {
    Seq::new(handlers.len(), |i: int| handlers[i].command)
}

/// The commands of `handlers` that were not advertised, in their order.
pub open spec fn pending(handlers: Seq<HandlerView>) -> Seq<Seq<char>>
    decreases handlers.len(),
{
    if handlers.len() == 0 {
        Seq::empty()
    } else if handlers[0].republished {
        pending(handlers.drop_first())
    } else {
        seq![handlers[0].command] + pending(handlers.drop_first())
    }
}

/// `handlers`, all of them advertised.
pub open spec fn every_advertised(handlers: Seq<HandlerView>) -> Seq<HandlerView> {
    Seq::new(handlers.len(), |i: int| HandlerView { republished: true, ..handlers[i] })
}

/// The actions that advertise `names` one after the other, and then let messages be received.
pub open spec fn advertisements(prefix: Seq<char>, names: Seq<Seq<char>>) -> Seq<ActionView> {
    Seq::new(
        names.len(),
        |i: int| ActionView::Publish(advertisement(topic_of(prefix, names[i]))),
    ).push(ActionView::Receive)
}

proof fn lemma_pending_empty(handlers: Seq<HandlerView>)
    ensures
        pending(handlers).len() == 0 <==> all_advertised(handlers),
        pending(handlers).len() == 0 ==> every_advertised(handlers) =~= handlers,
    decreases handlers.len(),
{
    if handlers.len() > 0 {
        let rest = handlers.drop_first();
        lemma_pending_empty(rest);
        if all_advertised(handlers) {
            assert(forall|i: int| 0 <= i < rest.len() ==> rest[i] == handlers[i + 1]);
        }
        if pending(handlers).len() == 0 {
            assert forall|i: int| 0 <= i < handlers.len() implies (
            #[trigger] handlers[i]).republished by {
                if i > 0 {
                    assert(rest[i - 1] == handlers[i]);
                }
            }
        }
    }
}

proof fn lemma_pending_first(handlers: Seq<HandlerView>, i: int)
    requires
        is_first_pending(handlers, i),
    ensures
        pending(handlers) == seq![handlers[i].command] + pending(advertised(handlers, i)),
    decreases handlers.len(),
{
    let rest = handlers.drop_first();
    let next = advertised(handlers, i);
    if i == 0 {
        assert(next.drop_first() =~= rest);
    } else {
        assert(handlers[0].republished);
        assert(is_first_pending(rest, i - 1)) by {
            assert forall|j: int| 0 <= j < i - 1 implies (#[trigger] rest[j]).republished by {
                assert(rest[j] == handlers[j + 1]);
            }
        }
        lemma_pending_first(rest, i - 1);
        assert(next.drop_first() =~= advertised(rest, i - 1));
    }
}

proof fn lemma_pending_all(handlers: Seq<HandlerView>)
    ensures
        pending(all_pending(handlers)) == commands(handlers),
    decreases handlers.len(),
{
    let reset = all_pending(handlers);
    if handlers.len() > 0 {
        assert(reset.drop_first() =~= all_pending(handlers.drop_first()));
        lemma_pending_all(handlers.drop_first());
        assert(commands(handlers) =~= seq![handlers[0].command] + commands(
            handlers.drop_first(),
        ));
    } else {
        assert(commands(handlers) =~= Seq::<Seq<char>>::empty());
    }
}

proof fn lemma_advertise_all(model: Model)
    requires
        model.state is Republishing,
    ensures
        ({
            let names = pending(model.handlers);
            let (next, action) = model.advertise();
            let (end, actions) = run(next, published(names.len()));
            &&& end == Model {
                state: State::Active,
                handlers: every_advertised(model.handlers),
                ..model
            }
            &&& seq![action] + actions == advertisements(model.prefix, names)
        }),
    decreases pending(model.handlers).len(),
{
    let names = pending(model.handlers);
    let (next, action) = model.advertise();
    lemma_pending_empty(model.handlers);
    lemma_none_pending(model.handlers);
    if names.len() == 0 {
        assert(seq![action] + Seq::<ActionView>::empty() =~= advertisements(model.prefix, names));
    } else {
        let i = first_pending(model.handlers)->0;
        assert(is_first_pending(model.handlers, i));
        lemma_pending_first(model.handlers, i);
        let later = Model { handlers: next_advertised(model.handlers), ..model };
        assert(later.handlers == advertised(model.handlers, i));
        assert(names.drop_first() =~= pending(later.handlers));
        lemma_advertise_all(later);
        assert(every_advertised(later.handlers) =~= every_advertised(model.handlers));
        assert(published(names.len()).drop_first() =~= published(pending(later.handlers).len()));
        assert(model.step(published(names.len())[0]) == later.advertise());
        let (_, actions) = run(next, published(names.len()));
        assert(actions == advertisements(model.prefix, names.drop_first()));
        assert(seq![action] + actions =~= advertisements(model.prefix, names));
    }
}

proof fn lemma_advertise_some(model: Model, taken: nat)
    requires
        model.state is Republishing,
        taken < pending(model.handlers).len(),
    ensures
        ({
            let names = pending(model.handlers);
            let (next, action) = model.advertise();
            let (end, actions) = run(
                next,
                published(taken) + seq![PollEvent::Published { sent: false }],
            );
            &&& end.state is Republishing
            &&& end.prefix == model.prefix
            &&& commands(end.handlers) == commands(model.handlers)
            &&& pending(end.handlers) == names.skip(taken as int)
            &&& seq![action] + actions == advertisements(model.prefix, names.take(taken + 1int))
        }),
    decreases taken,
{
    let names = pending(model.handlers);
    let refused = seq![PollEvent::Published { sent: false }];
    let (next, action) = model.advertise();
    lemma_pending_empty(model.handlers);
    lemma_none_pending(model.handlers);
    let i = first_pending(model.handlers)->0;
    assert(is_first_pending(model.handlers, i));
    lemma_pending_first(model.handlers, i);
    assert(next == model);
    let (end, actions) = run(next, published(taken) + refused);
    if taken == 0 {
        assert(published(0) + refused =~= refused);
        assert(run(model, refused.drop_first()) == (model, Seq::<ActionView>::empty()));
        assert(actions =~= seq![ActionView::Receive]);
        assert(names.skip(0) =~= names);
    } else {
        let later = Model { handlers: next_advertised(model.handlers), ..model };
        let fewer = (taken - 1) as nat;
        assert(later.handlers == advertised(model.handlers, i));
        assert(commands(later.handlers) =~= commands(model.handlers));
        assert(names.drop_first() =~= pending(later.handlers));
        lemma_advertise_some(later, fewer);
        assert((published(taken) + refused).drop_first() =~= published(fewer) + refused);
        assert((published(taken) + refused)[0] == (PollEvent::Published { sent: true }));
        assert(model.step((published(taken) + refused)[0]) == later.advertise());
        assert(pending(later.handlers).skip(fewer as int) =~= names.skip(taken as int));
        assert(actions == advertisements(model.prefix, pending(later.handlers).take(fewer + 1int)));
    }
    assert(seq![action] + actions =~= advertisements(model.prefix, names.take(taken + 1int)));
}

/// While a device has commands to advertise, one poll advertises exactly those, each once and in
/// the order of their registration, as long as the client takes the messages. The connection is
/// then set up.
pub proof fn law_pending_commands_are_advertised(model: Model)
    requires
        model.state is Republishing,
    ensures
        run(model, seq![started()] + published(pending(model.handlers).len())) == (
            Model {
                state: State::Active,
                handlers: every_advertised(model.handlers),
                ..model
            },
            advertisements(model.prefix, pending(model.handlers)),
        ),
{
    lemma_advertise_all(model);
    let events = seq![started()] + published(pending(model.handlers).len());
    assert(events.drop_first() =~= published(pending(model.handlers).len()));
}

/// On every new connection a device subscribes to its commands and then advertises all of them,
/// in the order of their registration, whatever it advertised before.
pub proof fn law_connection_advertises_every_command(model: Model)
    requires
        model.state is Init,
    ensures
        run(
            model,
            seq![started(), started(), PollEvent::Subscribed { sent: true }, started()]
                + published(model.handlers.len()),
        ) == (
            Model {
                state: State::Active,
                handlers: every_advertised(model.handlers),
                ..model
            },
            seq![
                ActionView::Receive,
                ActionView::Subscribe(
                    SubscriptionView {
                        filter: filter_of(model.prefix),
                        ignore_local_messages: true,
                    },
                ),
                ActionView::Receive,
            ] + advertisements(model.prefix, commands(model.handlers)),
        ),
{
    let n = model.handlers.len();
    let rest4 = published(n);
    let rest3 = seq![started()] + rest4;
    let rest2 = seq![PollEvent::Subscribed { sent: true }] + rest3;
    let rest1 = seq![started()] + rest2;
    let events = seq![started(), started(), PollEvent::Subscribed { sent: true }, started()]
        + rest4;
    assert(events.drop_first() =~= rest1);
    assert(rest1.drop_first() =~= rest2);
    assert(rest2.drop_first() =~= rest3);
    let subscribing = Model {
        state: State::Subscribing,
        handlers: all_pending(model.handlers),
        ..model
    };
    let republishing = Model { state: State::Republishing, ..subscribing };
    lemma_pending_all(model.handlers);
    law_pending_commands_are_advertised(republishing);
    assert(every_advertised(republishing.handlers) =~= every_advertised(model.handlers));
    let adverts = advertisements(model.prefix, commands(model.handlers));
    let subscribe = model.update(true).0.update(true).1;
    assert(run(republishing, rest3).1 == adverts);
    assert(run(subscribing, rest2).1 == seq![ActionView::Receive] + adverts);
    assert(run(subscribing, rest1).1 == seq![subscribe] + (seq![ActionView::Receive] + adverts));
    assert(seq![ActionView::Receive] + (seq![subscribe] + (seq![ActionView::Receive] + adverts))
        =~= seq![ActionView::Receive, subscribe, ActionView::Receive] + adverts);
}

/// A command that is registered on a connection that is set up is advertised by the next poll,
/// and nothing else is.
pub proof fn law_new_command_is_advertised(model: Model, slots: nat, command: Seq<char>)
    requires
        model.wf(slots),
        model.state is Active,
        model.accepts(slots, command),
    ensures
        run(model.with_command(command), seq![started()] + published(1)) == (
            Model {
                handlers: model.handlers.push(HandlerView { command, republished: true }),
                ..model
            },
            seq![
                ActionView::Publish(advertisement(topic_of(model.prefix, command))),
                ActionView::Receive,
            ],
        ),
{
    let added = model.with_command(command);
    let n = model.handlers.len() as int;
    assert(is_first_pending(added.handlers, n)) by {
        assert forall|j: int| 0 <= j < n implies (#[trigger] added.handlers[j]).republished by {
            assert(added.handlers[j] == model.handlers[j]);
        }
    }
    lemma_pending_first(added.handlers, n);
    let after = advertised(added.handlers, n);
    lemma_pending_empty(after);
    assert(all_advertised(after)) by {
        assert forall|j: int| 0 <= j < after.len() implies (#[trigger] after[j]).republished by {
            if j < n {
                assert(after[j] == model.handlers[j]);
            }
        }
    }
    assert(pending(added.handlers) =~= seq![command]);
    law_pending_commands_are_advertised(added);
    assert(every_advertised(added.handlers) =~= model.handlers.push(
        HandlerView { command, republished: true },
    )) by {
        assert forall|j: int| 0 <= j < n implies (
        #[trigger] every_advertised(added.handlers)[j]) == model.handlers[j] by {
            assert(model.handlers[j].republished);
        }
    }
    assert(advertisements(model.prefix, pending(added.handlers)) =~= seq![
        ActionView::Publish(advertisement(topic_of(model.prefix, command))),
        ActionView::Receive,
    ]);
}

/// What the client did not take is asked for again: neither asking for it nor learning that it was
/// not taken changes anything, so the poll ends, and the next one asks for the same.
pub proof fn law_refused_request_is_repeated(model: Model)
    ensures
        model.step(started()).1 !is Receive ==> model.step(started()).0 == model,
        model.step(PollEvent::Published { sent: false }) == (model, ActionView::Receive),
        model.step(PollEvent::Subscribed { sent: false }) == (model, ActionView::Receive),
{
}

/// Where the client takes some of the advertisements and then refuses one, the poll ends, and what
/// is left to advertise are the commands from the refused one on.
pub proof fn law_interrupted_advertising_resumes(model: Model, taken: nat)
    requires
        model.state is Republishing,
        taken < pending(model.handlers).len(),
    ensures
        ({
            let names = pending(model.handlers);
            let (end, actions) = run(
                model,
                seq![started()] + published(taken) + seq![PollEvent::Published { sent: false }],
            );
            &&& end.state is Republishing
            &&& end.prefix == model.prefix
            &&& commands(end.handlers) == commands(model.handlers)
            &&& pending(end.handlers) == names.skip(taken as int)
            &&& actions == advertisements(model.prefix, names.take(taken + 1int))
        }),
{
    lemma_advertise_some(model, taken);
    let refused = seq![PollEvent::Published { sent: false }];
    let events = seq![started()] + published(taken) + refused;
    assert(events.drop_first() =~= published(taken) + refused);
}

/// Without a connection, a device neither subscribes nor publishes, and it will set up the next
/// connection from the start.
pub proof fn law_nothing_is_sent_while_disconnected(model: Model)
    ensures
        model.step(PollEvent::Started { connected: false }) == (model.lost(), ActionView::Receive),
        model.lost().state is Init,
{
}

/// Every poll keeps what holds of every request interface. In particular, a connection is only
/// taken to be set up once every command was advertised on it.
pub proof fn law_polling_keeps_wf(model: Model, slots: nat, event: PollEvent)
    requires
        model.wf(slots),
    ensures
        model.step(event).0.wf(slots),
{
    let next = model.step(event).0;
    lemma_none_pending(model.handlers);
    lemma_none_pending(next_advertised(model.handlers));
    assert(commands(next.handlers) =~= commands(model.handlers)) by {
        law_polling_keeps_commands(model, event);
    }
    assert forall|i: int, j: int| 0 <= i < j < next.handlers.len() implies (
    #[trigger] next.handlers[i]).command != (#[trigger] next.handlers[j]).command by {
        assert(commands(next.handlers)[i] == model.handlers[i].command);
        assert(commands(next.handlers)[j] == model.handlers[j].command);
    }
}

/// Registering a command keeps what holds of every request interface, and so does the loss of the
/// connection. A device without commands starts so.
pub proof fn law_registering_keeps_wf(model: Model, slots: nat, command: Seq<char>)
    requires
        model.wf(slots),
    ensures
        model.accepts(slots, command) ==> model.with_command(command).wf(slots),
        model.lost().wf(slots),
        Model::initial(model.prefix).wf(slots),
{
}

/// Where no command is longer than a prefix may be, every topic is short enough to be advertised.
pub proof fn law_short_commands_stay_within_limits(model: Model, slots: nat, event: PollEvent)
    requires
        model.wf(slots),
        forall|i: int|
            0 <= i < model.handlers.len() ==> utf8_len((#[trigger] model.handlers[i]).command)
                <= MAX_TOPIC_LENGTH,
    ensures
        model.within_limits(event),
{
    reveal_strlit("/");
    lemma_utf8_len_ascii("/"@);
    lemma_utf8_len_concat(model.prefix, "/"@);
    assert forall|command: Seq<char>| utf8_len(command) <= MAX_TOPIC_LENGTH implies utf8_len(
        #[trigger] topic_of(model.prefix, command),
    ) <= MAX_COMMAND_TOPIC_LENGTH by {
        lemma_utf8_len_concat(model.prefix + "/"@, command);
    }
}

/// A poll moves along the transitions of the state machine, or leaves the state as it is.
pub proof fn law_polling_follows_the_machine(model: Model, event: PollEvent)
    ensures
        ({
            let next = model.step(event).0.state;
            ||| next == model.state
            ||| target(model.state, Event::Update) == Some(next)
            ||| target(model.state, Event::Reset) == Some(next) && event
                == (PollEvent::Started { connected: false })
        }),
{
}

/// No poll changes the prefix or the commands, so none changes how a request is dispatched.
pub proof fn law_polling_keeps_commands(model: Model, event: PollEvent)
    ensures
        model.step(event).0.prefix == model.prefix,
        commands(model.step(event).0.handlers) == commands(model.handlers),
        forall|topic: Seq<char>, route: Option<RouteView>|
            model.step(event).0.dispatch(topic, route) == #[trigger] model.dispatch(topic, route),
{
    let next = model.step(event).0;
    if exists|i: int| is_first_pending(model.handlers, i) {
        assert(is_first_pending(model.handlers, first_pending(model.handlers)->0));
    }
    assert(commands(next.handlers) =~= commands(model.handlers));
    assert forall|command: Seq<char>|
        registered(next.handlers, command) == #[trigger] registered(model.handlers, command) by {
        if registered(model.handlers, command) {
            let i = choose|i: int|
                0 <= i < model.handlers.len() && (#[trigger] model.handlers[i]).command == command;
            assert(commands(next.handlers)[i] == command);
            assert(next.handlers[i].command == command);
        }
        if registered(next.handlers, command) {
            let i = choose|i: int|
                0 <= i < next.handlers.len() && (#[trigger] next.handlers[i]).command == command;
            assert(commands(model.handlers)[i] == command);
            assert(model.handlers[i].command == command);
        }
    }
}

/// A command can be registered once only.
pub proof fn law_command_is_registered_once(model: Model, slots: nat, command: Seq<char>)
    ensures
        registered(model.with_command(command).handlers, command),
        !model.with_command(command).accepts(slots, command),
{
    let handlers = model.with_command(command).handlers;
    assert(handlers[model.handlers.len() as int].command == command);
}

/// A message on the topic by which a command is advertised asks for that command.
pub proof fn law_topic_leads_back_to_command(prefix: Seq<char>, command: Seq<char>)
    ensures
        command_of(prefix, topic_of(prefix, command)) == Some(command),
{
    let topic = topic_of(prefix, command);
    let path = topic.skip(prefix.len() as int);
    assert(prefix =~= topic.subrange(0, prefix.len() as int));
    assert(path =~= "/"@ + command);
    assert("/"@ =~= path.subrange(0, "/"@.len() as int));
    assert(path.skip("/"@.len() as int) =~= command);
}

/// Different commands have different topics.
pub proof fn law_topics_differ(prefix: Seq<char>, one: Seq<char>, other: Seq<char>)
    requires
        topic_of(prefix, one) == topic_of(prefix, other),
    ensures
        one == other,
{
    law_topic_leads_back_to_command(prefix, one);
    law_topic_leads_back_to_command(prefix, other);
}

/// Every command topic lies below the filter that a device subscribes to: they begin alike, up to
/// the wildcard at the end of the filter.
pub proof fn law_filter_covers_every_command(prefix: Seq<char>, command: Seq<char>)
    ensures
        filter_of(prefix).last() == '#',
        filter_of(prefix).drop_last().is_prefix_of(topic_of(prefix, command)),
{
    reveal_strlit("/#");
    reveal_strlit("/");
    let start = filter_of(prefix).drop_last();
    assert(start =~= prefix + "/"@);
    assert(start =~= topic_of(prefix, command).subrange(0, start.len() as int));
}

/// From its registration on, a request for a command that says where the answer goes is handed to
/// the handler, under the name of the command, and the answer goes there.
pub proof fn law_registered_command_is_called(model: Model, command: Seq<char>, route: RouteView)
    requires
        registered(model.handlers, command),
    ensures
        model.dispatch(topic_of(model.prefix, command), Some(route)) == (RequestView::Call {
            command,
            answer: success(route),
        }),
{
    law_topic_leads_back_to_command(model.prefix, command);
}

/// A request for a command that is not registered is refused: the handler is not called, and the
/// requester is told so with an error code, if it said where to.
pub proof fn law_unregistered_command_is_refused(
    model: Model,
    command: Seq<char>,
    route: RouteView,
)
    requires
        !registered(model.handlers, command),
    ensures
        model.dispatch(topic_of(model.prefix, command), Some(route))
            == (RequestView::NotSubscribed { refusal: Some(refusal(route)) }),
        model.dispatch(topic_of(model.prefix, command), None) == (RequestView::NotSubscribed {
            refusal: None,
        }),
        refusal(route).property == Some(ResponseCode::Error.user_property()),
{
    law_topic_leads_back_to_command(model.prefix, command);
}

/// The message that answers a request, if any does.
pub open spec fn answer_to(request: RequestView) -> Option<PublicationView> {
    match request {
        RequestView::NotSubscribed { refusal } => refusal,
        RequestView::Call { answer, .. } => Some(answer),
        _ => None,
    }
}

/// An answer goes to the response topic of the request, with the correlation data of the request,
/// at least once, and is not retained. It carries a code. A request without a response topic is
/// not answered, and its handler is not called.
pub proof fn law_answers_go_back(model: Model, topic: Seq<char>, route: Option<RouteView>)
    ensures
        answer_to(model.dispatch(topic, route)) matches Some(answer) ==> {
            &&& route is Some
            &&& answer.topic == route->0.topic
            &&& answer.correlation == route->0.correlation
            &&& answer.qos is AtLeastOnce
            &&& !answer.retain
            &&& exists|code: ResponseCode| answer.property == Some(#[trigger] code.user_property())
        },
        model.dispatch(topic, route) is Call ==> route is Some,
        route is None ==> answer_to(model.dispatch(topic, route)) is None,
{
    // The codes that an answer can carry.
    let success_code = ResponseCode::Success.user_property();
    let error_code = ResponseCode::Error.user_property();
}

proof fn lemma_data_property(before: Seq<u8>, id: u8, data: Seq<u8>, after: Seq<u8>)
    requires
        data.len() < 0x10000,
        value_kind(id) == Some(ValueKind::Data),
    ensures
        ({
            let block = before + data_property(id, data) + after;
            let end = before.len() + 3 + data.len();
            &&& block[before.len() as int] == id
            &&& property_end(block, before.len() as int) == Some(end as int)
            &&& data_of(block, before.len() as int, end as int) == data
        }),
{
    let block = before + data_property(id, data) + after;
    let start = before.len() as int;
    let n = data.len();
    assert(block[start] == id);
    assert(block[start + 1] == (n / 256) as u8);
    assert(block[start + 2] == (n % 256) as u8);
    assert(data_of(block, start, start + 3 + n) =~= data);
}

/// What a requester says about where the answer goes is what the device reads, as long as neither
/// the topic nor the correlation data is too long to be told.
pub proof fn law_route_is_read_back(route: RouteView)
    requires
        utf8_len(route.topic) < 0x10000,
        route.correlation matches Some(data) ==> data.len() < 0x10000,
    ensures
        complete_from(route_properties(route), 0),
        listed_route(route_properties(route)) == Some(route),
{
    broadcast use vstd::utf8::encode_utf8_valid_utf8;
    broadcast use vstd::utf8::encode_utf8_decode_utf8;

    let block = route_properties(route);
    let topic = encode_utf8(route.topic);
    let first = data_property(RESPONSE_TOPIC, topic);
    let rest = block.skip(first.len() as int);
    assert(block =~= Seq::<u8>::empty() + first + rest);
    lemma_data_property(Seq::empty(), RESPONSE_TOPIC, topic, rest);
    match route.correlation {
        Some(data) => {
            assert(block =~= first + data_property(CORRELATION_DATA, data) + Seq::<u8>::empty());
            lemma_data_property(first, CORRELATION_DATA, data, Seq::empty());
            assert(complete_from(block, block.len() as int));
            assert(complete_from(block, first.len() as int));
            assert(correlation_data(block, first.len() as int) == Some(data));
        },
        None => {
            assert(complete_from(block, block.len() as int));
        },
    }
}

/// From its registration on, a request on the topic of a command is handed to the handler, and the
/// answer goes where the properties of the request say.
pub proof fn law_request_is_served(model: Model, command: Seq<char>, route: RouteView)
    requires
        registered(model.handlers, command),
        utf8_len(route.topic) < 0x10000,
        route.correlation matches Some(data) ==> data.len() < 0x10000,
    ensures
        model.dispatch(topic_of(model.prefix, command), listed_route(route_properties(route)))
            == (RequestView::Call { command, answer: success(route) }),
{
    law_route_is_read_back(route);
    law_registered_command_is_called(model, command, route);
}

/// Where the handler fails, its error goes where its answer would have gone, with an error code.
pub proof fn law_handler_errors_are_reported(route: RouteView)
    ensures
        failed(success(route)) == failure(route),
        failure(route).property == Some(ResponseCode::Error.user_property()),
        success(route).property == Some(ResponseCode::Success.user_property()),
{
}

/// The two codes can be told apart.
pub proof fn law_codes_differ()
    ensures
        ResponseCode::Success.user_property() != ResponseCode::Error.user_property(),
{
    reveal_strlit("Ok");
    reveal_strlit("Error");
    assert("Ok"@.len() == 2);
    assert("Error"@.len() == 5);
}

/// All states can reset if the broker connection is lost.
pub proof fn law_every_state_resets(state: State, guard: bool)
    ensures
        transition(state, Event::Reset, guard) == Ok::<State, TransitionError>(
            State::Init,
        ),
{
}

/// A response never exceeds its size. The message is kept where it fits.
pub proof fn law_responses_fit(size: usize, code: int, message: Seq<char>)
    requires
        has_room(size, message),
    ensures
        utf8_len(custom_response(size, code, message).data) <= size,
        utf8_len(message) <= size ==> custom_response(size, code, message).data == message,
        custom_response(size, code, message).code == code,
{
    reveal_strlit("Truncated");
    lemma_utf8_len_ascii("Truncated"@);
}

} // verus!
