//! The commands that a device offers, and the topics that they live on.
use crate::publication::{
    advertisement, publication_view, Payload, Publication, Subscription, SubscriptionView,
};
use crate::text::{
    bounded, lemma_utf8_len_ascii, lemma_utf8_len_concat, same_text, strip_prefix, text, utf8_len,
};
use vstd::prelude::*;

verus! {

/// The most bytes that a command prefix may take.
pub const MAX_TOPIC_LENGTH: usize = 128;

/// The most bytes that a topic filter may take: a command prefix and the wildcard below it.
pub const MAX_FILTER_LENGTH: usize = MAX_TOPIC_LENGTH + 2;

/// The most bytes that the topic of a command may take: a command prefix, a separator and as much
/// again.
pub const MAX_COMMAND_TOPIC_LENGTH: usize = 2 * MAX_TOPIC_LENGTH + 1;

/// What is remembered of a registered command.
#[derive(Clone, Copy, Debug)]
pub struct HandlerMeta {
    republished: bool,
}

/// Room for one command.
pub type HandlerSlot<'a> = Option<(&'a str, HandlerMeta)>;

/// A registered command, and whether it was advertised on this connection.
#[verifier::ext_equal]
pub struct HandlerView {
    pub command: Seq<char>,
    pub republished: bool,
}

/// The commands of a device, and the prefix of their topics.
pub struct MinireqContext<'a, const SLOTS: usize> {
    handlers: [HandlerSlot<'a>; SLOTS],
    prefix: heapless::String<MAX_TOPIC_LENGTH>,
}

/// Whether the first `n` slots are taken and the others are free.
spec fn taken(slots: Seq<HandlerSlot<'_>>, n: int) -> bool {
    &&& 0 <= n <= slots.len()
    &&& forall|i: int| 0 <= i < n ==> (#[trigger] slots[i]) is Some
    &&& forall|i: int| n <= i < slots.len() ==> (#[trigger] slots[i]) is None
}

/// How many slots are taken, where the taken ones come first.
spec fn count(slots: Seq<HandlerSlot<'_>>) -> int {
    choose|n: int| taken(slots, n)
}

/// What a taken slot holds.
spec fn handler_view(slot: HandlerSlot<'_>) -> HandlerView {
    HandlerView { command: (slot->0).0@, republished: (slot->0).1.republished }
}

proof fn lemma_count(slots: Seq<HandlerSlot<'_>>, n: int)
    requires
        taken(slots, n),
    ensures
        count(slots) == n,
{
    let m = count(slots);
    assert(taken(slots, m));
    if m < n {
        assert(slots[m] is Some);
    } else if n < m {
        assert(slots[n] is Some);
    }
}

/// Whether some of `handlers` is the handler of `command`.
pub open spec fn registered(handlers: Seq<HandlerView>, command: Seq<char>) -> bool {
    exists|i: int| 0 <= i < handlers.len() && (#[trigger] handlers[i]).command == command
}

/// `handlers`, none of them advertised.
pub open spec fn all_pending(handlers: Seq<HandlerView>) -> Seq<HandlerView> {
    Seq::new(
        handlers.len(),
        |i: int| HandlerView { republished: false, ..handlers[i] },
    )
}

/// Whether `i` is the first of `handlers` that was not advertised.
pub open spec fn is_first_pending(handlers: Seq<HandlerView>, i: int) -> bool {
    &&& 0 <= i < handlers.len()
    &&& !handlers[i].republished
    &&& forall|j: int| 0 <= j < i ==> (#[trigger] handlers[j]).republished
}

/// The first of `handlers` that was not advertised.
pub open spec fn first_pending(handlers: Seq<HandlerView>) -> Option<int> {
    if exists|i: int| is_first_pending(handlers, i) {
        Some(choose|i: int| is_first_pending(handlers, i))
    } else {
        None
    }
}

/// `handlers`, where the `i`-th was advertised.
pub open spec fn advertised(handlers: Seq<HandlerView>, i: int) -> Seq<HandlerView> {
    handlers.update(i, HandlerView { republished: true, ..handlers[i] })
}

/// `handlers`, where the first that was not advertised now is.
pub open spec fn next_advertised(handlers: Seq<HandlerView>) -> Seq<HandlerView> {
    match first_pending(handlers) {
        Some(i) => advertised(handlers, i),
        None => handlers,
    }
}

/// The prefix of the command topics of a device.
pub open spec fn prefix_of(device_prefix: Seq<char>) -> Seq<char> {
    device_prefix + "/command"@
}

/// The topic filter that covers all commands below `prefix`.
pub open spec fn filter_of(prefix: Seq<char>) -> Seq<char> {
    prefix + "/#"@
}

/// The topic of `command`.
pub open spec fn topic_of(prefix: Seq<char>, command: Seq<char>) -> Seq<char> {
    prefix + "/"@ + command
}

/// The command that a message on `topic` asks for. A slash after the prefix is not part of it.
pub open spec fn command_of(prefix: Seq<char>, topic: Seq<char>) -> Option<Seq<char>> {
    if prefix.is_prefix_of(topic) {
        let path = topic.skip(prefix.len() as int);
        if "/"@.is_prefix_of(path) {
            Some(path.skip("/"@.len() as int))
        } else {
            Some(path)
        }
    } else {
        None
    }
}

/// The one index that [`first_pending`] can give.
pub proof fn lemma_first_pending(handlers: Seq<HandlerView>, i: int)
    requires
        is_first_pending(handlers, i),
    ensures
        first_pending(handlers) == Some(i),
{
    let k = choose|k: int| is_first_pending(handlers, k);
    assert(is_first_pending(handlers, k));
    if k < i {
        assert(handlers[k].republished);
    } else if i < k {
        assert(handlers[i].republished);
    }
}

/// As long as a handler was not advertised, there is a first one.
proof fn lemma_some_pending(handlers: Seq<HandlerView>, k: int)
    requires
        0 <= k < handlers.len(),
        !handlers[k].republished,
    ensures
        exists|i: int| is_first_pending(handlers, i),
    decreases k,
{
    if forall|j: int| 0 <= j < k ==> (#[trigger] handlers[j]).republished {
        assert(is_first_pending(handlers, k));
    } else {
        let j = choose|j: int| 0 <= j < k && !(#[trigger] handlers[j]).republished;
        lemma_some_pending(handlers, j);
    }
}

/// [`first_pending`] gives none exactly where every handler was advertised.
pub proof fn lemma_none_pending(handlers: Seq<HandlerView>)
    ensures
        first_pending(handlers) is None <==> forall|i: int|
            0 <= i < handlers.len() ==> (#[trigger] handlers[i]).republished,
{
    if exists|k: int| 0 <= k < handlers.len() && !(#[trigger] handlers[k]).republished {
        let k = choose|k: int| 0 <= k < handlers.len() && !(#[trigger] handlers[k]).republished;
        lemma_some_pending(handlers, k);
    }
}

impl<'a, const SLOTS: usize> MinireqContext<'a, SLOTS> {
    /// The prefix of all command topics.
    pub closed spec fn prefix(&self) -> Seq<char> {
        text(self.prefix)
    }

    /// The registered commands, in the order of their registration.
    pub closed spec fn handlers(&self) -> Seq<HandlerView> {
        Seq::new(count(self.handlers@) as nat, |i: int| handler_view(self.handlers@[i]))
    }

    /// The slots are taken from the first on, and the prefix leaves room for the wildcard.
    pub closed spec fn wf(&self) -> bool {
        &&& taken(self.handlers@, count(self.handlers@))
        &&& utf8_len(text(self.prefix)) <= MAX_TOPIC_LENGTH
    }

    /// A context without commands, for the device of the given prefix. `None` where the command
    /// prefix is too long.
    pub fn new(device_prefix: &str) -> (context: Option<Self>)
        ensures
            context is Some <==> utf8_len(prefix_of(device_prefix@)) <= MAX_TOPIC_LENGTH,
            context matches Some(c) ==> {
                &&& c.wf()
                &&& c.prefix() == prefix_of(device_prefix@)
                &&& c.handlers() == Seq::<HandlerView>::empty()
            },
    {
        proof {
            lemma_utf8_len_concat(device_prefix@, "/command"@);
        }
        let mut prefix = heapless::String::<MAX_TOPIC_LENGTH>::new();
        match prefix.push_str(device_prefix) {
            Ok(()) => {},
            Err(()) => return None,
        }
        assert(text(prefix) =~= device_prefix@);
        match prefix.push_str("/command") {
            Ok(()) => {},
            Err(()) => return None,
        }
        let context = MinireqContext { handlers: [None; SLOTS], prefix };
        proof {
            lemma_count(context.handlers@, 0);
        }
        Some(context)
    }

    /// Puts `command` into the first free slot. Nothing changes where the command is registered
    /// already or no slot is free.
    pub fn add(&mut self, command: &'a str) -> (added: bool)
        requires
            old(self).wf(),
        ensures
            final(self).wf(),
            final(self).prefix() == old(self).prefix(),
            added <==> !registered(old(self).handlers(), command@) && old(self).handlers().len()
                < SLOTS,
            added ==> final(self).handlers() == old(self).handlers().push(
                HandlerView { command: command@, republished: false },
            ),
            !added ==> final(self).handlers() == old(self).handlers(),
    {
        let ghost slots = self.handlers@;
        let mut i: usize = 0;
        while i < SLOTS
            invariant
                i <= count(slots) <= SLOTS,
                *self == *old(self),
                slots == old(self).handlers@,
                old(self).wf(),
                forall|j: int|
                    0 <= j < i ==> (#[trigger] self.handlers()[j]).command != command@,
            decreases SLOTS - i,
        {
            match self.handlers[i] {
                Some((handle, _)) => {
                    assert(self.handlers()[i as int].command == handle@);
                    if same_text(handle, command) {
                        return false;
                    }
                },
                None => {
                    self.handlers[i] = Some((command, HandlerMeta { republished: false }));
                    proof {
                        assert(i == count(slots));
                        lemma_count(self.handlers@, i + 1);
                        assert(self.handlers() =~= old(self).handlers().push(
                            HandlerView { command: command@, republished: false },
                        ));
                    }
                    return true;
                },
            }
            i = i + 1;
        }
        false
    }

    /// Forgets of every command that it was advertised.
    pub fn reset(&mut self)
        requires
            old(self).wf(),
        ensures
            final(self).wf(),
            final(self).prefix() == old(self).prefix(),
            final(self).handlers() == all_pending(old(self).handlers()),
    {
        let ghost slots = self.handlers@;
        let mut i: usize = 0;
        while i < SLOTS
            invariant
                i <= SLOTS,
                self.prefix == old(self).prefix,
                slots == old(self).handlers@,
                old(self).wf(),
                taken(self.handlers@, count(slots)),
                forall|j: int|
                    0 <= j < i && j < count(slots) ==> (#[trigger] self.handlers@[j]) == Some(
                        ((slots[j]->0).0, HandlerMeta { republished: false }),
                    ),
                forall|j: int| i <= j < SLOTS ==> (#[trigger] self.handlers@[j]) == slots[j],
            decreases SLOTS - i,
        {
            match self.handlers[i] {
                Some((handle, _)) => {
                    self.handlers[i] = Some((handle, HandlerMeta { republished: false }));
                },
                None => {},
            }
            i = i + 1;
        }
        proof {
            lemma_count(self.handlers@, count(slots));
            assert(self.handlers() =~= all_pending(old(self).handlers()));
        }
    }

    /// The slot of the first command from slot `from` on that was not advertised.
    fn pending(&self, from: usize) -> (slot: Option<usize>)
        requires
            self.wf(),
            from <= SLOTS,
        ensures
            slot is None ==> forall|j: int|
                from <= j < self.handlers().len() ==> (#[trigger] self.handlers()[j]).republished,
            slot matches Some(i) ==> {
                &&& from <= i < self.handlers().len() <= SLOTS
                &&& !self.handlers()[i as int].republished
                &&& forall|j: int|
                    from <= j < i ==> (#[trigger] self.handlers()[j]).republished
            },
    {
        let mut i: usize = from;
        while i < SLOTS
            invariant
                from <= i <= SLOTS,
                self.wf(),
                forall|j: int|
                    from <= j < i && j < self.handlers().len() ==> (
                    #[trigger] self.handlers()[j]).republished,
            decreases SLOTS - i,
        {
            match self.handlers[i] {
                Some((_, meta)) => {
                    assert(self.handlers()[i as int].republished == meta.republished);
                    if !meta.republished {
                        return Some(i);
                    }
                },
                None => {},
            }
            i = i + 1;
        }
        None
    }

    /// The topic of the command in `slot`, unless it is too long.
    fn topic(&self, slot: usize) -> (topic: Option<heapless::String<MAX_COMMAND_TOPIC_LENGTH>>)
        requires
            self.wf(),
            slot < self.handlers().len(),
        ensures
            topic is Some <==> utf8_len(
                topic_of(self.prefix(), self.handlers()[slot as int].command),
            ) <= MAX_COMMAND_TOPIC_LENGTH,
            topic is Some ==> text(topic->0) == topic_of(
                self.prefix(),
                self.handlers()[slot as int].command,
            ),
    {
        let command = match self.handlers[slot] {
            Some((command, _)) => command,
            None => return None,
        };
        assert(self.handlers()[slot as int].command == command@);
        proof {
            lemma_utf8_len_concat(self.prefix(), "/"@);
            lemma_utf8_len_concat(self.prefix() + "/"@, command@);
            reveal_strlit("/");
            lemma_utf8_len_ascii("/"@);
        }
        let mut topic: heapless::String<MAX_COMMAND_TOPIC_LENGTH> = bounded(self.prefix.as_str());
        topic.push_str("/").unwrap();
        match topic.push_str(command) {
            Ok(()) => Some(topic),
            Err(()) => None,
        }
    }

    /// The subscription to all commands of the device.
    pub fn subscribe(&self) -> (subscription: Subscription)
        requires
            self.wf(),
        ensures
            subscription@ == (SubscriptionView {
                filter: filter_of(self.prefix()),
                ignore_local_messages: true,
            }),
            subscription.filter@ == self.prefix() + seq!['/', '#'],
            subscription.ignore_local_messages,
    {
        proof {
            reveal_strlit("/#");
            assert("/#"@ =~= seq!['/', '#']);
            lemma_utf8_len_ascii("/#"@);
        }
        let mut filter: heapless::String<MAX_FILTER_LENGTH> = bounded(self.prefix.as_str());
        filter.push_str("/#").unwrap();
        Subscription { filter: filter.as_str().to_owned(), ignore_local_messages: true }
    }

    /// The advertisement of the first command that was not advertised.
    pub fn republish(&self) -> (publication: Option<Publication>)
        requires
            self.wf(),
            first_pending(self.handlers()) matches Some(i) ==> utf8_len(
                topic_of(self.prefix(), self.handlers()[i].command),
            ) <= MAX_COMMAND_TOPIC_LENGTH,
        ensures
            publication_view(publication) == (match first_pending(self.handlers()) {
                Some(i) => Some(
                    advertisement(topic_of(self.prefix(), self.handlers()[i].command)),
                ),
                None => None,
            }),
            publication matches Some(p) ==> {
                &&& p.retain
                &&& p.qos is AtLeastOnce
                &&& p.property is None
                &&& p.correlation is None
                &&& p.payload matches Payload::Text(text) && text@ == seq!['{', '}']
            },
    {
        match self.pending(0) {
            Some(i) => {
                proof {
                    lemma_first_pending(self.handlers(), i as int);
                }
                let topic = self.topic(i).unwrap();
                Some(Publication::advertisement(topic.as_str()))
            },
            None => None,
        }
    }

    /// Whether the topic of the first command that was not advertised is short enough, or, with
    /// `after_that`, the topic of the one that comes after it.
    pub fn fits(&self, after_that: bool) -> (fits: bool)
        requires
            self.wf(),
        ensures
            fits == ({
                let handlers = if after_that {
                    next_advertised(self.handlers())
                } else {
                    self.handlers()
                };
                first_pending(handlers) matches Some(i) ==> utf8_len(
                    topic_of(self.prefix(), handlers[i].command),
                ) <= MAX_COMMAND_TOPIC_LENGTH
            }),
    {
        let first = match self.pending(0) {
            Some(i) => i,
            None => return true,
        };
        proof {
            lemma_first_pending(self.handlers(), first as int);
        }
        let slot = if after_that {
            match self.pending(first + 1) {
                Some(i) => {
                    proof {
                        lemma_first_pending(next_advertised(self.handlers()), i as int);
                    }
                    i
                },
                None => {
                    proof {
                        lemma_none_pending(next_advertised(self.handlers()));
                    }
                    return true;
                },
            }
        } else {
            first
        };
        self.topic(slot).is_some()
    }

    /// Remembers that the first command that was not advertised now is.
    pub fn republished(&mut self)
        requires
            old(self).wf(),
        ensures
            final(self).wf(),
            final(self).prefix() == old(self).prefix(),
            final(self).handlers() == next_advertised(old(self).handlers()),
    {
        let ghost slots = self.handlers@;
        match self.pending(0) {
            Some(i) => match self.handlers[i] {
                Some((command, _)) => {
                    self.handlers[i] = Some((command, HandlerMeta { republished: true }));
                    proof {
                        lemma_first_pending(old(self).handlers(), i as int);
                        lemma_count(self.handlers@, count(slots));
                        assert(self.handlers() =~= advertised(old(self).handlers(), i as int));
                    }
                },
                None => {},
            },
            None => {},
        }
    }

    /// The command that a message on `topic` asks for.
    pub fn command<'t>(&self, topic: &'t str) -> (command: Option<&'t str>)
        requires
            self.wf(),
        ensures
            command is Some <==> command_of(self.prefix(), topic@) is Some,
            command is Some ==> Some(command->0@) == command_of(self.prefix(), topic@),
    {
        match strip_prefix(topic, self.prefix.as_str()) {
            Some(path) => match strip_prefix(path, "/") {
                Some(command) => Some(command),
                None => Some(path),
            },
            None => None,
        }
    }

    /// Whether `command` is registered.
    pub fn is_registered(&self, command: &str) -> (found: bool)
        requires
            self.wf(),
        ensures
            found == registered(self.handlers(), command@),
            found == exists|i: int|
                0 <= i < self.handlers().len() && (#[trigger] self.handlers()[i]).command
                    == command@,
    {
        let mut i: usize = 0;
        while i < SLOTS
            invariant
                i <= SLOTS,
                self.wf(),
                forall|j: int|
                    0 <= j < i && j < self.handlers().len() ==> (
                    #[trigger] self.handlers()[j]).command != command@,
            decreases SLOTS - i,
        {
            match self.handlers[i] {
                Some((handle, _)) => {
                    assert(self.handlers()[i as int].command == handle@);
                    if same_text(handle, command) {
                        return true;
                    }
                },
                None => {},
            }
            i = i + 1;
        }
        false
    }
}

} // verus!
