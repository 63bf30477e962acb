use vstd::prelude::*;
use crate::messaging::topic::{
    compile,
    expression,
    expression_compiles,
    expression_of,
    finds,
    pattern_accepts,
    pattern_expression,
};
use crate::messaging::translate::text_of;
use vstd::utf8::{decode_utf8, valid_utf8};

verus! {

/// What a user of the adapter asks of it. A subscription names its callback
/// by a value of the user's choosing, which the adapter hands back for every
/// message that the pattern takes.
pub enum Request<H> {
    Subscription(String, H),
    Unsubscription(String),
    Publication(String, String, bool),
}

/// A request as plain values.
pub enum RequestView<H> {
    Subscription(Seq<char>, H),
    Unsubscription(Seq<char>),
    Publication(Seq<char>, Seq<char>, bool),
}

impl<H> View for Request<H> {
    type V = RequestView<H>;

    open spec fn view(&self) -> RequestView<H> {
        match self {
            Request::Subscription(topic, callback) => RequestView::Subscription(topic@, *callback),
            Request::Unsubscription(topic) => RequestView::Unsubscription(topic@),
            Request::Publication(topic, payload, retain) => RequestView::Publication(
                topic@,
                payload@,
                *retain,
            ),
        }
    }
}

/// What the adapter asks of the broker once it has served a request.
#[derive(Debug, PartialEq, Eq)]
pub enum Order {
    Subscribe(String),
    Unsubscribe(String),
    Publish(String, String, bool),
}

/// An order as plain values.
pub enum OrderView {
    Subscribe(Seq<char>),
    Unsubscribe(Seq<char>),
    Publish(Seq<char>, Seq<char>, bool),
}

impl View for Order {
    type V = OrderView;

    open spec fn view(&self) -> OrderView {
        match self {
            Order::Subscribe(topic) => OrderView::Subscribe(topic@),
            Order::Unsubscribe(topic) => OrderView::Unsubscribe(topic@),
            Order::Publish(topic, payload, retain) => OrderView::Publish(topic@, payload@, *retain),
        }
    }
}

/// The callbacks that stand under one pattern, with the pattern compiled.
struct Registration<H> {
    pattern: String,
    matcher: Option<regex::Regex>,
    callbacks: Vec<H>,
}

/// The callbacks that stand under one pattern, in the order in which they
/// were registered.
pub struct RegistrationView<H> {
    pub pattern: Seq<char>,
    pub callbacks: Seq<H>,
}

impl<H> Registration<H> {
    spec fn consistent(self) -> bool {
        &&& self.matcher is Some <==> expression_compiles(pattern_expression(self.pattern@))
        &&& self.matcher matches Some(compiled) ==> expression_of(compiled) == pattern_expression(
            self.pattern@,
        )
    }
}

impl<H> View for Registration<H> {
    type V = RegistrationView<H>;

    closed spec fn view(&self) -> RegistrationView<H> {
        RegistrationView { pattern: self.pattern@, callbacks: self.callbacks@ }
    }
}

/// The callbacks by pattern, in the order in which the patterns came.
struct Registry<H> {
    entries: Vec<Registration<H>>,
}

/// The adapter between a user and a broker: the requests not yet served, the
/// messages not yet handed out, and the callbacks by pattern.
pub struct Mosquitto<H> {
    running: bool,
    sender: Vec<Request<H>>,
    events: Vec<(String, String)>,
    callbacks: Registry<H>,
}

/// An adapter as plain values.
pub struct MosquittoView<H> {
    pub running: bool,
    pub outbox: Seq<RequestView<H>>,
    pub inbox: Seq<(Seq<char>, Seq<char>)>,
    pub registry: Seq<RegistrationView<H>>,
}

/// The first place from `from` on at which the pattern stands.
pub open spec fn place_of<H>(registry: Seq<RegistrationView<H>>, pattern: Seq<char>, from: int) -> Option<
    int,
>
    decreases registry.len() - from,
{
    if from < 0 || from >= registry.len() {
        None
    } else if registry[from].pattern == pattern {
        Some(from)
    } else {
        place_of(registry, pattern, from + 1)
    }
}

/// No pattern stands in the registry twice.
pub open spec fn patterns_unique<H>(registry: Seq<RegistrationView<H>>) -> bool {
    forall|i: int, j: int|
        0 <= i < j < registry.len() ==> (#[trigger] registry[i]).pattern != (
        #[trigger] registry[j]).pattern
}

/// The registry with one more callback: behind the others of its pattern, or
/// under a new pattern at the end.
pub open spec fn registered<H>(
    registry: Seq<RegistrationView<H>>,
    pattern: Seq<char>,
    callback: H,
) -> Seq<RegistrationView<H>> {
    match place_of(registry, pattern, 0) {
        Some(place) => registry.update(
            place,
            RegistrationView { pattern, callbacks: registry[place].callbacks.push(callback) },
        ),
        None => registry.push(RegistrationView { pattern, callbacks: seq![callback] }),
    }
}

/// The registry without the pattern and its callbacks.
pub open spec fn unregistered<H>(registry: Seq<RegistrationView<H>>, pattern: Seq<char>) -> Seq<
    RegistrationView<H>,
> {
    match place_of(registry, pattern, 0) {
        Some(place) => registry.remove(place),
        None => registry,
    }
}

/// The registry once a request has been served.
pub open spec fn served<H>(registry: Seq<RegistrationView<H>>, request: RequestView<H>) -> Seq<
    RegistrationView<H>,
> {
    match request {
        RequestView::Subscription(pattern, callback) => registered(registry, pattern, callback),
        RequestView::Unsubscription(pattern) => unregistered(registry, pattern),
        RequestView::Publication(_, _, _) => registry,
    }
}

/// What the broker is asked once a request has been served.
pub open spec fn order_for<H>(request: RequestView<H>) -> OrderView {
    match request {
        RequestView::Subscription(pattern, _) => OrderView::Subscribe(pattern),
        RequestView::Unsubscription(pattern) => OrderView::Unsubscribe(pattern),
        RequestView::Publication(topic, payload, retain) => OrderView::Publish(
            topic,
            payload,
            retain,
        ),
    }
}

/// A registration takes a topic that is its pattern letter for letter, or
/// that its pattern accepts.
pub open spec fn takes<H>(registration: RegistrationView<H>, topic: Seq<char>) -> bool {
    registration.pattern == topic || pattern_accepts(registration.pattern, topic)
}

/// The callbacks that are due for a topic: those of every registration that
/// takes it, registration by registration, each in the order of registering.
pub open spec fn due<H>(registry: Seq<RegistrationView<H>>, topic: Seq<char>) -> Seq<H>
    decreases registry.len(),
{
    if registry.len() == 0 {
        Seq::empty()
    } else {
        due(registry.drop_last(), topic) + if takes(registry.last(), topic) {
            registry.last().callbacks
        } else {
            Seq::empty()
        }
    }
}

impl<H> MosquittoView<H> {
    /// The adapter with one more request waiting to be served.
    pub open spec fn asked(self, request: RequestView<H>) -> MosquittoView<H> {
        MosquittoView { outbox: self.outbox.push(request), ..self }
    }

    /// The adapter once the control task has taken a step: the oldest
    /// request is served. A stopped adapter, or one without requests, stays
    /// as it is.
    pub open spec fn controlled(self) -> MosquittoView<H> {
        if self.running && self.outbox.len() > 0 {
            MosquittoView {
                outbox: self.outbox.drop_first(),
                registry: served(self.registry, self.outbox[0]),
                ..self
            }
        } else {
            self
        }
    }

    /// The adapter once the network task has been handed a message: a
    /// payload that is UTF-8 waits to be dispatched, as text. A stopped
    /// adapter takes nothing.
    pub open spec fn received(self, topic: Seq<char>, payload: Seq<u8>) -> MosquittoView<H> {
        if self.running && valid_utf8(payload) {
            MosquittoView { inbox: self.inbox.push((topic, decode_utf8(payload))), ..self }
        } else {
            self
        }
    }

    /// The adapter once the dispatch task has taken a step: the oldest
    /// message is handed out.
    pub open spec fn dispatched(self) -> MosquittoView<H> {
        if self.running && self.inbox.len() > 0 {
            MosquittoView { inbox: self.inbox.drop_first(), ..self }
        } else {
            self
        }
    }
}

impl<H> Registry<H> {
    #[verifier::type_invariant]
    spec fn well_formed(self) -> bool {
        &&& forall|i: int|
            0 <= i < self.entries@.len() ==> (#[trigger] self.entries@[i]).consistent()
        &&& forall|i: int, j: int|
            0 <= i < j < self.entries@.len() ==> (#[trigger] self.entries@[i]).pattern@ != (
            #[trigger] self.entries@[j]).pattern@
    }
}

impl<H> View for Registry<H> {
    type V = Seq<RegistrationView<H>>;

    closed spec fn view(&self) -> Seq<RegistrationView<H>> {
        Seq::new(self.entries@.len(), |i: int| self.entries@[i]@)
    }
}

impl<H> View for Mosquitto<H> {
    type V = MosquittoView<H>;

    closed spec fn view(&self) -> MosquittoView<H> {
        MosquittoView {
            running: self.running,
            outbox: Seq::new(self.sender@.len(), |i: int| self.sender@[i]@),
            inbox: Seq::new(self.events@.len(), |i: int| (self.events@[i].0@, self.events@[i].1@)),
            registry: self.callbacks@,
        }
    }
}

/// The place found for a pattern is the first at which it stands.
pub proof fn place_of_is_first<H>(registry: Seq<RegistrationView<H>>, pattern: Seq<char>, from: int)
    requires
        0 <= from,
    ensures
        match place_of(registry, pattern, from) {
            Some(i) => {
                &&& from <= i < registry.len()
                &&& registry[i].pattern == pattern
                &&& forall|j: int| from <= j < i ==> registry[j].pattern != pattern
            },
            None => forall|j: int| from <= j < registry.len() ==> registry[j].pattern != pattern,
        },
    decreases registry.len() - from,
{
    if from < registry.len() && registry[from].pattern != pattern {
        place_of_is_first(registry, pattern, from + 1);
    }
}

impl<H> Registry<H> {
    fn new() -> (registry: Registry<H>)
        ensures
            registry@ == Seq::<RegistrationView<H>>::empty(),
    {
        let registry = Registry { entries: Vec::new() };
        assert(registry@ =~= Seq::empty());
        registry
    }

    fn find(&self, pattern: &String) -> (r: Option<usize>)
        ensures
            match r {
                Some(place) => place_of(self@, pattern@, 0) == Some(place as int) && place
                    < self.entries@.len(),
                None => place_of(self@, pattern@, 0) is None,
            },
    {
        let mut index: usize = 0;
        while index < self.entries.len()
            invariant
                index <= self.entries@.len(),
                place_of(self@, pattern@, 0) == place_of(self@, pattern@, index as int),
            decreases self.entries@.len() - index,
        {
            if self.entries[index].pattern == *pattern {
                return Some(index);
            }
            index += 1;
        }
        None
    }

    fn register(self, pattern: String, callback: H) -> (registry: Registry<H>)
        ensures
            registry@ == registered(self@, pattern@, callback),
    {
        proof {
            use_type_invariant(&self);
            place_of_is_first(self@, pattern@, 0);
        }
        let found = self.find(&pattern);
        let mut entries = self.entries;
        match found {
            Some(place) => {
                let mut entry = entries.remove(place);
                entry.callbacks.push(callback);
                entries.insert(place, entry);
                let registry = Registry { entries };
                assert(registry@ =~= registered(self@, pattern@, callback));
                registry
            },
            None => {
                let source = expression(pattern.as_str());
                let matcher = match compile(source.as_str()) {
                    Ok(compiled) => Some(compiled),
                    Err(_) => None,
                };
                let mut callbacks: Vec<H> = Vec::new();
                callbacks.push(callback);
                let ghost before = entries@;
                entries.push(Registration { pattern, matcher, callbacks });
                assert forall|i: int| 0 <= i < entries@.len() implies (
                #[trigger] entries@[i]).consistent() by {
                    if i < before.len() {
                        assert(entries@[i] == before[i]);
                    }
                }
                assert forall|i: int, j: int| 0 <= i < j < entries@.len() implies (
                #[trigger] entries@[i]).pattern@ != (#[trigger] entries@[j]).pattern@ by {
                    assert(entries@[i] == before[i]);
                    if j < before.len() {
                        assert(entries@[j] == before[j]);
                    } else {
                        assert(self@[i].pattern != pattern@);
                    }
                }
                let registry = Registry { entries };
                assert(registry@ =~= registered(self@, pattern@, callback));
                registry
            },
        }
    }

    fn unregister(self, pattern: &String) -> (registry: Registry<H>)
        ensures
            registry@ == unregistered(self@, pattern@),
    {
        proof {
            use_type_invariant(&self);
        }
        let found = self.find(pattern);
        let mut entries = self.entries;
        match found {
            Some(place) => {
                let ghost before = entries@;
                entries.remove(place);
                assert forall|i: int| 0 <= i < entries@.len() implies (
                #[trigger] entries@[i]).consistent() by {
                    if i < place {
                        assert(entries@[i] == before[i]);
                    } else {
                        assert(entries@[i] == before[i + 1]);
                    }
                }
                assert forall|i: int, j: int| 0 <= i < j < entries@.len() implies (
                #[trigger] entries@[i]).pattern@ != (#[trigger] entries@[j]).pattern@ by {
                    let from = if i < place {
                        i
                    } else {
                        i + 1
                    };
                    let to = if j < place {
                        j
                    } else {
                        j + 1
                    };
                    assert(entries@[i] == before[from] && entries@[j] == before[to]);
                }
                let registry = Registry { entries };
                assert(registry@ =~= unregistered(self@, pattern@));
                registry
            },
            None => {
                let registry = Registry { entries };
                assert(registry@ =~= self@);
                registry
            },
        }
    }
}

impl<H: Copy> Registry<H> {
    /// The callbacks that are due for a topic.
    fn due_for(&self, topic: &String) -> (handlers: Vec<H>)
        ensures
            handlers@ == due(self@, topic@),
    {
        proof {
            use_type_invariant(self);
        }
        let mut handlers: Vec<H> = Vec::new();
        let mut index: usize = 0;
        assert(self@.take(0) =~= Seq::empty());
        while index < self.entries.len()
            invariant
                index <= self.entries@.len(),
                self.well_formed(),
                handlers@ == due(self@.take(index as int), topic@),
            decreases self.entries@.len() - index,
        {
            let entry = &self.entries[index];
            let ghost before = due(self@.take(index as int), topic@);
            assert(self@.take(index + 1).drop_last() =~= self@.take(index as int));
            assert(self@.take(index + 1).last() == entry@);
            assert(entry.consistent());
            let taken = entry.pattern == *topic || match &entry.matcher {
                Some(compiled) => finds(compiled, topic.as_str()),
                None => false,
            };
            assert(taken == takes(entry@, topic@));
            if taken {
                let mut inner: usize = 0;
                while inner < entry.callbacks.len()
                    invariant
                        inner <= entry.callbacks@.len(),
                        handlers@ == before + entry.callbacks@.take(inner as int),
                    decreases entry.callbacks@.len() - inner,
                {
                    handlers.push(entry.callbacks[inner]);
                    assert(entry.callbacks@.take(inner + 1) =~= entry.callbacks@.take(
                        inner as int,
                    ).push(entry.callbacks@[inner as int]));
                    inner += 1;
                }
                assert(entry.callbacks@.take(inner as int) =~= entry.callbacks@);
            }
            index += 1;
        }
        assert(self@.take(index as int) =~= self@);
        handlers
    }
}

impl<H: Copy> Mosquitto<H> {
    /// An adapter that runs, with nothing asked, nothing received and nothing
    /// registered.
    pub fn new() -> (mqtt: Mosquitto<H>)
        ensures
            mqtt@ == (MosquittoView::<H> {
                running: true,
                outbox: Seq::empty(),
                inbox: Seq::empty(),
                registry: Seq::empty(),
            }),
            patterns_unique(mqtt@.registry),
    {
        let mqtt = Mosquitto {
            running: true,
            sender: Vec::new(),
            events: Vec::new(),
            callbacks: Registry::new(),
        };
        assert(mqtt@.outbox =~= Seq::empty());
        assert(mqtt@.inbox =~= Seq::empty());
        mqtt
    }

    fn send(&mut self, request: Request<H>)
        ensures
            final(self)@ == old(self)@.asked(request@),
    {
        self.sender.push(request);
        assert(self@.outbox =~= old(self)@.outbox.push(request@));
        assert(self@.inbox =~= old(self)@.inbox);
    }

    /// Asks for every message that the pattern takes to be answered with the
    /// callback, until the pattern is unsubscribed.
    pub fn subscribe(&mut self, topic: &str, callback: H)
        ensures
            final(self)@ == old(self)@.asked(RequestView::Subscription(topic@, callback)),
    {
        self.send(Request::Subscription(topic.to_owned(), callback));
    }

    /// Asks for the pattern, with all its callbacks, to be struck from the
    /// registry.
    pub fn unsubscribe(&mut self, topic: &str)
        ensures
            final(self)@ == old(self)@.asked(RequestView::Unsubscription(topic@)),
    {
        self.send(Request::Unsubscription(topic.to_owned()));
    }

    /// Asks for a message to be published once and forgotten.
    pub fn publish(&mut self, topic: &str, payload: &str)
        ensures
            final(self)@ == old(self)@.asked(RequestView::Publication(topic@, payload@, false)),
    {
        self.send(Request::Publication(topic.to_owned(), payload.to_owned(), false));
    }

    /// Asks for a message to be published and kept by the broker for later
    /// subscribers.
    pub fn retain(&mut self, topic: &str, payload: &str)
        ensures
            final(self)@ == old(self)@.asked(RequestView::Publication(topic@, payload@, true)),
    {
        self.send(Request::Publication(topic.to_owned(), payload.to_owned(), true));
    }

    /// Asks for the broker to forget what it kept for a topic: an empty
    /// payload, retained.
    pub fn clear(&mut self, topic: &str)
        ensures
            final(self)@ == old(self)@.asked(
                RequestView::Publication(topic@, Seq::empty(), true),
            ),
    {
        self.send(Request::Publication(topic.to_owned(), String::new(), true));
    }

    /// Asks for the next message that the pattern takes: a subscription whose
    /// callback is to be answered with `answer_topic`.
    pub fn await_topic(&mut self, topic: &str, callback: H)
        ensures
            final(self)@ == old(self)@.asked(RequestView::Subscription(topic@, callback)),
    {
        self.subscribe(topic, callback);
    }

    /// Ends the wait that `await_topic` began, once the first message has
    /// come: the pattern is unsubscribed, and the message is the answer.
    pub fn answer_topic(&mut self, topic: &str, message: (String, String)) -> (answer: (
        String,
        String,
    ))
        ensures
            final(self)@ == old(self)@.asked(RequestView::Unsubscription(topic@)),
            answer == message,
    {
        self.unsubscribe(topic);
        message
    }

    /// Publishes, then asks for the next message that the pattern takes.
    pub fn await_response(&mut self, topic_out: &str, payload_out: &str, topic_in: &str, callback: H)
        ensures
            final(self)@ == old(self)@.asked(
                RequestView::Publication(topic_out@, payload_out@, false),
            ).asked(RequestView::Subscription(topic_in@, callback)),
    {
        self.publish(topic_out, payload_out);
        self.await_topic(topic_in, callback);
    }

    /// Stops the adapter: from now on its tasks do nothing.
    pub fn stop(&mut self)
        ensures
            final(self)@ == (MosquittoView { running: false, ..old(self)@ }),
    {
        self.running = false;
        assert(self@.outbox =~= old(self)@.outbox);
        assert(self@.inbox =~= old(self)@.inbox);
    }

    /// Whether the adapter has not been stopped.
    pub fn is_running(&self) -> (running: bool)
        ensures
            running == self@.running,
    {
        self.running
    }

    /// One step of the control task: the oldest request is served, and what
    /// is left to do at the broker comes back. A subscription is registered,
    /// and an unsubscription struck from the registry, before the broker
    /// hears of it.
    pub fn control(&mut self) -> (order: Option<Order>)
        ensures
            final(self)@ == old(self)@.controlled(),
            patterns_unique(final(self)@.registry),
            match order {
                Some(order) => old(self)@.running && old(self)@.outbox.len() > 0 && order@
                    == order_for(old(self)@.outbox[0]),
                None => !(old(self)@.running && old(self)@.outbox.len() > 0),
            },
    {
        proof {
            use_type_invariant(&self.callbacks);
        }
        if !self.running || self.sender.len() == 0 {
            return None;
        }
        let request = self.sender.remove(0);
        assert(self@.outbox =~= old(self)@.outbox.drop_first());
        assert(self@.inbox =~= old(self)@.inbox);
        let mut registry = Registry::new();
        core::mem::swap(&mut self.callbacks, &mut registry);
        let order = match request {
            Request::Subscription(topic, callback) => {
                let order = Order::Subscribe(topic.clone());
                self.callbacks = registry.register(topic, callback);
                order
            },
            Request::Unsubscription(topic) => {
                self.callbacks = registry.unregister(&topic);
                Order::Unsubscribe(topic)
            },
            Request::Publication(topic, payload, retain) => {
                self.callbacks = registry;
                Order::Publish(topic, payload, retain)
            },
        };
        assert(self@.outbox =~= old(self)@.outbox.drop_first());
        assert(self@.inbox =~= old(self)@.inbox);
        proof {
            use_type_invariant(&self.callbacks);
        }
        Some(order)
    }

    /// One step of the network task: a message of the broker is queued for
    /// dispatch where its payload is text.
    pub fn receive(&mut self, topic: String, payload: Vec<u8>)
        ensures
            final(self)@ == old(self)@.received(topic@, payload@),
    {
        if self.running {
            match text_of(payload) {
                Ok(text) => {
                    self.events.push((topic, text));
                    assert(self@.inbox =~= old(self)@.inbox.push((topic@, decode_utf8(payload@))));
                    assert(self@.outbox =~= old(self)@.outbox);
                },
                Err(_) => {},
            }
        }
    }

    /// One step of the dispatch task: the oldest message leaves the queue,
    /// together with the callbacks that are due for its topic, in the order
    /// in which they are to be invoked.
    pub fn dispatch(&mut self) -> (event: Option<(String, String, Vec<H>)>)
        ensures
            final(self)@ == old(self)@.dispatched(),
            match event {
                Some((topic, payload, handlers)) => {
                    &&& old(self)@.running && old(self)@.inbox.len() > 0
                    &&& (topic@, payload@) == old(self)@.inbox[0]
                    &&& handlers@ == due(old(self)@.registry, topic@)
                },
                None => !(old(self)@.running && old(self)@.inbox.len() > 0),
            },
    {
        if !self.running || self.events.len() == 0 {
            return None;
        }
        let (topic, payload) = self.events.remove(0);
        assert(self@.inbox =~= old(self)@.inbox.drop_first());
        assert(self@.outbox =~= old(self)@.outbox);
        let handlers = self.callbacks.due_for(&topic);
        Some((topic, payload, handlers))
    }

    /// How many requests wait to be served.
    pub fn pending(&self) -> (n: usize)
        ensures
            n == self@.outbox.len(),
    {
        self.sender.len()
    }
}

/// A callback is due for a topic exactly when it stands under a pattern that
/// takes the topic.
pub proof fn due_are_the_taken<H>(registry: Seq<RegistrationView<H>>, topic: Seq<char>, callback: H)
    ensures
        due(registry, topic).contains(callback) <==> exists|i: int|
            0 <= i < registry.len() && takes(#[trigger] registry[i], topic)
                && registry[i].callbacks.contains(callback),
    decreases registry.len(),
{
    if registry.len() > 0 {
        let front = registry.drop_last();
        let last = registry.last();
        due_are_the_taken(front, topic, callback);
        let added: Seq<H> = if takes(last, topic) {
            last.callbacks
        } else {
            Seq::empty()
        };
        if due(registry, topic).contains(callback) {
            let at = choose|at: int|
                0 <= at < due(registry, topic).len() && due(registry, topic)[at] == callback;
            if at < due(front, topic).len() {
                assert(due(front, topic)[at] == callback);
                let i = choose|i: int|
                    0 <= i < front.len() && takes(#[trigger] front[i], topic)
                        && front[i].callbacks.contains(callback);
                assert(registry[i] == front[i]);
            } else {
                assert(added[at - due(front, topic).len()] == callback);
                assert(takes(registry[registry.len() - 1], topic));
            }
        }
        if exists|i: int|
            0 <= i < registry.len() && takes(#[trigger] registry[i], topic)
                && registry[i].callbacks.contains(callback) {
            let i = choose|i: int|
                0 <= i < registry.len() && takes(#[trigger] registry[i], topic)
                    && registry[i].callbacks.contains(callback);
            if i < front.len() {
                assert(front[i] == registry[i]);
                let at = choose|at: int|
                    0 <= at < due(front, topic).len() && due(front, topic)[at] == callback;
                assert(due(registry, topic)[at] == callback);
            } else {
                let at = choose|at: int| 0 <= at < added.len() && added[at] == callback;
                assert(due(registry, topic)[due(front, topic).len() + at] == callback);
            }
        }
    }
}

/// Once a pattern has been unsubscribed it stands nowhere in the registry, so
/// none of its callbacks is due for any message, and the patterns left are
/// still all different.
pub proof fn unsubscribed_pattern_is_gone<H>(registry: Seq<RegistrationView<H>>, pattern: Seq<char>)
    requires
        patterns_unique(registry),
    ensures
        place_of(unregistered(registry, pattern), pattern, 0) is None,
        patterns_unique(unregistered(registry, pattern)),
        forall|i: int|
            0 <= i < unregistered(registry, pattern).len() ==> (#[trigger] unregistered(
                registry,
                pattern,
            )[i]).pattern != pattern,
{
    place_of_is_first(registry, pattern, 0);
    let after = unregistered(registry, pattern);
    match place_of(registry, pattern, 0) {
        Some(place) => {
            assert forall|i: int| 0 <= i < after.len() implies (#[trigger] after[i]).pattern
                != pattern by {
                if i < place {
                    assert(after[i] == registry[i]);
                } else {
                    assert(after[i] == registry[i + 1]);
                    assert(registry[place].pattern != registry[i + 1].pattern);
                }
            }
            assert forall|i: int, j: int| 0 <= i < j < after.len() implies (
            #[trigger] after[i]).pattern != (#[trigger] after[j]).pattern by {
                let from = if i < place {
                    i
                } else {
                    i + 1
                };
                let to = if j < place {
                    j
                } else {
                    j + 1
                };
                assert(after[i] == registry[from] && after[j] == registry[to]);
            }
        },
        None => {},
    }
    place_of_is_first(after, pattern, 0);
}

/// Registering a callback keeps the patterns all different, and puts the
/// callback last under its pattern.
pub proof fn registering_keeps_patterns_unique<H>(
    registry: Seq<RegistrationView<H>>,
    pattern: Seq<char>,
    callback: H,
)
    requires
        patterns_unique(registry),
    ensures
        patterns_unique(registered(registry, pattern, callback)),
        place_of(registered(registry, pattern, callback), pattern, 0) matches Some(place)
            && registered(registry, pattern, callback)[place].callbacks.last() == callback,
{
    place_of_is_first(registry, pattern, 0);
    let after = registered(registry, pattern, callback);
    match place_of(registry, pattern, 0) {
        Some(place) => {
            assert forall|i: int, j: int| 0 <= i < j < after.len() implies (
            #[trigger] after[i]).pattern != (#[trigger] after[j]).pattern by {
                assert(after[i].pattern == registry[i].pattern);
                assert(after[j].pattern == registry[j].pattern);
            }
            assert(after[place].pattern == pattern);
            place_of_is_first(after, pattern, 0);
            let found = place_of(after, pattern, 0)->0;
            assert(after[found].pattern == registry[found].pattern);
            assert(found == place);
        },
        None => {
            assert forall|i: int, j: int| 0 <= i < j < after.len() implies (
            #[trigger] after[i]).pattern != (#[trigger] after[j]).pattern by {
                assert(after[i] == registry[i]);
                if j < registry.len() {
                    assert(after[j] == registry[j]);
                }
            }
            assert(after[registry.len() as int].pattern == pattern);
            place_of_is_first(after, pattern, 0);
            let found = place_of(after, pattern, 0)->0;
            if found < registry.len() {
                assert(after[found] == registry[found]);
            }
        },
    }
}

/// The shared handle on an adapter. It has one owner, who passes it on to
/// whoever is to use the adapter next.
pub struct MosquittoArc<H> {
    inner: Mosquitto<H>,
}

impl<H> View for MosquittoArc<H> {
    type V = MosquittoView<H>;

    closed spec fn view(&self) -> MosquittoView<H> {
        self.inner@
    }
}

impl<H: Copy> MosquittoArc<H> {
    /// See `Mosquitto::new`.
    pub fn new() -> (mqtt: MosquittoArc<H>)
        ensures
            mqtt@ == (MosquittoView::<H> {
                running: true,
                outbox: Seq::empty(),
                inbox: Seq::empty(),
                registry: Seq::empty(),
            }),
            patterns_unique(mqtt@.registry),
    {
        MosquittoArc { inner: Mosquitto::new() }
    }

    /// See `Mosquitto::subscribe`.
    pub fn subscribe(&mut self, topic: &str, callback: H)
        ensures
            final(self)@ == old(self)@.asked(RequestView::Subscription(topic@, callback)),
    {
        self.inner.subscribe(topic, callback)
    }

    /// See `Mosquitto::unsubscribe`.
    pub fn unsubscribe(&mut self, topic: &str)
        ensures
            final(self)@ == old(self)@.asked(RequestView::Unsubscription(topic@)),
    {
        self.inner.unsubscribe(topic)
    }

    /// See `Mosquitto::publish`.
    pub fn publish(&mut self, topic: &str, payload: &str)
        ensures
            final(self)@ == old(self)@.asked(RequestView::Publication(topic@, payload@, false)),
    {
        self.inner.publish(topic, payload)
    }

    /// See `Mosquitto::retain`.
    pub fn retain(&mut self, topic: &str, payload: &str)
        ensures
            final(self)@ == old(self)@.asked(RequestView::Publication(topic@, payload@, true)),
    {
        self.inner.retain(topic, payload)
    }

    /// See `Mosquitto::clear`.
    pub fn clear(&mut self, topic: &str)
        ensures
            final(self)@ == old(self)@.asked(
                RequestView::Publication(topic@, Seq::empty(), true),
            ),
    {
        self.inner.clear(topic)
    }

    /// See `Mosquitto::await_topic`.
    pub fn await_topic(&mut self, topic: &str, callback: H)
        ensures
            final(self)@ == old(self)@.asked(RequestView::Subscription(topic@, callback)),
    {
        self.inner.await_topic(topic, callback)
    }

    /// See `Mosquitto::answer_topic`.
    pub fn answer_topic(&mut self, topic: &str, message: (String, String)) -> (answer: (
        String,
        String,
    ))
        ensures
            final(self)@ == old(self)@.asked(RequestView::Unsubscription(topic@)),
            answer == message,
    {
        self.inner.answer_topic(topic, message)
    }

    /// See `Mosquitto::await_response`.
    pub fn await_response(&mut self, topic_out: &str, payload_out: &str, topic_in: &str, callback: H)
        ensures
            final(self)@ == old(self)@.asked(
                RequestView::Publication(topic_out@, payload_out@, false),
            ).asked(RequestView::Subscription(topic_in@, callback)),
    {
        self.inner.await_response(topic_out, payload_out, topic_in, callback)
    }

    /// See `Mosquitto::stop`.
    pub fn stop(&mut self)
        ensures
            final(self)@ == (MosquittoView { running: false, ..old(self)@ }),
    {
        self.inner.stop()
    }

    /// See `Mosquitto::is_running`.
    pub fn is_running(&self) -> (running: bool)
        ensures
            running == self@.running,
    {
        self.inner.is_running()
    }

    /// See `Mosquitto::control`.
    pub fn control(&mut self) -> (order: Option<Order>)
        ensures
            final(self)@ == old(self)@.controlled(),
            patterns_unique(final(self)@.registry),
            match order {
                Some(order) => old(self)@.running && old(self)@.outbox.len() > 0 && order@
                    == order_for(old(self)@.outbox[0]),
                None => !(old(self)@.running && old(self)@.outbox.len() > 0),
            },
    {
        self.inner.control()
    }

    /// See `Mosquitto::receive`.
    pub fn receive(&mut self, topic: String, payload: Vec<u8>)
        ensures
            final(self)@ == old(self)@.received(topic@, payload@),
    {
        self.inner.receive(topic, payload)
    }

    /// See `Mosquitto::dispatch`.
    pub fn dispatch(&mut self) -> (event: Option<(String, String, Vec<H>)>)
        ensures
            final(self)@ == old(self)@.dispatched(),
            match event {
                Some((topic, payload, handlers)) => {
                    &&& old(self)@.running && old(self)@.inbox.len() > 0
                    &&& (topic@, payload@) == old(self)@.inbox[0]
                    &&& handlers@ == due(old(self)@.registry, topic@)
                },
                None => !(old(self)@.running && old(self)@.inbox.len() > 0),
            },
    {
        self.inner.dispatch()
    }
}

} // verus!
