//! The bookkeeping of the listening thread that hands new connections to the
//! input/output threads.

use vstd::prelude::*;

use crate::id::{uuid_parse, uuid_text, Uuid};
use crate::message::{Message, MessageOptions};
use crate::request::{Request, RequestType};

verus! {

/// Number of clients an input/output thread is meant to serve.
pub const MAX_CLIENTS_THREAD: u8 = 20;

/// How many input/output threads have been added to the first one after
/// `clients` clients were accepted: the threads are filled in turn, 20
/// clients each, so there are `max(1, ceil(clients / 20))` threads.
pub open spec fn extra_threads_for(clients: int) -> int {
    if clients <= 0 {
        0
    } else {
        (clients - 1) / (MAX_CLIENTS_THREAD as int)
    }
}

/// Whether every thread started so far is full: the `thread_count + 1`
/// threads hold 20 clients each.
pub open spec fn threads_full(clients: int, thread_count: int) -> bool {
    clients >= (MAX_CLIENTS_THREAD as int) * (thread_count + 1)
}

/// The counters the listening thread keeps about its connections.
pub struct WorkerCounters {
    /// Clients accepted so far.
    pub current_connection_count: u32,
    /// Input/output threads started after the first one.
    pub thread_count: u32,
}

impl WorkerCounters {
    /// The counters of a listening thread that has accepted nobody yet.
    pub fn new() -> (res: WorkerCounters)
        ensures
            res.current_connection_count == 0,
            res.thread_count == 0,
    {
        WorkerCounters { current_connection_count: 0, thread_count: 0 }
    }

    /// Counts a newly accepted client. Returns whether a new input/output
    /// thread must be started for it, which is the case exactly when every
    /// thread started so far holds 20 clients.
    pub fn add_client(&mut self) -> (spawn: bool)
        requires
            old(self).current_connection_count < u32::MAX,
            threads_full(
                old(self).current_connection_count as int,
                old(self).thread_count as int,
            ) ==> old(self).thread_count < u32::MAX,
        ensures
            spawn == threads_full(
                old(self).current_connection_count as int,
                old(self).thread_count as int,
            ),
            final(self).current_connection_count == old(self).current_connection_count + 1,
            final(self).thread_count == old(self).thread_count + if spawn {
                1int
            } else {
                0int
            },
    {
        let full: u64 = (MAX_CLIENTS_THREAD as u64) * (self.thread_count as u64 + 1);
        let spawn = self.current_connection_count as u64 >= full;
        if spawn {
            self.thread_count = self.thread_count + 1;
        }
        self.current_connection_count = self.current_connection_count + 1;
        spawn
    }
}

/// The threads are filled in turn: where the thread count matches the
/// number of clients accepted, a new thread is started exactly for the
/// first client after a multiple of 20, the count matches again after the
/// client is added, and no thread holds more than 20 clients.
pub proof fn lemma_threads_fill_in_turn(clients: nat, thread_count: nat)
    requires
        thread_count == extra_threads_for(clients as int),
    ensures
        threads_full(clients as int, thread_count as int) <==> (clients > 0 && clients
            % (MAX_CLIENTS_THREAD as nat) == 0),
        (if threads_full(clients as int, thread_count as int) {
            thread_count + 1int
        } else {
            thread_count as int
        }) == extra_threads_for(clients + 1int),
        clients + 1 <= (MAX_CLIENTS_THREAD as int) * (extra_threads_for(clients + 1int) + 1),
{
}

/// Which input/output thread serves a peer address.
pub struct Route {
    pub addr: String,
    pub thread: u32,
}

/// The thread that serves `addr` according to `routes`, if any: the last
/// entry for it.
pub open spec fn route_of(routes: Seq<Route>, addr: Seq<char>) -> Option<u32>
    decreases routes.len(),
{
    if routes.len() == 0 {
        None
    } else if routes.last().addr@ == addr {
        Some(routes.last().thread)
    } else {
        route_of(routes.drop_last(), addr)
    }
}

/// Whether no address has two entries.
pub open spec fn routes_distinct(routes: Seq<Route>) -> bool {
    forall|i: int, j: int|
        0 <= i < j < routes.len() ==> #[trigger] routes[i].addr@ != #[trigger] routes[j].addr@
}

/// The map from peer addresses to the threads that serve them.
pub struct RouteTable {
    routes: Vec<Route>,
}

proof fn lemma_route_found(routes: Seq<Route>, i: int)
    requires
        routes_distinct(routes),
        0 <= i < routes.len(),
    ensures
        route_of(routes, routes[i].addr@) == Some(routes[i].thread),
    decreases routes.len(),
{
    if i < routes.len() - 1 {
        assert(routes.last() == routes[routes.len() - 1]);
        assert(routes.drop_last()[i] == routes[i]);
        lemma_route_found(routes.drop_last(), i);
    }
}

proof fn lemma_route_missing(routes: Seq<Route>, addr: Seq<char>)
    requires
        forall|i: int| 0 <= i < routes.len() ==> (#[trigger] routes[i]).addr@ != addr,
    ensures
        route_of(routes, addr) is None,
    decreases routes.len(),
{
    if routes.len() > 0 {
        assert(routes.last() == routes[routes.len() - 1]);
        assert forall|i: int| 0 <= i < routes.drop_last().len() implies (
        #[trigger] routes.drop_last()[i]).addr@ != addr by {
            assert(routes.drop_last()[i] == routes[i]);
        }
        lemma_route_missing(routes.drop_last(), addr);
    }
}

impl RouteTable {
    /// The table's invariant: no address has two entries.
    pub closed spec fn wf(&self) -> bool {
        routes_distinct(self.routes@)
    }

    /// The thread serving each known address.
    pub closed spec fn view(&self) -> Map<Seq<char>, u32> {
        Map::new(
            |a: Seq<char>| route_of(self.routes@, a) is Some,
            |a: Seq<char>| route_of(self.routes@, a)->0,
        )
    }

    /// An empty table.
    pub fn new() -> (res: RouteTable)
        ensures
            res.wf(),
            res.view() == Map::<Seq<char>, u32>::empty(),
    {
        let res = RouteTable { routes: Vec::new() };
        assert(res.view() =~= Map::<Seq<char>, u32>::empty());
        res
    }

    /// The thread serving `addr`, if it is known.
    pub fn lookup(&self, addr: &String) -> (res: Option<u32>)
        requires
            self.wf(),
        ensures
            res == (if self.view().contains_key(addr@) {
                Some(self.view()[addr@])
            } else {
                None::<u32>
            }),
    {
        let mut i: usize = 0;
        while i < self.routes.len()
            invariant
                i <= self.routes@.len(),
                routes_distinct(self.routes@),
                forall|k: int| 0 <= k < i ==> (#[trigger] self.routes@[k]).addr@ != addr@,
            decreases self.routes@.len() - i,
        {
            if self.routes[i].addr == *addr {
                proof {
                    lemma_route_found(self.routes@, i as int);
                }
                return Some(self.routes[i].thread);
            }
            i = i + 1;
        }
        proof {
            lemma_route_missing(self.routes@, addr@);
        }
        None
    }

    /// Records that `thread` serves `addr`, replacing what was known of it.
    pub fn insert(&mut self, addr: String, thread: u32)
        requires
            old(self).wf(),
        ensures
            final(self).wf(),
            final(self).view() == old(self).view().insert(addr@, thread),
    {
        let ghost before = self.routes@;
        let mut i: usize = 0;
        while i < self.routes.len()
            invariant
                self.routes@ == before,
                before == old(self).routes@,
                routes_distinct(before),
                i <= before.len(),
                forall|k: int| 0 <= k < i ==> (#[trigger] before[k]).addr@ != addr@,
            decreases before.len() - i,
        {
            if self.routes[i].addr == addr {
                let ghost key = addr@;
                self.routes.set(i, Route { addr, thread });
                proof {
                    let after = self.routes@;
                    assert forall|a: int, b: int|
                        0 <= a < b < after.len() implies #[trigger] after[a].addr@
                        != #[trigger] after[b].addr@ by {
                        assert(before[a].addr@ != before[b].addr@);
                    }
                    lemma_route_found(after, i as int);
                    assert forall|a: Seq<char>| a != key implies route_of(after, a) == route_of(
                        before,
                        a,
                    ) by {
                        if exists|k: int| 0 <= k < before.len() && before[k].addr@ == a {
                            let k = choose|k: int| 0 <= k < before.len() && before[k].addr@ == a;
                            assert(k != i);
                            assert(after[k] == before[k]);
                            lemma_route_found(before, k);
                            lemma_route_found(after, k);
                        } else {
                            lemma_route_missing(before, a);
                            assert forall|k: int| 0 <= k < after.len() implies (
                            #[trigger] after[k]).addr@ != a by {
                                if k != i {
                                    assert(after[k] == before[k]);
                                }
                            }
                            lemma_route_missing(after, a);
                        }
                    }
                    assert(self.view() =~= old(self).view().insert(key, thread));
                }
                return;
            }
            i = i + 1;
        }
        let ghost key = addr@;
        self.routes.push(Route { addr, thread });
        proof {
            let after = self.routes@;
            assert forall|a: int, b: int|
                0 <= a < b < after.len() implies #[trigger] after[a].addr@
                != #[trigger] after[b].addr@ by {
                if b < before.len() {
                    assert(before[a].addr@ != before[b].addr@);
                } else {
                    assert(after[a] == before[a]);
                }
            }
            assert(after.drop_last() =~= before);
            assert(self.view() =~= old(self).view().insert(key, thread));
        }
    }
}

/// What the listening thread does with a message it is asked to send.
#[derive(Debug, PartialEq, Eq, Structural, Clone, Copy)]
pub enum Dispatch {
    /// A shutdown: every input/output thread is told to stop, then the
    /// listening thread stops.
    StopAll,
    /// The message goes to the input/output thread with this number.
    ToThread(u32),
    /// No thread serves the recipient.
    UnknownRecipient,
}

/// Where the listening thread sends `msg`, given which thread serves which
/// peer.
pub open spec fn dispatch_spec(routes: Map<Seq<char>, u32>, msg: Message) -> Dispatch {
    if msg.options == MessageOptions::Shutdown {
        Dispatch::StopAll
    } else if routes.contains_key(msg.recipient@) {
        Dispatch::ToThread(routes[msg.recipient@])
    } else {
        Dispatch::UnknownRecipient
    }
}

/// Where the listening thread of the banking network sends `msg`: requests
/// are routed by their client's UUID, in its hyphenated text.
pub open spec fn dispatch_request_spec(routes: Map<Seq<char>, u32>, msg: Request) -> Dispatch {
    if msg.field_type == RequestType::Shutdown {
        Dispatch::StopAll
    } else {
        match uuid_parse(msg.client_id@) {
            Some(b) => if routes.contains_key(uuid_text(b)) {
                Dispatch::ToThread(routes[uuid_text(b)])
            } else {
                Dispatch::UnknownRecipient
            },
            None => Dispatch::UnknownRecipient,
        }
    }
}

/// The listening thread's state: its counters and which thread serves
/// which peer.
pub struct ListenerState {
    pub counters: WorkerCounters,
    pub routes: RouteTable,
}

impl ListenerState {
    /// The state before any client was accepted: thread number 0 serves the
    /// first clients.
    pub fn new() -> (res: ListenerState)
        ensures
            res.counters.current_connection_count == 0,
            res.counters.thread_count == 0,
            res.routes.wf(),
            res.routes.view() == Map::<Seq<char>, u32>::empty(),
    {
        ListenerState { counters: WorkerCounters::new(), routes: RouteTable::new() }
    }

    /// Accepts a client at `addr`: counts it, starts a new input/output
    /// thread where every thread holds 20 clients (the result says
    /// whether), and
    /// routes the address to the newest thread.
    pub fn add_client(&mut self, addr: String) -> (spawn: bool)
        requires
            old(self).routes.wf(),
            old(self).counters.current_connection_count < u32::MAX,
            threads_full(
                old(self).counters.current_connection_count as int,
                old(self).counters.thread_count as int,
            ) ==> old(self).counters.thread_count < u32::MAX,
        ensures
            spawn == threads_full(
                old(self).counters.current_connection_count as int,
                old(self).counters.thread_count as int,
            ),
            final(self).counters.current_connection_count == old(
                self,
            ).counters.current_connection_count + 1,
            final(self).counters.thread_count == old(self).counters.thread_count + if spawn {
                1int
            } else {
                0int
            },
            final(self).routes.wf(),
            final(self).routes.view() == old(self).routes.view().insert(
                addr@,
                final(self).counters.thread_count,
            ),
    {
        let spawn = self.counters.add_client();
        self.routes.insert(addr, self.counters.thread_count);
        spawn
    }

    /// Where a message the listening thread is asked to send goes.
    pub fn dispatch(&self, msg: &Message) -> (res: Dispatch)
        requires
            self.routes.wf(),
        ensures
            res == dispatch_spec(self.routes.view(), *msg),
    {
        if msg.options == MessageOptions::Shutdown {
            Dispatch::StopAll
        } else {
            match self.routes.lookup(&msg.recipient) {
                Some(t) => Dispatch::ToThread(t),
                None => Dispatch::UnknownRecipient,
            }
        }
    }
}

impl ListenerState {
    /// Where a request the listening thread is asked to send goes: to the
    /// thread serving the client it names.
    pub fn dispatch_request(&self, msg: &Request) -> (res: Dispatch)
        requires
            self.routes.wf(),
        ensures
            res == dispatch_request_spec(self.routes.view(), *msg),
    {
        if msg.field_type == RequestType::Shutdown {
            Dispatch::StopAll
        } else {
            match Uuid::parse_str(msg.client_id.as_str()) {
                Some(u) => match self.routes.lookup(&u.to_string()) {
                    Some(t) => Dispatch::ToThread(t),
                    None => Dispatch::UnknownRecipient,
                },
                None => Dispatch::UnknownRecipient,
            }
        }
    }
}

/// A message, other than a shutdown, sent to a client right after it was
/// accepted goes to the thread it was assigned; messages to other known
/// peers still go where they went before.
pub proof fn lemma_dispatch_after_add(
    routes: Map<Seq<char>, u32>,
    addr: Seq<char>,
    thread: u32,
    msg: Message,
)
    requires
        msg.options != MessageOptions::Shutdown,
    ensures
        msg.recipient@ == addr ==> dispatch_spec(routes.insert(addr, thread), msg)
            == Dispatch::ToThread(thread),
        msg.recipient@ != addr ==> dispatch_spec(routes.insert(addr, thread), msg)
            == dispatch_spec(routes, msg),
{
}

/// Whether every route leads to a thread that was started: the threads are
/// numbered from 0 up to `thread_count`.
pub open spec fn routes_within(routes: Map<Seq<char>, u32>, thread_count: u32) -> bool {
    forall|a: Seq<char>| #[trigger] routes.contains_key(a) ==> routes[a] <= thread_count
}

/// The listening thread only ever routes to threads it started: accepting a
/// client, which routes it to the newest thread, keeps every route within
/// the threads started, and a message or request is routed along one of
/// those routes.
pub proof fn lemma_routes_stay_within(
    routes: Map<Seq<char>, u32>,
    thread_count: u32,
    addr: Seq<char>,
    new_count: u32,
    msg: Message,
    request: Request,
)
    requires
        routes_within(routes, thread_count),
        thread_count <= new_count,
    ensures
        routes_within(routes.insert(addr, new_count), new_count),
        dispatch_spec(routes, msg) matches Dispatch::ToThread(t) ==> t <= thread_count,
        dispatch_request_spec(routes, request) matches Dispatch::ToThread(t) ==> t
            <= thread_count,
{
    let after = routes.insert(addr, new_count);
    assert forall|a: Seq<char>| #[trigger] after.contains_key(a) implies after[a] <= new_count by {
        if a != addr {
            assert(routes.contains_key(a));
        }
    }
    if let Some(b) = uuid_parse(request.client_id@) {
        if routes.contains_key(uuid_text(b)) {
            assert(routes[uuid_text(b)] <= thread_count);
        }
    }
    if routes.contains_key(msg.recipient@) {
        assert(routes[msg.recipient@] <= thread_count);
    }
}

/// How many messages at the front of `msgs` are routed to a thread, before
/// the first one that is a shutdown or has no thread.
pub open spec fn routed_prefix_len(routes: Map<Seq<char>, u32>, msgs: Seq<Message>) -> nat
    decreases msgs.len(),
{
    if msgs.len() > 0 && dispatch_spec(routes, msgs[0]) is ToThread {
        1 + routed_prefix_len(routes, msgs.drop_first())
    } else {
        0
    }
}

/// How many requests at the front of `msgs` are routed to a thread, before
/// the first one that is a shutdown or names no served client.
pub open spec fn routed_request_prefix_len(routes: Map<Seq<char>, u32>, msgs: Seq<Request>) -> nat
    decreases msgs.len(),
{
    if msgs.len() > 0 && dispatch_request_spec(routes, msgs[0]) is ToThread {
        1 + routed_request_prefix_len(routes, msgs.drop_first())
    } else {
        0
    }
}

/// What the listening thread does with a batch of messages: the ones it
/// forwards, each with its thread, and how the batch ends.
pub struct MessageBatch {
    pub forwards: Vec<(u32, Message)>,
    /// A shutdown ended the batch: every thread is to be told to stop.
    pub stop: bool,
    /// A message for a recipient no thread serves ended the batch.
    pub unknown: Option<Message>,
}

/// What the listening thread does with a batch of requests.
pub struct RequestBatch {
    pub forwards: Vec<(u32, Request)>,
    pub stop: bool,
    pub unknown: Option<Request>,
}

proof fn lemma_routed_prefix_step(routes: Map<Seq<char>, u32>, msgs: Seq<Message>, i: int)
    requires
        0 <= i < msgs.len(),
        i < routed_prefix_len(routes, msgs) || i == routed_prefix_len(routes, msgs),
        forall|j: int| 0 <= j < i ==> dispatch_spec(routes, #[trigger] msgs[j]) is ToThread,
    ensures
        dispatch_spec(routes, msgs[i]) is ToThread ==> i < routed_prefix_len(routes, msgs),
        !(dispatch_spec(routes, msgs[i]) is ToThread) ==> i == routed_prefix_len(routes, msgs),
    decreases i,
{
    if i > 0 {
        let rest = msgs.drop_first();
        assert(dispatch_spec(routes, msgs[0]) is ToThread);
        assert forall|j: int| 0 <= j < i - 1 implies dispatch_spec(routes, #[trigger] rest[j]) is ToThread by {
            assert(rest[j] == msgs[j + 1]);
        }
        assert(rest[i - 1] == msgs[i]);
        lemma_routed_prefix_step(routes, rest, i - 1);
    }
}

proof fn lemma_routed_request_prefix_step(routes: Map<Seq<char>, u32>, msgs: Seq<Request>, i: int)
    requires
        0 <= i < msgs.len(),
        i < routed_request_prefix_len(routes, msgs) || i == routed_request_prefix_len(routes, msgs),
        forall|j: int| 0 <= j < i ==> dispatch_request_spec(routes, #[trigger] msgs[j]) is ToThread,
    ensures
        dispatch_request_spec(routes, msgs[i]) is ToThread ==> i < routed_request_prefix_len(
            routes,
            msgs,
        ),
        !(dispatch_request_spec(routes, msgs[i]) is ToThread) ==> i == routed_request_prefix_len(
            routes,
            msgs,
        ),
    decreases i,
{
    if i > 0 {
        let rest = msgs.drop_first();
        assert(dispatch_request_spec(routes, msgs[0]) is ToThread);
        assert forall|j: int| 0 <= j < i - 1 implies dispatch_request_spec(
            routes,
            #[trigger] rest[j],
        ) is ToThread by {
            assert(rest[j] == msgs[j + 1]);
        }
        assert(rest[i - 1] == msgs[i]);
        lemma_routed_request_prefix_step(routes, rest, i - 1);
    }
}

/// The routed prefix ends at the first message that is not routed.
proof fn lemma_routed_prefix_all(routes: Map<Seq<char>, u32>, msgs: Seq<Message>)
    ensures
        routed_prefix_len(routes, msgs) <= msgs.len(),
        forall|j: int|
            0 <= j < routed_prefix_len(routes, msgs) ==> dispatch_spec(routes, #[trigger] msgs[j])
                is ToThread,
    decreases msgs.len(),
{
    if msgs.len() > 0 && dispatch_spec(routes, msgs[0]) is ToThread {
        let rest = msgs.drop_first();
        lemma_routed_prefix_all(routes, rest);
        assert forall|j: int| 0 <= j < routed_prefix_len(routes, msgs) implies dispatch_spec(
            routes,
            #[trigger] msgs[j],
        ) is ToThread by {
            if j > 0 {
                assert(msgs[j] == rest[j - 1]);
            }
        }
    }
}

proof fn lemma_routed_request_prefix_all(routes: Map<Seq<char>, u32>, msgs: Seq<Request>)
    ensures
        routed_request_prefix_len(routes, msgs) <= msgs.len(),
        forall|j: int|
            0 <= j < routed_request_prefix_len(routes, msgs) ==> dispatch_request_spec(
                routes,
                #[trigger] msgs[j],
            ) is ToThread,
    decreases msgs.len(),
{
    if msgs.len() > 0 && dispatch_request_spec(routes, msgs[0]) is ToThread {
        let rest = msgs.drop_first();
        lemma_routed_request_prefix_all(routes, rest);
        assert forall|j: int| 0 <= j < routed_request_prefix_len(routes, msgs) implies dispatch_request_spec(
            routes,
            #[trigger] msgs[j],
        ) is ToThread by {
            if j > 0 {
                assert(msgs[j] == rest[j - 1]);
            }
        }
    }
}

/// The listening thread forwards nothing after a shutdown: a shutdown at
/// position `j` of a batch comes at or after the end of the routed prefix,
/// so neither it nor any message after it is forwarded.
pub proof fn lemma_nothing_forwarded_after_shutdown(
    routes: Map<Seq<char>, u32>,
    msgs: Seq<Message>,
    requests: Seq<Request>,
    j: int,
    k: int,
)
    ensures
        0 <= j < msgs.len() && msgs[j].options == MessageOptions::Shutdown ==> routed_prefix_len(
            routes,
            msgs,
        ) <= j,
        0 <= k < requests.len() && requests[k].field_type == RequestType::Shutdown
            ==> routed_request_prefix_len(routes, requests) <= k,
{
    lemma_routed_prefix_all(routes, msgs);
    lemma_routed_request_prefix_all(routes, requests);
    if 0 <= j < msgs.len() && msgs[j].options == MessageOptions::Shutdown && j < routed_prefix_len(routes, msgs) {
        assert(dispatch_spec(routes, msgs[j]) is ToThread);
    }
    if 0 <= k < requests.len() && requests[k].field_type == RequestType::Shutdown && k
        < routed_request_prefix_len(routes, requests) {
        assert(dispatch_request_spec(routes, requests[k]) is ToThread);
    }
}

impl ListenerState {
    /// Routes a batch of messages in order: each is forwarded to the thread
    /// serving its recipient, until a shutdown, which ends the batch and
    /// stops every thread, or a message for a recipient no thread serves.
    pub fn route_batch(&self, msgs: Vec<Message>) -> (res: MessageBatch)
        requires
            self.routes.wf(),
        ensures
            ({
                let k = routed_prefix_len(self.routes.view(), msgs@);
                &&& res.forwards@.len() == k
                &&& forall|i: int|
                    0 <= i < k ==> #[trigger] res.forwards@[i] == (
                        dispatch_spec(self.routes.view(), msgs@[i])->ToThread_0,
                        msgs@[i],
                    )
                &&& res.stop == (k < msgs@.len() && dispatch_spec(self.routes.view(), msgs@[k as int])
                    is StopAll)
                &&& res.unknown is Some == (k < msgs@.len() && dispatch_spec(
                    self.routes.view(),
                    msgs@[k as int],
                ) is UnknownRecipient)
                &&& res.unknown matches Some(m) ==> m == msgs@[k as int]
            }),
    {
        let ghost all = msgs@;
        let ghost routes = self.routes.view();
        let total = msgs.len();
        let mut rest = msgs;
        let mut forwards: Vec<(u32, Message)> = Vec::new();
        let mut i: usize = 0;
        proof {
            lemma_routed_prefix_all(routes, all);
        }
        while rest.len() > 0
            invariant
                self.routes.wf(),
                routes == self.routes.view(),
                all == msgs@,
                total == all.len(),
                i <= all.len(),
                rest@ == all.subrange(i as int, all.len() as int),
                i <= routed_prefix_len(routes, all),
                routed_prefix_len(routes, all) <= all.len(),
                forall|j: int| 0 <= j < routed_prefix_len(routes, all) ==> dispatch_spec(routes, #[trigger] all[j]) is ToThread,
                forwards@.len() == i,
                forall|j: int|
                    0 <= j < i ==> #[trigger] forwards@[j] == (
                        dispatch_spec(routes, all[j])->ToThread_0,
                        all[j],
                    ),
            decreases rest@.len(),
        {
            assert(rest@[0] == all[i as int]);
            let m = rest.remove(0);
            assert(rest@ =~= all.subrange(i + 1, all.len() as int));
            proof {
                lemma_routed_prefix_step(routes, all, i as int);
            }
            match self.dispatch(&m) {
                Dispatch::ToThread(t) => {
                    forwards.push((t, m));
                },
                Dispatch::StopAll => {
                    return MessageBatch { forwards, stop: true, unknown: None };
                },
                Dispatch::UnknownRecipient => {
                    return MessageBatch { forwards, stop: false, unknown: Some(m) };
                },
            }
            i = i + 1;
        }
        MessageBatch { forwards, stop: false, unknown: None }
    }

    /// Routes a batch of requests in order, as `route_batch` routes
    /// messages: each goes to the thread serving the client it names, until
    /// a shutdown or a request naming no served client.
    pub fn route_request_batch(&self, msgs: Vec<Request>) -> (res: RequestBatch)
        requires
            self.routes.wf(),
        ensures
            ({
                let k = routed_request_prefix_len(self.routes.view(), msgs@);
                &&& res.forwards@.len() == k
                &&& forall|i: int|
                    0 <= i < k ==> #[trigger] res.forwards@[i] == (
                        dispatch_request_spec(self.routes.view(), msgs@[i])->ToThread_0,
                        msgs@[i],
                    )
                &&& res.stop == (k < msgs@.len() && dispatch_request_spec(
                    self.routes.view(),
                    msgs@[k as int],
                ) is StopAll)
                &&& res.unknown is Some == (k < msgs@.len() && dispatch_request_spec(
                    self.routes.view(),
                    msgs@[k as int],
                ) is UnknownRecipient)
                &&& res.unknown matches Some(m) ==> m == msgs@[k as int]
            }),
    {
        let ghost all = msgs@;
        let ghost routes = self.routes.view();
        let total = msgs.len();
        let mut rest = msgs;
        let mut forwards: Vec<(u32, Request)> = Vec::new();
        let mut i: usize = 0;
        proof {
            lemma_routed_request_prefix_all(routes, all);
        }
        while rest.len() > 0
            invariant
                self.routes.wf(),
                routes == self.routes.view(),
                all == msgs@,
                total == all.len(),
                i <= all.len(),
                rest@ == all.subrange(i as int, all.len() as int),
                i <= routed_request_prefix_len(routes, all),
                routed_request_prefix_len(routes, all) <= all.len(),
                forall|j: int| 0 <= j < routed_request_prefix_len(routes, all) ==> dispatch_request_spec(routes, #[trigger] all[j]) is ToThread,
                forwards@.len() == i,
                forall|j: int|
                    0 <= j < i ==> #[trigger] forwards@[j] == (
                        dispatch_request_spec(routes, all[j])->ToThread_0,
                        all[j],
                    ),
            decreases rest@.len(),
        {
            assert(rest@[0] == all[i as int]);
            let m = rest.remove(0);
            assert(rest@ =~= all.subrange(i + 1, all.len() as int));
            proof {
                lemma_routed_request_prefix_step(routes, all, i as int);
            }
            match self.dispatch_request(&m) {
                Dispatch::ToThread(t) => {
                    forwards.push((t, m));
                },
                Dispatch::StopAll => {
                    return RequestBatch { forwards, stop: true, unknown: None };
                },
                Dispatch::UnknownRecipient => {
                    return RequestBatch { forwards, stop: false, unknown: Some(m) };
                },
            }
            i = i + 1;
        }
        RequestBatch { forwards, stop: false, unknown: None }
    }
}

} // verus!
