//! How an input/output thread sorts the messages it was asked to send.

use vstd::prelude::*;

use crate::id::{uuid_parse, Uuid};
use crate::message::{Message, MessageOptions};
use crate::request::{Request, RequestType};

verus! {

/// The messages for one peer, and what happens to the rest.
pub struct OutgoingPlan {
    /// Whether a shutdown message was among them.
    pub shutdown: bool,
    /// The messages addressed to the peer, to be written to it, in order.
    pub to_send: Vec<Message>,
    /// The other messages, in order, left for the other peers.
    pub kept: Vec<Message>,
}

/// The messages among `msgs` that are not shutdown messages and whose
/// recipient is (or, with `to_peer` false, is not) `addr`, in order.
pub open spec fn addressed(msgs: Seq<Message>, addr: Seq<char>, to_peer: bool) -> Seq<Message>
    decreases msgs.len(),
{
    if msgs.len() == 0 {
        Seq::empty()
    } else {
        let earlier = addressed(msgs.drop_last(), addr, to_peer);
        let m = msgs.last();
        if m.options != MessageOptions::Shutdown && (m.recipient@ == addr) == to_peer {
            earlier.push(m)
        } else {
            earlier
        }
    }
}

/// Whether a shutdown message is among `msgs`.
pub open spec fn has_shutdown(msgs: Seq<Message>) -> bool {
    exists|i: int| 0 <= i < msgs.len() && (#[trigger] msgs[i]).options == MessageOptions::Shutdown
}

/// Sorts the pending messages for the peer at `addr`: a shutdown message
/// stops the thread and is dropped; a message for the peer is to be written
/// to it; every other message is kept for the other peers.
pub fn plan_for_peer(addr: &String, msgs: Vec<Message>) -> (res: OutgoingPlan)
    ensures
        res.shutdown == has_shutdown(msgs@),
        res.to_send@ == addressed(msgs@, addr@, true),
        res.kept@ == addressed(msgs@, addr@, false),
{
    let mut shutdown = false;
    let mut to_send: Vec<Message> = Vec::new();
    let mut kept: Vec<Message> = Vec::new();
    let mut i: usize = 0;
    while i < msgs.len()
        invariant
            i <= msgs@.len(),
            shutdown == has_shutdown(msgs@.subrange(0, i as int)),
            to_send@ == addressed(msgs@.subrange(0, i as int), addr@, true),
            kept@ == addressed(msgs@.subrange(0, i as int), addr@, false),
        decreases msgs@.len() - i,
    {
        let ghost upto = msgs@.subrange(0, i as int);
        let ghost next = msgs@.subrange(0, i + 1);
        assert(next.drop_last() =~= upto);
        assert(next.last() == msgs@[i as int]);
        let m = msgs[i].clone();
        if m.options == MessageOptions::Shutdown {
            shutdown = true;
            assert(next[i as int] == m);
        } else if m.recipient == *addr {
            to_send.push(m);
        } else {
            kept.push(m);
        }
        proof {
            if has_shutdown(upto) {
                let j = choose|j: int| 0 <= j < upto.len() && (#[trigger] upto[j]).options
                    == MessageOptions::Shutdown;
                assert(next[j] == upto[j]);
            }
            if has_shutdown(next) && msgs@[i as int].options != MessageOptions::Shutdown {
                let j = choose|j: int| 0 <= j < next.len() && (#[trigger] next[j]).options
                    == MessageOptions::Shutdown;
                assert(upto[j] == next[j]);
            }
        }
        i = i + 1;
    }
    assert(msgs@.subrange(0, msgs@.len() as int) =~= msgs@);
    OutgoingPlan { shutdown, to_send, kept }
}

/// Sorts the pending messages of a connection to a single server: a
/// shutdown message stops the thread and is dropped; every other message is
/// to be written to the server, in order.
pub fn plan_for_server(msgs: Vec<Message>) -> (res: (bool, Vec<Message>))
    ensures
        res.0 == has_shutdown(msgs@),
        res.1@ == unless_shutdown(msgs@),
{
    let mut shutdown = false;
    let mut to_send: Vec<Message> = Vec::new();
    let mut i: usize = 0;
    while i < msgs.len()
        invariant
            i <= msgs@.len(),
            shutdown == has_shutdown(msgs@.subrange(0, i as int)),
            to_send@ == unless_shutdown(msgs@.subrange(0, i as int)),
        decreases msgs@.len() - i,
    {
        let ghost upto = msgs@.subrange(0, i as int);
        let ghost next = msgs@.subrange(0, i + 1);
        assert(next.drop_last() =~= upto);
        let m = msgs[i].clone();
        if m.options == MessageOptions::Shutdown {
            shutdown = true;
            assert(next[i as int] == m);
        } else {
            to_send.push(m);
        }
        proof {
            if has_shutdown(upto) {
                let j = choose|j: int| 0 <= j < upto.len() && (#[trigger] upto[j]).options
                    == MessageOptions::Shutdown;
                assert(next[j] == upto[j]);
            }
            if has_shutdown(next) && msgs@[i as int].options != MessageOptions::Shutdown {
                let j = choose|j: int| 0 <= j < next.len() && (#[trigger] next[j]).options
                    == MessageOptions::Shutdown;
                assert(upto[j] == next[j]);
            }
        }
        i = i + 1;
    }
    assert(msgs@.subrange(0, msgs@.len() as int) =~= msgs@);
    (shutdown, to_send)
}

/// The messages among `msgs` that are not shutdown messages, in order.
pub open spec fn unless_shutdown(msgs: Seq<Message>) -> Seq<Message>
    decreases msgs.len(),
{
    if msgs.len() == 0 {
        Seq::empty()
    } else {
        let earlier = unless_shutdown(msgs.drop_last());
        if msgs.last().options != MessageOptions::Shutdown {
            earlier.push(msgs.last())
        } else {
            earlier
        }
    }
}

/// Every message other than a shutdown message is either sent to the peer or
/// kept for the others: the two lists together hold as many messages as
/// there are non-shutdown messages.
pub proof fn lemma_plan_keeps_every_message(msgs: Seq<Message>, addr: Seq<char>)
    ensures
        addressed(msgs, addr, true).len() + addressed(msgs, addr, false).len() == unless_shutdown(
            msgs,
        ).len(),
    decreases msgs.len(),
{
    if msgs.len() > 0 {
        lemma_plan_keeps_every_message(msgs.drop_last(), addr);
    }
}

/// The requests for one client of a listening server, and the rest.
pub struct RequestPlan {
    /// Whether a shutdown request was among them.
    pub shutdown: bool,
    /// The requests whose client is this one, to be written to it, in order.
    pub to_send: Vec<Request>,
    /// The other requests, in order, left for the other clients.
    pub kept: Vec<Request>,
}

/// The requests among `msgs` that are not shutdown requests and whose client
/// id reads as (or, with `to_client` false, not as) the UUID `client`, in
/// order.
pub open spec fn for_client(msgs: Seq<Request>, client: Seq<u8>, to_client: bool) -> Seq<Request>
    decreases msgs.len(),
{
    if msgs.len() == 0 {
        Seq::empty()
    } else {
        let earlier = for_client(msgs.drop_last(), client, to_client);
        let m = msgs.last();
        if m.field_type != RequestType::Shutdown && (uuid_parse(m.client_id@) == Some(client))
            == to_client {
            earlier.push(m)
        } else {
            earlier
        }
    }
}

/// Whether a shutdown request is among `msgs`.
pub open spec fn has_shutdown_request(msgs: Seq<Request>) -> bool {
    exists|i: int| 0 <= i < msgs.len() && (#[trigger] msgs[i]).field_type == RequestType::Shutdown
}

/// Whether the client id of every request among `msgs` other than a
/// shutdown reads as a UUID.
pub open spec fn client_ids_parse(msgs: Seq<Request>) -> bool {
    forall|i: int|
        0 <= i < msgs.len() && (#[trigger] msgs[i]).field_type != RequestType::Shutdown
            ==> uuid_parse(msgs[i].client_id@) is Some
}

/// Sorts the pending requests for the client `client`: a shutdown request
/// stops the thread and is dropped; a request naming the client is to be
/// written to it; every other request is kept for the other clients. `None`
/// where a request other than a shutdown names no UUID.
pub fn plan_for_client(client: &Uuid, msgs: Vec<Request>) -> (res: Option<RequestPlan>)
    ensures
        res is Some <==> client_ids_parse(msgs@),
        res matches Some(p) ==> p.shutdown == has_shutdown_request(msgs@) && p.to_send@
            == for_client(msgs@, client.bytes@, true) && p.kept@ == for_client(
            msgs@,
            client.bytes@,
            false,
        ),
{
    let ghost all = msgs@;
    let total = msgs.len();
    let mut rest = msgs;
    let mut shutdown = false;
    let mut to_send: Vec<Request> = Vec::new();
    let mut kept: Vec<Request> = Vec::new();
    let mut i: usize = 0;
    while rest.len() > 0
        invariant
            all == msgs@,
            total == all.len(),
            i <= all.len(),
            rest@ == all.subrange(i as int, all.len() as int),
            shutdown == has_shutdown_request(all.subrange(0, i as int)),
            client_ids_parse(all.subrange(0, i as int)),
            to_send@ == for_client(all.subrange(0, i as int), client.bytes@, true),
            kept@ == for_client(all.subrange(0, i as int), client.bytes@, false),
        decreases rest@.len(),
    {
        let ghost upto = all.subrange(0, i as int);
        let ghost next = all.subrange(0, i + 1);
        assert(next.drop_last() =~= upto);
        assert(rest@[0] == all[i as int]);
        let m = rest.remove(0);
        assert(rest@ =~= all.subrange(i + 1, all.len() as int));
        assert(next.last() == m);
        if m.field_type == RequestType::Shutdown {
            shutdown = true;
            assert(next[i as int] == m);
        } else {
            match Uuid::parse_str(m.client_id.as_str()) {
                Some(u) => {
                    if client.same(&u) {
                        to_send.push(m);
                    } else {
                        kept.push(m);
                    }
                },
                None => {
                    assert(all[i as int] == m);
                    assert(all[i as int].field_type != RequestType::Shutdown && uuid_parse(
                        all[i as int].client_id@,
                    ) is None);
                    return None;
                },
            }
        }
        proof {
            if has_shutdown_request(upto) {
                let j = choose|j: int| 0 <= j < upto.len() && (#[trigger] upto[j]).field_type
                    == RequestType::Shutdown;
                assert(next[j] == upto[j]);
            }
            if has_shutdown_request(next) && all[i as int].field_type != RequestType::Shutdown {
                let j = choose|j: int| 0 <= j < next.len() && (#[trigger] next[j]).field_type
                    == RequestType::Shutdown;
                assert(upto[j] == next[j]);
            }
            assert forall|j: int|
                0 <= j < next.len() && (#[trigger] next[j]).field_type != RequestType::Shutdown
                    implies uuid_parse(next[j].client_id@) is Some by {
                if j < i {
                    assert(next[j] == upto[j]);
                }
            }
        }
        i = i + 1;
    }
    assert(all.subrange(0, all.len() as int) =~= all);
    Some(RequestPlan { shutdown, to_send, kept })
}

/// Whether a batch of pending messages holds a shutdown message, which
/// stops the input/output thread whether or not it serves any peer.
pub fn batch_has_shutdown(msgs: &Vec<Message>) -> (res: bool)
    ensures
        res == has_shutdown(msgs@),
{
    let mut i: usize = 0;
    while i < msgs.len()
        invariant
            i <= msgs@.len(),
            forall|j: int| 0 <= j < i ==> (#[trigger] msgs@[j]).options != MessageOptions::Shutdown,
        decreases msgs@.len() - i,
    {
        if msgs[i].options == MessageOptions::Shutdown {
            return true;
        }
        i = i + 1;
    }
    false
}

/// Whether a batch of pending requests holds a shutdown request.
pub fn batch_has_shutdown_request(msgs: &Vec<Request>) -> (res: bool)
    ensures
        res == has_shutdown_request(msgs@),
{
    let mut i: usize = 0;
    while i < msgs.len()
        invariant
            i <= msgs@.len(),
            forall|j: int| 0 <= j < i ==> (#[trigger] msgs@[j]).field_type != RequestType::Shutdown,
        decreases msgs@.len() - i,
    {
        if msgs[i].field_type == RequestType::Shutdown {
            return true;
        }
        i = i + 1;
    }
    false
}

/// A request reaches at most one client: where the requests kept back by
/// the client `a` are offered to another client `b`, `b` is sent exactly
/// the requests naming it, and none of the requests sent to `a` is sent to
/// `b` as well.
pub proof fn lemma_request_reaches_one_client(msgs: Seq<Request>, a: Seq<u8>, b: Seq<u8>)
    requires
        a != b,
    ensures
        for_client(for_client(msgs, a, false), b, true) == for_client(msgs, b, true),
        for_client(for_client(msgs, a, true), b, true) == Seq::<Request>::empty(),
    decreases msgs.len(),
{
    if msgs.len() > 0 {
        lemma_request_reaches_one_client(msgs.drop_last(), a, b);
        let m = msgs.last();
        let kept = for_client(msgs.drop_last(), a, false);
        let sent = for_client(msgs.drop_last(), a, true);
        if m.field_type != RequestType::Shutdown && uuid_parse(m.client_id@) == Some(a) {
            assert(for_client(msgs, a, true) == sent.push(m));
            assert(sent.push(m).drop_last() =~= sent);
            assert(for_client(msgs, a, false) == kept);
        } else if m.field_type != RequestType::Shutdown {
            assert(for_client(msgs, a, false) == kept.push(m));
            assert(kept.push(m).drop_last() =~= kept);
            assert(for_client(msgs, a, true) == sent);
        } else {
            assert(for_client(msgs, a, false) == kept);
            assert(for_client(msgs, a, true) == sent);
        }
    }
}

/// The tokens an input/output thread registers its peers under: a peer's
/// token is the number of peers the thread held when it came, and a peer
/// that leaves lowers that number again. So after a peer has left, a new
/// peer can be given the token of one still connected.
pub struct PeerTokens {
    count: usize,
}

impl PeerTokens {
    /// The number of peers held, which is also the next token.
    pub closed spec fn held(&self) -> nat {
        self.count as nat
    }

    /// No peer held.
    pub fn new() -> (res: PeerTokens)
        ensures
            res.held() == 0,
    {
        PeerTokens { count: 0 }
    }

    /// The number of peers held.
    pub fn count(&self) -> (res: usize)
        ensures
            res == self.held(),
    {
        self.count
    }

    /// Registers a new peer: its token is the number of peers held before.
    pub fn register(&mut self) -> (token: usize)
        requires
            old(self).held() < usize::MAX,
        ensures
            token == old(self).held(),
            final(self).held() == old(self).held() + 1,
    {
        let token = self.count;
        self.count = self.count + 1;
        token
    }

    /// Removes a peer: one peer fewer is held.
    pub fn remove(&mut self)
        requires
            old(self).held() > 0,
        ensures
            final(self).held() == old(self).held() - 1,
    {
        self.count = self.count - 1;
    }
}

/// An input/output thread writes to its client exactly the requests that
/// are not shutdowns and whose client id reads as the client's UUID,
/// whatever their type, in the order they came, and keeps exactly the other
/// requests that are not shutdowns.
pub proof fn lemma_client_gets_exactly_its_requests(msgs: Seq<Request>, client: Seq<u8>)
    ensures
        for_client(msgs, client, true) == msgs.filter(
            |m: Request| m.field_type != RequestType::Shutdown && uuid_parse(m.client_id@) == Some(
                client,
            ),
        ),
        for_client(msgs, client, false) == msgs.filter(
            |m: Request| m.field_type != RequestType::Shutdown && uuid_parse(m.client_id@) != Some(
                client,
            ),
        ),
        forall|m: Request|
            m.field_type != RequestType::Shutdown && uuid_parse(m.client_id@) == Some(client)
                ==> #[trigger] for_client(seq![m], client, true) == seq![m],
    decreases msgs.len(),
{
    reveal(Seq::filter);
    if msgs.len() > 0 {
        lemma_client_gets_exactly_its_requests(msgs.drop_last(), client);
    }
    assert forall|m: Request|
        m.field_type != RequestType::Shutdown && uuid_parse(m.client_id@) == Some(client)
            implies #[trigger] for_client(seq![m], client, true) == seq![m] by {
        assert(seq![m].drop_last() =~= Seq::<Request>::empty());
        assert(Seq::<Request>::empty().push(m) =~= seq![m]);
    }
}

/// An input/output thread writes to its peer exactly the messages that are
/// not shutdowns and are addressed to the peer, in order, and keeps exactly
/// the other messages that are not shutdowns.
pub proof fn lemma_peer_gets_exactly_its_messages(msgs: Seq<Message>, addr: Seq<char>)
    ensures
        addressed(msgs, addr, true) == msgs.filter(
            |m: Message| m.options != MessageOptions::Shutdown && m.recipient@ == addr,
        ),
        addressed(msgs, addr, false) == msgs.filter(
            |m: Message| m.options != MessageOptions::Shutdown && m.recipient@ != addr,
        ),
        unless_shutdown(msgs) == msgs.filter(|m: Message| m.options != MessageOptions::Shutdown),
    decreases msgs.len(),
{
    reveal(Seq::filter);
    if msgs.len() > 0 {
        lemma_peer_gets_exactly_its_messages(msgs.drop_last(), addr);
    }
}

} // verus!
