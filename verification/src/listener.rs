//! The addresses the services listen on, and the list of connected clients
//! that a listening server keeps.

use vstd::prelude::*;
use vstd::string::*;

use crate::id::{uuid_parse, uuid_text, Uuid};
use crate::request::{Request, RequestType};

verus! {

/// The host every service listens on, followed by the port.
pub const ADDRESS: &'static str = "127.0.0.1:";

/// Port of the back end for miscellaneous requests.
pub const DATA_MISC_PORT: &'static str = "49700";

/// Port of the back end for transactions.
pub const DATA_TRANSACTIONS_PORT: &'static str = "49800";

/// Port of the back end for accounts.
pub const DATA_ACCOUNTS_PORT: &'static str = "49900";

/// Port of the load balancer.
pub const LOAD_BALANCER_PORT: &'static str = "50000";

/// The address of the local service listening on `port`.
pub fn service_address(port: &str) -> (res: String)
    ensures
        res@ == ADDRESS@ + port@,
{
    let mut address = String::from_str(ADDRESS);
    address.append(port);
    address
}

/// The client ids, as UUID bytes, of the authentication requests among
/// `msgs`, in order.
pub open spec fn authenticating_ids(msgs: Seq<Request>) -> Seq<Seq<u8>>
    decreases msgs.len(),
{
    if msgs.len() == 0 {
        Seq::empty()
    } else {
        let earlier = authenticating_ids(msgs.drop_last());
        if msgs.last().field_type == RequestType::Authenticate {
            earlier.push(uuid_parse(msgs.last().client_id@).unwrap())
        } else {
            earlier
        }
    }
}

/// Whether the client id of every authentication request among `msgs` is a
/// UUID.
pub open spec fn authenticating_ids_parse(msgs: Seq<Request>) -> bool {
    forall|i: int|
        0 <= i < msgs.len() && (#[trigger] msgs[i]).field_type == RequestType::Authenticate
            ==> uuid_parse(msgs[i].client_id@) is Some
}

/// The byte views of a list of UUIDs.
pub open spec fn uuid_views(ids: Seq<Uuid>) -> Seq<Seq<u8>> {
    ids.map_values(|u: Uuid| u.bytes@)
}

/// The clients a listening server knows to be connected.
pub struct ConnectionList {
    pub connections: Vec<Uuid>,
}

impl ConnectionList {
    /// A list without clients.
    pub fn new() -> (res: ConnectionList)
        ensures
            res.connections@ == Seq::<Uuid>::empty(),
    {
        ConnectionList { connections: Vec::new() }
    }

    /// Adds the clients that the network thread reported, in order.
    pub fn update_clients(&mut self, new_clients: Vec<Uuid>)
        ensures
            final(self).connections@ == old(self).connections@ + new_clients@,
    {
        let mut i: usize = 0;
        let ghost start = self.connections@;
        while i < new_clients.len()
            invariant
                i <= new_clients@.len(),
                self.connections@ == start + new_clients@.subrange(0, i as int),
            decreases new_clients@.len() - i,
        {
            self.connections.push(new_clients[i]);
            i = i + 1;
            assert(self.connections@ =~= start + new_clients@.subrange(0, i as int));
        }
        assert(new_clients@.subrange(0, new_clients@.len() as int) =~= new_clients@);
    }

    /// The clients known so far.
    pub fn list_clients(&self) -> (res: Vec<Uuid>)
        ensures
            res@ == self.connections@,
    {
        let mut res: Vec<Uuid> = Vec::new();
        let mut i: usize = 0;
        while i < self.connections.len()
            invariant
                i <= self.connections@.len(),
                res@ == self.connections@.subrange(0, i as int),
            decreases self.connections@.len() - i,
        {
            res.push(self.connections[i]);
            i = i + 1;
            assert(res@ =~= self.connections@.subrange(0, i as int));
        }
        assert(self.connections@.subrange(0, i as int) =~= self.connections@);
        res
    }

    /// Records the client of every authentication request among the
    /// received messages.
    pub fn register_authenticating(&mut self, msgs: &Vec<Request>)
        requires
            authenticating_ids_parse(msgs@),
        ensures
            uuid_views(final(self).connections@) == uuid_views(old(self).connections@)
                + authenticating_ids(msgs@),
    {
        let ghost start = self.connections@;
        let mut i: usize = 0;
        while i < msgs.len()
            invariant
                i <= msgs@.len(),
                authenticating_ids_parse(msgs@),
                uuid_views(self.connections@) == uuid_views(start) + authenticating_ids(
                    msgs@.subrange(0, i as int),
                ),
            decreases msgs@.len() - i,
        {
            let ghost before = self.connections@;
            assert(msgs@.subrange(0, i + 1).drop_last() =~= msgs@.subrange(0, i as int));
            if msgs[i].field_type == RequestType::Authenticate {
                assert(uuid_parse(msgs@[i as int].client_id@) is Some);
                match Uuid::parse_str(msgs[i].client_id.as_str()) {
                    Some(u) => {
                        self.connections.push(u);
                        assert(uuid_views(self.connections@) =~= uuid_views(before).push(u.bytes@));
                    },
                    None => {},
                }
            }
            i = i + 1;
        }
        assert(msgs@.subrange(0, msgs@.len() as int) =~= msgs@);
    }

    /// Like `register_authenticating`, but returns `false`, and records
    /// nobody, when the client id of an authentication request is no UUID.
    pub fn try_register_authenticating(&mut self, msgs: &Vec<Request>) -> (res: bool)
        ensures
            res == authenticating_ids_parse(msgs@),
            res ==> uuid_views(final(self).connections@) == uuid_views(old(self).connections@)
                + authenticating_ids(msgs@),
            !res ==> final(self).connections@ == old(self).connections@,
    {
        let mut i: usize = 0;
        while i < msgs.len()
            invariant
                i <= msgs@.len(),
                forall|j: int|
                    0 <= j < i && (#[trigger] msgs@[j]).field_type == RequestType::Authenticate
                        ==> uuid_parse(msgs@[j].client_id@) is Some,
            decreases msgs@.len() - i,
        {
            if msgs[i].field_type == RequestType::Authenticate {
                if Uuid::parse_str(msgs[i].client_id.as_str()).is_none() {
                    return false;
                }
            }
            i = i + 1;
        }
        self.register_authenticating(msgs);
        true
    }
}

/// A request as a listening server takes it in from the client `client`:
/// it is marked as coming from a client, and from that one; the rest is as
/// the client sent it.
pub fn received_request(request: Request, client: &Uuid) -> (res: Request)
    ensures
        res.field_type == request.field_type,
        res.user_id == request.user_id,
        res.client_id@ == uuid_text(client.bytes@),
        res.data == request.data,
        res.from_client,
        res.detailed_type == request.detailed_type,
        res.token_id == request.token_id,
{
    Request { client_id: client.to_string(), from_client: true, ..request }
}

/// Whether a request authenticates its client.
pub open spec fn is_authentication(r: Request) -> bool {
    r.field_type == RequestType::Authenticate
}

/// The clients registered from a batch are exactly the clients of its
/// authentication requests, in order, one for each: as many as there are
/// authentication requests, and none from a batch without one.
pub proof fn lemma_registered_are_the_authenticating(msgs: Seq<Request>)
    ensures
        authenticating_ids(msgs) == msgs.filter(|r: Request| is_authentication(r)).map_values(
            |r: Request| uuid_parse(r.client_id@).unwrap(),
        ),
        authenticating_ids(msgs).len() == msgs.filter(|r: Request| is_authentication(r)).len(),
        (forall|i: int| 0 <= i < msgs.len() ==> !is_authentication(#[trigger] msgs[i]))
            ==> authenticating_ids(msgs) == Seq::<Seq<u8>>::empty(),
    decreases msgs.len(),
{
    reveal(Seq::filter);
    let pred = |r: Request| is_authentication(r);
    let f = |r: Request| uuid_parse(r.client_id@).unwrap();
    if msgs.len() > 0 {
        let init = msgs.drop_last();
        lemma_registered_are_the_authenticating(init);
        if forall|i: int| 0 <= i < msgs.len() ==> !is_authentication(#[trigger] msgs[i]) {
            assert forall|i: int| 0 <= i < init.len() implies !is_authentication(#[trigger] init[i]) by {
                assert(init[i] == msgs[i]);
            }
            assert(!is_authentication(msgs[msgs.len() - 1]));
        }
        if pred(msgs.last()) {
            assert(msgs.filter(pred) == init.filter(pred).push(msgs.last()));
            assert(msgs.filter(pred).map_values(f) =~= init.filter(pred).map_values(f).push(
                f(msgs.last()),
            ));
        } else {
            assert(msgs.filter(pred) == init.filter(pred));
        }
    } else {
        assert(msgs.filter(pred) =~= Seq::<Request>::empty());
        assert(msgs.filter(pred).map_values(f) =~= Seq::<Seq<u8>>::empty());
    }
}

} // verus!
