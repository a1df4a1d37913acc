//! The peers a chat user is connected to, and the messages each sent.

use vstd::prelude::*;
use vstd::string::*;

use crate::message::{fits_message, Message, MessageOptions};

verus! {

/// A peer of the chat user.
pub struct ClientUser {
    pub addr: String,
    pub messages: Vec<Message>,
    pub nickname: String,
}

/// The messages among `msgs` that the peer at `addr` sent, in order.
pub open spec fn sent_by(msgs: Seq<Message>, addr: Seq<char>) -> Seq<Message>
    decreases msgs.len(),
{
    if msgs.len() == 0 {
        Seq::empty()
    } else {
        let earlier = sent_by(msgs.drop_last(), addr);
        if msgs.last().sender@ == addr {
            earlier.push(msgs.last())
        } else {
            earlier
        }
    }
}

/// Whether some peer among `clients` has the address `addr`.
pub open spec fn has_peer(clients: Seq<ClientUser>, addr: Seq<char>) -> bool {
    exists|i: int| 0 <= i < clients.len() && (#[trigger] clients[i]).addr@ == addr
}

impl ClientUser {
    /// A peer at `addr` without a nickname or messages, as reported by the
    /// network thread.
    pub fn new(addr: String) -> (res: ClientUser)
        ensures
            res.addr@ == addr@,
            res.messages@ == Seq::<Message>::empty(),
            res.nickname@ == Seq::<char>::empty(),
    {
        ClientUser { addr, messages: Vec::new(), nickname: String::new() }
    }

    /// The description of the peer shown in the list of connections.
    pub fn describe(&self) -> (res: String)
        ensures
            res@ == "Client with address "@ + self.addr@ + ", and nickname "@ + self.nickname@,
    {
        let mut out = String::from_str("Client with address ");
        out.append(self.addr.as_str());
        out.append(", and nickname ");
        out.append(self.nickname.as_str());
        out
    }
}

/// The peers of a chat user.
pub struct Roster {
    pub clients: Vec<ClientUser>,
}

impl Roster {
    /// A user without peers.
    pub fn new() -> (res: Roster)
        ensures
            res.clients@.len() == 0,
    {
        Roster { clients: Vec::new() }
    }

    /// Adds a peer for every address the network thread reported, in order.
    pub fn update_clients(&mut self, addrs: Vec<String>)
        ensures
            final(self).clients@.len() == old(self).clients@.len() + addrs@.len(),
            forall|i: int|
                0 <= i < old(self).clients@.len() ==> #[trigger] final(self).clients@[i] == old(
                    self,
                ).clients@[i],
            forall|k: int|
                0 <= k < addrs@.len() ==> {
                    let c = #[trigger] final(self).clients@[old(self).clients@.len() + k];
                    &&& c.addr@ == addrs@[k]@
                    &&& c.messages@ == Seq::<Message>::empty()
                    &&& c.nickname@ == Seq::<char>::empty()
                },
    {
        let ghost start = self.clients@;
        let mut k: usize = 0;
        while k < addrs.len()
            invariant
                k <= addrs@.len(),
                self.clients@.len() == start.len() + k,
                forall|i: int| 0 <= i < start.len() ==> #[trigger] self.clients@[i] == start[i],
                forall|j: int|
                    0 <= j < k ==> {
                        let c = #[trigger] self.clients@[start.len() + j];
                        &&& c.addr@ == addrs@[j]@
                        &&& c.messages@ == Seq::<Message>::empty()
                        &&& c.nickname@ == Seq::<char>::empty()
                    },
            decreases addrs@.len() - k,
        {
            self.clients.push(ClientUser::new(addrs[k].clone()));
            k = k + 1;
        }
    }

    /// Files every received message with each peer whose address it was sent
    /// from.
    pub fn check_messages(&mut self, msgs: Vec<Message>)
        ensures
            final(self).clients@.len() == old(self).clients@.len(),
            forall|i: int|
                0 <= i < old(self).clients@.len() ==> {
                    let (before, after) = (old(self).clients@[i], #[trigger] final(self).clients@[i]);
                    &&& after.addr == before.addr
                    &&& after.nickname == before.nickname
                    &&& after.messages@ == before.messages@ + sent_by(msgs@, before.addr@)
                },
    {
        let ghost start = self.clients@;
        let mut k: usize = 0;
        while k < msgs.len()
            invariant
                k <= msgs@.len(),
                self.clients@.len() == start.len(),
                forall|i: int|
                    0 <= i < start.len() ==> {
                        let (before, now) = (start[i], #[trigger] self.clients@[i]);
                        &&& now.addr == before.addr
                        &&& now.nickname == before.nickname
                        &&& now.messages@ == before.messages@ + sent_by(
                            msgs@.subrange(0, k as int),
                            before.addr@,
                        )
                    },
            decreases msgs@.len() - k,
        {
            let ghost upto = msgs@.subrange(0, k as int);
            let ghost next = msgs@.subrange(0, k + 1);
            assert(next.drop_last() =~= upto);
            let mut j: usize = 0;
            while j < self.clients.len()
                invariant
                    k < msgs@.len(),
                    j <= self.clients@.len(),
                    self.clients@.len() == start.len(),
                    upto == msgs@.subrange(0, k as int),
                    next == msgs@.subrange(0, k + 1),
                    next.drop_last() == upto,
                    forall|i: int|
                        0 <= i < start.len() ==> {
                            let (before, now) = (start[i], #[trigger] self.clients@[i]);
                            &&& now.addr == before.addr
                            &&& now.nickname == before.nickname
                            &&& now.messages@ == before.messages@ + sent_by(
                                if i < j {
                                    next
                                } else {
                                    upto
                                },
                                before.addr@,
                            )
                        },
                decreases self.clients@.len() - j,
            {
                if self.clients[j].addr == msgs[k].sender {
                    let m = msgs[k].clone();
                    let mut client = self.clients.remove(j);
                    client.messages.push(m);
                    self.clients.insert(j, client);
                    assert(sent_by(next, start[j as int].addr@) =~= sent_by(upto, start[j as int].addr@).push(msgs@[k as int]));
                }
                j = j + 1;
            }
            k = k + 1;
        }
        assert(msgs@.subrange(0, msgs@.len() as int) =~= msgs@);
    }

    /// The message to send `msg_data` to the peer named `client_name`, from
    /// this user (`ME`), or `None` when there is no peer of that name.
    pub fn send_message(&self, client_name: String, msg_data: String) -> (res: Option<Message>)
        requires
            fits_message(msg_data@),
        ensures
            res is Some <==> has_peer(self.clients@, client_name@),
            res matches Some(m) ==> m.data@ == msg_data@ && m.recipient@ == client_name@
                && m.sender@ == "ME"@ && m.options == MessageOptions::Normal,
    {
        let mut j: usize = 0;
        while j < self.clients.len()
            invariant
                j <= self.clients@.len(),
                fits_message(msg_data@),
                forall|i: int| 0 <= i < j ==> (#[trigger] self.clients@[i]).addr@ != client_name@,
            decreases self.clients@.len() - j,
        {
            if self.clients[j].addr == client_name {
                return match Message::new(msg_data, client_name, String::from_str("ME")) {
                    Ok(m) => Some(m),
                    Err(_) => None,
                };
            }
            j = j + 1;
        }
        None
    }
}

/// A peer is given exactly the messages its address sent, in the order they
/// came.
pub proof fn lemma_peer_files_exactly_its_messages(msgs: Seq<Message>, addr: Seq<char>)
    ensures
        sent_by(msgs, addr) == msgs.filter(|m: Message| m.sender@ == addr),
    decreases msgs.len(),
{
    reveal(Seq::filter);
    if msgs.len() > 0 {
        lemma_peer_files_exactly_its_messages(msgs.drop_last(), addr);
    }
}

} // verus!
