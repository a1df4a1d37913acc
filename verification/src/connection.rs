//! The reading side of a peer connection: received bytes are collected in a
//! buffer and every complete frame in it becomes a message.

use vstd::prelude::*;
use vstd::utf8::*;

use crate::framing::{
    decode_frames, encode_frames_spec, lemma_decode_encode_frames, split_frames, BUFFER_SIZE,
};
use crate::message::{fits_message, Message, MessageOptions};
use crate::text::string_from_utf8;

verus! {

broadcast use vstd::utf8::group_utf8_lib;

/// Whether every frame is valid UTF-8 text.
pub open spec fn all_valid_utf8(frames: Seq<Seq<u8>>) -> bool {
    forall|i: int| 0 <= i < frames.len() ==> valid_utf8(#[trigger] frames[i])
}

/// Whether `msgs` are the messages that the frames carry when they arrive
/// from the peer at `addr`: the text of each frame, with the peer's address
/// as both sender and recipient.
pub open spec fn received_from(msgs: Seq<Message>, frames: Seq<Seq<u8>>, addr: Seq<char>) -> bool {
    &&& msgs.len() == frames.len()
    &&& forall|i: int|
        0 <= i < msgs.len() ==> {
            &&& (#[trigger] msgs[i]).data@ == decode_utf8(frames[i])
            &&& msgs[i].sender@ == addr
            &&& msgs[i].recipient@ == addr
            &&& msgs[i].options == MessageOptions::Normal
        }
}

/// Every payload that decoding splits off holds at most 2^16 - 1 bytes.
pub proof fn lemma_decoded_frames_bounded(buf: Seq<u8>)
    ensures
        forall|i: int|
            0 <= i < decode_frames(buf).0.len() ==> #[trigger] decode_frames(buf).0[i].len()
                <= 65535,
    decreases buf.len(),
{
    if crate::framing::has_frame(buf) {
        let n = crate::framing::announced_len(buf);
        let tail = buf.subrange(2 + n, buf.len() as int);
        lemma_decoded_frames_bounded(tail);
        let frames = decode_frames(buf).0;
        assert forall|i: int| 0 <= i < frames.len() implies #[trigger] frames[i].len()
            <= 65535 by {
            if i > 0 {
                assert(frames[i] == decode_frames(tail).0[i - 1]);
            }
        }
    }
}

/// What one peer writes, the other reads: texts put on the wire one message
/// frame after the other, each fitting a message, are read back as exactly
/// those texts, with nothing left over, unless the last text is empty (its
/// lone header is not taken for a frame).
pub proof fn lemma_messages_roundtrip(texts: Seq<Seq<char>>)
    requires
        forall|i: int| 0 <= i < texts.len() ==> fits_message(#[trigger] texts[i]),
        texts.len() == 0 || texts.last().len() > 0,
    ensures
        ({
            let decoded = decode_frames(encode_frames_spec(texts.map_values(|t: Seq<char>| encode_utf8(t))));
            &&& decoded.1 == Seq::<u8>::empty()
            &&& decoded.0.len() == texts.len()
            &&& all_valid_utf8(decoded.0)
            &&& forall|i: int| 0 <= i < texts.len() ==> decode_utf8(#[trigger] decoded.0[i]) == texts[i]
        }),
{
    let payloads = texts.map_values(|t: Seq<char>| encode_utf8(t));
    assert forall|i: int| 0 <= i < payloads.len() implies #[trigger] payloads[i].len() <= 65535 by {
        assert(fits_message(texts[i]));
    }
    if texts.len() > 0 {
        let last = texts.last();
        assert(payloads.last() == encode_utf8(last));
        if encode_utf8(last).len() == 0 {
            assert(decode_utf8(encode_utf8(last)) == last);
            assert(encode_utf8(last) =~= Seq::<u8>::empty());
            assert(decode_utf8(Seq::<u8>::empty()) =~= Seq::<char>::empty());
        }
    }
    lemma_decode_encode_frames(payloads);
    let decoded = decode_frames(encode_frames_spec(payloads));
    assert forall|i: int| 0 <= i < texts.len() implies decode_utf8(#[trigger] decoded.0[i]) == texts[i]
        && valid_utf8(decoded.0[i]) by {
        assert(decoded.0[i] == encode_utf8(texts[i]));
    }
}

/// Takes every complete frame off the front of `buffer` and turns it into a
/// message from `addr`, provided every one of them is valid UTF-8; otherwise
/// leaves `buffer` as it is and returns `None`.
fn take_messages(buffer: &mut Vec<u8>, addr: &String) -> (res: Option<Vec<Message>>)
    ensures
        res is Some <==> all_valid_utf8(decode_frames(old(buffer)@).0),
        res matches Some(msgs) ==> received_from(msgs@, decode_frames(old(buffer)@).0, addr@)
            && final(buffer)@ == decode_frames(old(buffer)@).1,
        res is None ==> final(buffer)@ == old(buffer)@,
{
    proof {
        lemma_decoded_frames_bounded(buffer@);
    }
    let (frames, rest) = split_frames(buffer);
    let ghost fs = decode_frames(buffer@).0;
    assert(fs == decode_frames(old(buffer)@).0);
    assert(forall|i: int| 0 <= i < frames@.len() ==> #[trigger] frames@[i]@ == fs[i]);
    let mut msgs: Vec<Message> = Vec::new();
    let mut i: usize = 0;
    while i < frames.len()
        invariant
            i <= frames@.len(),
            fs == decode_frames(old(buffer)@).0,
            buffer@ == old(buffer)@,
            frames@.len() == fs.len(),
            forall|j: int| 0 <= j < frames@.len() ==> #[trigger] frames@[j]@ == fs[j],
            forall|j: int| 0 <= j < fs.len() ==> #[trigger] fs[j].len() <= 65535,
            all_valid_utf8(fs.subrange(0, i as int)),
            received_from(msgs@, fs.subrange(0, i as int), addr@),
        decreases frames@.len() - i,
    {
        let bytes = vstd::slice::slice_to_vec(frames[i].as_slice());
        match string_from_utf8(bytes) {
            Some(text) => {
                assert(fits_message(text@));
                let made = Message::new(text, addr.clone(), addr.clone());
                assert(made is Ok);
                if let Ok(m) = made {
                    msgs.push(m);
                }
            },
            None => {
                assert(!valid_utf8(fs[i as int]));
                assert(!all_valid_utf8(fs));
                return None;
            },
        }
        i = i + 1;
        assert(all_valid_utf8(fs.subrange(0, i as int)));
        assert(received_from(msgs@, fs.subrange(0, i as int), addr@)) by {
            assert forall|j: int| 0 <= j < msgs@.len() implies (#[trigger] msgs@[j]).data@
                == decode_utf8(fs.subrange(0, i as int)[j]) by {
                assert(fs.subrange(0, i as int)[j] == fs[j]);
            }
        }
    }
    assert(fs.subrange(0, fs.len() as int) =~= fs);
    *buffer = rest;
    Some(msgs)
}

/// A peer that the server side reads messages from.
pub struct Client {
    pub addr: String,
    pub client_buffer: Vec<u8>,
}

impl Client {
    /// The bytes received from the peer that are not yet part of a message.
    pub open spec fn buffer(&self) -> Seq<u8> {
        self.client_buffer@
    }

    /// A peer at `addr` from which nothing has been received yet.
    pub fn new(addr: String) -> (res: Client)
        ensures
            res.addr@ == addr@,
            res.buffer() == Seq::<u8>::empty(),
    {
        Client { addr, client_buffer: Vec::new() }
    }

    /// Adds one read from the connection to the buffer. Returns whether the
    /// read filled the whole read buffer, so that more data may be waiting.
    pub fn append_read(&mut self, data: &[u8]) -> (more: bool)
        ensures
            final(self).buffer() == old(self).buffer() + data@,
            final(self).addr == old(self).addr,
            more == (data@.len() == BUFFER_SIZE),
    {
        let mut chunk = vstd::slice::slice_to_vec(data);
        self.client_buffer.append(&mut chunk);
        data.len() == BUFFER_SIZE
    }

    /// Takes every complete message off the front of the buffer.
    pub fn get_messages_from_buffer(&mut self) -> (res: Vec<Message>)
        requires
            all_valid_utf8(decode_frames(old(self).buffer()).0),
        ensures
            received_from(res@, decode_frames(old(self).buffer()).0, old(self).addr@),
            final(self).buffer() == decode_frames(old(self).buffer()).1,
            final(self).addr == old(self).addr,
    {
        match take_messages(&mut self.client_buffer, &self.addr) {
            Some(msgs) => msgs,
            None => Vec::new(),
        }
    }

    /// Like `get_messages_from_buffer`, but returns `None`, and keeps the
    /// buffer, when a complete frame in it is not valid UTF-8.
    pub fn try_get_messages_from_buffer(&mut self) -> (res: Option<Vec<Message>>)
        ensures
            res is Some <==> all_valid_utf8(decode_frames(old(self).buffer()).0),
            res matches Some(msgs) ==> received_from(
                msgs@,
                decode_frames(old(self).buffer()).0,
                old(self).addr@,
            ) && final(self).buffer() == decode_frames(old(self).buffer()).1,
            res is None ==> final(self).buffer() == old(self).buffer(),
            final(self).addr == old(self).addr,
    {
        take_messages(&mut self.client_buffer, &self.addr)
    }
}

/// The client side's connection to its server.
pub struct ServerConn {
    pub addr: String,
    pub client_buffer: Vec<u8>,
}

impl ServerConn {
    /// The bytes received from the server that are not yet part of a message.
    pub open spec fn buffer(&self) -> Seq<u8> {
        self.client_buffer@
    }

    /// A connection to the server at `hostname` on which nothing has been
    /// received yet.
    pub fn new(hostname: String) -> (res: ServerConn)
        ensures
            res.addr@ == hostname@,
            res.buffer() == Seq::<u8>::empty(),
    {
        ServerConn { addr: hostname, client_buffer: Vec::new() }
    }

    /// Adds one read from the connection to the buffer. Returns whether the
    /// read filled the whole read buffer, so that more data may be waiting.
    pub fn read_data(&mut self, data: &[u8]) -> (more: bool)
        ensures
            final(self).buffer() == old(self).buffer() + data@,
            final(self).addr == old(self).addr,
            more == (data@.len() == BUFFER_SIZE),
    {
        let mut chunk = vstd::slice::slice_to_vec(data);
        self.client_buffer.append(&mut chunk);
        data.len() == BUFFER_SIZE
    }

    /// Takes every complete message off the front of the buffer.
    pub fn get_messages_from_buffer(&mut self) -> (res: Vec<Message>)
        requires
            all_valid_utf8(decode_frames(old(self).buffer()).0),
        ensures
            received_from(res@, decode_frames(old(self).buffer()).0, old(self).addr@),
            final(self).buffer() == decode_frames(old(self).buffer()).1,
            final(self).addr == old(self).addr,
    {
        match take_messages(&mut self.client_buffer, &self.addr) {
            Some(msgs) => msgs,
            None => Vec::new(),
        }
    }

    /// Like `get_messages_from_buffer`, but returns `None`, and keeps the
    /// buffer, when a complete frame in it is not valid UTF-8.
    pub fn try_get_messages_from_buffer(&mut self) -> (res: Option<Vec<Message>>)
        ensures
            res is Some <==> all_valid_utf8(decode_frames(old(self).buffer()).0),
            res matches Some(msgs) ==> received_from(
                msgs@,
                decode_frames(old(self).buffer()).0,
                old(self).addr@,
            ) && final(self).buffer() == decode_frames(old(self).buffer()).1,
            res is None ==> final(self).buffer() == old(self).buffer(),
            final(self).addr == old(self).addr,
    {
        take_messages(&mut self.client_buffer, &self.addr)
    }
}

} // verus!
