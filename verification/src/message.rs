//! Chat messages exchanged between peers, and the reader side of a peer
//! connection that turns received bytes into messages.

use vstd::prelude::*;
use vstd::string::*;
use vstd::utf8::*;

use crate::framing::{encode_frame, encode_frame_spec};
use crate::text::utf8_bytes;

verus! {

/// The error type of `std::io`, carried through as the error of message
/// constructors.
#[verifier::external_type_specification]
#[verifier::external_body]
pub struct ExIoError(std::io::Error);

/// Largest number of data bytes a message may carry: the frame header holds
/// the length in two bytes.
pub const MAX_MESSAGE_BYTES: u16 = 65535;

/// Whether a message carries data or asks the network thread to stop.
#[derive(PartialEq, Eq, Structural, Clone, Copy, Debug)]
pub enum MessageOptions {
    Shutdown,
    Normal,
}

/// A chat message between two peers.
#[derive(Debug)]
pub struct Message {
    pub data: String,
    pub sender: String,
    pub recipient: String,
    pub options: MessageOptions,
}

/// Whether `data` fits into one message.
pub open spec fn fits_message(data: Seq<char>) -> bool {
    encode_utf8(data).len() <= MAX_MESSAGE_BYTES
}

impl Message {
    /// A message carrying `data` from `sender` to `recipient`.
    pub fn new(data: String, recipient: String, sender: String) -> (res: Result<
        Message,
        std::io::Error,
    >)
        requires
            fits_message(data@),
        ensures
            res matches Ok(m) && m.data@ == data@ && m.recipient@ == recipient@ && m.sender@
                == sender@ && m.options == MessageOptions::Normal,
    {
        Ok(Message { data, sender, recipient, options: MessageOptions::Normal })
    }

    /// The message that tells the network thread to shut down.
    pub fn shutdown() -> (res: Message)
        ensures
            res.data@ == Seq::<char>::empty(),
            res.sender@ == Seq::<char>::empty(),
            res.recipient@ == Seq::<char>::empty(),
            res.options == MessageOptions::Shutdown,
    {
        Message {
            data: String::new(),
            sender: String::new(),
            recipient: String::new(),
            options: MessageOptions::Shutdown,
        }
    }

    /// The one-line description of the message that the peers log.
    pub fn describe(&self) -> (res: String)
        ensures
            res@ == "Message from: "@ + self.sender@ + "    To: "@ + self.recipient@
                + "    Contents: "@ + self.data@,
    {
        let mut out = String::new();
        out.append("Message from: ");
        out.append(self.sender.as_str());
        out.append("    To: ");
        out.append(self.recipient.as_str());
        out.append("    Contents: ");
        out.append(self.data.as_str());
        out
    }

    /// The bytes that put this message on the wire: its data as one frame.
    pub fn frame(&self) -> (res: Vec<u8>)
        ensures
            res@ == encode_frame_spec(encode_utf8(self.data@)),
    {
        let bytes = utf8_bytes(self.data.as_str());
        encode_frame(bytes.as_slice())
    }
}

impl Clone for Message {
    fn clone(&self) -> (res: Self)
        ensures
            res == *self,
    {
        Message {
            data: self.data.clone(),
            sender: self.sender.clone(),
            recipient: self.recipient.clone(),
            options: self.options,
        }
    }
}

} // verus!
