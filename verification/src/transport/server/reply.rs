//! Messages that a server sends to a client.

use vstd::prelude::*;

use crate::keys::{event_id_from_hex, is_hex_key, lower_hex};
use crate::message::{JsonRpcMessage, MessageV};
use crate::tag::{tag_views, Tag};

verus! {

/// A message to a client.
#[derive(Debug, PartialEq, Eq)]
pub struct Reply {
    /// The message.
    pub message: JsonRpcMessage,
    /// The client's public key.
    pub recipient: String,
    /// The tags of the event.
    pub tags: Vec<Tag>,
    /// Whether the message is encrypted.
    pub is_encrypted: bool,
    /// Kind of the gift wrap of an encrypted message.
    pub gift_wrap_kind: Option<u16>,
}

/// Model of [`Reply`].
pub struct ReplyV {
    pub message: MessageV,
    pub recipient: Seq<char>,
    pub tags: Seq<Seq<Seq<char>>>,
    pub is_encrypted: bool,
    pub gift_wrap_kind: Option<u16>,
}

impl View for Reply {
    type V = ReplyV;

    open spec fn view(&self) -> ReplyV {
        ReplyV {
            message: self.message@,
            recipient: self.recipient@,
            tags: tag_views(self.tags@),
            is_encrypted: self.is_encrypted,
            gift_wrap_kind: self.gift_wrap_kind,
        }
    }
}

/// The model of an optional reply.
pub open spec fn opt_reply(r: Option<Reply>) -> Option<ReplyV> {
    match r {
        Some(x) => Some(x@),
        None => None,
    }
}

/// The event id of which every digit is zero.
pub const ZERO_EVENT_ID: &'static str =
    "0000000000000000000000000000000000000000000000000000000000000000";

/// An event id, or the one of zeros where the text is none.
pub open spec fn event_id_or_zeros(text: Seq<char>) -> Seq<char> {
    if is_hex_key(text) {
        lower_hex(text)
    } else {
        ZERO_EVENT_ID@
    }
}

/// An event id, or the one of zeros where the text is none.
pub fn parse_event_id_or_zeros(text: &str) -> (r: String)
    ensures
        r@ == event_id_or_zeros(text@),
{
    match event_id_from_hex(text) {
        Ok(id) => id,
        Err(_) => ZERO_EVENT_ID.to_owned(),
    }
}

/// An event id is answered as it is, in lower case; what is none is answered as the id of zeros.
pub proof fn event_ids_are_answered(text: Seq<char>)
    ensures
        is_hex_key(text) ==> event_id_or_zeros(text) == lower_hex(text),
        !is_hex_key(text) ==> event_id_or_zeros(text) == ZERO_EVENT_ID@,
{
}

} // verus!
