//! Signed events as JSON text, as they come out of a gift wrap.

use vstd::prelude::*;

use crate::keys::{is_hex_key, lower_hex};
use crate::tag::{tag_views, Tag};

verus! {

/// What the transports read of an event.
#[derive(Debug, PartialEq, Eq)]
pub struct EventParts {
    /// Its id.
    pub event_id: String,
    /// The author's public key.
    pub pubkey: String,
    /// Its content.
    pub content: String,
    /// Its tags.
    pub tags: Vec<Tag>,
}

/// Model of [`EventParts`].
pub struct PartsV {
    pub event_id: Seq<char>,
    pub pubkey: Seq<char>,
    pub content: Seq<char>,
    pub tags: Seq<Seq<Seq<char>>>,
}

impl View for EventParts {
    type V = PartsV;

    open spec fn view(&self) -> PartsV {
        PartsV {
            event_id: self.event_id@,
            pubkey: self.pubkey@,
            content: self.content@,
            tags: tag_views(self.tags@),
        }
    }
}

/// The model of an optional event.
pub open spec fn opt_parts(e: Option<EventParts>) -> Option<PartsV> {
    match e {
        Some(x) => Some(x@),
        None => None,
    }
}

/// The id, the author, the content and the tags of the event that `text` holds as JSON; nothing
/// when it holds none.
pub uninterp spec fn event_fields(text: Seq<char>) -> Option<
    (Seq<char>, Seq<char>, Seq<char>, Seq<Seq<Seq<char>>>),
>;

/// Whether `text` holds an event as JSON whose id and signature are right.
pub uninterp spec fn event_verifies(text: Seq<char>) -> bool;

/// The event that `text` holds as JSON.
pub open spec fn event_of(text: Seq<char>) -> Option<PartsV> {
    match event_fields(text) {
        Some((event_id, pubkey, content, tags)) => Some(
            PartsV { event_id, pubkey, content, tags },
        ),
        None => None,
    }
}

/// Calls `serde_json::from_str` for a `nostr_sdk::Event` and copies its fields, the id and the
/// key with `to_hex`: 64 hexadecimal digits in lower case. The result is a function of the text;
/// what JSON is an event is not spelled out.
#[verifier::external_body]
pub(crate) fn parse_event(text: &str) -> (r: Option<EventParts>)
    ensures
        event_fields(text@) == (match opt_parts(r) {
            Some(e) => Some((e.event_id, e.pubkey, e.content, e.tags)),
            None => None,
        }),
        r matches Some(e) ==> is_hex_key(e.event_id@) && lower_hex(e.event_id@) == e.event_id@,
        r matches Some(e) ==> is_hex_key(e.pubkey@) && lower_hex(e.pubkey@) == e.pubkey@,
{
    let event: nostr_sdk::Event = serde_json::from_str(text).ok()?;
    Some(
        EventParts {
            event_id: event.id.to_hex(),
            pubkey: event.pubkey.to_hex(),
            tags: event.tags.iter().map(|t| Tag { parts: t.as_slice().to_vec() }).collect(),
            content: event.content,
        },
    )
}

/// Calls `serde_json::from_str` for a `nostr_sdk::Event`, then `Event::verify`, which recomputes
/// the id and checks the signature. The answer is a function of the text; what makes a signature
/// right is not spelled out.
#[verifier::external_body]
pub(crate) fn verify_event(text: &str) -> (r: bool)
    ensures
        r == event_verifies(text@),
{
    match serde_json::from_str::<nostr_sdk::Event>(text) {
        Ok(event) => event.verify().is_ok(),
        Err(_) => false,
    }
}

} // verus!
