//! Modes, server information and the state that is kept for each client.

use vstd::prelude::*;

use crate::constants::{EPHEMERAL_GIFT_WRAP_KIND, GIFT_WRAP_KIND};
use crate::json::{Json, JsonV};
use crate::text::{clone_opt, opt_text};
use crate::text_map::TextMap;

verus! {

/// Whether messages are encrypted.
#[derive(Clone, Copy, PartialEq, Eq, Structural, Debug)]
pub enum EncryptionMode {
    /// Both encrypted and plain messages are accepted.
    Optional,
    /// Only encrypted messages are accepted.
    Required,
    /// Only plain messages are accepted.
    Disabled,
}

/// Which gift wraps are used.
#[derive(Clone, Copy, PartialEq, Eq, Structural, Debug)]
pub enum GiftWrapMode {
    /// Either kind.
    Optional,
    /// Ephemeral gift wraps only.
    Ephemeral,
    /// Persistent gift wraps only.
    Persistent,
}

impl GiftWrapMode {
    /// Whether ephemeral gift wraps may be used.
    pub open spec fn ephemeral_allowed(self) -> bool {
        self != GiftWrapMode::Persistent
    }

    /// Whether gift wraps of `kind` are accepted.
    pub open spec fn accepts(self, kind: u16) -> bool {
        match self {
            GiftWrapMode::Optional => kind == GIFT_WRAP_KIND || kind == EPHEMERAL_GIFT_WRAP_KIND,
            GiftWrapMode::Ephemeral => kind == EPHEMERAL_GIFT_WRAP_KIND,
            GiftWrapMode::Persistent => kind == GIFT_WRAP_KIND,
        }
    }

    /// The kind that is used when nothing else decides.
    pub open spec fn default_kind(self) -> u16 {
        match self {
            GiftWrapMode::Ephemeral => EPHEMERAL_GIFT_WRAP_KIND,
            _ => GIFT_WRAP_KIND,
        }
    }

    /// Whether ephemeral gift wraps may be used.
    pub fn supports_ephemeral(self) -> (r: bool)
        ensures
            r == self.ephemeral_allowed(),
    {
        match self {
            GiftWrapMode::Persistent => false,
            _ => true,
        }
    }

    /// Whether gift wraps of `kind` are accepted.
    pub fn allows_kind(self, kind: u16) -> (r: bool)
        ensures
            r == self.accepts(kind),
    {
        match self {
            GiftWrapMode::Optional => kind == GIFT_WRAP_KIND || kind == EPHEMERAL_GIFT_WRAP_KIND,
            GiftWrapMode::Ephemeral => kind == EPHEMERAL_GIFT_WRAP_KIND,
            GiftWrapMode::Persistent => kind == GIFT_WRAP_KIND,
        }
    }

    /// The kind that is used when nothing else decides.
    pub fn fallback_kind(self) -> (r: u16)
        ensures
            r == self.default_kind(),
    {
        match self {
            GiftWrapMode::Ephemeral => EPHEMERAL_GIFT_WRAP_KIND,
            _ => GIFT_WRAP_KIND,
        }
    }
}

/// A persistent gift wrap is accepted in every mode but the ephemeral one, an ephemeral one in
/// every mode but the persistent one, and nothing else in any. The kind that a mode falls back on
/// is one that it accepts, and the ephemeral one in the ephemeral mode only.
pub proof fn modes_accept_their_kinds(mode: GiftWrapMode, kind: u16)
    ensures
        mode.accepts(GIFT_WRAP_KIND) <==> mode != GiftWrapMode::Ephemeral,
        mode.accepts(EPHEMERAL_GIFT_WRAP_KIND) <==> mode != GiftWrapMode::Persistent,
        mode.accepts(kind) ==> gift_wrap_kind(kind),
        gift_wrap_kind(kind) ==> kind == 1059 || kind == 21059,
        gift_wrap_kind(1059) && gift_wrap_kind(21059),
        mode.ephemeral_allowed() <==> mode.accepts(EPHEMERAL_GIFT_WRAP_KIND),
        mode.accepts(mode.default_kind()),
        mode.default_kind() == EPHEMERAL_GIFT_WRAP_KIND <==> mode == GiftWrapMode::Ephemeral,
{
}

/// Whether `kind` is that of a gift wrap.
pub open spec fn gift_wrap_kind(kind: u16) -> bool {
    kind == GIFT_WRAP_KIND || kind == EPHEMERAL_GIFT_WRAP_KIND
}

/// What a server says of itself.
#[derive(Debug, PartialEq, Eq)]
pub struct ServerInfo {
    pub name: Option<String>,
    pub about: Option<String>,
    pub website: Option<String>,
    pub picture: Option<String>,
}

/// Model of [`ServerInfo`].
pub struct InfoV {
    pub name: Option<Seq<char>>,
    pub about: Option<Seq<char>>,
    pub website: Option<Seq<char>>,
    pub picture: Option<Seq<char>>,
}

impl View for ServerInfo {
    type V = InfoV;

    open spec fn view(&self) -> InfoV {
        InfoV {
            name: opt_text(self.name),
            about: opt_text(self.about),
            website: opt_text(self.website),
            picture: opt_text(self.picture),
        }
    }
}

/// The model of optional server information.
pub open spec fn opt_info(i: Option<ServerInfo>) -> Option<InfoV> {
    match i {
        Some(x) => Some(x@),
        None => None,
    }
}

impl Default for ServerInfo {
    /// Nothing is said.
    fn default() -> (r: Self)
        ensures
            r@ == (InfoV { name: None, about: None, website: None, picture: None }),
    {
        ServerInfo { name: None, about: None, website: None, picture: None }
    }
}

impl ServerInfo {
    /// A copy of the information.
    pub fn duplicate(&self) -> (r: Self)
        ensures
            r@ == self@,
    {
        ServerInfo {
            name: clone_opt(&self.name),
            about: clone_opt(&self.about),
            website: clone_opt(&self.website),
            picture: clone_opt(&self.picture),
        }
    }
}

/// A capability that does not need an allowed public key.
#[derive(Debug, PartialEq, Eq)]
pub struct CapabilityExclusion {
    /// The method.
    pub method: String,
    /// The name that the request has to carry; nothing for any name.
    pub name: Option<String>,
}

/// What a server keeps for a client.
pub struct ClientSession {
    /// Whether the client has opened its MCP session.
    pub is_initialized: bool,
    /// Whether the client's last message was encrypted.
    pub is_encrypted: bool,
    /// Whether the server's tags have been sent to the client.
    pub has_sent_common_tags: bool,
    /// Whether the client has used an ephemeral gift wrap.
    pub supports_ephemeral_gift_wrap: bool,
    /// Whether the client has announced encryption.
    pub supports_encryption: bool,
    /// Whether the client has announced ephemeral encryption.
    pub supports_ephemeral_encryption: bool,
    /// Whether the client has announced oversized transfers.
    pub supports_oversized_transfer: bool,
    /// Whether the client has announced open streams.
    pub supports_open_stream: bool,
    /// When the client's last message arrived.
    pub last_activity: u64,
    /// Original request ids by event id, and event ids by progress token.
    pub pending_requests: TextMap<Json>,
    /// Progress tokens by event id.
    pub event_to_progress_token: TextMap<String>,
}

/// Model of [`ClientSession`].
pub struct ClientV {
    pub is_initialized: bool,
    pub is_encrypted: bool,
    pub has_sent_common_tags: bool,
    pub supports_ephemeral_gift_wrap: bool,
    pub supports_encryption: bool,
    pub supports_ephemeral_encryption: bool,
    pub supports_oversized_transfer: bool,
    pub supports_open_stream: bool,
    pub last_activity: u64,
    pub pending_requests: Map<Seq<char>, JsonV>,
    pub event_to_progress_token: Map<Seq<char>, Seq<char>>,
}

/// The models of JSON values under their keys.
pub open spec fn json_values(m: Map<Seq<char>, Json>) -> Map<Seq<char>, JsonV> {
    Map::new(|k: Seq<char>| m.contains_key(k), |k: Seq<char>| m[k]@)
}

/// The characters of texts under their keys.
pub open spec fn texts_by_key(m: Map<Seq<char>, String>) -> Map<Seq<char>, Seq<char>> {
    Map::new(|k: Seq<char>| m.contains_key(k), |k: Seq<char>| m[k]@)
}

impl View for ClientSession {
    type V = ClientV;

    open spec fn view(&self) -> ClientV {
        ClientV {
            is_initialized: self.is_initialized,
            is_encrypted: self.is_encrypted,
            has_sent_common_tags: self.has_sent_common_tags,
            supports_ephemeral_gift_wrap: self.supports_ephemeral_gift_wrap,
            supports_encryption: self.supports_encryption,
            supports_ephemeral_encryption: self.supports_ephemeral_encryption,
            supports_oversized_transfer: self.supports_oversized_transfer,
            supports_open_stream: self.supports_open_stream,
            last_activity: self.last_activity,
            pending_requests: json_values(self.pending_requests@),
            event_to_progress_token: texts_by_key(self.event_to_progress_token@),
        }
    }
}

impl ClientV {
    /// A client that has just appeared.
    pub open spec fn fresh(is_encrypted: bool, now: u64) -> ClientV {
        ClientV {
            is_initialized: false,
            is_encrypted,
            has_sent_common_tags: false,
            supports_ephemeral_gift_wrap: false,
            supports_encryption: false,
            supports_ephemeral_encryption: false,
            supports_oversized_transfer: false,
            supports_open_stream: false,
            last_activity: now,
            pending_requests: Map::empty(),
            event_to_progress_token: Map::empty(),
        }
    }
}

impl ClientSession {
    /// A client that has just appeared.
    pub fn new(is_encrypted: bool, now: u64) -> (r: Self)
        ensures
            r@ == ClientV::fresh(is_encrypted, now),
    {
        let r = ClientSession {
            is_initialized: false,
            is_encrypted,
            has_sent_common_tags: false,
            supports_ephemeral_gift_wrap: false,
            supports_encryption: false,
            supports_ephemeral_encryption: false,
            supports_oversized_transfer: false,
            supports_open_stream: false,
            last_activity: now,
            pending_requests: TextMap::new(),
            event_to_progress_token: TextMap::new(),
        };
        assert(r@.pending_requests =~= Map::<Seq<char>, JsonV>::empty());
        assert(r@.event_to_progress_token =~= Map::<Seq<char>, Seq<char>>::empty());
        r
    }

    /// Notes that a message has arrived.
    pub fn update_activity(&mut self, now: u64)
        ensures
            final(self)@ == (ClientV { last_activity: now, ..old(self)@ }),
    {
        self.last_activity = now;
    }
}

} // verus!
