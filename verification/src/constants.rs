//! Event kinds, tag names, methods and sizes of the protocol.

use vstd::prelude::*;
use vstd::string::*;

use crate::text::texts;

verus! {

/// Kind of an event that carries a message.
pub const CTXVM_MESSAGES_KIND: u16 = 25910;

/// Kind of a persistent gift wrap.
pub const GIFT_WRAP_KIND: u16 = 1059;

/// Kind of an ephemeral gift wrap.
pub const EPHEMERAL_GIFT_WRAP_KIND: u16 = 21059;

/// Kind of a server announcement.
pub const SERVER_ANNOUNCEMENT_KIND: u16 = 11316;

/// Kind of a list of tools.
pub const TOOLS_LIST_KIND: u16 = 11317;

/// Kind of a list of resources.
pub const RESOURCES_LIST_KIND: u16 = 11318;

/// Kind of a list of resource templates.
pub const RESOURCETEMPLATES_LIST_KIND: u16 = 11319;

/// Kind of a list of prompts.
pub const PROMPTS_LIST_KIND: u16 = 11320;

/// Kind of a relay list.
pub const RELAY_LIST_METADATA_KIND: u16 = 10002;

/// Tag of a peer that can encrypt.
pub const SUPPORT_ENCRYPTION: &'static str = "support_encryption";

/// Tag of a peer that understands ephemeral gift wraps.
pub const SUPPORT_ENCRYPTION_EPHEMERAL: &'static str = "support_encryption_ephemeral";

/// Tag of a peer that understands oversized transfers.
pub const SUPPORT_OVERSIZED_TRANSFER: &'static str = "support_oversized_transfer";

/// Tag of a peer that understands open streams.
pub const SUPPORT_OPEN_STREAM: &'static str = "support_open_stream";

/// Tag with the name of a server.
pub const NAME_TAG: &'static str = "name";

/// Tag with the description of a server.
pub const ABOUT_TAG: &'static str = "about";

/// Tag with the website of a server.
pub const WEBSITE_TAG: &'static str = "website";

/// Tag with the picture of a server.
pub const PICTURE_TAG: &'static str = "picture";

/// Tag of a relay in a relay list.
pub const RELAY_TAG: &'static str = "r";

/// Method that opens an MCP session.
pub const INITIALIZE_METHOD: &'static str = "initialize";

/// Notification that the session is open.
pub const NOTIFICATIONS_INITIALIZED_METHOD: &'static str = "notifications/initialized";

/// Id, client and event id of the requests that a server puts to itself in order to announce
/// what it offers.
pub const ANNOUNCEMENT_REQUEST_ID: &'static str = "announcement";

/// Kind of an event that asks for the deletion of others.
pub const DELETION_KIND: u16 = 5;

/// Kind of a profile.
pub const PROFILE_METADATA_KIND: u16 = 0;

/// Default number of entries of a bounded store.
pub const DEFAULT_LRU_SIZE: usize = 5000;

/// First of the relays on which relay lists are looked up and published by default.
pub const BOOTSTRAP_RELAY_DAMUS: &'static str = "wss://relay.damus.io";

/// Second of these relays.
pub const BOOTSTRAP_RELAY_PRIMAL: &'static str = "wss://relay.primal.net";

/// Third of these relays.
pub const BOOTSTRAP_RELAY_NOS: &'static str = "wss://nos.lol";

/// The relays on which relay lists are looked up and published by default.
pub fn default_bootstrap_relay_urls() -> (r: Vec<String>)
    ensures
        texts(r@) == seq![BOOTSTRAP_RELAY_DAMUS@, BOOTSTRAP_RELAY_PRIMAL@, BOOTSTRAP_RELAY_NOS@],
{
    let mut urls: Vec<String> = Vec::new();
    urls.push(BOOTSTRAP_RELAY_DAMUS.to_owned());
    urls.push(BOOTSTRAP_RELAY_PRIMAL.to_owned());
    urls.push(BOOTSTRAP_RELAY_NOS.to_owned());
    assert(texts(urls@) =~= seq![
        BOOTSTRAP_RELAY_DAMUS@,
        BOOTSTRAP_RELAY_PRIMAL@,
        BOOTSTRAP_RELAY_NOS@,
    ]);
    urls
}

} // verus!
