//! Who the server is, as it is written in a configuration.
//!
//! A server is named by its public key, in hexadecimal or as `npub`, or by an `nprofile`, which
//! also hints at relays.

use nostr_sdk::nips::nip19::{FromBech32, Nip19Profile};
use nostr_sdk::PublicKey;
use vstd::prelude::*;

use crate::keys::{is_hex_key, lower_hex};
use crate::text::texts;

verus! {

/// A server's public key, and the relays that its name hints at.
#[derive(Debug, PartialEq, Eq)]
pub struct ServerIdentity {
    /// The public key, in lower-case hexadecimal.
    pub pubkey: String,
    /// The relays.
    pub relay_urls: Vec<String>,
}

/// Model of [`ServerIdentity`].
pub struct IdentityV {
    pub pubkey: Seq<char>,
    pub relays: Seq<Seq<char>>,
}

impl View for ServerIdentity {
    type V = IdentityV;

    open spec fn view(&self) -> IdentityV {
        IdentityV { pubkey: self.pubkey@, relays: texts(self.relay_urls@) }
    }
}

/// The model of an attempt to read an identity.
pub open spec fn identity_result(r: Result<ServerIdentity, String>) -> Result<IdentityV, Seq<char>> {
    match r {
        Ok(i) => Ok(i@),
        Err(e) => Err(e@),
    }
}

/// The model of an attempt to read a text.
pub open spec fn text_result(r: Result<String, String>) -> Result<Seq<char>, Seq<char>> {
    match r {
        Ok(text) => Ok(text@),
        Err(e) => Err(e@),
    }
}

/// The public key and the relays of the `nprofile` that `text` is; nothing when it is none.
pub uninterp spec fn profile_parts(text: Seq<char>) -> Option<(Seq<char>, Seq<Seq<char>>)>;

/// The public key that `text` names, in hexadecimal, or why it names none, in the words of the
/// `nostr` crate.
pub uninterp spec fn key_parts(text: Seq<char>) -> Result<Seq<char>, Seq<char>>;

/// The identity for an attempt to read a profile and one to read a key: the profile counts if
/// there is one, else the key, which hints at no relays.
pub open spec fn identity_from_parts(
    profile: Option<(Seq<char>, Seq<Seq<char>>)>,
    key: Result<Seq<char>, Seq<char>>,
) -> Result<IdentityV, Seq<char>> {
    match profile {
        Some((pubkey, relays)) => Ok(IdentityV { pubkey, relays }),
        None => match key {
            Ok(pubkey) => Ok(IdentityV { pubkey, relays: Seq::empty() }),
            Err(e) => Err(e),
        },
    }
}

/// The identity that `text` names.
pub open spec fn identity_of(text: Seq<char>) -> Result<IdentityV, Seq<char>> {
    identity_from_parts(profile_parts(text), key_parts(text))
}

/// Calls `Nip19Profile::from_bech32` and renders the key with `PublicKey::to_hex` and each relay
/// with its `Display`. The result is a function of the text; the encoding is not spelled out. A
/// profile begins with letters that are no hexadecimal digits, so that a hexadecimal key is none.
#[verifier::external_body]
pub(crate) fn parse_profile(text: &str) -> (r: Option<ServerIdentity>)
    ensures
        profile_parts(text@) == (match r {
            Some(i) => Some((i@.pubkey, i@.relays)),
            None => None,
        }),
        r matches Some(i) ==> is_hex_key(i@.pubkey) && lower_hex(i@.pubkey) == i@.pubkey,
        is_hex_key(text@) ==> r is None,
{
    let profile = Nip19Profile::from_bech32(text).ok()?;
    Some(
        ServerIdentity {
            pubkey: profile.public_key.to_hex(),
            relay_urls: profile.relays.iter().map(|r| r.to_string()).collect(),
        },
    )
}

/// Calls `PublicKey::parse` and renders the key with `PublicKey::to_hex`. The result, and the text
/// of the error, are functions of the text. Hexadecimal text is read first, and is the key that it
/// writes; the other encodings are not spelled out.
#[verifier::external_body]
pub(crate) fn parse_key(text: &str) -> (r: Result<String, String>)
    ensures
        key_parts(text@) == text_result(r),
        r matches Ok(key) ==> is_hex_key(key@) && lower_hex(key@) == key@,
        is_hex_key(text@) ==> r is Ok,
        r matches Ok(key) ==> (is_hex_key(text@) ==> key@ == lower_hex(text@)),
{
    match PublicKey::parse(text) {
        Ok(key) => Ok(key.to_hex()),
        Err(error) => Err(error.to_string()),
    }
}

/// The identity for an attempt to read a profile and one to read a key.
pub fn identity_from(profile: Option<ServerIdentity>, key: Result<String, String>) -> (r: Result<
    ServerIdentity,
    String,
>)
    ensures
        identity_result(r) == identity_from_parts(
            match profile {
                Some(i) => Some((i@.pubkey, i@.relays)),
                None => None,
            },
            text_result(key),
        ),
{
    match profile {
        Some(i) => Ok(i),
        None => match key {
            Ok(pubkey) => {
                let r = ServerIdentity { pubkey, relay_urls: Vec::new() };
                assert(r@.relays =~= Seq::<Seq<char>>::empty());
                Ok(r)
            },
            Err(e) => Err(e),
        },
    }
}

/// Reads who the server is. Its key comes out as 64 hexadecimal digits in lower case, and
/// hexadecimal text names the key that it writes, without relays.
pub fn parse_server_identity(text: &str) -> (r: Result<ServerIdentity, String>)
    ensures
        identity_result(r) == identity_of(text@),
        r matches Ok(i) ==> is_hex_key(i@.pubkey) && lower_hex(i@.pubkey) == i@.pubkey,
        is_hex_key(text@) ==> identity_result(r) == Ok::<IdentityV, Seq<char>>(
            IdentityV { pubkey: lower_hex(text@), relays: Seq::empty() },
        ),
{
    let profile = parse_profile(text);
    let key = parse_key(text);
    identity_from(profile, key)
}

/// A profile names the server by its own key and relays, whatever else the text may be; without
/// one the key counts, without relays; and without either the text names nobody.
pub proof fn profile_comes_before_key(
    profile: Option<(Seq<char>, Seq<Seq<char>>)>,
    key: Result<Seq<char>, Seq<char>>,
)
    ensures
        profile matches Some((pubkey, relays)) ==> identity_from_parts(profile, key) == Ok::<
            IdentityV,
            Seq<char>,
        >(IdentityV { pubkey, relays }),
        profile is None ==> (key matches Ok(pubkey) ==> (identity_from_parts(profile, key) matches Ok(
            i,
        ) && i.pubkey == pubkey && i.relays.len() == 0)),
        profile is None ==> (key matches Err(e) ==> identity_from_parts(profile, key) == Err::<
            IdentityV,
            Seq<char>,
        >(e)),
{
}

} // verus!
