//! Public keys and event ids as hexadecimal text.

use nostr_sdk::{EventId, PublicKey};
use vstd::prelude::*;

verus! {

/// Whether `c` is a hexadecimal digit, in either case.
pub open spec fn is_hex_digit(c: char) -> bool {
    ('0' <= c && c <= '9') || ('a' <= c && c <= 'f') || ('A' <= c && c <= 'F')
}

/// Whether `text` is the hexadecimal form of 32 bytes.
pub open spec fn is_hex_key(text: Seq<char>) -> bool {
    text.len() == 64 && forall|i: int| 0 <= i < text.len() ==> is_hex_digit(#[trigger] text[i])
}

/// A hexadecimal digit in lower case.
pub open spec fn lower_digit(c: char) -> char {
    if c == 'A' {
        'a'
    } else if c == 'B' {
        'b'
    } else if c == 'C' {
        'c'
    } else if c == 'D' {
        'd'
    } else if c == 'E' {
        'e'
    } else if c == 'F' {
        'f'
    } else {
        c
    }
}

/// Hexadecimal text in lower case.
pub open spec fn lower_hex(text: Seq<char>) -> Seq<char> {
    Seq::new(text.len(), |i: int| lower_digit(text[i]))
}

/// Why `text` is no public key, in the words of the `nostr` crate.
pub uninterp spec fn public_key_error(text: Seq<char>) -> Seq<char>;

/// Why `text` is no event id, in the words of the `nostr` crate.
pub uninterp spec fn event_id_error(text: Seq<char>) -> Seq<char>;

/// Calls `PublicKey::from_hex` and renders the key with `PublicKey::to_hex`: 64 hexadecimal
/// digits in either case are a key, rendered in lower case, and nothing else is. Whether the
/// bytes are a point of the curve is not looked at. The text of the error is a function of the
/// argument.
#[verifier::external_body]
pub(crate) fn public_key_from_hex(text: &str) -> (r: Result<String, String>)
    ensures
        r is Ok <==> is_hex_key(text@),
        r matches Ok(key) ==> key@ == lower_hex(text@),
        r matches Err(e) ==> e@ == public_key_error(text@),
{
    match PublicKey::from_hex(text) {
        Ok(key) => Ok(key.to_hex()),
        Err(error) => Err(error.to_string()),
    }
}

/// Calls `EventId::from_hex` and renders the id with `EventId::to_hex`: 64 hexadecimal digits in
/// either case are an id, rendered in lower case, and nothing else is. The text of the error is
/// a function of the argument.
#[verifier::external_body]
pub(crate) fn event_id_from_hex(text: &str) -> (r: Result<String, String>)
    ensures
        r is Ok <==> is_hex_key(text@),
        r matches Ok(id) ==> id@ == lower_hex(text@),
        r matches Err(e) ==> e@ == event_id_error(text@),
{
    match EventId::from_hex(text) {
        Ok(id) => Ok(id.to_hex()),
        Err(error) => Err(error.to_string()),
    }
}

/// Rendering in lower case changes nothing the second time, and keeps a key a key.
pub proof fn lower_hex_is_stable(text: Seq<char>)
    ensures
        lower_hex(lower_hex(text)) == lower_hex(text),
        is_hex_key(text) ==> is_hex_key(lower_hex(text)),
{
    assert(lower_hex(lower_hex(text)) =~= lower_hex(text));
    if is_hex_key(text) {
        assert forall|i: int| 0 <= i < text.len() implies is_hex_digit(
            #[trigger] lower_hex(text)[i],
        ) by {
            assert(is_hex_digit(text[i]));
        }
    }
}

} // verus!
