//! Tags that address a message, and the gift wrap that it travels in.

use vstd::prelude::*;

use crate::constants::{EPHEMERAL_GIFT_WRAP_KIND, GIFT_WRAP_KIND};
use crate::tag::{append_tags, clone_tags, push_tag, tag_views, value_tag, Tag};
use crate::text::{opt_text, same_text};
use crate::types::{gift_wrap_kind, EncryptionMode, GiftWrapMode};

verus! {

/// The tags of a message to `pubkey`.
pub open spec fn recipient_tags(pubkey: Seq<char>) -> Seq<Seq<Seq<char>>> {
    seq![value_tag("p"@, pubkey)]
}

/// The tags of a message to `pubkey` that answers the event `event_id`.
pub open spec fn response_tags(pubkey: Seq<char>, event_id: Seq<char>) -> Seq<Seq<Seq<char>>> {
    seq![value_tag("p"@, pubkey), value_tag("e"@, event_id)]
}

/// The value of the first tag `name` that has one.
pub open spec fn first_value(tags: Seq<Seq<Seq<char>>>, name: Seq<char>) -> Option<Seq<char>>
    decreases tags.len(),
{
    if tags.len() == 0 {
        None
    } else if tags[0].len() >= 2 && tags[0][0] == name {
        Some(tags[0][1])
    } else {
        first_value(tags.skip(1), name)
    }
}

/// The tags of a message to `pubkey`.
pub fn create_recipient_tags(pubkey: &str) -> (r: Vec<Tag>)
    ensures
        tag_views(r@) == recipient_tags(pubkey@),
{
    let mut tags: Vec<Tag> = Vec::new();
    assert(tag_views(tags@) =~= Seq::<Seq<Seq<char>>>::empty());
    push_tag(&mut tags, Tag::with_value("p", pubkey));
    assert(tag_views(tags@) =~= recipient_tags(pubkey@));
    tags
}

/// The tags of a message to `pubkey` that answers the event `event_id`.
pub fn create_response_tags(pubkey: &str, event_id: &str) -> (r: Vec<Tag>)
    ensures
        tag_views(r@) == response_tags(pubkey@, event_id@),
{
    let mut tags = create_recipient_tags(pubkey);
    push_tag(&mut tags, Tag::with_value("e", event_id));
    assert(tag_views(tags@) =~= response_tags(pubkey@, event_id@));
    tags
}

/// The addressing tags followed by the discovery tags.
pub fn compose_outbound_tags(base: &Vec<Tag>, discovery: &Vec<Tag>) -> (r: Vec<Tag>)
    ensures
        tag_views(r@) == tag_views(base@) + tag_views(discovery@),
{
    let mut tags = clone_tags(base);
    append_tags(&mut tags, discovery);
    tags
}

/// The value of the first tag `name` that has one.
pub fn get_tag_value(tags: &Vec<Tag>, name: &str) -> (r: Option<String>)
    ensures
        opt_text(r) == first_value(tag_views(tags@), name@),
{
    let ghost all = tag_views(tags@);
    let mut i: usize = 0;
    assert(all.skip(0) =~= all);
    while i < tags.len()
        invariant
            i <= tags@.len(),
            all == tag_views(tags@),
            first_value(all, name@) == first_value(all.skip(i as int), name@),
        decreases tags@.len() - i,
    {
        let parts = &tags[i].parts;
        proof {
            assert(all.skip(i as int)[0] == tags@[i as int]@);
            assert(all.skip(i as int).skip(1) =~= all.skip(i + 1));
            assert(forall|j: int|
                0 <= j < parts@.len() ==> tags@[i as int]@[j] == (#[trigger] parts@[j])@);
        }
        if parts.len() >= 2 && same_text(parts[0].as_str(), name) {
            return Some(parts[1].clone());
        }
        i = i + 1;
    }
    None
}

/// Whether `kind` is that of a gift wrap.
pub fn is_gift_wrap_kind(kind: u16) -> (r: bool)
    ensures
        r == gift_wrap_kind(kind),
{
    kind == GIFT_WRAP_KIND || kind == EPHEMERAL_GIFT_WRAP_KIND
}

/// Whether an event of `kind` is to be dropped: an encrypted one where encryption is disabled, a
/// plain one where it is required.
pub open spec fn breaks_encryption_policy(kind: u16, mode: EncryptionMode) -> bool {
    if gift_wrap_kind(kind) {
        mode == EncryptionMode::Disabled
    } else {
        mode == EncryptionMode::Required
    }
}

/// Whether an event of `kind` is to be dropped because of how it is, or is not, encrypted.
pub fn violates_encryption_policy(kind: u16, mode: EncryptionMode) -> (r: bool)
    ensures
        r == breaks_encryption_policy(kind, mode),
{
    if is_gift_wrap_kind(kind) {
        match mode {
            EncryptionMode::Disabled => true,
            _ => false,
        }
    } else {
        match mode {
            EncryptionMode::Required => true,
            _ => false,
        }
    }
}

/// The gift wrap of a response: none for a plain one; otherwise the kind that the client used, if
/// the mode allows it, and else the kind of the mode.
pub open spec fn response_wrap(
    mode: GiftWrapMode,
    is_encrypted: bool,
    mirrored: Option<u16>,
) -> Option<u16> {
    if !is_encrypted {
        None
    } else if mirrored matches Some(kind) && mode.accepts(kind) {
        mirrored
    } else {
        Some(mode.default_kind())
    }
}

/// The gift wrap of a notification: as for a response, but where there is no kind to mirror an
/// ephemeral one for a client that supports it, if the mode allows it.
pub open spec fn notification_wrap(
    mode: GiftWrapMode,
    is_encrypted: bool,
    correlated: Option<u16>,
    client_supports_ephemeral: bool,
) -> Option<u16> {
    if !is_encrypted {
        None
    } else if correlated matches Some(kind) && mode.accepts(kind) {
        correlated
    } else if client_supports_ephemeral && mode.ephemeral_allowed() {
        Some(EPHEMERAL_GIFT_WRAP_KIND)
    } else {
        Some(mode.default_kind())
    }
}

/// The gift wrap of a response.
pub fn select_outbound_gift_wrap_kind(
    mode: GiftWrapMode,
    is_encrypted: bool,
    mirrored_kind: Option<u16>,
) -> (r: Option<u16>)
    ensures
        r == response_wrap(mode, is_encrypted, mirrored_kind),
{
    if !is_encrypted {
        return None;
    }
    if let Some(kind) = mirrored_kind {
        if mode.allows_kind(kind) {
            return Some(kind);
        }
    }
    Some(mode.fallback_kind())
}

/// The gift wrap of a notification.
pub fn select_outbound_notification_gift_wrap_kind(
    mode: GiftWrapMode,
    is_encrypted: bool,
    correlated_wrap_kind: Option<u16>,
    client_supports_ephemeral: bool,
) -> (r: Option<u16>)
    ensures
        r == notification_wrap(mode, is_encrypted, correlated_wrap_kind, client_supports_ephemeral),
{
    if !is_encrypted {
        return None;
    }
    if let Some(kind) = correlated_wrap_kind {
        if mode.allows_kind(kind) {
            return Some(kind);
        }
    }
    if client_supports_ephemeral && mode.supports_ephemeral() {
        return Some(EPHEMERAL_GIFT_WRAP_KIND);
    }
    Some(mode.fallback_kind())
}

/// Whatever was mirrored or learned, an encrypted message travels in a gift wrap that the mode
/// allows, and a plain one in none.
pub proof fn wraps_obey_mode(
    mode: GiftWrapMode,
    is_encrypted: bool,
    kind: Option<u16>,
    client_supports_ephemeral: bool,
)
    ensures
        match response_wrap(mode, is_encrypted, kind) {
            Some(k) => is_encrypted && mode.accepts(k),
            None => !is_encrypted,
        },
        match notification_wrap(mode, is_encrypted, kind, client_supports_ephemeral) {
            Some(k) => is_encrypted && mode.accepts(k),
            None => !is_encrypted,
        },
{
}

/// An encrypted response travels in the kind of gift wrap that carried its request wherever the
/// mode leaves a choice, and in the mode's own kind otherwise.
pub proof fn responses_mirror_their_request(mode: GiftWrapMode, mirrored: Option<u16>)
    ensures
        response_wrap(mode, false, mirrored) is None,
        mode == GiftWrapMode::Persistent ==> response_wrap(mode, true, mirrored) == Some(
            GIFT_WRAP_KIND,
        ),
        mode == GiftWrapMode::Ephemeral ==> response_wrap(mode, true, mirrored) == Some(
            EPHEMERAL_GIFT_WRAP_KIND,
        ),
        mode == GiftWrapMode::Optional ==> (response_wrap(mode, true, mirrored) == Some(
            EPHEMERAL_GIFT_WRAP_KIND,
        ) <==> mirrored == Some(EPHEMERAL_GIFT_WRAP_KIND)),
        mode == GiftWrapMode::Optional && mirrored != Some(EPHEMERAL_GIFT_WRAP_KIND)
            ==> response_wrap(mode, true, mirrored) == Some(GIFT_WRAP_KIND),
{
}

/// An encrypted notification travels in the kind of gift wrap that carried the request it belongs
/// to, and without one in an ephemeral gift wrap if the client is known to understand it, wherever
/// the mode leaves a choice; otherwise in the mode's own kind.
pub proof fn notifications_mirror_or_suit_the_client(
    mode: GiftWrapMode,
    correlated: Option<u16>,
    supports_ephemeral: bool,
)
    ensures
        notification_wrap(mode, false, correlated, supports_ephemeral) is None,
        mode == GiftWrapMode::Persistent ==> notification_wrap(
            mode,
            true,
            correlated,
            supports_ephemeral,
        ) == Some(GIFT_WRAP_KIND),
        mode == GiftWrapMode::Ephemeral ==> notification_wrap(
            mode,
            true,
            correlated,
            supports_ephemeral,
        ) == Some(EPHEMERAL_GIFT_WRAP_KIND),
        mode == GiftWrapMode::Optional && (correlated == Some(GIFT_WRAP_KIND) || correlated == Some(
            EPHEMERAL_GIFT_WRAP_KIND,
        )) ==> notification_wrap(mode, true, correlated, supports_ephemeral) == correlated,
        mode == GiftWrapMode::Optional && correlated is None ==> notification_wrap(
            mode,
            true,
            correlated,
            supports_ephemeral,
        ) == Some(
            if supports_ephemeral {
                EPHEMERAL_GIFT_WRAP_KIND
            } else {
                GIFT_WRAP_KIND
            },
        ),
{
}

/// A peer does not drop what a peer of the same mode sends, and outside the optional mode drops
/// what the mode does not send.
pub proof fn policy_fits_what_is_sent(
    mode: EncryptionMode,
    asked: Option<bool>,
    wrap: u16,
    plain: u16,
)
    requires
        gift_wrap_kind(wrap),
        !gift_wrap_kind(plain),
    ensures
        encrypts(mode, asked) ==> !breaks_encryption_policy(wrap, mode),
        !encrypts(mode, asked) ==> !breaks_encryption_policy(plain, mode),
        mode != EncryptionMode::Optional && encrypts(mode, asked) ==> breaks_encryption_policy(
            plain,
            mode,
        ),
        mode != EncryptionMode::Optional && !encrypts(mode, asked) ==> breaks_encryption_policy(
            wrap,
            mode,
        ),
        mode == EncryptionMode::Required ==> encrypts(mode, asked),
        mode == EncryptionMode::Disabled ==> !encrypts(mode, asked),
        mode == EncryptionMode::Optional ==> (asked matches Some(wish) ==> encrypts(mode, asked)
            == wish),
        mode == EncryptionMode::Optional && asked is None ==> encrypts(mode, asked),
{
}

/// The value of the first tag of a name is that of a tag that is there, with no such tag before
/// it; and it is found whenever there is one.
pub proof fn first_value_is_first(tags: Seq<Seq<Seq<char>>>, name: Seq<char>)
    ensures
        match first_value(tags, name) {
            Some(value) => exists|i: int|
                0 <= i < tags.len() && (#[trigger] tags[i]).len() >= 2 && tags[i][0] == name
                    && tags[i][1] == value && forall|j: int|
                    0 <= j < i ==> !((#[trigger] tags[j]).len() >= 2 && tags[j][0] == name),
            None => forall|j: int|
                0 <= j < tags.len() ==> !((#[trigger] tags[j]).len() >= 2 && tags[j][0] == name),
        },
    decreases tags.len(),
{
    if tags.len() > 0 {
        let rest = tags.skip(1);
        first_value_is_first(rest, name);
        assert(forall|j: int| 1 <= j < tags.len() ==> tags[j] == #[trigger] rest[j - 1]);
        if tags[0].len() >= 2 && tags[0][0] == name {
            assert(tags[0][1] == first_value(tags, name).unwrap());
        } else if first_value(tags, name) is Some {
            let i = choose|i: int|
                0 <= i < rest.len() && (#[trigger] rest[i]).len() >= 2 && rest[i][0] == name
                    && rest[i][1] == first_value(tags, name).unwrap() && forall|j: int|
                    0 <= j < i ==> !((#[trigger] rest[j]).len() >= 2 && rest[j][0] == name);
            assert(tags[i + 1] == rest[i]);
            assert forall|j: int| 0 <= j < i + 1 implies !((#[trigger] tags[j]).len() >= 2
                && tags[j][0] == name) by {
                if j > 0 {
                    assert(tags[j] == rest[j - 1]);
                }
            }
        } else {
            assert forall|j: int| 0 <= j < tags.len() implies !((#[trigger] tags[j]).len() >= 2
                && tags[j][0] == name) by {
                if j > 0 {
                    assert(tags[j] == rest[j - 1]);
                }
            }
        }
    }
}

/// Tags that address a peer name it, and name no event unless they answer one.
pub proof fn address_tags_name_the_peer(
    pubkey: Seq<char>,
    event_id: Seq<char>,
    more: Seq<Seq<Seq<char>>>,
)
    ensures
        first_value(recipient_tags(pubkey) + more, "p"@) == Some(pubkey),
        first_value(recipient_tags(pubkey), "e"@) is None,
        first_value(recipient_tags(pubkey) + more, "e"@) == first_value(more, "e"@),
        first_value(response_tags(pubkey, event_id) + more, "p"@) == Some(pubkey),
        first_value(response_tags(pubkey, event_id) + more, "e"@) == Some(event_id),
        first_value(response_tags(pubkey, event_id), "p"@) == Some(pubkey),
        first_value(response_tags(pubkey, event_id), "e"@) == Some(event_id),
        recipient_tags(pubkey).len() == 1,
        response_tags(pubkey, event_id).len() == 2,
{
    reveal_strlit("p");
    reveal_strlit("e");
    assert("p"@[0] != "e"@[0]);
    reveal_with_fuel(first_value, 3);
    let to = recipient_tags(pubkey);
    let answer = response_tags(pubkey, event_id);
    assert((to + more)[0] == to[0]);
    assert((to + more).skip(1) =~= more);
    assert((answer + more)[0] == answer[0]);
    assert((answer + more).skip(1)[0] == answer[1]);
    assert(answer.skip(1)[0] == answer[1]);
}

/// Whether a message goes out encrypted: where encryption is a choice it is encrypted unless
/// plain text is asked for.
pub open spec fn encrypts(mode: EncryptionMode, asked: Option<bool>) -> bool {
    match mode {
        EncryptionMode::Disabled => false,
        EncryptionMode::Required => true,
        EncryptionMode::Optional => asked != Some(false),
    }
}

/// Whether a message goes out encrypted.
pub fn should_encrypt(mode: EncryptionMode, asked: Option<bool>) -> (r: bool)
    ensures
        r == encrypts(mode, asked),
{
    match mode {
        EncryptionMode::Disabled => false,
        EncryptionMode::Required => true,
        EncryptionMode::Optional => match asked {
            Some(encrypted) => encrypted,
            None => true,
        },
    }
}

/// How often stale state is swept, in microseconds: half the timeout, but at least one second and
/// at most thirty.
pub open spec fn sweep_period(timeout_ms: u64) -> int {
    if timeout_ms < 2_000 {
        1_000_000
    } else if timeout_ms > 60_000 {
        30_000_000
    } else {
        timeout_ms * 500
    }
}

/// Sweeps come twice within the timeout, as far as that is neither more often than every second
/// nor less often than every thirty seconds; a longer timeout never makes them come more often.
pub proof fn sweeps_come_within_the_timeout(timeout_ms: u64, longer: u64)
    requires
        timeout_ms <= longer,
    ensures
        1_000_000 <= sweep_period(timeout_ms) <= 30_000_000,
        2_000 <= timeout_ms <= 60_000 ==> 2 * sweep_period(timeout_ms) == 1_000 * timeout_ms,
        sweep_period(timeout_ms) <= sweep_period(longer),
{
}

/// How often stale state is swept, in microseconds.
pub fn sweep_interval_us(timeout_ms: u64) -> (r: u64)
    ensures
        r == sweep_period(timeout_ms),
{
    if timeout_ms < 2_000 {
        1_000_000
    } else if timeout_ms > 60_000 {
        30_000_000
    } else {
        timeout_ms * 500
    }
}

} // verus!
