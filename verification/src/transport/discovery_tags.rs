//! Tags by which peers tell each other what they support.

use vstd::prelude::*;

use crate::constants::{
    SUPPORT_ENCRYPTION, SUPPORT_ENCRYPTION_EPHEMERAL, SUPPORT_OPEN_STREAM,
    SUPPORT_OVERSIZED_TRANSFER,
};
use crate::tag::{flag_tag, tag_views, Tag};
use crate::text::same_text;

verus! {

/// What a peer supports.
#[derive(Clone, Copy, PartialEq, Eq, Structural, Debug)]
pub struct PeerCapabilities {
    /// Encryption.
    pub supports_encryption: bool,
    /// Ephemeral gift wraps.
    pub supports_ephemeral_encryption: bool,
    /// Oversized transfers.
    pub supports_oversized_transfer: bool,
    /// Open streams.
    pub supports_open_stream: bool,
}

/// Nothing is known to be supported.
pub open spec fn no_capabilities() -> PeerCapabilities {
    PeerCapabilities {
        supports_encryption: false,
        supports_ephemeral_encryption: false,
        supports_oversized_transfer: false,
        supports_open_stream: false,
    }
}

impl Default for PeerCapabilities {
    fn default() -> (r: Self)
        ensures
            r == no_capabilities(),
    {
        PeerCapabilities {
            supports_encryption: false,
            supports_ephemeral_encryption: false,
            supports_oversized_transfer: false,
            supports_open_stream: false,
        }
    }
}

/// What some tags say of the peer that sent them.
pub open spec fn capabilities_of(tags: Seq<Seq<Seq<char>>>) -> PeerCapabilities {
    PeerCapabilities {
        supports_encryption: tags.contains(flag_tag(SUPPORT_ENCRYPTION@)),
        supports_ephemeral_encryption: tags.contains(flag_tag(SUPPORT_ENCRYPTION_EPHEMERAL@)),
        supports_oversized_transfer: tags.contains(flag_tag(SUPPORT_OVERSIZED_TRANSFER@)),
        supports_open_stream: tags.contains(flag_tag(SUPPORT_OPEN_STREAM@)),
    }
}

/// Whether a tag is about discovery: it has a name, and is none of the routing tags `p` and `e`.
pub open spec fn is_discovery_tag(tag: Seq<Seq<char>>) -> bool {
    tag.len() > 0 && tag[0] != "p"@ && tag[0] != "e"@
}

/// The discovery tags among some tags, in their order.
pub open spec fn discovery_tags_of(tags: Seq<Seq<Seq<char>>>) -> Seq<Seq<Seq<char>>> {
    tags.filter(|t: Seq<Seq<char>>| is_discovery_tag(t))
}

/// Whether there is a tag that consists of the name `name` alone.
pub fn has_single_tag(tags: &Vec<Tag>, name: &str) -> (r: bool)
    ensures
        r == tag_views(tags@).contains(flag_tag(name@)),
{
    let mut i: usize = 0;
    while i < tags.len()
        invariant
            i <= tags@.len(),
            forall|j: int| 0 <= j < i ==> (#[trigger] tags@[j])@ != flag_tag(name@),
        decreases tags@.len() - i,
    {
        let parts = &tags[i].parts;
        if parts.len() == 1 && same_text(parts[0].as_str(), name) {
            assert(tags@[i as int]@ =~= flag_tag(name@));
            assert(tag_views(tags@)[i as int] == flag_tag(name@));
            return true;
        }
        proof {
            if tags@[i as int]@ == flag_tag(name@) {
                assert(tags@[i as int]@.len() == 1);
                assert(tags@[i as int]@[0] == name@);
                assert(tags@[i as int].parts@[0]@ == name@);
            }
        }
        i = i + 1;
    }
    proof {
        let views = tag_views(tags@);
        if views.contains(flag_tag(name@)) {
            let j = views.index_of(flag_tag(name@));
            assert(views[j] == tags@[j]@);
        }
    }
    false
}

/// The discovery tags among some tags.
pub fn get_discovery_tags(tags: &Vec<Tag>) -> (r: Vec<Tag>)
    ensures
        tag_views(r@) == discovery_tags_of(tag_views(tags@)),
{
    let ghost views = tag_views(tags@);
    let ghost keep = |t: Seq<Seq<char>>| is_discovery_tag(t);
    let mut out: Vec<Tag> = Vec::new();
    let mut i: usize = 0;
    proof {
        reveal(Seq::filter);
        assert(views.take(0) =~= Seq::<Seq<Seq<char>>>::empty());
        assert(tag_views(out@) =~= views.take(0).filter(keep));
    }
    while i < tags.len()
        invariant
            i <= tags@.len(),
            views == tag_views(tags@),
            keep == (|t: Seq<Seq<char>>| is_discovery_tag(t)),
            tag_views(out@) == views.take(i as int).filter(keep),
        decreases tags@.len() - i,
    {
        let ghost before = out@;
        let parts = &tags[i].parts;
        proof {
            reveal(Seq::filter);
            assert(views.take(i + 1).drop_last() =~= views.take(i as int));
            assert(views.take(i + 1).last() == tags@[i as int]@);
            if parts@.len() > 0 {
                assert(tags@[i as int]@[0] == parts@[0]@);
            }
        }
        if parts.len() > 0 && !same_text(parts[0].as_str(), "p") && !same_text(
            parts[0].as_str(),
            "e",
        ) {
            out.push(tags[i].duplicate());
            assert(tag_views(out@) =~= tag_views(before).push(tags@[i as int]@));
        }
        i = i + 1;
    }
    assert(views.take(i as int) =~= views);
    out
}

/// What some tags say of the peer that sent them.
pub fn learn_peer_capabilities(tags: &Vec<Tag>) -> (r: PeerCapabilities)
    ensures
        r == capabilities_of(tag_views(tags@)),
{
    PeerCapabilities {
        supports_encryption: has_single_tag(tags, SUPPORT_ENCRYPTION),
        supports_ephemeral_encryption: has_single_tag(tags, SUPPORT_ENCRYPTION_EPHEMERAL),
        supports_oversized_transfer: has_single_tag(tags, SUPPORT_OVERSIZED_TRANSFER),
        supports_open_stream: has_single_tag(tags, SUPPORT_OPEN_STREAM),
    }
}

/// What a peer supports, with the tags that said so.
#[derive(Debug, PartialEq, Eq)]
pub struct DiscoveredPeerCapabilities {
    /// The discovery tags.
    pub discovery_tags: Vec<Tag>,
    /// What they say.
    pub capabilities: PeerCapabilities,
}

/// The discovery tags among some tags, and what they say.
pub fn parse_discovered_peer_capabilities(tags: &Vec<Tag>) -> (r: DiscoveredPeerCapabilities)
    ensures
        tag_views(r.discovery_tags@) == discovery_tags_of(tag_views(tags@)),
        r.capabilities == capabilities_of(tag_views(tags@)),
{
    let discovery_tags = get_discovery_tags(tags);
    let capabilities = learn_peer_capabilities(&discovery_tags);
    proof {
        filtering_keeps_capabilities(tag_views(tags@));
    }
    DiscoveredPeerCapabilities { discovery_tags, capabilities }
}

proof fn filter_keeps_flag(tags: Seq<Seq<Seq<char>>>, name: Seq<char>)
    requires
        is_discovery_tag(flag_tag(name)),
    ensures
        discovery_tags_of(tags).contains(flag_tag(name)) == tags.contains(flag_tag(name)),
{
    let keep = |t: Seq<Seq<char>>| is_discovery_tag(t);
    let flag = flag_tag(name);
    if tags.contains(flag) {
        tags.lemma_filter_contains(keep, tags.index_of(flag));
    }
    if tags.filter(keep).contains(flag) {
        tags.lemma_filter_contains_rev(keep, flag);
    }
}

/// Leaving out the routing tags loses nothing of what a peer says it supports.
pub proof fn filtering_keeps_capabilities(tags: Seq<Seq<Seq<char>>>)
    ensures
        capabilities_of(discovery_tags_of(tags)) == capabilities_of(tags),
{
    reveal_strlit("p");
    reveal_strlit("e");
    reveal_strlit("support_encryption");
    reveal_strlit("support_encryption_ephemeral");
    reveal_strlit("support_oversized_transfer");
    reveal_strlit("support_open_stream");
    assert("p"@.len() == 1 && "e"@.len() == 1);
    assert(SUPPORT_ENCRYPTION@.len() == 18);
    assert(SUPPORT_ENCRYPTION_EPHEMERAL@.len() == 28);
    assert(SUPPORT_OVERSIZED_TRANSFER@.len() == 26);
    assert(SUPPORT_OPEN_STREAM@.len() == 19);
    filter_keeps_flag(tags, SUPPORT_ENCRYPTION@);
    filter_keeps_flag(tags, SUPPORT_ENCRYPTION_EPHEMERAL@);
    filter_keeps_flag(tags, SUPPORT_OVERSIZED_TRANSFER@);
    filter_keeps_flag(tags, SUPPORT_OPEN_STREAM@);
}

/// The discovery tags are all tags but those that address a message, in their order.
pub proof fn discovery_tags_are_all_others(tags: Seq<Seq<Seq<char>>>, tag: Seq<Seq<char>>)
    ensures
        discovery_tags_of(tags).contains(tag) <==> tags.contains(tag) && tag.len() > 0 && tag[0]
            != "p"@ && tag[0] != "e"@,
{
    let keep = |t: Seq<Seq<char>>| is_discovery_tag(t);
    if tags.contains(tag) && keep(tag) {
        tags.lemma_filter_contains(keep, tags.index_of(tag));
    }
    if tags.filter(keep).contains(tag) {
        tags.lemma_filter_contains_rev(keep, tag);
    }
}

} // verus!
