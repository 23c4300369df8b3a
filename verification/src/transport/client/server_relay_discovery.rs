//! Relays that a server lists for itself.

use vstd::prelude::*;

use crate::constants::RELAY_TAG;
use crate::tag::{tag_views, Tag};
use crate::text::{opt_text, same_text, texts};

verus! {

/// One relay of a relay list.
#[derive(Debug, PartialEq, Eq)]
pub struct RelayListEntry {
    /// The relay's URL.
    pub url: String,
    /// `read`, `write`, or nothing for both.
    pub marker: Option<String>,
}

/// Model of [`RelayListEntry`].
pub struct RelayEntryV {
    pub url: Seq<char>,
    pub marker: Option<Seq<char>>,
}

impl View for RelayListEntry {
    type V = RelayEntryV;

    open spec fn view(&self) -> RelayEntryV {
        RelayEntryV { url: self.url@, marker: opt_text(self.marker) }
    }
}

/// The models of some entries.
pub open spec fn relay_views(entries: Seq<RelayListEntry>) -> Seq<RelayEntryV> {
    Seq::new(entries.len(), |i: int| entries[i]@)
}

/// The texts without those that occurred before.
pub open spec fn first_occurrences(list: Seq<Seq<char>>) -> Seq<Seq<char>>
    decreases list.len(),
{
    if list.len() == 0 {
        list
    } else {
        let rest = first_occurrences(list.drop_last());
        if rest.contains(list.last()) {
            rest
        } else {
            rest.push(list.last())
        }
    }
}

/// The URL of an entry for both directions.
pub open spec fn unmarked_url(e: RelayEntryV) -> Option<Seq<char>> {
    if e.marker is None && e.url.len() > 0 {
        Some(e.url)
    } else {
        None
    }
}

/// The URL of an entry for one direction.
pub open spec fn marked_url(e: RelayEntryV) -> Option<Seq<char>> {
    if (e.marker == Some("read"@) || e.marker == Some("write"@)) && e.url.len() > 0 {
        Some(e.url)
    } else {
        None
    }
}

/// The URLs that a relay list offers: those of the unmarked entries or, where there are none,
/// those of the entries marked `read` or `write`; each once, in the order of first occurrence.
pub open spec fn operational_urls(entries: Seq<RelayEntryV>) -> Seq<Seq<char>> {
    let unmarked = entries.filter_map(|e: RelayEntryV| unmarked_url(e));
    if unmarked.len() > 0 {
        first_occurrences(unmarked)
    } else {
        first_occurrences(entries.filter_map(|e: RelayEntryV| marked_url(e)))
    }
}

/// The relay that a tag of a relay list names: a tag `r` with a URL and, as a third part, the
/// marker.
pub open spec fn relay_of_tag(tag: Seq<Seq<char>>) -> Option<RelayEntryV> {
    if tag.len() >= 2 && tag[0] == RELAY_TAG@ && tag[1].len() > 0 {
        Some(
            RelayEntryV {
                url: tag[1],
                marker: if tag.len() >= 3 {
                    Some(tag[2])
                } else {
                    None
                },
            },
        )
    } else {
        None
    }
}

/// The relays that the tags of a relay list name, in their order.
pub open spec fn relays_of_tags(tags: Seq<Seq<Seq<char>>>) -> Seq<RelayEntryV> {
    tags.filter_map(|t: Seq<Seq<char>>| relay_of_tag(t))
}

/// An event that holds a relay list.
#[derive(Debug, PartialEq, Eq)]
pub struct RelayListEvent {
    /// When the event was created.
    pub created_at: u64,
    /// Its tags.
    pub tags: Vec<Tag>,
}

/// Whether the event at `i` is the first of the latest ones.
pub open spec fn is_latest(events: Seq<RelayListEvent>, i: int) -> bool {
    &&& 0 <= i < events.len()
    &&& forall|j: int| 0 <= j < events.len() ==> (#[trigger] events[j]).created_at
        <= events[i].created_at
    &&& forall|j: int| 0 <= j < i ==> (#[trigger] events[j]).created_at < events[i].created_at
}

/// The texts without those that occurred before.
pub(crate) fn dedup(urls: Vec<String>) -> (r: Vec<String>)
    ensures
        texts(r@) == first_occurrences(texts(urls@)),
{
    let ghost all = texts(urls@);
    let mut out: Vec<String> = Vec::new();
    let mut i: usize = 0;
    assert(texts(out@) =~= first_occurrences(all.take(0)));
    while i < urls.len()
        invariant
            i <= urls@.len(),
            all == texts(urls@),
            texts(out@) == first_occurrences(all.take(i as int)),
        decreases urls@.len() - i,
    {
        proof {
            assert(all.take(i + 1).drop_last() =~= all.take(i as int));
            assert(all.take(i + 1).last() == urls@[i as int]@);
        }
        let ghost before = out@;
        let mut seen = false;
        let mut j: usize = 0;
        while j < out.len()
            invariant
                j <= out@.len(),
                i < urls@.len(),
                out@ == before,
                seen == exists|k: int| 0 <= k < j && (#[trigger] out@[k])@ == urls@[i as int]@,
            decreases out@.len() - j,
        {
            if same_text(out[j].as_str(), urls[i].as_str()) {
                seen = true;
            }
            j = j + 1;
        }
        proof {
            let have = texts(out@);
            if seen {
                let k = choose|k: int| 0 <= k < j && (#[trigger] out@[k])@ == urls@[i as int]@;
                assert(have[k] == urls@[i as int]@);
            }
            if have.contains(urls@[i as int]@) {
                let k = have.index_of(urls@[i as int]@);
                assert(out@[k]@ == urls@[i as int]@);
            }
        }
        if !seen {
            out.push(urls[i].clone());
            assert(texts(out@) =~= texts(before).push(urls@[i as int]@));
        }
        i = i + 1;
    }
    assert(all.take(i as int) =~= all);
    out
}

fn is_marked(marker: &Option<String>) -> (r: bool)
    ensures
        r == (opt_text(*marker) == Some("read"@) || opt_text(*marker) == Some("write"@)),
{
    match marker {
        Some(m) => same_text(m.as_str(), "read") || same_text(m.as_str(), "write"),
        None => false,
    }
}

/// The URLs that a relay list offers.
pub fn select_operational_relay_urls(entries: &Vec<RelayListEntry>) -> (r: Vec<String>)
    ensures
        texts(r@) == operational_urls(relay_views(entries@)),
{
    let ghost all = relay_views(entries@);
    let ghost f = |e: RelayEntryV| unmarked_url(e);
    let ghost g = |e: RelayEntryV| marked_url(e);
    let mut unmarked: Vec<String> = Vec::new();
    let mut marked: Vec<String> = Vec::new();
    let mut i: usize = 0;
    proof {
        assert(all.take(0) =~= Seq::<RelayEntryV>::empty());
        assert(texts(unmarked@) =~= all.take(0).filter_map(f));
        assert(texts(marked@) =~= all.take(0).filter_map(g));
    }
    while i < entries.len()
        invariant
            i <= entries@.len(),
            all == relay_views(entries@),
            f == (|e: RelayEntryV| unmarked_url(e)),
            g == (|e: RelayEntryV| marked_url(e)),
            texts(unmarked@) == all.take(i as int).filter_map(f),
            texts(marked@) == all.take(i as int).filter_map(g),
        decreases entries@.len() - i,
    {
        let ghost u = unmarked@;
        let ghost m = marked@;
        let e = &entries[i];
        proof {
            assert(all.take(i + 1).drop_last() =~= all.take(i as int));
            assert(all.take(i + 1).last() == e@);
        }
        if !e.url.as_str().is_empty() {
            if e.marker.is_none() {
                unmarked.push(e.url.clone());
                assert(texts(unmarked@) =~= texts(u) + seq![e@.url]);
            } else if is_marked(&e.marker) {
                marked.push(e.url.clone());
                assert(texts(marked@) =~= texts(m) + seq![e@.url]);
            }
        }
        i = i + 1;
    }
    assert(all.take(i as int) =~= all);
    if unmarked.len() > 0 {
        dedup(unmarked)
    } else {
        dedup(marked)
    }
}

/// The relays that the tags of a relay list name.
pub fn relay_list_entries(tags: &Vec<Tag>) -> (r: Vec<RelayListEntry>)
    ensures
        relay_views(r@) == relays_of_tags(tag_views(tags@)),
{
    let ghost all = tag_views(tags@);
    let ghost f = |t: Seq<Seq<char>>| relay_of_tag(t);
    let mut out: Vec<RelayListEntry> = Vec::new();
    let mut i: usize = 0;
    proof {
        assert(all.take(0) =~= Seq::<Seq<Seq<char>>>::empty());
        assert(relay_views(out@) =~= all.take(0).filter_map(f));
    }
    while i < tags.len()
        invariant
            i <= tags@.len(),
            all == tag_views(tags@),
            f == (|t: Seq<Seq<char>>| relay_of_tag(t)),
            relay_views(out@) == all.take(i as int).filter_map(f),
        decreases tags@.len() - i,
    {
        let ghost before = out@;
        let parts = &tags[i].parts;
        proof {
            assert(all.take(i + 1).drop_last() =~= all.take(i as int));
            assert(all.take(i + 1).last() == tags@[i as int]@);
            assert(forall|j: int|
                0 <= j < parts@.len() ==> tags@[i as int]@[j] == (#[trigger] parts@[j])@);
        }
        if parts.len() >= 2 && same_text(parts[0].as_str(), RELAY_TAG)
            && !parts[1].as_str().is_empty() {
            let marker: Option<String> = if parts.len() >= 3 {
                Some(parts[2].clone())
            } else {
                None
            };
            let entry = RelayListEntry { url: parts[1].clone(), marker };
            let ghost v = entry@;
            out.push(entry);
            assert(relay_views(out@) =~= relay_views(before) + seq![v]);
        }
        i = i + 1;
    }
    assert(all.take(i as int) =~= all);
    out
}

/// The relays of the latest relay list; of several latest ones, the first.
pub fn latest_relay_list(events: &Vec<RelayListEvent>) -> (r: Vec<RelayListEntry>)
    ensures
        events@.len() == 0 ==> r@.len() == 0,
        events@.len() > 0 ==> exists|i: int|
            #![trigger events@[i]]
            is_latest(events@, i) && relay_views(r@) == relays_of_tags(tag_views(events@[i].tags@)),
{
    if events.len() == 0 {
        return Vec::new();
    }
    let mut best: usize = 0;
    let mut i: usize = 1;
    while i < events.len()
        invariant
            best < i <= events@.len(),
            forall|j: int| 0 <= j < i ==> (#[trigger] events@[j]).created_at
                <= events@[best as int].created_at,
            forall|j: int| 0 <= j < best ==> (#[trigger] events@[j]).created_at
                < events@[best as int].created_at,
        decreases events@.len() - i,
    {
        if events[i].created_at > events[best].created_at {
            best = i;
        }
        i = i + 1;
    }
    assert(is_latest(events@, best as int));
    relay_list_entries(&events[best].tags)
}

/// There is only one first of the latest events.
pub proof fn latest_is_unique(events: Seq<RelayListEvent>, i: int, j: int)
    requires
        is_latest(events, i),
        is_latest(events, j),
    ensures
        i == j,
{
    assert(events[i].created_at <= events[j].created_at);
    assert(events[j].created_at <= events[i].created_at);
}

/// No URL is offered twice, and none that the list does not hold.
pub proof fn first_occurrences_facts(list: Seq<Seq<char>>)
    ensures
        first_occurrences(list).no_duplicates(),
        forall|t: Seq<char>| #[trigger] first_occurrences(list).contains(t) <==> list.contains(t),
    decreases list.len(),
{
    if list.len() > 0 {
        let init = list.drop_last();
        first_occurrences_facts(init);
        let rest = first_occurrences(init);
        let all = first_occurrences(list);
        assert forall|t: Seq<char>| #[trigger] all.contains(t) <==> list.contains(t) by {
            assert(rest.contains(t) <==> init.contains(t));
            if rest.contains(t) {
                let k = rest.index_of(t);
                assert(all[k] == t);
            }
            if list.contains(t) {
                let i = list.index_of(t);
                if i < init.len() {
                    assert(init[i] == t);
                    assert(init.contains(t));
                } else if !rest.contains(list.last()) {
                    assert(all[rest.len() as int] == t);
                }
            }
            if all.contains(t) {
                let i = all.index_of(t);
                if i < rest.len() {
                    assert(rest[i] == t);
                    assert(rest.contains(t));
                    assert(init.contains(t));
                    let k = init.index_of(t);
                    assert(list[k] == t);
                } else {
                    assert(list[list.len() - 1] == t);
                }
            }
        }
    }
}

/// The offered URLs are distinct and none of them is empty.
pub proof fn operational_urls_are_distinct(entries: Seq<RelayEntryV>)
    ensures
        operational_urls(entries).no_duplicates(),
        forall|i: int|
            0 <= i < operational_urls(entries).len() ==> (#[trigger] operational_urls(
                entries,
            )[i]).len() > 0,
{
    let f = |e: RelayEntryV| unmarked_url(e);
    let g = |e: RelayEntryV| marked_url(e);
    first_occurrences_facts(entries.filter_map(f));
    first_occurrences_facts(entries.filter_map(g));
    let out = operational_urls(entries);
    assert forall|i: int| 0 <= i < out.len() implies (#[trigger] out[i]).len() > 0 by {
        assert(out.contains(out[i]));
        if entries.filter_map(f).len() > 0 {
            entries.lemma_filter_map_contains(f, out[i]);
        } else {
            entries.lemma_filter_map_contains(g, out[i]);
        }
    }
}

/// The relays to use are the unmarked ones of a list, where there are any; otherwise those that it
/// marks for reading or for writing. Every such relay is used, and no other.
pub proof fn unmarked_relays_come_first(entries: Seq<RelayEntryV>, url: Seq<char>)
    ensures
        ({
            let unmarked = |u: Seq<char>|
                exists|i: int|
                    0 <= i < entries.len() && (#[trigger] entries[i]).url == u
                        && entries[i].marker is None;
            let marked = |u: Seq<char>|
                exists|i: int|
                    0 <= i < entries.len() && (#[trigger] entries[i]).url == u && (entries[i].marker
                        == Some("read"@) || entries[i].marker == Some("write"@));
            let any_unmarked = exists|u: Seq<char>| u.len() > 0 && #[trigger] unmarked(u);
            operational_urls(entries).contains(url) <==> url.len() > 0 && (if any_unmarked {
                unmarked(url)
            } else {
                marked(url)
            })
        }),
{
    let f = |e: RelayEntryV| unmarked_url(e);
    let g = |e: RelayEntryV| marked_url(e);
    let a = entries.filter_map(f);
    let b = entries.filter_map(g);
    let unmarked = |u: Seq<char>|
        exists|i: int|
            0 <= i < entries.len() && (#[trigger] entries[i]).url == u && entries[i].marker is None;
    filter_map_contains(entries, f);
    filter_map_contains(entries, g);
    first_occurrences_facts(a);
    first_occurrences_facts(b);
    if a.len() > 0 {
        assert(a.contains(a[0]));
        let i = choose|i: int| 0 <= i < entries.len() && f(#[trigger] entries[i]) == Some(a[0]);
        assert(entries[i].url == a[0]);
        assert(a[0].len() > 0 && unmarked(a[0]));
    }
    if exists|u: Seq<char>| u.len() > 0 && #[trigger] unmarked(u) {
        let u = choose|u: Seq<char>| u.len() > 0 && #[trigger] unmarked(u);
        let i = choose|i: int|
            0 <= i < entries.len() && (#[trigger] entries[i]).url == u && entries[i].marker is None;
        assert(f(entries[i]) == Some(u));
        assert(a.contains(u));
    }
    if a.contains(url) {
        let i = choose|i: int| 0 <= i < entries.len() && f(#[trigger] entries[i]) == Some(url);
        assert(entries[i].url == url);
    }
    if b.contains(url) {
        let i = choose|i: int| 0 <= i < entries.len() && g(#[trigger] entries[i]) == Some(url);
        assert(entries[i].url == url);
    }
    if url.len() > 0 {
        if unmarked(url) {
            let i = choose|i: int|
                0 <= i < entries.len() && (#[trigger] entries[i]).url == url
                    && entries[i].marker is None;
            assert(f(entries[i]) == Some(url));
        }
        if exists|i: int|
            0 <= i < entries.len() && (#[trigger] entries[i]).url == url && (entries[i].marker
                == Some("read"@) || entries[i].marker == Some("write"@)) {
            let i = choose|i: int|
                0 <= i < entries.len() && (#[trigger] entries[i]).url == url && (entries[i].marker
                    == Some("read"@) || entries[i].marker == Some("write"@));
            assert(g(entries[i]) == Some(url));
        }
    }
}

proof fn filter_map_contains(
    entries: Seq<RelayEntryV>,
    f: spec_fn(RelayEntryV) -> Option<Seq<char>>,
)
    ensures
        forall|u: Seq<char>| #[trigger]
            entries.filter_map(f).contains(u) <==> exists|i: int|
                0 <= i < entries.len() && f(#[trigger] entries[i]) == Some(u),
    decreases entries.len(),
{
    reveal(Seq::filter_map);
    if entries.len() > 0 {
        let init = entries.drop_last();
        filter_map_contains(init, f);
        let rest = init.filter_map(f);
        let all = entries.filter_map(f);
        assert forall|u: Seq<char>| #[trigger] all.contains(u) <==> exists|i: int|
            0 <= i < entries.len() && f(#[trigger] entries[i]) == Some(u) by {
            if all.contains(u) {
                let j = all.index_of(u);
                if j < rest.len() {
                    assert(rest[j] == u);
                    assert(rest.contains(u));
                    let i = choose|i: int|
                        0 <= i < init.len() && f(#[trigger] init[i]) == Some(u);
                    assert(entries[i] == init[i]);
                } else {
                    assert(f(entries[entries.len() - 1]) == Some(u));
                }
            }
            if exists|i: int| 0 <= i < entries.len() && f(#[trigger] entries[i]) == Some(u) {
                let i = choose|i: int| 0 <= i < entries.len() && f(#[trigger] entries[i]) == Some(u);
                if i < init.len() {
                    assert(init[i] == entries[i]);
                    assert(rest.contains(u));
                    assert(all[rest.index_of(u)] == u);
                } else {
                    assert(all[all.len() - 1] == u);
                }
            }
        }
    }
}

/// Of a tag, a relay is read exactly if it is named as one and has a URL; what follows the URL is
/// its marker.
pub proof fn relay_tags_are_read(tag: Seq<Seq<char>>)
    ensures
        relay_of_tag(tag) is Some <==> tag.len() >= 2 && tag[0] == "r"@ && tag[1].len() > 0,
        relay_of_tag(tag) matches Some(e) ==> e.url == tag[1] && (tag.len() == 2 ==> e.marker
            is None) && (tag.len() > 2 ==> e.marker == Some(tag[2])),
{
}

/// What is listed later never changes the order of what was listed before it: of a longer list the
/// first occurrences are those of the shorter one, and then what is new.
pub proof fn first_occurrences_keep_order(list: Seq<Seq<char>>, more: Seq<char>)
    ensures
        first_occurrences(list.push(more)) == (if list.contains(more) {
            first_occurrences(list)
        } else {
            first_occurrences(list).push(more)
        }),
        first_occurrences(Seq::<Seq<char>>::empty()).len() == 0,
{
    assert(list.push(more).drop_last() =~= list);
    first_occurrences_facts(list);
}

/// The list that counts is the latest, and the first of these.
pub proof fn latest_list_counts(events: Seq<RelayListEvent>, i: int, j: int)
    requires
        is_latest(events, i),
        0 <= j < events.len(),
    ensures
        events[j].created_at <= events[i].created_at,
        events[j].created_at == events[i].created_at ==> i <= j,
{
}

} // verus!
