//! Which relays a client uses to reach a server.
//!
//! Configured relays come first, then the hints that came with the server's identity. Without
//! either, the server's own relay list is looked up while the fallback relays are probed; the
//! first of the two to come up with relays wins. The caller performs the lookup and the probe
//! and reports what they found.

use vstd::prelude::*;

use crate::text::{clone_texts, texts};

verus! {

/// Where relays may come from.
#[derive(Debug, PartialEq, Eq)]
pub struct RelayResolutionConfig {
    /// Relays that were configured.
    pub configured_relay_urls: Vec<String>,
    /// Relays that the server's identity hints at.
    pub hinted_relay_urls: Vec<String>,
    /// Relays on which the server's relay list is looked up.
    pub discovery_relay_urls: Vec<String>,
    /// Relays to be probed meanwhile.
    pub fallback_operational_relay_urls: Vec<String>,
}

/// One of the two searches.
#[derive(Clone, Copy, PartialEq, Eq, Structural, Debug)]
pub enum Search {
    /// The lookup of the server's relay list.
    Discovery,
    /// The probe of the fallback relays.
    Fallback,
}

/// The search that is not this one.
pub open spec fn other(s: Search) -> Search {
    match s {
        Search::Discovery => Search::Fallback,
        Search::Fallback => Search::Discovery,
    }
}

/// What comes next.
#[derive(Debug, PartialEq, Eq)]
pub enum ResolutionStep {
    /// Use these relays.
    Use(Vec<String>),
    /// Run both searches and report the first that ends.
    Race,
    /// Wait for this search, too.
    Await(Search),
}

/// Model of [`ResolutionStep`].
pub enum ResolutionV {
    Use(Seq<Seq<char>>),
    Race,
    Await(Search),
}

impl View for ResolutionStep {
    type V = ResolutionV;

    open spec fn view(&self) -> ResolutionV {
        match self {
            ResolutionStep::Use(urls) => ResolutionV::Use(texts(urls@)),
            ResolutionStep::Race => ResolutionV::Race,
            ResolutionStep::Await(s) => ResolutionV::Await(*s),
        }
    }
}

/// Model of [`RelayResolutionConfig`].
pub struct SourcesV {
    pub configured: Seq<Seq<char>>,
    pub hinted: Seq<Seq<char>>,
    pub discovery: Seq<Seq<char>>,
    pub fallback: Seq<Seq<char>>,
}

impl View for RelayResolutionConfig {
    type V = SourcesV;

    open spec fn view(&self) -> SourcesV {
        SourcesV {
            configured: texts(self.configured_relay_urls@),
            hinted: texts(self.hinted_relay_urls@),
            discovery: texts(self.discovery_relay_urls@),
            fallback: texts(self.fallback_operational_relay_urls@),
        }
    }
}

impl SourcesV {
    /// What is decided before any search: configured relays, then hints, and without discovery
    /// relays the fallback relays, even if there are none.
    pub open spec fn begin(self) -> ResolutionV {
        if self.configured.len() > 0 {
            ResolutionV::Use(self.configured)
        } else if self.hinted.len() > 0 {
            ResolutionV::Use(self.hinted)
        } else if self.discovery.len() == 0 {
            ResolutionV::Use(self.fallback)
        } else {
            ResolutionV::Race
        }
    }

    /// What is decided when the first search has ended: its relays if it found any.
    pub open spec fn after_first(self, winner: Search, found: Seq<Seq<char>>) -> ResolutionV {
        if found.len() > 0 {
            ResolutionV::Use(found)
        } else {
            ResolutionV::Await(other(winner))
        }
    }

    /// What is decided when the second search has ended, too: its relays if it found any, and
    /// else the discovery relays.
    pub open spec fn after_second(self, found: Seq<Seq<char>>) -> Seq<Seq<char>> {
        if found.len() > 0 {
            found
        } else {
            self.discovery
        }
    }

    /// The outcome for given results of the searches and a given winner.
    pub open spec fn resolved(
        self,
        winner: Search,
        discovered: Seq<Seq<char>>,
        probed: Seq<Seq<char>>,
    ) -> Seq<Seq<char>> {
        let (first, second) = match winner {
            Search::Discovery => (discovered, probed),
            Search::Fallback => (probed, discovered),
        };
        match self.begin() {
            ResolutionV::Use(urls) => urls,
            _ => match self.after_first(winner, first) {
                ResolutionV::Use(urls) => urls,
                _ => self.after_second(second),
            },
        }
    }
}

/// What is decided before any search.
pub fn begin_resolution(config: &RelayResolutionConfig) -> (r: ResolutionStep)
    ensures
        r@ == config@.begin(),
{
    if config.configured_relay_urls.len() > 0 {
        return ResolutionStep::Use(clone_texts(&config.configured_relay_urls));
    }
    if config.hinted_relay_urls.len() > 0 {
        return ResolutionStep::Use(clone_texts(&config.hinted_relay_urls));
    }
    if config.discovery_relay_urls.len() == 0 {
        return ResolutionStep::Use(clone_texts(&config.fallback_operational_relay_urls));
    }
    ResolutionStep::Race
}

/// What is decided when the first search has ended.
pub fn first_search_ended(config: &RelayResolutionConfig, winner: Search, found: Vec<String>) -> (r:
    ResolutionStep)
    ensures
        r@ == config@.after_first(winner, texts(found@)),
{
    if found.len() > 0 {
        return ResolutionStep::Use(found);
    }
    match winner {
        Search::Discovery => ResolutionStep::Await(Search::Fallback),
        Search::Fallback => ResolutionStep::Await(Search::Discovery),
    }
}

/// What is decided when the second search has ended, too.
pub fn second_search_ended(config: &RelayResolutionConfig, found: Vec<String>) -> (r: Vec<String>)
    ensures
        texts(r@) == config@.after_second(texts(found@)),
{
    if found.len() > 0 {
        return found;
    }
    clone_texts(&config.discovery_relay_urls)
}

/// What a probe of the fallback relays found: all of them if it could connect, and else none.
pub fn probed_relays(fallback_urls: &Vec<String>, connected: bool) -> (r: Vec<String>)
    ensures
        texts(r@) == if connected {
            texts(fallback_urls@)
        } else {
            Seq::<Seq<char>>::empty()
        },
{
    if connected {
        clone_texts(fallback_urls)
    } else {
        let none: Vec<String> = Vec::new();
        assert(texts(none@) =~= Seq::<Seq<char>>::empty());
        none
    }
}

/// Whenever there is any source of relays at all there is a relay to use: only without
/// configured, hinted, discovery and fallback relays the outcome is empty.
pub proof fn resolution_finds_relays(
    s: SourcesV,
    winner: Search,
    discovered: Seq<Seq<char>>,
    probed: Seq<Seq<char>>,
)
    ensures
        s.resolved(winner, discovered, probed).len() == 0 <==> s.configured.len() == 0
            && s.hinted.len() == 0 && s.discovery.len() == 0 && s.fallback.len() == 0,
{
}

/// Configured relays are used whatever else there is, and hints whatever the searches find.
pub proof fn earlier_sources_win(
    s: SourcesV,
    winner: Search,
    discovered: Seq<Seq<char>>,
    probed: Seq<Seq<char>>,
)
    ensures
        s.configured.len() > 0 ==> s.resolved(winner, discovered, probed) == s.configured,
        s.configured.len() == 0 && s.hinted.len() > 0 ==> s.resolved(winner, discovered, probed)
            == s.hinted,
{
}

/// Where only one of the searches finds relays, those are used, whichever ends first.
pub proof fn order_matters_only_for_two_finds(
    s: SourcesV,
    discovered: Seq<Seq<char>>,
    probed: Seq<Seq<char>>,
)
    requires
        discovered.len() == 0 || probed.len() == 0,
    ensures
        s.resolved(Search::Discovery, discovered, probed) == s.resolved(
            Search::Fallback,
            discovered,
            probed,
        ),
{
}

/// The first search that finds something decides; if the first finds nothing the second does; and
/// if neither does, the relays on which relay lists are looked up are used themselves. Without
/// these there is nothing to search, and the fallback relays are used.
pub proof fn first_find_decides(
    s: SourcesV,
    discovered: Seq<Seq<char>>,
    probed: Seq<Seq<char>>,
)
    requires
        s.configured.len() == 0,
        s.hinted.len() == 0,
    ensures
        s.discovery.len() == 0 ==> s.resolved(Search::Discovery, discovered, probed) == s.fallback
            && s.resolved(Search::Fallback, discovered, probed) == s.fallback,
        s.discovery.len() > 0 && discovered.len() > 0 ==> s.resolved(
            Search::Discovery,
            discovered,
            probed,
        ) == discovered,
        s.discovery.len() > 0 && probed.len() > 0 ==> s.resolved(
            Search::Fallback,
            discovered,
            probed,
        ) == probed,
        s.discovery.len() > 0 && discovered.len() == 0 && probed.len() > 0 ==> s.resolved(
            Search::Discovery,
            discovered,
            probed,
        ) == probed,
        s.discovery.len() > 0 && probed.len() == 0 && discovered.len() > 0 ==> s.resolved(
            Search::Fallback,
            discovered,
            probed,
        ) == discovered,
        s.discovery.len() > 0 && discovered.len() == 0 && probed.len() == 0 ==> s.resolved(
            Search::Discovery,
            discovered,
            probed,
        ) == s.discovery,
        s.begin() is Race <==> s.discovery.len() > 0,
        s.after_first(Search::Discovery, Seq::empty()) == ResolutionV::Await(Search::Fallback),
        s.after_first(Search::Fallback, Seq::empty()) == ResolutionV::Await(Search::Discovery),
{
}

} // verus!
