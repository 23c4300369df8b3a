//! Choosing a chunk size whose published event stays within a limit.
//!
//! A published event is larger than the chunk that it carries, by an amount that only building
//! the event shows. [`ChunkSizeSearch`] finds the largest chunk size that fits by bisection:
//! the caller measures the event for [`ChunkSizeSearch::probe_size`] and reports the result.

use vstd::prelude::*;
use vstd::string::*;

use super::frame::{progress_notification, FrameV, OversizedFrame};
use crate::message::JsonRpcNotification;

verus! {

/// Token of the probe frames: as long as a token usually is.
pub const SIZING_PROBE_TOKEN: &'static str = "00000000-0000-0000-0000-000000000000";

/// Progress slot of the probe frames.
pub const SIZING_PROBE_PROGRESS: u64 = 2;

/// The payload of a probe: `n` backslashes, which every layer of JSON doubles.
pub open spec fn probe_payload(n: nat) -> Seq<char> {
    Seq::new(n, |i: int| '\\')
}

/// The frame whose published size is to be measured for chunks of `size` bytes.
pub fn probe_frame(size: usize) -> (r: JsonRpcNotification)
    ensures
        r@ == progress_notification(
            SIZING_PROBE_TOKEN@,
            SIZING_PROBE_PROGRESS,
            None,
            (FrameV::Chunk { data: probe_payload(size as nat) }).cvm(),
        ),
{
    let mut data = String::new();
    let mut i: usize = 0;
    assert(data@ =~= probe_payload(0));
    while i < size
        invariant
            i <= size,
            data@ == probe_payload(i as nat),
        decreases size - i,
    {
        data.append("\\");
        proof {
            reveal_strlit("\\");
            assert("\\"@ =~= seq!['\\']);
        }
        assert(data@ =~= probe_payload((i + 1) as nat));
        i = i + 1;
    }
    OversizedFrame::Chunk { data }.into_progress_notification(
        SIZING_PROBE_TOKEN,
        SIZING_PROBE_PROGRESS,
        None,
    )
}

/// Whether a measured event is within `max_event_bytes`. An event that could not be built is
/// too large.
pub fn fits(measured: Option<usize>, max_event_bytes: usize) -> (r: bool)
    ensures
        r == (measured matches Some(size) && size <= max_event_bytes),
{
    match measured {
        Some(size) => size <= max_event_bytes,
        None => false,
    }
}

/// How a message goes out.
#[derive(Clone, Copy, PartialEq, Eq, Structural, Debug)]
pub enum SizeVerdict {
    /// As one event.
    Single,
    /// In chunks.
    Oversized,
    /// That depends on the size of the event, which has to be built first.
    Measure,
}

/// How a message whose serialized form has `content_bytes` bytes goes out: one that may not be
/// sent in chunks as one event, and one whose content alone reaches the threshold in chunks.
pub fn size_up(eligible: bool, content_bytes: usize, threshold: usize) -> (r: SizeVerdict)
    ensures
        r == (if !eligible {
            SizeVerdict::Single
        } else if content_bytes >= threshold {
            SizeVerdict::Oversized
        } else {
            SizeVerdict::Measure
        }),
{
    if !eligible {
        SizeVerdict::Single
    } else if content_bytes >= threshold {
        SizeVerdict::Oversized
    } else {
        SizeVerdict::Measure
    }
}

/// Whether a message goes out in chunks after its event has been built: if the event is larger
/// than the threshold, or could not be built.
pub fn needs_chunks(published_bytes: Option<usize>, threshold: usize) -> (r: bool)
    ensures
        r == !(published_bytes matches Some(n) && n <= threshold),
{
    match published_bytes {
        Some(n) => n > threshold,
        None => true,
    }
}

/// A bisection over chunk sizes.
pub struct ChunkSizeSearch {
    low: u128,
    high: u128,
    best: usize,
}

/// Model of [`ChunkSizeSearch`]: the sizes from `low` to `high` are still undecided, and `best`
/// is the answer so far.
pub struct SearchV {
    pub low: int,
    pub high: int,
    pub best: int,
}

impl View for ChunkSizeSearch {
    type V = SearchV;

    closed spec fn view(&self) -> SearchV {
        SearchV { low: self.low as int, high: self.high as int, best: self.best as int }
    }
}

impl SearchV {
    /// The size to measure next.
    pub open spec fn probe(self) -> Option<int> {
        if self.low <= self.high {
            Some(self.low + (self.high - self.low) / 2)
        } else {
            None
        }
    }

    /// The search after its probe did or did not fit.
    pub open spec fn after(self, fits: bool) -> SearchV {
        match self.probe() {
            Some(mid) => if fits {
                SearchV { low: mid + 1, best: mid, ..self }
            } else {
                SearchV { high: mid - 1, ..self }
            },
            None => self,
        }
    }

    /// Whether the sizes lie within `1` and `limit`.
    pub open spec fn within(self, limit: int) -> bool {
        &&& 1 <= self.low
        &&& 0 <= self.high <= limit
        &&& self.low <= limit + 1
        &&& 1 <= self.best <= limit
    }

    /// Whether the search agrees with `fits`: what lies below the undecided sizes fits, up to
    /// `best`, and what lies above does not.
    pub open spec fn agrees_with(self, fits: spec_fn(int) -> bool, limit: int) -> bool {
        &&& forall|k: int| 1 <= k < self.low ==> #[trigger] fits(k)
        &&& forall|k: int| self.high < k <= limit ==> !#[trigger] fits(k)
        &&& self.low <= self.high + 1
        &&& self.best == if self.low == 1 {
            1
        } else {
            self.low - 1
        }
    }
}

impl ChunkSizeSearch {
    #[verifier::type_invariant]
    spec fn in_range(&self) -> bool {
        &&& 1 <= self.low <= usize::MAX + 1
        &&& self.high <= usize::MAX
    }

    /// A search over the sizes from `1` to `desired`; a `desired` of `0` counts as `1`.
    pub fn new(desired: usize) -> (r: Self)
        ensures
            r@ == (SearchV {
                low: 1,
                high: if desired >= 1 {
                    desired as int
                } else {
                    1
                },
                best: 1,
            }),
    {
        ChunkSizeSearch {
            low: 1,
            high: if desired >= 1 {
                desired as u128
            } else {
                1
            },
            best: 1,
        }
    }

    /// The size to measure next; nothing when the search is over.
    pub fn probe_size(&self) -> (r: Option<usize>)
        ensures
            match r {
                Some(size) => self@.probe() == Some(size as int),
                None => self@.probe() is None,
            },
    {
        proof {
            use_type_invariant(self);
        }
        if self.low <= self.high {
            Some((self.low + (self.high - self.low) / 2) as usize)
        } else {
            None
        }
    }

    /// Takes whether the event for [`Self::probe_size`] fits.
    pub fn record(&mut self, fits: bool)
        ensures
            final(self)@ == old(self)@.after(fits),
    {
        proof {
            use_type_invariant(&*self);
        }
        if let Some(mid) = self.probe_size() {
            if fits {
                self.low = mid as u128 + 1;
                self.best = mid;
            } else {
                self.high = mid as u128 - 1;
            }
        }
    }

    /// The answer so far: final once there is nothing left to measure.
    pub fn best(&self) -> (r: usize)
        ensures
            r == self@.best,
    {
        self.best
    }
}

/// Each answer shortens the search and keeps its sizes between `1` and the desired size.
pub proof fn search_converges(s: SearchV, fits: bool, limit: int)
    requires
        s.within(limit),
        s.probe() is Some,
    ensures
        s.after(fits).within(limit),
        s.after(fits).high - s.after(fits).low < s.high - s.low,
        1 <= s.probe().unwrap() <= limit,
{
}

/// With answers from a `fits` that holds of every size below one that fits, the search stays in
/// agreement with it; once over, its answer is the largest size that fits or, where none does, `1`.
pub proof fn search_finds_largest(s: SearchV, fits: spec_fn(int) -> bool, limit: int)
    requires
        s.within(limit),
        s.agrees_with(fits, limit),
        forall|j: int, k: int| 1 <= j <= k <= limit && #[trigger] fits(k) ==> #[trigger] fits(j),
    ensures
        s.probe() matches Some(mid) ==> s.after(fits(mid)).agrees_with(fits, limit),
        s.probe() is None ==> (if fits(1) {
            fits(s.best) && forall|k: int| s.best < k <= limit ==> !#[trigger] fits(k)
        } else {
            s.best == 1
        }),
{
    if s.probe() is None {
        assert(s.low == s.high + 1);
        if s.low > 1 {
            assert(fits(s.low - 1));
            assert(fits(1));
        }
    }
}

} // verus!
