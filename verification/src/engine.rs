//! The sync engine's state and its transitions.
//!
//! The engine owns the chain tip it is anchored to, the running count of
//! requested hashes, the size of the in-flight fetch pool, and the set of
//! downloaded heights. A driver loop outside the library performs the
//! network and storage traffic and feeds the results back in as plain
//! values; every state change is a method here, specified against the
//! mathematical model [`SyncModel`].

use vstd::prelude::*;
use crate::chunks::{chunk_count, chunk_hashes, chunk_slice, FETCH_CHUNK_SIZE};
use crate::heights::DownloadedHeights;
use crate::ids::{genesis_hash, genesis_spec, BlockHash, Height};

verus! {

/// The most fetch operations allowed outstanding at once: the drain goal of
/// the active phase's backpressure step.
pub const INFLIGHT_CEILING: usize = 300;

/// The target depth of the reference deployment: once this many hashes have
/// been requested, the engine considers itself roughly caught up.
pub const DEFAULT_TARGET_HEIGHT: usize = 700000;

/// What one resolved fetch operation came back with, reduced to the plain
/// values the engine reads.
pub enum FetchOutcome {
    /// The fetch succeeded and carried blocks with these heights.
    Blocks(Vec<Height>),
    /// The fetch succeeded but carried a response of another shape; it is
    /// discarded without effect.
    Unexpected,
    /// The fetch itself errored; the operation is dropped without retry.
    Failed,
}

/// A discovery request: ask peers for the hashes that follow the known
/// blocks, with an optional stop hash.
pub struct DiscoveryRequest {
    pub known_blocks: Vec<BlockHash>,
    pub stop: Option<BlockHash>,
}

/// The mathematical model of the engine's state.
pub struct SyncModel {
    /// The most recently known frontier hash.
    pub tip: BlockHash,
    /// How many hashes have been requested so far.
    pub requested: int,
    /// How many fetch operations are outstanding.
    pub in_flight: int,
    /// The heights recorded as downloaded.
    pub downloaded: Set<u32>,
    /// The requested-count threshold that ends the active phase.
    pub target: int,
}

/// The set of height values in a list of heights.
pub open spec fn heights_set(hs: Seq<Height>) -> Set<u32>
    decreases hs.len(),
{
    if hs.len() == 0 {
        Set::empty()
    } else {
        heights_set(hs.drop_last()).insert(hs.last().value)
    }
}

/// The heights a fetch outcome carries: those of its blocks on success,
/// none otherwise.
pub open spec fn outcome_heights(o: FetchOutcome) -> Set<u32> {
    match o {
        FetchOutcome::Blocks(hs) => heights_set(hs@),
        FetchOutcome::Unexpected => Set::empty(),
        FetchOutcome::Failed => Set::empty(),
    }
}

/// One successful discovery call: the tip advances to the batch's last hash
/// and the requested count grows by the batch size.
pub open spec fn discovery_step(m: SyncModel, hashes: Seq<BlockHash>) -> SyncModel
    recommends
        hashes.len() > 0,
{
    SyncModel {
        tip: hashes.last(),
        requested: m.requested + hashes.len(),
        in_flight: m.in_flight,
        downloaded: m.downloaded,
        target: m.target,
    }
}

/// Fanning a batch out into `k` fetch operations: the pool grows by `k`.
pub open spec fn fan_out_step(m: SyncModel, k: int) -> SyncModel {
    SyncModel {
        tip: m.tip,
        requested: m.requested,
        in_flight: m.in_flight + k,
        downloaded: m.downloaded,
        target: m.target,
    }
}

/// One resolved fetch operation: it leaves the pool, and on success its
/// blocks' heights are recorded.
pub open spec fn resolution_step(m: SyncModel, o: FetchOutcome) -> SyncModel
    recommends
        m.in_flight > 0,
{
    SyncModel {
        tip: m.tip,
        requested: m.requested,
        in_flight: m.in_flight - 1,
        downloaded: m.downloaded.union(outcome_heights(o)),
        target: m.target,
    }
}

/// The sync engine: exclusively owns its bookkeeping state; all mutation
/// goes through the methods below.
pub struct SyncEngine {
    pub tip: BlockHash,
    pub requested_count: usize,
    pub in_flight: usize,
    pub downloaded: DownloadedHeights,
    pub target_height: usize,
}

impl View for SyncEngine {
    type V = SyncModel;

    open spec fn view(&self) -> SyncModel {
        SyncModel {
            tip: self.tip,
            requested: self.requested_count as int,
            in_flight: self.in_flight as int,
            downloaded: self.downloaded@,
            target: self.target_height as int,
        }
    }
}

impl SyncEngine {
    /// The representation invariant: the height tracker is well formed.
    pub open spec fn inv(&self) -> bool {
        self.downloaded.well_formed()
    }

    /// A fresh engine: anchored at the genesis hash, nothing requested,
    /// nothing in flight, and only the genesis height recorded.
    pub fn new(target_height: usize) -> (e: SyncEngine)
        ensures
            e.inv(),
            e@.tip == genesis_spec(),
            e@.requested == 0,
            e@.in_flight == 0,
            e@.downloaded == Set::<u32>::empty().insert(0u32),
            e@.target == target_height,
    {
        let mut downloaded = DownloadedHeights::new();
        downloaded.insert(Height { value: 0 });
        SyncEngine {
            tip: genesis_hash(),
            requested_count: 0,
            in_flight: 0,
            downloaded,
            target_height,
        }
    }

    /// The active phase's gate: whether another discovery call is due. The
    /// engine stops issuing discovery calls at the first point where the
    /// requested count reaches the target.
    pub fn needs_discovery(&self) -> (r: bool)
        ensures
            r == (self@.requested < self@.target),
    {
        self.requested_count < self.target_height
    }

    /// The next discovery request: anchored at the current tip, with no
    /// stop hash.
    pub fn discovery_request(&self) -> (r: DiscoveryRequest)
        ensures
            r.known_blocks@ == seq![self@.tip],
            r.stop is None,
    {
        let mut known_blocks: Vec<BlockHash> = Vec::new();
        known_blocks.push(self.tip);
        proof {
            assert(known_blocks@ =~= seq![self@.tip]);
        }
        DiscoveryRequest { known_blocks, stop: None }
    }

    /// Record a successful discovery call: the tip advances to the batch's
    /// last hash and the requested count grows by the batch size.
    pub fn record_discovery(&mut self, hashes: &Vec<BlockHash>)
        requires
            old(self).inv(),
            hashes@.len() > 0,
            old(self)@.requested + hashes@.len() <= usize::MAX,
        ensures
            final(self).inv(),
            final(self)@ == discovery_step(old(self)@, hashes@),
            final(self)@.tip == hashes@.last(),
            final(self)@.requested == old(self)@.requested + hashes@.len(),
    {
        self.tip = hashes[hashes.len() - 1];
        self.requested_count = self.requested_count + hashes.len();
    }

    /// Fan a discovered batch out into fetch chunks and account for them in
    /// the in-flight pool: `ceil(len / 10)` chunks of at most 10 hashes,
    /// covering the batch exactly once, one pool entry per chunk.
    pub fn plan_fetches(&mut self, hashes: &Vec<BlockHash>) -> (chunks: Vec<Vec<BlockHash>>)
        requires
            old(self).inv(),
            old(self)@.in_flight + chunk_count(hashes@.len() as int) <= usize::MAX,
        ensures
            final(self).inv(),
            final(self)@ == fan_out_step(old(self)@, chunk_count(hashes@.len() as int)),
            chunks@.len() == chunk_count(hashes@.len() as int),
            forall|j: int| 0 <= j < chunks@.len() ==> #[trigger] chunks@[j]@ == chunk_slice(
                hashes@,
                j,
            ),
            forall|j: int|
                0 <= j < chunks@.len() ==> 1 <= #[trigger] chunks@[j]@.len() <= FETCH_CHUNK_SIZE,
            forall|j: int|
                0 <= j < chunks@.len() - 1 ==> #[trigger] chunks@[j]@.len() == FETCH_CHUNK_SIZE,
    {
        let chunks = chunk_hashes(hashes);
        self.in_flight = self.in_flight + chunks.len();
        chunks
    }

    /// The backpressure test: whether the pool still holds more operations
    /// than the drain goal allows.
    pub fn drain_needed(&self, goal: usize) -> (r: bool)
        ensures
            r == (self@.in_flight > goal),
    {
        self.in_flight > goal
    }

    /// Record one resolved fetch operation: it leaves the pool; on success
    /// every block height it carried is recorded (idempotently); a failed
    /// or ill-shaped outcome changes nothing else.
    pub fn record_resolution(&mut self, outcome: FetchOutcome)
        requires
            old(self).inv(),
            old(self)@.in_flight > 0,
        ensures
            final(self).inv(),
            final(self)@ == resolution_step(old(self)@, outcome),
            final(self)@.in_flight == old(self)@.in_flight - 1,
    {
        self.in_flight = self.in_flight - 1;
        match outcome {
            FetchOutcome::Blocks(heights) => {
                let ghost base = self.downloaded@;
                let n = heights.len();
                let mut idx: usize = 0;
                #[verifier::loop_isolation(false)]
                while idx < n
                    invariant
                        idx <= n,
                        self.tip == old(self).tip,
                        self.requested_count == old(self).requested_count,
                        self.target_height == old(self).target_height,
                        self.in_flight + 1 == old(self).in_flight,
                        self.downloaded.well_formed(),
                        self.downloaded@ == base.union(
                            heights_set(heights@.subrange(0, idx as int)),
                        ),
                    decreases n - idx,
                {
                    proof {
                        let pre = heights@.subrange(0, idx as int);
                        let post = heights@.subrange(0, idx + 1);
                        assert(post.drop_last() =~= pre);
                        assert(base.union(heights_set(pre)).insert(heights@[idx as int].value)
                            =~= base.union(heights_set(post)));
                    }
                    self.downloaded.insert(heights[idx]);
                    idx = idx + 1;
                }
                proof {
                    assert(heights@.subrange(0, n as int) =~= heights@);
                }
            },
            FetchOutcome::Unexpected => {
                proof {
                    assert(self.downloaded@.union(Set::<u32>::empty()) =~= self.downloaded@);
                }
            },
            FetchOutcome::Failed => {
                proof {
                    assert(self.downloaded@.union(Set::<u32>::empty()) =~= self.downloaded@);
                }
            },
        }
    }

    /// How many distinct heights have been downloaded.
    pub fn downloaded_len(&self) -> (r: usize)
        requires
            self.inv(),
        ensures
            r == self@.downloaded.len(),
    {
        self.downloaded.len()
    }

    /// Whether a height has been downloaded.
    pub fn has_downloaded(&self, h: Height) -> (r: bool)
        ensures
            r == self@.downloaded.contains(h.value),
    {
        self.downloaded.contains(h)
    }
}

} // verus!
