//! The engine's global laws, proved over the model transitions.
//!
//! Each law speaks of arbitrary states and arbitrary series of events, over
//! the same spec functions the engine's method contracts use.

use vstd::prelude::*;
use crate::engine::{
    discovery_step, fan_out_step, heights_set, outcome_heights, resolution_step, FetchOutcome,
    SyncModel,
};
use crate::ids::Height;

verus! {

/// The model after a series of successful discovery calls, applied in
/// order.
pub open spec fn apply_discoveries(
    m: SyncModel,
    batches: Seq<Seq<crate::ids::BlockHash>>,
) -> SyncModel
    decreases batches.len(),
{
    if batches.len() == 0 {
        m
    } else {
        discovery_step(apply_discoveries(m, batches.drop_last()), batches.last())
    }
}

/// The total number of hashes in a series of batches.
pub open spec fn total_len(batches: Seq<Seq<crate::ids::BlockHash>>) -> int
    decreases batches.len(),
{
    if batches.len() == 0 {
        0
    } else {
        total_len(batches.drop_last()) + batches.last().len()
    }
}

/// The model after a series of resolved fetch operations, applied in
/// completion order.
pub open spec fn apply_resolutions(m: SyncModel, os: Seq<FetchOutcome>) -> SyncModel
    decreases os.len(),
{
    if os.len() == 0 {
        m
    } else {
        resolution_step(apply_resolutions(m, os.drop_last()), os.last())
    }
}

/// Law: after any series of discovery calls, the requested count equals its
/// starting value plus the sum of all batch sizes; in particular it never
/// decreases. Discovery calls touch neither the pool nor the downloaded
/// set.
pub proof fn lemma_requested_counts_batches(m: SyncModel, batches: Seq<Seq<crate::ids::BlockHash>>)
    ensures
        apply_discoveries(m, batches).requested == m.requested + total_len(batches),
        apply_discoveries(m, batches).in_flight == m.in_flight,
        apply_discoveries(m, batches).downloaded == m.downloaded,
        apply_discoveries(m, batches).target == m.target,
    decreases batches.len(),
{
    if batches.len() > 0 {
        lemma_requested_counts_batches(m, batches.drop_last());
    }
}

/// Law: the tip is never invented. After any series of discovery calls
/// with non-empty batches, the tip is either still the starting tip or the
/// last hash of the last batch returned by the network.
pub proof fn lemma_tip_never_invented(m: SyncModel, batches: Seq<Seq<crate::ids::BlockHash>>)
    ensures
        batches.len() == 0 ==> apply_discoveries(m, batches).tip == m.tip,
        batches.len() > 0 ==> apply_discoveries(m, batches).tip == batches.last().last(),
{
}

/// Law: no single step of the engine ever decreases the requested count.
pub proof fn lemma_requested_monotonic(
    m: SyncModel,
    hashes: Seq<crate::ids::BlockHash>,
    k: int,
    o: FetchOutcome,
)
    ensures
        discovery_step(m, hashes).requested >= m.requested,
        fan_out_step(m, k).requested == m.requested,
        resolution_step(m, o).requested == m.requested,
{
}

/// Law: the idle phase is permanent. Once the requested count has reached
/// the target, no fan-out and no resolution brings it back below, so the
/// gate never reopens.
pub proof fn lemma_idle_phase_permanent(m: SyncModel, k: int, o: FetchOutcome)
    requires
        m.requested >= m.target,
    ensures
        fan_out_step(m, k).requested >= fan_out_step(m, k).target,
        resolution_step(m, o).requested >= resolution_step(m, o).target,
{
}

/// Law: the termination gate never overshoots by more than one batch. A
/// discovery call is only issued while the requested count is below the
/// target, so afterwards the count is below the target plus that one
/// batch's size.
pub proof fn lemma_no_overshoot(m: SyncModel, hashes: Seq<crate::ids::BlockHash>)
    requires
        m.requested < m.target,
    ensures
        discovery_step(m, hashes).requested < m.target + hashes.len(),
{
}

/// Law: resolving an operation always shrinks the pool by exactly one, and
/// never touches the tip, the requested count or the target.
pub proof fn lemma_resolution_shrinks_pool(m: SyncModel, o: FetchOutcome)
    ensures
        resolution_step(m, o).in_flight == m.in_flight - 1,
        resolution_step(m, o).tip == m.tip,
        resolution_step(m, o).requested == m.requested,
        resolution_step(m, o).target == m.target,
{
}

/// Law: a drain to a goal resolves exactly `in_flight - goal` operations
/// and leaves the pool at the goal; draining never increases the pool.
pub proof fn lemma_drain_reaches_goal(m: SyncModel, os: Seq<FetchOutcome>, goal: int)
    requires
        0 <= goal <= m.in_flight,
        os.len() == m.in_flight - goal,
    ensures
        apply_resolutions(m, os).in_flight == goal,
    decreases os.len(),
{
    if os.len() > 0 {
        lemma_drain_reaches_goal(m, os.drop_last(), goal + 1);
    }
}

/// Law: resolving operations only ever grows the downloaded set.
pub proof fn lemma_downloaded_monotonic(m: SyncModel, os: Seq<FetchOutcome>)
    ensures
        m.downloaded.subset_of(apply_resolutions(m, os).downloaded),
    decreases os.len(),
{
    if os.len() > 0 {
        lemma_downloaded_monotonic(m, os.drop_last());
    }
}

/// Law: recording a height is idempotent: recording it twice is the same
/// as recording it once, and recording an already-present height changes
/// nothing.
pub proof fn lemma_record_idempotent(s: Set<u32>, h: u32)
    ensures
        s.insert(h).insert(h) == s.insert(h),
        s.contains(h) ==> s.insert(h) == s,
{
    assert(s.insert(h).insert(h) =~= s.insert(h));
    if s.contains(h) {
        assert(s.insert(h) =~= s);
    }
}

/// Law: a final drain that resolves every outstanding operation empties the
/// pool, and afterwards every height carried by any successful fetch in the
/// series stands recorded in the downloaded set.
pub proof fn lemma_final_drain_complete(m: SyncModel, os: Seq<FetchOutcome>)
    requires
        os.len() == m.in_flight,
        m.in_flight >= 0,
    ensures
        apply_resolutions(m, os).in_flight == 0,
        forall|i: int|
            0 <= i < os.len() ==> #[trigger] outcome_heights(os[i]).subset_of(
                apply_resolutions(m, os).downloaded,
            ),
{
    lemma_drain_reaches_goal(m, os, 0);
    lemma_outcomes_recorded(m, os);
}

/// Every outcome in a resolved series has its heights in the final
/// downloaded set.
proof fn lemma_outcomes_recorded(m: SyncModel, os: Seq<FetchOutcome>)
    ensures
        forall|i: int|
            0 <= i < os.len() ==> #[trigger] outcome_heights(os[i]).subset_of(
                apply_resolutions(m, os).downloaded,
            ),
    decreases os.len(),
{
    if os.len() > 0 {
        let prev = apply_resolutions(m, os.drop_last());
        lemma_outcomes_recorded(m, os.drop_last());
        assert forall|i: int|
            0 <= i < os.len() implies #[trigger] outcome_heights(os[i]).subset_of(
            apply_resolutions(m, os).downloaded,
        ) by {
            if i < os.len() - 1 {
                assert(os.drop_last()[i] == os[i]);
                assert(outcome_heights(os[i]).subset_of(prev.downloaded));
            }
        }
    }
}

/// Membership in the height set of a list: exactly the values the list
/// holds.
pub proof fn lemma_heights_set_contains(hs: Seq<Height>, x: u32)
    ensures
        heights_set(hs).contains(x) <==> exists|i: int| 0 <= i < hs.len() && hs[i].value == x,
    decreases hs.len(),
{
    if hs.len() > 0 {
        lemma_heights_set_contains(hs.drop_last(), x);
        if heights_set(hs).contains(x) {
            if hs.last().value == x {
                assert(hs[hs.len() - 1].value == x);
            } else {
                let i = choose|i: int| 0 <= i < hs.drop_last().len() && hs.drop_last()[i].value == x;
                assert(hs[i].value == x);
            }
        }
        if exists|i: int| 0 <= i < hs.len() && hs[i].value == x {
            let i = choose|i: int| 0 <= i < hs.len() && hs[i].value == x;
            if i < hs.len() - 1 {
                assert(hs.drop_last()[i].value == x);
            }
        }
    }
}

} // verus!
