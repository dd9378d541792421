use block_sync::chunks::chunk_hashes;
use block_sync::engine::{FetchOutcome, SyncEngine, DEFAULT_TARGET_HEIGHT, INFLIGHT_CEILING};
use block_sync::heights::DownloadedHeights;
use block_sync::ids::{genesis_hash, BlockHash, Height};

fn hash(tag: u8) -> BlockHash {
    BlockHash { bytes: [tag; 32] }
}

fn hashes(n: usize) -> Vec<BlockHash> {
    let mut v = Vec::new();
    for i in 0..n {
        v.push(hash((i % 251) as u8));
    }
    v
}

fn heights(values: &[u32]) -> Vec<Height> {
    values.iter().map(|&value| Height { value }).collect()
}

#[test]
fn genesis_hash_is_fixed_constant() {
    let g = genesis_hash();
    assert_eq!(g.bytes[0], 8);
    assert_eq!(g.bytes[1], 206);
    assert_eq!(g.bytes[30], 4);
    assert_eq!(g.bytes[31], 0);
}

#[test]
fn fresh_engine_starts_at_genesis() {
    let e = SyncEngine::new(DEFAULT_TARGET_HEIGHT);
    assert_eq!(e.tip, genesis_hash());
    assert_eq!(e.requested_count, 0);
    assert_eq!(e.in_flight, 0);
    assert_eq!(e.downloaded_len(), 1);
    assert!(e.has_downloaded(Height { value: 0 }));
}

#[test]
fn first_discovery_of_five_hashes() {
    // Genesis tip; five discovered hashes: the tip becomes the fifth hash,
    // the requested count becomes five, and one fetch chunk is issued.
    let mut e = SyncEngine::new(DEFAULT_TARGET_HEIGHT);
    let batch = vec![hash(1), hash(2), hash(3), hash(4), hash(5)];
    e.record_discovery(&batch);
    assert_eq!(e.tip, hash(5));
    assert_eq!(e.requested_count, 5);
    let chunks = e.plan_fetches(&batch);
    assert_eq!(chunks.len(), 1);
    assert_eq!(chunks[0], batch);
    assert_eq!(e.in_flight, 1);
}

#[test]
fn tip_advances_to_last_hash_of_each_batch() {
    let mut e = SyncEngine::new(DEFAULT_TARGET_HEIGHT);
    let first = vec![hash(10), hash(11)];
    e.record_discovery(&first);
    assert_eq!(e.tip, hash(11));
    let second = vec![hash(12), hash(13), hash(14)];
    e.record_discovery(&second);
    assert_eq!(e.tip, hash(14));
}

#[test]
fn requested_count_is_sum_of_batch_sizes() {
    let mut e = SyncEngine::new(DEFAULT_TARGET_HEIGHT);
    e.record_discovery(&hashes(5));
    assert_eq!(e.requested_count, 5);
    e.record_discovery(&hashes(12));
    assert_eq!(e.requested_count, 17);
    e.record_discovery(&hashes(1));
    assert_eq!(e.requested_count, 18);
}

#[test]
fn discovery_gate_stops_at_target() {
    let mut e = SyncEngine::new(5);
    assert!(e.needs_discovery());
    e.record_discovery(&hashes(3));
    assert!(e.needs_discovery());
    e.record_discovery(&hashes(2));
    assert!(!e.needs_discovery());
}

#[test]
fn discovery_request_is_anchored_at_tip() {
    let mut e = SyncEngine::new(DEFAULT_TARGET_HEIGHT);
    let r = e.discovery_request();
    assert_eq!(r.known_blocks, vec![genesis_hash()]);
    assert!(r.stop.is_none());
    e.record_discovery(&vec![hash(42)]);
    let r2 = e.discovery_request();
    assert_eq!(r2.known_blocks, vec![hash(42)]);
    assert!(r2.stop.is_none());
}

#[test]
fn twenty_five_hashes_make_three_chunks() {
    let batch = hashes(25);
    let chunks = chunk_hashes(&batch);
    assert_eq!(chunks.len(), 3);
    assert_eq!(chunks[0].len(), 10);
    assert_eq!(chunks[1].len(), 10);
    assert_eq!(chunks[2].len(), 5);
    let mut flat = Vec::new();
    for c in &chunks {
        flat.extend_from_slice(c);
    }
    assert_eq!(flat, batch);
}

#[test]
fn chunking_edge_sizes() {
    assert_eq!(chunk_hashes(&hashes(0)).len(), 0);
    assert_eq!(chunk_hashes(&hashes(1)).len(), 1);
    assert_eq!(chunk_hashes(&hashes(10)).len(), 1);
    let eleven = chunk_hashes(&hashes(11));
    assert_eq!(eleven.len(), 2);
    assert_eq!(eleven[0].len(), 10);
    assert_eq!(eleven[1].len(), 1);
}

#[test]
fn drain_from_305_to_300_resolves_exactly_five() {
    // The in-flight pool holds 305 operations; a drain to the ceiling of
    // 300 resolves exactly five of them and leaves the pool at 300.
    let mut e = SyncEngine::new(DEFAULT_TARGET_HEIGHT);
    let batch = hashes(3050);
    e.record_discovery(&batch);
    let chunks = e.plan_fetches(&batch);
    assert_eq!(chunks.len(), 305);
    assert_eq!(e.in_flight, 305);
    let mut resolved = 0;
    while e.drain_needed(INFLIGHT_CEILING) {
        e.record_resolution(FetchOutcome::Blocks(heights(&[resolved as u32])));
        resolved += 1;
    }
    assert_eq!(resolved, 5);
    assert_eq!(e.in_flight, 300);
}

#[test]
fn drain_is_a_noop_at_or_below_goal() {
    let mut e = SyncEngine::new(DEFAULT_TARGET_HEIGHT);
    let batch = hashes(30);
    e.record_discovery(&batch);
    e.plan_fetches(&batch);
    assert_eq!(e.in_flight, 3);
    assert!(!e.drain_needed(3));
    assert!(!e.drain_needed(300));
    assert!(e.drain_needed(2));
}

#[test]
fn failed_fetch_is_dropped_without_recording() {
    // A fetch that resolves with an error leaves the pool, records no
    // height, aborts nothing, and the drain continues with the rest.
    let mut e = SyncEngine::new(DEFAULT_TARGET_HEIGHT);
    let batch = hashes(20);
    e.record_discovery(&batch);
    e.plan_fetches(&batch);
    assert_eq!(e.in_flight, 2);
    let before = e.downloaded_len();
    e.record_resolution(FetchOutcome::Failed);
    assert_eq!(e.in_flight, 1);
    assert_eq!(e.downloaded_len(), before);
    e.record_resolution(FetchOutcome::Blocks(heights(&[3])));
    assert_eq!(e.in_flight, 0);
    assert!(e.has_downloaded(Height { value: 3 }));
}

#[test]
fn unexpected_response_is_a_noop() {
    let mut e = SyncEngine::new(DEFAULT_TARGET_HEIGHT);
    let batch = hashes(10);
    e.record_discovery(&batch);
    e.plan_fetches(&batch);
    let before = e.downloaded_len();
    e.record_resolution(FetchOutcome::Unexpected);
    assert_eq!(e.in_flight, 0);
    assert_eq!(e.downloaded_len(), before);
}

#[test]
fn final_drain_to_zero_records_every_successful_fetch() {
    let mut e = SyncEngine::new(DEFAULT_TARGET_HEIGHT);
    let batch = hashes(40);
    e.record_discovery(&batch);
    e.plan_fetches(&batch);
    assert_eq!(e.in_flight, 4);
    e.record_resolution(FetchOutcome::Blocks(heights(&[1, 2])));
    e.record_resolution(FetchOutcome::Failed);
    e.record_resolution(FetchOutcome::Blocks(heights(&[4])));
    while e.drain_needed(0) {
        e.record_resolution(FetchOutcome::Unexpected);
    }
    assert_eq!(e.in_flight, 0);
    assert!(e.has_downloaded(Height { value: 1 }));
    assert!(e.has_downloaded(Height { value: 2 }));
    assert!(e.has_downloaded(Height { value: 4 }));
    assert!(!e.has_downloaded(Height { value: 3 }));
}

#[test]
fn height_insertion_is_idempotent() {
    // Inserting the same height twice leaves the set unchanged in size and
    // contents.
    let mut d = DownloadedHeights::new();
    d.insert(Height { value: 7 });
    d.insert(Height { value: 3 });
    assert_eq!(d.len(), 2);
    d.insert(Height { value: 7 });
    assert_eq!(d.len(), 2);
    assert!(d.contains(Height { value: 3 }));
    assert!(d.contains(Height { value: 7 }));
    assert!(!d.contains(Height { value: 5 }));
}

#[test]
fn downloaded_heights_track_maximum() {
    let mut d = DownloadedHeights::new();
    d.insert(Height { value: 12 });
    d.insert(Height { value: 5 });
    d.insert(Height { value: 9 });
    assert_eq!(d.max(), Height { value: 12 });
    d.insert(Height { value: 30 });
    assert_eq!(d.max(), Height { value: 30 });
}

#[test]
fn out_of_order_height_recording_is_tolerated() {
    let mut e = SyncEngine::new(DEFAULT_TARGET_HEIGHT);
    let batch = hashes(20);
    e.record_discovery(&batch);
    e.plan_fetches(&batch);
    e.record_resolution(FetchOutcome::Blocks(heights(&[9, 2, 9, 4])));
    e.record_resolution(FetchOutcome::Blocks(heights(&[2, 1])));
    assert_eq!(e.in_flight, 0);
    // genesis height 0 plus the distinct heights 1, 2, 4, 9
    assert_eq!(e.downloaded_len(), 5);
}
