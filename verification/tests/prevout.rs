use zinder_ingest::artifact_builder::{CommitmentTreeSizes, PreparedCanonicalBlock};
use zinder_ingest::artifacts::{
    BlockHeaderArtifact, CanonicalBlockFacts, CanonicalBlockReplayEnvelope,
    CanonicalTransactionFacts, CompactBlock, TransactionIntrinsicValueBalances,
    TransactionPublicFacts, TransparentInputFact, TransparentOutputArtifact,
    TransparentOutputFact,
};
use zinder_ingest::bounds::nonzero_u64;
use zinder_ingest::bulk_catchup::heap::{
    block_commit_preparation_resident_bytes, prepared_block_resident_bytes,
};
use zinder_ingest::bulk_catchup::prevout_cache::{
    transparent_output_cache_entry_bytes, RecentTransparentOutputCache,
};
use zinder_ingest::bulk_catchup::prevout_window::{
    cold_outpoints_in_order, look_up_window, prepare_resolved_window, prevout_resolution_stats,
    spent_outpoints_for_prepared_block, PrevoutLookup, QueuedPreparedBlock,
};
use zinder_ingest::bulk_catchup::watermark::ByteWatermark;
use zinder_ingest::ids::{
    BlockHash, BlockHeight, TransactionId, TransparentAddressScriptHash, TransparentOutPoint,
};
use zinder_ingest::outpoint_map::{outpoint_precedes, OutPointMap};

fn outpoint(seed: u8) -> TransparentOutPoint {
    TransparentOutPoint::new(TransactionId::from_bytes([seed; 32]), 0)
}

fn output(seed: u8) -> TransparentOutputArtifact {
    TransparentOutputArtifact {
        outpoint: outpoint(seed),
        value_zat: u64::from(seed),
        script_pub_key: vec![seed; 10],
        address_script_hash: TransparentAddressScriptHash([seed; 32]),
        block_height: BlockHeight::new(u32::from(seed)),
        block_hash: BlockHash::from_bytes([seed; 32]),
    }
}

fn prepared(height: u32, created: u8, spent: Vec<u8>) -> PreparedCanonicalBlock {
    let mut transparent_inputs = Vec::new();
    for (index, seed) in spent.into_iter().enumerate() {
        transparent_inputs.push(TransparentInputFact {
            input_index: index as u32,
            spent_outpoint: outpoint(seed),
        });
    }
    PreparedCanonicalBlock {
        facts: CanonicalBlockFacts {
            block_header: BlockHeaderArtifact {
                height: BlockHeight::new(height),
                block_hash: BlockHash::from_bytes([height as u8; 32]),
                parent_hash: BlockHash::from_bytes([height as u8 - 1; 32]),
                merkle_root: [0; 32],
                commitment_bytes: [0; 32],
                block_time: 0,
                difficulty_bits: 0,
                nonce: [0; 32],
                version: 4,
                block_size_bytes: 1,
            },
            raw_block_bytes: None,
            transactions: vec![CanonicalTransactionFacts {
                public_facts: TransactionPublicFacts {
                    transaction_id: TransactionId::from_bytes([created; 32]),
                    serialized_size_bytes: 1,
                    unsupported_sections: Vec::new(),
                },
                intrinsic_value_balances: TransactionIntrinsicValueBalances {
                    sprout_zat: 0,
                    sapling_zat: 0,
                    orchard_zat: 0,
                    ironwood_zat: 0,
                },
                transparent_inputs,
                transparent_outputs: vec![TransparentOutputFact {
                    output_index: 0,
                    value_zat: u64::from(created),
                    script_pub_key: vec![created; 10],
                    address_script_hash: TransparentAddressScriptHash([created; 32]),
                }],
                raw_transaction_bytes: None,
            }],
        },
        partial_compact_block: CompactBlock {
            height: u64::from(height),
            hash: Vec::new(),
            prev_hash: Vec::new(),
            time: 0,
            header: Vec::new(),
            vtx: Vec::new(),
            chain_metadata: None,
        },
        tree_size_additions: CommitmentTreeSizes { sapling: 0, orchard: 0, ironwood: 0 },
    }
}

fn queued(
    watermark: &mut ByteWatermark,
    prepared: PreparedCanonicalBlock,
) -> QueuedPreparedBlock {
    let replay_envelope = CanonicalBlockReplayEnvelope { payload_bytes: vec![1, 2, 3] };
    let resident_bytes = prepared_block_resident_bytes(&prepared, 3);
    let reservation = match watermark.try_reserve(resident_bytes) {
        Some(reservation) => reservation,
        None => panic!("prepared block reservation should fit"),
    };
    QueuedPreparedBlock { prepared, replay_envelope, resident_bytes, reservation }
}

#[test]
fn the_cache_evicts_its_oldest_output_first() {
    let mut watermark = ByteWatermark::new(nonzero_u64(10_000_000));
    let mut cache = RecentTransparentOutputCache::new();
    for seed in 1..=3 {
        let bytes = transparent_output_cache_entry_bytes(&output(seed));
        assert!(bytes > 0);
        cache.insert(&mut watermark, output(seed), bytes);
    }
    assert_eq!(cache.resident_bytes, watermark.reserved_bytes);
    assert!(cache.get(&outpoint(1)).is_some());
    assert!(cache.evict_oldest(&mut watermark));
    assert!(cache.get(&outpoint(1)).is_none());
    match cache.take(&mut watermark, &outpoint(2)) {
        Some(taken) => assert_eq!(taken.value_zat, 2),
        None => panic!("the second output is cached"),
    }
    assert!(cache.evict_oldest(&mut watermark));
    assert!(!cache.evict_oldest(&mut watermark));
    assert_eq!(cache.resident_bytes, 0);
    assert_eq!(watermark.reserved_bytes, 0);
}

#[test]
fn the_cache_makes_room_for_other_work() {
    let mut watermark = ByteWatermark::new(nonzero_u64(1_000));
    let mut cache = RecentTransparentOutputCache::new();
    cache.insert(&mut watermark, output(1), 600);
    cache.insert(&mut watermark, output(2), 300);
    assert_eq!(watermark.reserved_bytes, 900);
    let reservation = cache.reserve(&mut watermark, 500);
    assert!(reservation.is_some());
    assert!(cache.get(&outpoint(1)).is_none());
    assert!(cache.get(&outpoint(2)).is_some());
    assert_eq!(watermark.reserved_bytes, 800);
}

#[test]
fn lookups_prefer_the_block_then_the_window_then_the_cache() {
    let mut watermark = ByteWatermark::new(nonzero_u64(10_000_000));
    let mut cache = RecentTransparentOutputCache::new();
    let cached_bytes = transparent_output_cache_entry_bytes(&output(50));
    cache.insert(&mut watermark, output(50), cached_bytes);
    let first = queued(&mut watermark, prepared(1, 101, vec![101, 50]));
    let second = queued(&mut watermark, prepared(2, 102, vec![101, 77]));
    assert_eq!(
        spent_outpoints_for_prepared_block(&second.prepared.facts),
        vec![outpoint(77), outpoint(101)]
    );
    let window = look_up_window(&mut cache, &mut watermark, vec![first, second]);
    assert!(matches!(
        &window.blocks[0].lookups[0],
        PrevoutLookup::RecentCache(found) if found.value_zat == 50
    ));
    assert!(matches!(window.blocks[0].lookups[1], PrevoutLookup::SameBlock));
    assert!(matches!(window.blocks[1].lookups[0], PrevoutLookup::Cold));
    assert!(matches!(
        &window.blocks[1].lookups[1],
        PrevoutLookup::SameWindow(found) if found.value_zat == 101
    ));
    assert_eq!(cold_outpoints_in_order(&window), vec![outpoint(77)]);
    let stats = prevout_resolution_stats(&window, 1, 1);
    assert_eq!(
        (stats.same_block, stats.same_window, stats.recent_cache),
        (1, 1, 1)
    );
    assert_eq!((stats.store_requested, stats.store_resolved), (1, 1));

    let mut store = OutPointMap::new();
    store.insert(outpoint(77), output(77));
    let resolved = prepare_resolved_window(&mut cache, &mut watermark, window, &store);
    let mut prefetched = Vec::new();
    for block in &resolved {
        let mut values = Vec::new();
        for output in &block.prefetched_spent_transparent_outputs {
            values.push(output.value_zat);
        }
        prefetched.push(values);
    }
    assert_eq!(prefetched, vec![vec![50], vec![77, 101]]);
    assert!(cache.get(&outpoint(102)).is_some());
    assert!(cache.get(&outpoint(101)).is_none());
}

#[test]
fn resolved_window_reservation_covers_commit_handoff_and_cache_ownership() {
    let mut watermark = ByteWatermark::new(nonzero_u64(64 * 1_024 * 1_024));
    let mut cache = RecentTransparentOutputCache::new();
    let block = queued(&mut watermark, prepared(1, 101, Vec::new()));
    let window = look_up_window(&mut cache, &mut watermark, vec![block]);
    let mut resolved =
        prepare_resolved_window(&mut cache, &mut watermark, window, &OutPointMap::new());
    let resident_bytes = block_commit_preparation_resident_bytes(
        &resolved[0].prepared,
        3,
        &resolved[0].prefetched_spent_transparent_outputs,
    );
    assert_eq!(
        watermark.snapshot().reserved_bytes,
        resident_bytes + cache.resident_bytes
    );
    watermark.release(&mut resolved[0].block_prepare_reservation);
    assert_eq!(watermark.snapshot().reserved_bytes, cache.resident_bytes);
    while cache.evict_oldest(&mut watermark) {}
    assert_eq!(watermark.snapshot().reserved_bytes, 0);
}

#[test]
fn an_outpoint_map_keeps_one_value_per_outpoint_in_order() {
    let mut map = OutPointMap::new();
    map.insert(outpoint(3), 30);
    map.insert(outpoint(1), 10);
    map.insert(outpoint(3), 31);
    map.insert_if_absent(outpoint(1), 11);
    map.insert_if_absent(outpoint(2), 20);
    assert_eq!(map.len(), 3);
    assert_eq!(map.entry_at(0), &(outpoint(1), 10));
    assert_eq!(map.entry_at(1), &(outpoint(2), 20));
    assert_eq!(map.entry_at(2), &(outpoint(3), 31));
    assert_eq!(map.get(&outpoint(3)), Some(&31));
    assert_eq!(map.remove(&outpoint(1)), Some(10));
    assert!(!map.contains_key(&outpoint(1)));
    assert_eq!(map.remove(&outpoint(1)), None);
    assert!(outpoint_precedes(&outpoint(1), &outpoint(2)));
    assert!(!outpoint_precedes(&outpoint(2), &outpoint(2)));
}
