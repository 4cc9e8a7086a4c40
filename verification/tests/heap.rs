use zinder_ingest::bulk_catchup::heap::{
    block_commit_preparation_resident_bytes, canonical_block_facts_heap_bytes,
    compact_block_heap_bytes, estimated_peak_block_prepare_bytes, prepared_block_resident_bytes,
    retained_raw_blob_heap_bytes, vector_allocation_bytes, BLOCK_PREPARE_FIXED_PEAK_BYTES,
    BLOCK_PREPARE_PEAK_RAW_BYTE_MULTIPLIER,
};
use zinder_ingest::artifact_builder::{CommitmentTreeSizes, PreparedCanonicalBlock};
use zinder_ingest::artifacts::{
    BlockHeaderArtifact, CanonicalBlockFacts, CanonicalTransactionFacts, CompactBlock,
    TransactionIntrinsicValueBalances, TransactionPublicFacts, TransparentOutputArtifact,
};
use zinder_ingest::ids::{
    BlockHash, BlockHeight, TransactionId, TransparentAddressScriptHash, TransparentOutPoint,
};

fn facts(raw: Option<Vec<u8>>) -> CanonicalBlockFacts {
    CanonicalBlockFacts {
        block_header: BlockHeaderArtifact {
            height: BlockHeight::new(1),
            block_hash: BlockHash::from_bytes([1; 32]),
            parent_hash: BlockHash::from_bytes([0; 32]),
            merkle_root: [0; 32],
            commitment_bytes: [0; 32],
            block_time: 0,
            difficulty_bits: 0,
            nonce: [0; 32],
            version: 4,
            block_size_bytes: 0,
        },
        raw_block_bytes: raw,
        transactions: vec![CanonicalTransactionFacts {
            public_facts: TransactionPublicFacts {
                transaction_id: TransactionId::from_bytes([1; 32]),
                serialized_size_bytes: 0,
                unsupported_sections: Vec::new(),
            },
            intrinsic_value_balances: TransactionIntrinsicValueBalances {
                sprout_zat: 0,
                sapling_zat: 0,
                orchard_zat: 0,
                ironwood_zat: 0,
            },
            transparent_inputs: Vec::new(),
            transparent_outputs: Vec::new(),
            raw_transaction_bytes: None,
        }],
    }
}

fn compact(header: Vec<u8>) -> CompactBlock {
    CompactBlock {
        height: 1,
        hash: Vec::new(),
        prev_hash: Vec::new(),
        time: 0,
        header,
        vtx: Vec::new(),
        chain_metadata: None,
    }
}

fn prepared(raw: Option<Vec<u8>>) -> PreparedCanonicalBlock {
    PreparedCanonicalBlock {
        facts: facts(raw),
        partial_compact_block: compact(Vec::with_capacity(64)),
        tree_size_additions: CommitmentTreeSizes::default(),
    }
}

#[test]
fn peak_estimate_scales_from_raw_capacity_with_fixed_headroom() {
    assert_eq!(
        estimated_peak_block_prepare_bytes(0),
        BLOCK_PREPARE_FIXED_PEAK_BYTES + BLOCK_PREPARE_PEAK_RAW_BYTE_MULTIPLIER
    );
    assert_eq!(
        estimated_peak_block_prepare_bytes(1_024),
        BLOCK_PREPARE_FIXED_PEAK_BYTES + (1_024 * BLOCK_PREPARE_PEAK_RAW_BYTE_MULTIPLIER)
    );
}

#[test]
fn vectors_are_measured_by_their_capacity() {
    assert_eq!(vector_allocation_bytes::<u64>(3), 24);
    assert_eq!(compact_block_heap_bytes(&compact(Vec::with_capacity(64))), 64);
    assert!(canonical_block_facts_heap_bytes(&facts(None)) > 0);
}

#[test]
fn retained_blobs_count_only_where_they_are_kept() {
    assert_eq!(retained_raw_blob_heap_bytes(&facts(None)), 0);
    assert_eq!(retained_raw_blob_heap_bytes(&facts(Some(vec![0; 77]))), 77);
    assert!(
        prepared_block_resident_bytes(&prepared(Some(vec![0; 77])), 5)
            > prepared_block_resident_bytes(&prepared(None), 5)
    );
}

#[test]
fn commit_handoff_adds_the_prefetched_outputs() {
    let resident = prepared_block_resident_bytes(&prepared(None), 5);
    assert_eq!(prepared_block_resident_bytes(&prepared(None), 6), resident + 1);
    let outputs = vec![TransparentOutputArtifact {
        outpoint: TransparentOutPoint::new(TransactionId::from_bytes([1; 32]), 0),
        value_zat: 1,
        script_pub_key: vec![0; 25],
        address_script_hash: TransparentAddressScriptHash([0; 32]),
        block_height: BlockHeight::new(1),
        block_hash: BlockHash::from_bytes([1; 32]),
    }];
    assert!(
        block_commit_preparation_resident_bytes(&prepared(None), 5, &outputs)
            >= block_commit_preparation_resident_bytes(&prepared(None), 5, &Vec::new()) + 25
    );
}
