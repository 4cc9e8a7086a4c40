use zinder_ingest::artifact_builder::{RawBlobPolicy, RawBlobRetention};
use zinder_ingest::artifacts::{
    BlockHeaderArtifact, SourceBlock, TransactionFactsArtifact, TransactionLocation,
    TransactionPublicFacts, TransparentInputFact, TransparentOutputArtifact,
};
use zinder_ingest::batch::CanonicalBatch;
use zinder_ingest::chain_ingest::{
    append_subtree_root_artifacts, batch_outputs, canonical_writer_store_options,
    missing_store_outpoints, next_chain_epoch_id_after, next_chain_epoch_id_from,
    output_is_from_reverted_replacement_range, resolve_transparent_spend_facts,
    select_best_chain, stage_ingest_commit, subtree_root_indexes_after, subtree_root_request,
    subtree_root_requests, transparent_spend_references_for_transactions, unix_timestamp_millis,
    IngestSubtreeRootIndexes, ReorgWindowChange, SourceSubtreeRoot, SourceSubtreeRoots,
};
use zinder_ingest::errors::{IngestError, StoreError};
use zinder_ingest::ids::{
    ArtifactSchemaVersion, BlockHash, BlockHeight, BlockHeightRange, ChainEpoch, ChainEpochId,
    ChainTipMetadata, Network, ShieldedProtocol, SubtreeRootHash, SubtreeRootIndex, TransactionId,
    TransparentAddressScriptHash, TransparentOutPoint, UnixTimestampMillis, SUBTREE_LEAF_COUNT,
};

fn hash(seed: u8) -> BlockHash {
    BlockHash::from_bytes([seed; 32])
}

fn epoch(id: u64, height: u32) -> ChainEpoch {
    ChainEpoch {
        id: ChainEpochId::new(id),
        network: Network::ZcashRegtest,
        visible_tip_height: BlockHeight::new(height),
        visible_tip_hash: hash(height as u8),
        settled_tip_height: BlockHeight::new(1),
        settled_tip_hash: hash(1),
        artifact_schema_version: ArtifactSchemaVersion(12),
        tip_metadata: ChainTipMetadata::empty(),
        created_at: UnixTimestampMillis(1),
    }
}

fn source_block(height: u32, parent_seed: u8) -> SourceBlock {
    SourceBlock {
        network: Network::ZcashRegtest,
        height: BlockHeight::new(height),
        hash: hash(height as u8),
        parent_hash: hash(parent_seed),
        block_time_seconds: 0,
        raw_block_bytes: Vec::new(),
    }
}

fn header(height: u32) -> BlockHeaderArtifact {
    BlockHeaderArtifact {
        height: BlockHeight::new(height),
        block_hash: hash(height as u8),
        parent_hash: hash(height as u8 - 1),
        merkle_root: [0; 32],
        commitment_bytes: [0; 32],
        block_time: 0,
        difficulty_bits: 0,
        nonce: [0; 32],
        version: 4,
        block_size_bytes: 0,
    }
}

fn outpoint(seed: u8, index: u32) -> TransparentOutPoint {
    TransparentOutPoint::new(TransactionId::from_bytes([seed; 32]), index)
}

fn coinbase_input() -> TransparentOutPoint {
    TransparentOutPoint::new(TransactionId::from_bytes([0; 32]), u32::MAX)
}

fn output(seed: u8, height: u32, value_zat: u64) -> TransparentOutputArtifact {
    TransparentOutputArtifact {
        outpoint: outpoint(seed, 0),
        value_zat,
        script_pub_key: vec![seed],
        address_script_hash: TransparentAddressScriptHash([seed; 32]),
        block_height: BlockHeight::new(height),
        block_hash: hash(height as u8),
    }
}

fn spending(seed: u8, height: u32, spent: Vec<TransparentOutPoint>) -> TransactionFactsArtifact {
    let mut transparent_inputs = Vec::new();
    for (index, spent_outpoint) in spent.into_iter().enumerate() {
        transparent_inputs.push(TransparentInputFact {
            input_index: index as u32,
            spent_outpoint,
        });
    }
    TransactionFactsArtifact {
        location: TransactionLocation {
            transaction_id: TransactionId::from_bytes([seed; 32]),
            block_height: BlockHeight::new(height),
            block_hash: hash(height as u8),
            tx_index_in_block: 3,
        },
        public_facts: TransactionPublicFacts {
            transaction_id: TransactionId::from_bytes([seed; 32]),
            serialized_size_bytes: 0,
            unsupported_sections: Vec::new(),
        },
        transparent_inputs,
        transparent_outputs: Vec::new(),
    }
}

fn batch_with_spends() -> CanonicalBatch {
    let mut batch = CanonicalBatch::default();
    batch.block_headers.push(header(7));
    batch.transparent_outputs_by_outpoint.push(output(1, 7, 100));
    batch.prefetched_spent_transparent_outputs.push(output(2, 5, 200));
    batch.transaction_facts.push(spending(
        9,
        7,
        vec![coinbase_input(), outpoint(1, 0), outpoint(2, 0), outpoint(3, 0)],
    ));
    batch.tip_metadata = Some(ChainTipMetadata::empty());
    batch
}

#[test]
fn the_best_chain_extends_or_replaces() {
    let current = epoch(3, 10);
    assert!(matches!(select_best_chain(current, &[], 100), Ok(ReorgWindowChange::Unchanged)));
    assert!(matches!(
        select_best_chain(current, &[source_block(11, 10), source_block(12, 11)], 100),
        Ok(ReorgWindowChange::Extend { block_range })
            if block_range
                == BlockHeightRange::inclusive(BlockHeight::new(11), BlockHeight::new(12))
    ));
    assert!(matches!(
        select_best_chain(current, &[source_block(9, 8)], 100),
        Ok(ReorgWindowChange::Replace { from_height }) if from_height == BlockHeight::new(9)
    ));
    assert!(matches!(
        select_best_chain(current, &[source_block(11, 99)], 100),
        Ok(ReorgWindowChange::Replace { from_height }) if from_height == BlockHeight::new(11)
    ));
    assert!(matches!(
        select_best_chain(current, &[source_block(8, 7)], 2),
        Err(IngestError::ReorgWindowExceeded {
            from_height,
            replacement_depth: 3,
            configured_window_blocks: 2,
        }) if from_height == BlockHeight::new(8)
    ));
}

#[test]
fn recorded_subtrees_are_not_requested_again() {
    let tip = ChainTipMetadata::new(SUBTREE_LEAF_COUNT * 3 + 1, SUBTREE_LEAF_COUNT, 0);
    let mut next = IngestSubtreeRootIndexes::default();
    next.set_index(ShieldedProtocol::Sapling, SubtreeRootIndex::new(1));
    let request = match subtree_root_request(ShieldedProtocol::Sapling, tip, next) {
        Some(request) => request,
        None => panic!("two subtrees are missing"),
    };
    assert_eq!(request.start_index, SubtreeRootIndex::new(1));
    assert_eq!(request.max_entries.get(), 2);
    let after = subtree_root_indexes_after(tip, next);
    assert_eq!(after.index_for(ShieldedProtocol::Sapling), SubtreeRootIndex::new(3));
    assert_eq!(after.index_for(ShieldedProtocol::Orchard), SubtreeRootIndex::new(1));
    assert_eq!(subtree_root_request(ShieldedProtocol::Sapling, tip, after), None);
    assert_eq!(
        IngestSubtreeRootIndexes::from_tip_metadata(tip).index_for(ShieldedProtocol::Sapling),
        SubtreeRootIndex::new(3)
    );

    let mut batch = CanonicalBatch::default();
    assert!(matches!(
        subtree_root_requests(&batch, next),
        Err(IngestError::EmptyCanonicalBatch)
    ));
    batch.tip_metadata = Some(tip);
    match subtree_root_requests(&batch, next) {
        Ok(requests) => assert_eq!(requests.len(), 2),
        Err(error) => panic!("the batch has a tip, got {error:?}"),
    }
}

#[test]
fn subtree_roots_are_bound_to_blocks_of_the_batch() {
    let roots = |heights: &[u32]| {
        let mut subtree_roots = Vec::new();
        for (index, height) in heights.iter().enumerate() {
            subtree_roots.push(SourceSubtreeRoot {
                subtree_index: SubtreeRootIndex::new(index as u32),
                root_hash: SubtreeRootHash([index as u8; 32]),
                completing_block_height: BlockHeight::new(*height),
            });
        }
        SourceSubtreeRoots {
            protocol: ShieldedProtocol::Orchard,
            start_index: SubtreeRootIndex::new(0),
            subtree_roots,
        }
    };
    let mut batch = CanonicalBatch::default();
    batch.block_headers.push(header(7));
    assert!(append_subtree_root_artifacts(&mut batch, roots(&[7]), 1).is_ok());
    assert_eq!(batch.subtree_roots[0].completing_block_hash, hash(7));
    assert!(matches!(
        append_subtree_root_artifacts(&mut batch, roots(&[7]), 2),
        Err(IngestError::SubtreeRootsUnavailable { expected_count: 2, actual_count: 1, .. })
    ));
    assert!(matches!(
        append_subtree_root_artifacts(&mut batch, roots(&[6]), 1),
        Err(IngestError::SubtreeRootCompletingBlockMissing { completing_block_height, .. })
            if completing_block_height == BlockHeight::new(6)
    ));
}

#[test]
fn only_unknown_outpoints_are_read_from_the_store() {
    let batch = batch_with_spends();
    let references = transparent_spend_references_for_transactions(&batch.transaction_facts);
    assert_eq!(references.len(), 3);
    assert_eq!(references[0].input_index, 1);
    assert_eq!(references[0].tx_index_in_block, 3);
    let outputs = batch_outputs(&batch);
    assert_eq!(outputs.len(), 2);
    assert_eq!(missing_store_outpoints(&batch), vec![outpoint(3, 0)]);
}

#[test]
fn spends_resolve_to_the_outputs_they_spend() {
    let batch = batch_with_spends();
    let references = transparent_spend_references_for_transactions(&batch.transaction_facts);
    let facts = resolve_transparent_spend_facts(
        &references,
        batch_outputs(&batch),
        vec![(outpoint(3, 0), output(3, 2, 300))],
        &ReorgWindowChange::Unchanged,
    );
    let mut values = Vec::new();
    for fact in &facts {
        values.push((fact.value_zat, fact.created_block_height.value()));
    }
    assert_eq!(values, vec![(100, 7), (200, 5), (300, 2)]);
    assert_eq!(facts[2].spending_transaction_id, TransactionId::from_bytes([9; 32]));
    assert_eq!(facts[2].address_script_hash, TransparentAddressScriptHash([3; 32]));

    let replaced = resolve_transparent_spend_facts(
        &references,
        batch_outputs(&batch),
        vec![(outpoint(3, 0), output(3, 6, 300))],
        &ReorgWindowChange::Replace { from_height: BlockHeight::new(6) },
    );
    assert_eq!(replaced.len(), 2);
    assert!(output_is_from_reverted_replacement_range(
        &output(3, 6, 300),
        &ReorgWindowChange::Replace { from_height: BlockHeight::new(6) }
    ));
    assert!(!output_is_from_reverted_replacement_range(
        &output(3, 5, 300),
        &ReorgWindowChange::Replace { from_height: BlockHeight::new(6) }
    ));
}

#[test]
fn staging_moves_the_batch_into_the_commit() {
    let mut batch = batch_with_spends();
    let change = ReorgWindowChange::AdvanceSafeTipTo { height: BlockHeight::new(7) };
    let artifacts = match stage_ingest_commit(
        epoch(4, 7),
        &mut batch,
        vec![(outpoint(3, 0), output(3, 2, 300))],
        change,
    ) {
        Ok(artifacts) => artifacts,
        Err(error) => panic!("the batch has a block, got {error:?}"),
    };
    assert_eq!(artifacts.chain_epoch.id, ChainEpochId::new(4));
    assert_eq!(artifacts.reorg_window_change, change);
    assert_eq!(artifacts.block_headers.len(), 1);
    assert_eq!(artifacts.transparent_spend_facts.len(), 3);
    assert!(batch.is_empty());
    assert!(matches!(
        stage_ingest_commit(epoch(5, 8), &mut batch, Vec::new(), change),
        Err(IngestError::EmptyCanonicalBatch)
    ));
}

#[test]
fn epoch_ids_count_up() {
    assert!(matches!(next_chain_epoch_id_from(None), Ok(id) if id == ChainEpochId::new(1)));
    assert!(matches!(
        next_chain_epoch_id_from(Some(epoch(8, 1))),
        Ok(id) if id == ChainEpochId::new(9)
    ));
    assert!(matches!(
        next_chain_epoch_id_after(ChainEpochId::new(u64::MAX)),
        Err(IngestError::Store(StoreError::ChainEpochSequenceOverflow))
    ));
}

#[test]
fn timestamps_have_to_fit() {
    assert!(matches!(unix_timestamp_millis(Some(5)), Ok(UnixTimestampMillis(5))));
    assert!(matches!(
        unix_timestamp_millis(None),
        Err(IngestError::SystemTimeBeforeUnixEpoch)
    ));
    assert!(matches!(
        unix_timestamp_millis(Some(u128::from(u64::MAX) + 1)),
        Err(IngestError::TimestampTooLarge)
    ));
}

#[test]
fn a_writer_opens_its_store_with_its_own_settings() {
    let options =
        canonical_writer_store_options(Network::ZcashTestnet, 42, RawBlobPolicy::Transactions);
    assert_eq!(options.network, Network::ZcashTestnet);
    assert_eq!(options.reorg_window_blocks, 42);
    assert_eq!(options.raw_blob_retention, RawBlobRetention::Transactions);
}
