use zinder_ingest::artifact_builder::{
    EncodedCanonicalBlock, RawBlobPolicy, RawBlobRetention,
};
use zinder_ingest::artifacts::{
    BlockFinalNoteCommitmentRoots, BlockHeaderArtifact, CanonicalBlockFacts,
    CanonicalBlockReplayEnvelope, CanonicalTransactionFacts, CompactBlockArtifact,
    TransactionIntrinsicValueBalances, TransactionPublicFacts, TransparentInputFact,
    TransparentOutputArtifact, TransparentOutputFact, TreeStateArtifact,
};
use zinder_ingest::batch::{
    canonical_block_artifact_bytes, canonical_block_estimated_write_bytes,
    prefetched_spent_transparent_output_bytes, transaction_blob_bytes,
    transparent_spend_reference_count_for_canonical_transactions, CanonicalBatch,
    CanonicalBatchBudget, CanonicalBatchCloseTrigger, CanonicalBatchCost,
};
use zinder_ingest::bounds::{NonZeroU32, NonZeroU64};
use zinder_ingest::chain_ingest::{
    canonical_writer_store_options, validate_writer_store_contract,
};
use zinder_ingest::errors::{IngestError, StoreError};
use zinder_ingest::ids::{
    BlockHash, BlockHeight, ChainTipMetadata, Network, TransactionId,
    TransparentAddressScriptHash, TransparentOutPoint, COINBASE_SENTINEL_OUTPUT_INDEX,
};

fn nz32(amount: u32) -> NonZeroU32 {
    match NonZeroU32::new(amount) {
        Some(bound) => bound,
        None => panic!("the bound has to be nonzero"),
    }
}

fn nz64(amount: u64) -> NonZeroU64 {
    match NonZeroU64::new(amount) {
        Some(bound) => bound,
        None => panic!("the bound has to be nonzero"),
    }
}

fn canonical_batch_budget_for_tests(
    blocks: u32,
    artifact_bytes: u64,
    estimated_write_bytes: u64,
    min_blocks_before_estimated_write_close: u32,
) -> CanonicalBatchBudget {
    CanonicalBatchBudget::new(
        nz32(blocks),
        nz64(artifact_bytes),
        nz64(estimated_write_bytes),
        nz32(min_blocks_before_estimated_write_close),
    )
}

fn header(height: u32) -> BlockHeaderArtifact {
    BlockHeaderArtifact {
        height: BlockHeight::new(height),
        block_hash: BlockHash::from_bytes([height as u8; 32]),
        parent_hash: BlockHash::from_bytes([height as u8 - 1; 32]),
        merkle_root: [0; 32],
        commitment_bytes: [0; 32],
        block_time: 0,
        difficulty_bits: 0,
        nonce: [0; 32],
        version: 4,
        block_size_bytes: 0,
    }
}

fn transaction(seed: u8, raw: Option<Vec<u8>>) -> CanonicalTransactionFacts {
    CanonicalTransactionFacts {
        public_facts: TransactionPublicFacts {
            transaction_id: TransactionId::from_bytes([seed; 32]),
            serialized_size_bytes: 0,
            unsupported_sections: Vec::new(),
        },
        intrinsic_value_balances: TransactionIntrinsicValueBalances {
            sprout_zat: 0,
            sapling_zat: 0,
            orchard_zat: 0,
            ironwood_zat: 0,
        },
        transparent_inputs: vec![
            TransparentInputFact {
                input_index: 0,
                spent_outpoint: TransparentOutPoint::new(
                    TransactionId::from_bytes([0; 32]),
                    COINBASE_SENTINEL_OUTPUT_INDEX,
                ),
            },
            TransparentInputFact {
                input_index: 1,
                spent_outpoint: TransparentOutPoint::new(TransactionId::from_bytes([1; 32]), 0),
            },
        ],
        transparent_outputs: vec![TransparentOutputFact {
            output_index: 0,
            value_zat: 5,
            script_pub_key: vec![1, 2, 3],
            address_script_hash: TransparentAddressScriptHash([0; 32]),
        }],
        raw_transaction_bytes: raw,
    }
}

fn block(height: u32) -> EncodedCanonicalBlock {
    EncodedCanonicalBlock {
        facts: CanonicalBlockFacts {
            block_header: header(height),
            raw_block_bytes: Some(vec![0; 100]),
            transactions: vec![transaction(height as u8, Some(vec![0; 10]))],
        },
        replay_envelope: CanonicalBlockReplayEnvelope { payload_bytes: vec![0; 7] },
        compact_block: CompactBlockArtifact {
            height: BlockHeight::new(height),
            block_hash: BlockHash::from_bytes([height as u8; 32]),
            payload_bytes: vec![0; 20],
        },
        tip_metadata: ChainTipMetadata::new(height, 0, 0),
    }
}

fn prefetched() -> TransparentOutputArtifact {
    TransparentOutputArtifact {
        outpoint: TransparentOutPoint::new(TransactionId::from_bytes([1; 32]), 0),
        value_zat: 1,
        script_pub_key: vec![0; 25],
        address_script_hash: TransparentAddressScriptHash([0; 32]),
        block_height: BlockHeight::new(1),
        block_hash: BlockHash::from_bytes([1; 32]),
    }
}

#[test]
fn ingest_batch_budget_triggers_on_block_count_limit() {
    let budget = canonical_batch_budget_for_tests(2, u64::MAX, u64::MAX, 1);

    assert_eq!(
        budget.commit_trigger(CanonicalBatchCost {
            blocks: 3,
            ..CanonicalBatchCost::default()
        }),
        Some(CanonicalBatchCloseTrigger::BlockCount)
    );
}

#[test]
fn ingest_batch_budget_triggers_on_artifact_bytes() {
    let budget = canonical_batch_budget_for_tests(1_000, 1, u64::MAX, 1);

    assert_eq!(
        budget.commit_trigger(CanonicalBatchCost {
            blocks: 1,
            artifact_bytes: 1,
            ..CanonicalBatchCost::default()
        }),
        Some(CanonicalBatchCloseTrigger::ArtifactBytes)
    );
}

#[test]
fn ingest_batch_budget_triggers_on_artifact_bytes_before_estimated_write_floor() {
    let budget = canonical_batch_budget_for_tests(1_000, 1, u64::MAX, 100);

    assert_eq!(
        budget.commit_trigger(CanonicalBatchCost {
            blocks: 99,
            artifact_bytes: 1,
            ..CanonicalBatchCost::default()
        }),
        Some(CanonicalBatchCloseTrigger::ArtifactBytes)
    );
}

#[test]
fn ingest_batch_budget_triggers_on_estimated_write_bytes_after_floor() {
    let budget = canonical_batch_budget_for_tests(1_000, u64::MAX, 1, 100);

    assert_eq!(
        budget.commit_trigger(CanonicalBatchCost {
            blocks: 100,
            estimated_write_bytes: 1,
            ..CanonicalBatchCost::default()
        }),
        Some(CanonicalBatchCloseTrigger::EstimatedWriteBytes)
    );
}

#[test]
fn ingest_batch_budget_defers_estimated_write_bytes_before_floor() {
    let budget = canonical_batch_budget_for_tests(1_000, u64::MAX, 1, 100);

    assert_eq!(
        budget.commit_trigger(CanonicalBatchCost {
            blocks: 99,
            estimated_write_bytes: 1,
            ..CanonicalBatchCost::default()
        }),
        None
    );
}

#[test]
fn ingest_batch_budget_closes_single_oversized_block_on_estimated_write_bytes() {
    let budget = canonical_batch_budget_for_tests(1_000, u64::MAX, 1, 100);

    assert_eq!(
        budget.commit_trigger(CanonicalBatchCost {
            blocks: 1,
            estimated_write_bytes: 1,
            ..CanonicalBatchCost::default()
        }),
        Some(CanonicalBatchCloseTrigger::EstimatedWriteBytes)
    );
}

#[test]
fn ingest_batch_budget_closes_before_a_dense_block_exceeds_write_budget() {
    let budget = canonical_batch_budget_for_tests(100, u64::MAX, 100, 1);

    assert_eq!(
        budget.commit_trigger_before_next_block(
            CanonicalBatchCost {
                blocks: 2,
                estimated_write_bytes: 90,
                ..CanonicalBatchCost::default()
            },
            CanonicalBatchCost {
                blocks: 1,
                estimated_write_bytes: 20,
                ..CanonicalBatchCost::default()
            },
        ),
        Some(CanonicalBatchCloseTrigger::EstimatedWriteBytes)
    );
}

#[test]
fn ingest_batch_budget_admits_an_oversized_first_block() {
    let budget = canonical_batch_budget_for_tests(100, u64::MAX, 100, 1);

    assert_eq!(
        budget.commit_trigger_before_next_block(
            CanonicalBatchCost::default(),
            CanonicalBatchCost {
                blocks: 1,
                estimated_write_bytes: 120,
                ..CanonicalBatchCost::default()
            },
        ),
        None
    );
}

#[test]
fn ingest_batch_budget_keeps_exact_limit_block_in_current_batch() {
    let budget = canonical_batch_budget_for_tests(3, u64::MAX, u64::MAX, 1);

    assert_eq!(
        budget.commit_trigger_before_next_block(
            CanonicalBatchCost {
                blocks: 2,
                ..CanonicalBatchCost::default()
            },
            CanonicalBatchCost {
                blocks: 1,
                ..CanonicalBatchCost::default()
            },
        ),
        None
    );
}

#[test]
fn caller_owned_writer_rejects_mismatched_raw_blob_policy() {
    let error = match validate_writer_store_contract(
        100,
        Ok(RawBlobRetention::NoBlobs),
        100,
        RawBlobPolicy::All,
    ) {
        Ok(()) => panic!("an all-blob writer must reject a none-retention store"),
        Err(error) => error,
    };

    assert!(matches!(
        error,
        IngestError::Store(StoreError::RawBlobRetentionMismatch {
            persisted: RawBlobRetention::NoBlobs,
            configured: RawBlobRetention::All,
        })
    ));
}

#[test]
fn caller_owned_writer_rejects_mismatched_reorg_window() {
    let error = match validate_writer_store_contract(
        25,
        Ok(RawBlobRetention::NoBlobs),
        50,
        RawBlobPolicy::NoBlobs,
    ) {
        Ok(()) => panic!("a caller-owned writer must reject a different reorg window"),
        Err(error) => error,
    };

    assert!(matches!(
        error,
        IngestError::CanonicalWriterReorgWindowMismatch {
            store_reorg_window_blocks: 25,
            configured_reorg_window_blocks: 50,
        }
    ));
}

#[test]
fn a_writer_meets_the_contract_of_its_own_options() {
    let options =
        canonical_writer_store_options(Network::ZcashRegtest, 100, RawBlobPolicy::Transactions);
    assert_eq!(options.network, Network::ZcashRegtest);
    assert!(validate_writer_store_contract(
        options.reorg_window_blocks,
        Ok(options.raw_blob_retention),
        100,
        RawBlobPolicy::Transactions,
    )
    .is_ok());
    assert!(matches!(
        validate_writer_store_contract(
            100,
            Err(StoreError::Operation { reason: "gone".to_owned() }),
            100,
            RawBlobPolicy::NoBlobs,
        ),
        Err(IngestError::Store(StoreError::Operation { .. }))
    ));
}

#[test]
fn costs_saturate_field_by_field() {
    let full = CanonicalBatchCost { blocks: usize::MAX, ..CanonicalBatchCost::default() };
    let one = CanonicalBatchCost { blocks: 1, transactions: 2, ..CanonicalBatchCost::default() };
    let sum = full.saturating_add(one);
    assert_eq!(sum.blocks, usize::MAX);
    assert_eq!(sum.transactions, 2);
}

#[test]
fn close_triggers_are_labelled() {
    assert_eq!(CanonicalBatchCloseTrigger::BlockCount.metric_label(), "block_count");
    assert_eq!(CanonicalBatchCloseTrigger::ArtifactBytes.metric_label(), "artifact_bytes");
    assert_eq!(
        CanonicalBatchCloseTrigger::EstimatedWriteBytes.metric_label(),
        "estimated_write_bytes"
    );
}

#[test]
fn spends_and_blobs_of_a_block_are_counted() {
    let transactions = vec![transaction(2, Some(vec![0; 10])), transaction(3, None)];
    assert_eq!(transparent_spend_reference_count_for_canonical_transactions(&transactions), 2);
    assert_eq!(transaction_blob_bytes(&transactions), 10);
    assert_eq!(prefetched_spent_transparent_output_bytes(&vec![prefetched()]), 128 + 25);
}

#[test]
fn block_bytes_follow_the_payloads() {
    let small = canonical_block_artifact_bytes(&block(2));
    let mut larger_block = block(2);
    larger_block.compact_block.payload_bytes = vec![0; 120];
    assert_eq!(canonical_block_artifact_bytes(&larger_block), small + 100);
    let writes = canonical_block_estimated_write_bytes(&block(2), 0);
    assert_eq!(canonical_block_estimated_write_bytes(&block(2), 3), writes + 3 * 512);
}

#[test]
fn a_batch_takes_blocks_in_and_adds_their_cost_up() {
    let mut batch = CanonicalBatch::default();
    assert!(batch.is_empty());
    let cost = CanonicalBatch::work_cost_for_block(&block(2), &vec![prefetched()]);
    assert_eq!(cost.blocks, 1);
    assert_eq!(cost.transparent_spend_references, 1);
    assert!(batch
        .absorb_with_prefetched_spent_outputs(block(2), vec![prefetched()])
        .is_ok());
    assert_eq!(batch.work_cost(), cost);
    assert!(batch.absorb(block(3)).is_ok());
    assert_eq!(batch.work_cost().blocks, 2);
    assert_eq!(batch.block_headers.len(), 2);
    assert_eq!(batch.block_headers[1].height, BlockHeight::new(3));
    assert_eq!(batch.tip_metadata, Some(ChainTipMetadata::new(3, 0, 0)));
    assert_eq!(batch.prefetched_spent_transparent_outputs.len(), 1);
    assert!(!batch.is_empty());
    batch.push_tree_state_checkpoint(TreeStateArtifact {
        height: BlockHeight::new(3),
        block_hash: BlockHash::from_bytes([3; 32]),
        payload_bytes: vec![9],
    });
    batch.push_final_note_commitment_roots(BlockFinalNoteCommitmentRoots {
        height: BlockHeight::new(3),
        block_hash: BlockHash::from_bytes([3; 32]),
        sapling: None,
        orchard: None,
        ironwood: None,
    });
    assert_eq!(batch.tree_states.len(), 1);
    assert_eq!(batch.final_note_commitment_roots.len(), 1);
    batch.clear_work_cost();
    assert_eq!(
        batch.work_cost(),
        CanonicalBatchCost { blocks: 2, ..CanonicalBatchCost::default() }
    );
}

#[test]
fn an_exceeded_bound_is_a_reached_bound() {
    let budget = canonical_batch_budget_for_tests(2, 1_000, 1_000, 1);
    let current = CanonicalBatchCost { blocks: 2, ..CanonicalBatchCost::default() };
    let next = CanonicalBatchCost { blocks: 1, ..CanonicalBatchCost::default() };
    assert_eq!(
        budget.commit_trigger_before_next_block(current, next),
        Some(CanonicalBatchCloseTrigger::BlockCount)
    );
    assert_eq!(
        budget.commit_trigger(current.saturating_add(next)),
        Some(CanonicalBatchCloseTrigger::BlockCount)
    );
    assert!(budget.can_close_on_estimated_write_bytes(1));
}
