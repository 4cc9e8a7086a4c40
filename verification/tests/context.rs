use std::collections::VecDeque;
use std::time::Duration;
use zinder_ingest::artifact_builder::{
    CommitmentTreeSizes, PreparedCanonicalBlock, RawBlobPolicy,
};
use zinder_ingest::artifacts::{
    BlockFinalNoteCommitmentRoots, BlockHeaderArtifact, CanonicalBlockFacts,
    CanonicalTransactionFacts, CompactBlock, CompactOrchardAction, CompactSaplingOutput,
    CompactTx, FinalNoteCommitmentRoot, SourceBlock, TransactionIntrinsicValueBalances,
    TransactionLocation, TransactionPublicFacts, TransparentInputFact, TransparentOutputFact,
};
use zinder_ingest::canonical_block_context::{
    accept_producing_block, block_commit_contexts, has_any_pool_root, intrinsic_value_balances,
    locate_outpoint, outpoints_below_range, position_at, produced_output,
    produced_outputs_in_range, producing_heights, requested_outpoints,
    require_genesis_complete_history, resolve_transparent_spends, seed_gap,
    transparent_spend_requests, BlockCommitments, FinalRoots, TransactionCommitments,
    TreeStatePosition,
};
use zinder_ingest::canonical_construction::{
    canonical_build_error, compact_block_commitments, memory_permit_count,
    memory_permits_for_block, prepared_block_stream_plan, raw_blob_policy_for_workload,
    transaction_commitments, validate_construction_identity, AdmissionStep, CanonicalBuildBlocks,
    CanonicalConstructionConfig, CanonicalConstructionError, CanonicalStoreBuildError,
    CanonicalStoreBuildPlan, CanonicalStoreError, CanonicalStoreWorkload, ConstructionIdentity,
    NetworkUpgradeActivationsFingerprint, SourceBlockAdmission,
};
use zinder_ingest::errors::IngestError;
use zinder_ingest::ids::{
    BlockHash, BlockHeight, BlockHeightRange, BlockId, ChainTipMetadata, Network, TransactionId,
    TransparentAddressScriptHash, TransparentOutPoint,
};

fn hash(height: u32) -> BlockHash {
    BlockHash::from_bytes([height as u8; 32])
}

fn outpoint(seed: u8) -> TransparentOutPoint {
    TransparentOutPoint::new(TransactionId::from_bytes([seed; 32]), 0)
}

fn block(height: u32, created: u8, spent: Vec<u8>) -> CanonicalBlockFacts {
    let mut transparent_inputs = vec![TransparentInputFact {
        input_index: 0,
        spent_outpoint: TransparentOutPoint::new(TransactionId::from_bytes([0; 32]), u32::MAX),
    }];
    for (index, seed) in spent.into_iter().enumerate() {
        transparent_inputs.push(TransparentInputFact {
            input_index: index as u32 + 1,
            spent_outpoint: outpoint(seed),
        });
    }
    CanonicalBlockFacts {
        block_header: BlockHeaderArtifact {
            height: BlockHeight::new(height),
            block_hash: hash(height),
            parent_hash: hash(height - 1),
            merkle_root: [0; 32],
            commitment_bytes: [0; 32],
            block_time: 1_000,
            difficulty_bits: 0,
            nonce: [0; 32],
            version: 4,
            block_size_bytes: 9,
        },
        raw_block_bytes: None,
        transactions: vec![CanonicalTransactionFacts {
            public_facts: TransactionPublicFacts {
                transaction_id: TransactionId::from_bytes([created; 32]),
                serialized_size_bytes: 1,
                unsupported_sections: Vec::new(),
            },
            intrinsic_value_balances: TransactionIntrinsicValueBalances {
                sprout_zat: 0,
                sapling_zat: i64::from(created),
                orchard_zat: 0,
                ironwood_zat: 0,
            },
            transparent_inputs,
            transparent_outputs: vec![TransparentOutputFact {
                output_index: 0,
                value_zat: u64::from(created),
                script_pub_key: vec![created],
                address_script_hash: TransparentAddressScriptHash([created; 32]),
            }],
            raw_transaction_bytes: None,
        }],
    }
}

fn roots(height: u32, sapling: Option<u8>) -> BlockFinalNoteCommitmentRoots {
    BlockFinalNoteCommitmentRoots {
        height: BlockHeight::new(height),
        block_hash: hash(height),
        sapling: sapling.map(|seed| FinalNoteCommitmentRoot([seed; 32])),
        orchard: None,
        ironwood: None,
    }
}

#[test]
fn contexts_need_history_from_the_first_block() {
    assert!(require_genesis_complete_history(BlockHeight::new(1)).is_ok());
    assert!(matches!(
        require_genesis_complete_history(BlockHeight::new(2)),
        Err(IngestError::MaterializedViewHistoryIncomplete { first_available_height })
            if first_available_height == BlockHeight::new(2)
    ));
}

#[test]
fn a_carried_tree_state_is_reused_for_the_next_range() {
    assert!(matches!(
        position_at(Some(BlockHeight::new(9)), BlockHeight::new(10)),
        TreeStatePosition::Carried
    ));
    assert!(matches!(
        position_at(Some(BlockHeight::new(8)), BlockHeight::new(10)),
        TreeStatePosition::Seed { anchor } if anchor == BlockHeight::new(9)
    ));
    assert!(matches!(
        position_at(None, BlockHeight::new(10)),
        TreeStatePosition::Seed { anchor } if anchor == BlockHeight::new(9)
    ));
    assert!(matches!(
        seed_gap(Some(BlockHeight::new(5)), BlockHeight::new(9)),
        Ok(Some(gap))
            if gap == BlockHeightRange::inclusive(BlockHeight::new(6), BlockHeight::new(9))
    ));
    assert!(matches!(
        seed_gap(Some(BlockHeight::new(9)), BlockHeight::new(9)),
        Ok(Some(gap)) if gap.start > gap.end
    ));
    assert!(matches!(
        seed_gap(None, BlockHeight::new(9)),
        Err(IngestError::CommitmentTreeCheckpointMissing { height })
            if height == BlockHeight::new(9)
    ));
}

#[test]
fn commitments_are_collected_in_transaction_order() {
    let commitments = BlockCommitments::from_compact_block(&vec![
        TransactionCommitments {
            sapling: vec![[1; 32], [2; 32]],
            orchard: Vec::new(),
            ironwood: vec![[9; 32]],
        },
        TransactionCommitments {
            sapling: vec![[3; 32]],
            orchard: vec![[7; 32]],
            ironwood: Vec::new(),
        },
    ]);
    assert_eq!(commitments.sapling, vec![[1; 32], [2; 32], [3; 32]]);
    assert_eq!(commitments.orchard, vec![[7; 32]]);
    assert_eq!(commitments.ironwood, vec![[9; 32]]);
}

#[test]
fn only_blocks_with_a_pool_root_record_roots() {
    assert!(has_any_pool_root(&roots(1, Some(1))));
    assert!(!has_any_pool_root(&roots(1, None)));
    let mut by_height = FinalRoots::new();
    by_height.record(BlockHeight::new(1), roots(1, Some(1)));
    assert!(by_height.take(BlockHeight::new(2)).is_none());
    assert!(by_height.take(BlockHeight::new(1)).is_some());
    assert!(by_height.take(BlockHeight::new(1)).is_none());
}

#[test]
fn spends_of_a_range_resolve_from_it_and_from_below() {
    let blocks = vec![block(20, 101, vec![55]), block(21, 102, vec![101])];
    let requests = match transparent_spend_requests(&blocks) {
        Ok(requests) => requests,
        Err(error) => panic!("the blocks are small, got {error:?}"),
    };
    assert_eq!(requests.len(), 2);
    let requested = requested_outpoints(&requests);
    let mut produced = produced_outputs_in_range(&blocks, &requested);
    assert_eq!(produced.len(), 1);
    let below = outpoints_below_range(&requested, &produced);
    assert_eq!(below, vec![outpoint(55)]);
    assert!(resolve_transparent_spends(&requests, &produced).is_err());

    assert!(matches!(
        locate_outpoint(outpoint(55), None),
        Err(IngestError::TransparentPrevoutUnresolved { .. })
    ));
    let located = match locate_outpoint(
        outpoint(55),
        Some(TransactionLocation {
            transaction_id: TransactionId::from_bytes([55; 32]),
            block_height: BlockHeight::new(7),
            block_hash: hash(7),
            tx_index_in_block: 0,
        }),
    ) {
        Ok(located) => vec![located],
        Err(error) => panic!("the transaction is indexed, got {error:?}"),
    };
    assert_eq!(producing_heights(&located), vec![BlockHeight::new(7)]);
    assert!(accept_producing_block(BlockHeight::new(7), &None, &located, &mut produced).is_err());
    assert!(accept_producing_block(
        BlockHeight::new(7),
        &Some(block(7, 55, Vec::new())),
        &located,
        &mut produced
    )
    .is_ok());
    let spends = match resolve_transparent_spends(&requests, &produced) {
        Ok(spends) => spends,
        Err(error) => panic!("every output is known, got {error:?}"),
    };
    assert_eq!(spends.len(), 2);
    match spends.get(&outpoint(55)) {
        Some(spend) => {
            assert_eq!(spend.value_zat, 55);
            assert_eq!(spend.created_block_height, BlockHeight::new(7));
            assert_eq!(spend.block_height, BlockHeight::new(20));
        }
        None => panic!("the older output is spent"),
    }
}

#[test]
fn a_producing_block_has_to_hold_the_output() {
    let producing = block(7, 55, Vec::new());
    assert!(produced_output(&producing, outpoint(55), 0).is_ok());
    assert!(produced_output(&producing, outpoint(55), 1).is_err());
    assert!(produced_output(&producing, outpoint(56), 0).is_err());
    let missing = TransparentOutPoint::new(TransactionId::from_bytes([55; 32]), 9);
    assert!(produced_output(&producing, missing, 0).is_err());
}

#[test]
fn contexts_carry_blocks_roots_and_balances() {
    let blocks = vec![block(20, 101, Vec::new()), block(21, 102, Vec::new())];
    let balances = intrinsic_value_balances(&blocks);
    match balances.get(TransactionId::from_bytes([102; 32])) {
        Some(balance) => assert_eq!(balance.sapling_zat, 102),
        None => panic!("the transaction has balances"),
    }
    assert!(balances.get(TransactionId::from_bytes([1; 32])).is_none());
    let mut by_height = FinalRoots::new();
    by_height.record(BlockHeight::new(21), roots(21, Some(1)));
    let empty = match resolve_transparent_spends(&Vec::new(), &produced_outputs_in_range(
        &blocks,
        &requested_outpoints(&Vec::new()),
    )) {
        Ok(spends) => spends,
        Err(error) => panic!("nothing is spent, got {error:?}"),
    };
    let contexts = match block_commit_contexts(blocks, by_height, empty) {
        Ok(contexts) => contexts,
        Err(error) => panic!("the blocks are small, got {error:?}"),
    };
    assert_eq!(contexts.inputs.len(), 2);
    assert_eq!(contexts.inputs[1].height, BlockHeight::new(21));
    assert_eq!(contexts.inputs[1].previous_block_hash, hash(20));
    assert_eq!(contexts.inputs[1].block_time_unix_seconds, 1_000);
    assert_eq!(contexts.inputs[1].transactions.len(), 1);
    assert!(contexts.inputs[0].final_note_commitment_roots.is_none());
    assert!(contexts.inputs[1].final_note_commitment_roots.is_some());
    assert_eq!(contexts.transparent_spends.len(), 0);
}

fn identity(network: Network, seed: u8) -> ConstructionIdentity {
    ConstructionIdentity {
        network,
        fingerprint: NetworkUpgradeActivationsFingerprint([seed; 32]),
    }
}

#[test]
fn construction_has_to_match_its_store() {
    let store = identity(Network::ZcashRegtest, 1);
    assert!(validate_construction_identity(store, store).is_ok());
    assert!(matches!(
        validate_construction_identity(store, identity(Network::ZcashTestnet, 1)),
        Err(CanonicalConstructionError::NetworkMismatch { .. })
    ));
    assert!(matches!(
        validate_construction_identity(store, identity(Network::ZcashRegtest, 2)),
        Err(CanonicalConstructionError::NetworkUpgradeActivationsMismatch { .. })
    ));
}

#[test]
fn preparation_memory_is_counted_in_units() {
    assert_eq!(memory_permit_count(1_024), 1);
    assert_eq!(memory_permit_count(10 * 1_024 + 1), memory_permit_count(10 * 1_024 + 1));
    assert_eq!(memory_permit_count(0), memory_permit_count(1));
    assert_eq!(memory_permits_for_block(1_024, 1_000), 64 + 16);
    assert_eq!(memory_permits_for_block(1_024, 10), 10);
}

fn source_block(height: u32, network: Network) -> SourceBlock {
    SourceBlock {
        network,
        height: BlockHeight::new(height),
        hash: hash(height),
        parent_hash: hash(height - 1),
        block_time_seconds: 0,
        raw_block_bytes: vec![0; 8],
    }
}

#[test]
fn source_blocks_are_taken_in_turn_and_by_network() {
    let mut admission = SourceBlockAdmission::new(1_000, Network::ZcashRegtest);
    assert!(matches!(admission.advance(), AdmissionStep::NeedChunk));
    let mut chunk = VecDeque::new();
    chunk.push_back(source_block(1, Network::ZcashRegtest));
    chunk.push_back(source_block(2, Network::ZcashMainnet));
    admission.accept_chunk(chunk);
    let permits = match admission.advance() {
        AdmissionStep::AcquirePermits { permits } => permits,
        other => panic!("block 1 is due, got {other:?}"),
    };
    assert!(permits >= 64);
    match admission.take_admitted(true) {
        Ok(block) => assert_eq!(block.height, BlockHeight::new(1)),
        Err(error) => panic!("the permits were granted, got {error:?}"),
    }
    assert!(matches!(
        admission.advance(),
        AdmissionStep::Reject(CanonicalConstructionError::SourceBlockNetworkMismatch {
            height,
            ..
        }) if height == BlockHeight::new(2)
    ));
}

#[test]
fn a_build_plan_becomes_a_stream_of_blocks() {
    let store = identity(Network::ZcashRegtest, 1);
    let config = CanonicalConstructionConfig::for_local_tests(Duration::from_secs(3));
    assert_eq!(config.request_timeout, Duration::from_secs(3));
    assert_eq!(config.source_fetch_max_in_flight_bytes.get(), 32 * 1_024 * 1_024);
    let plan = CanonicalStoreBuildPlan {
        identity: store,
        first_available_height: BlockHeight::new(11),
        build_tip: BlockId::new(BlockHeight::new(20), hash(20)),
        history_predecessor: BlockId::new(BlockHeight::new(10), hash(10)),
        history_predecessor_tip_metadata: ChainTipMetadata::new(1, 2, 3),
    };
    match prepared_block_stream_plan(plan, CanonicalStoreWorkload::Explorer, store, config) {
        Ok(stream) => {
            assert_eq!(stream.from_height, BlockHeight::new(11));
            assert_eq!(stream.to_height, BlockHeight::new(20));
            assert_eq!(
                stream.raw_blob_policy,
                raw_blob_policy_for_workload(CanonicalStoreWorkload::Explorer)
            );
        }
        Err(error) => panic!("the identities agree, got {error:?}"),
    }
    assert!(prepared_block_stream_plan(
        plan,
        CanonicalStoreWorkload::Wallet,
        identity(Network::ZcashMainnet, 1),
        config
    )
    .is_err());
    assert_ne!(
        raw_blob_policy_for_workload(CanonicalStoreWorkload::Explorer),
        RawBlobPolicy::NoBlobs
    );
}

fn compact_tx(cmu: Vec<u8>) -> CompactTx {
    CompactTx {
        index: 0,
        txid: vec![0; 32],
        fee: 0,
        spends: Vec::new(),
        outputs: vec![CompactSaplingOutput {
            cmu,
            ephemeral_key: Vec::new(),
            ciphertext: Vec::new(),
        }],
        actions: vec![CompactOrchardAction {
            nullifier: Vec::new(),
            cmx: vec![5; 32],
            ephemeral_key: Vec::new(),
            ciphertext: Vec::new(),
        }],
        ironwood_actions: Vec::new(),
        vin: Vec::new(),
        vout: Vec::new(),
    }
}

fn compact_block(vtx: Vec<CompactTx>) -> CompactBlock {
    CompactBlock {
        height: 4,
        hash: Vec::new(),
        prev_hash: Vec::new(),
        time: 0,
        header: Vec::new(),
        vtx,
        chain_metadata: None,
    }
}

#[test]
fn note_commitments_have_to_be_whole() {
    assert!(transaction_commitments(&compact_tx(vec![4; 31])).is_none());
    match compact_block_commitments(BlockHeight::new(4), &compact_block(vec![compact_tx(vec![4; 32])])) {
        Ok(commitments) => {
            assert_eq!(commitments.sapling, vec![[4; 32]]);
            assert_eq!(commitments.orchard, vec![[5; 32]]);
        }
        Err(error) => panic!("the commitments are whole, got {error:?}"),
    }
    assert!(compact_block_commitments(
        BlockHeight::new(4),
        &compact_block(vec![compact_tx(vec![4; 33])])
    )
    .is_err());
}

fn prepared(height: u32, notes: u32) -> PreparedCanonicalBlock {
    PreparedCanonicalBlock {
        facts: block(height, 1, Vec::new()),
        partial_compact_block: compact_block(Vec::new()),
        tree_size_additions: CommitmentTreeSizes { sapling: notes, orchard: 1, ironwood: 0 },
    }
}

#[test]
fn built_blocks_accumulate_their_notes() {
    let mut blocks = CanonicalBuildBlocks::new(ChainTipMetadata::new(10, 20, 30));
    for (height, expected) in [(1, 15), (2, 20)] {
        match blocks.next(Some(Ok(prepared(height, 5)))) {
            Some(Ok(positioned)) => {
                assert_eq!(positioned.tip_metadata.sapling_commitment_tree_size, expected)
            }
            other => panic!("the block can be positioned, got {other:?}"),
        }
    }
    assert!(matches!(blocks.next(Some(Ok(prepared(3, u32::MAX)))), Some(Err(_))));
    assert!(blocks.next(None).is_none());
}

#[test]
fn build_failures_keep_their_cause() {
    assert!(matches!(
        canonical_build_error(CanonicalStoreBuildError::Store(CanonicalStoreError::StoreNotReady)),
        CanonicalConstructionError::Store(CanonicalStoreError::StoreNotReady)
    ));
    assert!(matches!(
        canonical_build_error(CanonicalStoreBuildError::Source {
            source: CanonicalConstructionError::LoaderTaskFailed { reason: "gone".to_owned() }
        }),
        CanonicalConstructionError::LoaderTaskFailed { .. }
    ));
}
