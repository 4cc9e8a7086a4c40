use zinder_ingest::artifact_builder::{
    attach_encodings, CommitmentTreeSizes, PreparedCanonicalBlock,
};
use zinder_ingest::artifacts::{
    BlockHeaderArtifact, CanonicalBlockFacts, CanonicalBlockReplayEnvelope, CompactBlock,
    SourceTreeState, SubtreeRootArtifact, TransparentOutputArtifact,
};
use zinder_ingest::batch::{CanonicalBatch, CanonicalBatchBudget, CanonicalBatchCost};
use zinder_ingest::bounds::{nonzero_u32, nonzero_u64};
use zinder_ingest::bulk_catchup::canonical_commit::{
    bulk_commit_epoch, tree_state_checkpoint_targets, AttachmentRequest, CanonicalCommit,
    CanonicalCommitRequest, ChainEpochCommitOutcome, CommittedCanonicalBatch,
};
use zinder_ingest::bulk_catchup::commit_reassembly::{
    commit_reassembly_should_wait, CommitReassembly, ReassemblyAction,
};
use zinder_ingest::bulk_catchup::flush::{BulkCatchupCompletionFlush, BulkCatchupFlushState};
use zinder_ingest::chain_ingest::{
    IngestSubtreeRootIndexes, ReorgWindowChange, SourceSubtreeRoot, SourceSubtreeRoots,
};
use zinder_ingest::errors::{IngestError, StoreError};
use zinder_ingest::ids::{
    ArtifactSchemaVersion, BlockHash, BlockHeight, BlockId, ChainEpochId, ChainTipMetadata,
    Network, ShieldedProtocol, SubtreeRootHash, SubtreeRootIndex, TransactionId,
    TransparentAddressScriptHash, TransparentOutPoint, UnixTimestampMillis, SUBTREE_LEAF_COUNT,
};
use zinder_ingest::retry::IngestRetryState;

fn hash(height: u32) -> BlockHash {
    BlockHash::from_bytes([height as u8; 32])
}

fn header(height: u32) -> BlockHeaderArtifact {
    BlockHeaderArtifact {
        height: BlockHeight::new(height),
        block_hash: hash(height),
        parent_hash: hash(height - 1),
        merkle_root: [0; 32],
        commitment_bytes: [0; 32],
        block_time: 0,
        difficulty_bits: 0,
        nonce: [0; 32],
        version: 4,
        block_size_bytes: 0,
    }
}

fn prepared(height: u32, sapling_notes: u32) -> PreparedCanonicalBlock {
    PreparedCanonicalBlock {
        facts: CanonicalBlockFacts {
            block_header: header(height),
            raw_block_bytes: None,
            transactions: Vec::new(),
        },
        partial_compact_block: CompactBlock {
            height: u64::from(height),
            hash: Vec::new(),
            prev_hash: Vec::new(),
            time: 0,
            header: Vec::new(),
            vtx: Vec::new(),
            chain_metadata: None,
        },
        tree_size_additions: CommitmentTreeSizes {
            sapling: sapling_notes,
            orchard: 0,
            ironwood: 0,
        },
    }
}

fn reassembly(max_blocks: u32, initial: ChainTipMetadata) -> CommitReassembly {
    CommitReassembly::begin(
        initial,
        ChainEpochId::new(1),
        BulkCatchupFlushState::default(),
        BulkCatchupCompletionFlush::FlushPending,
        CanonicalBatchBudget::new(
            nonzero_u32(max_blocks),
            nonzero_u64(u64::MAX),
            nonzero_u64(u64::MAX),
            nonzero_u32(1),
        ),
        nonzero_u64(1),
    )
}

/// Drives one commit the way the store and the node answer it.
fn commit(
    request: CanonicalCommitRequest,
    committed_roots: &mut Vec<SubtreeRootArtifact>,
) -> (Vec<SubtreeRootIndex>, BlockHeight, CommittedCanonicalBatch) {
    let mut commit = match CanonicalCommit::begin(request, true, nonzero_u32(100)) {
        Ok(commit) => commit,
        Err(failure) => panic!("the batch has a tip, got {failure:?}"),
    };
    let mut fetched = Vec::new();
    loop {
        match commit.next_attachment() {
            Some(AttachmentRequest::SubtreeRoots(range)) => {
                fetched.push(range.start_index);
                let tip = commit.batch.block_headers.len() - 1;
                let answer = SourceSubtreeRoots {
                    protocol: range.protocol,
                    start_index: range.start_index,
                    subtree_roots: vec![SourceSubtreeRoot {
                        subtree_index: range.start_index,
                        root_hash: SubtreeRootHash([0x33; 32]),
                        completing_block_height: commit.batch.block_headers[tip].height,
                    }],
                };
                let cost = commit.batch.work_cost();
                assert!(commit.accept_subtree_roots(Ok(answer)).is_ok());
                assert_eq!(commit.batch.work_cost(), cost);
            }
            Some(AttachmentRequest::TreeState(block_id)) => {
                let answer = SourceTreeState { block_id, payload_bytes: vec![9] };
                let cost = commit.batch.work_cost();
                assert!(commit.accept_tree_state(Ok(answer)).is_ok());
                assert_eq!(
                    commit.batch.work_cost(),
                    CanonicalBatchCost { artifact_bytes: cost.artifact_bytes + 1, ..cost }
                );
            }
            None => break,
        }
    }
    let epoch = match commit.chain_epoch(
        Network::ZcashRegtest,
        ArtifactSchemaVersion(12),
        Ok(UnixTimestampMillis(5)),
    ) {
        Ok(epoch) => epoch,
        Err(error) => panic!("the batch has a tip, got {error:?}"),
    };
    assert!(commit.store_outpoints().is_empty());
    let artifacts = match commit.stage(epoch, Vec::new()) {
        Ok(artifacts) => artifacts,
        Err(error) => panic!("the batch has blocks, got {error:?}"),
    };
    assert_eq!(
        artifacts.reorg_window_change,
        ReorgWindowChange::AdvanceSafeTipTo { height: epoch.visible_tip_height }
    );
    assert_eq!(artifacts.tree_states.len(), 1);
    for root in artifacts.subtree_roots {
        assert_eq!(root.root_hash, SubtreeRootHash([0x33; 32]));
        assert_eq!(root.completing_block_hash, epoch.visible_tip_hash);
        committed_roots.push(root);
    }
    let outcome = ChainEpochCommitOutcome { chain_epoch: epoch };
    match commit.accept_commit(Ok(outcome), nonzero_u32(1)) {
        Ok(due) => assert!(due),
        Err(error) => panic!("the commit succeeded, got {error:?}"),
    }
    assert!(commit.accept_flush(Ok(())).is_ok());
    (fetched, epoch.visible_tip_height, commit.finish(outcome))
}

type Run = (Vec<(u64, u32, usize)>, Result<ChainEpochCommitOutcome, IngestError>);

fn run(reassembly: CommitReassembly, blocks: Vec<PreparedCanonicalBlock>) -> Run {
    run_with_roots(reassembly, blocks, &mut Vec::new())
}

fn run_with_roots(
    mut reassembly: CommitReassembly,
    blocks: Vec<PreparedCanonicalBlock>,
    committed_roots: &mut Vec<SubtreeRootArtifact>,
) -> Run {
    let mut blocks = blocks.into_iter();
    let mut commits = Vec::new();
    let mut in_flight: Option<CanonicalCommitRequest> = None;
    loop {
        match reassembly.next_action() {
            ReassemblyAction::AwaitBlock => match blocks.next() {
                Some(block) => {
                    let positioned = match reassembly.accept_block(Some(Ok(block))) {
                        Some(positioned) => positioned,
                        None => panic!("the block can be positioned"),
                    };
                    let encoded = attach_encodings(
                        positioned,
                        CanonicalBlockReplayEnvelope { payload_bytes: vec![1] },
                        vec![2],
                    );
                    reassembly.admit_block(encoded, Vec::new());
                }
                None => assert!(reassembly.accept_block(None).is_none()),
            },
            ReassemblyAction::Commit(request) => {
                assert!(in_flight.is_none());
                in_flight = Some(request);
            }
            ReassemblyAction::AwaitCommit => {
                let request = match in_flight.take() {
                    Some(request) => request,
                    None => panic!("no commit is in flight"),
                };
                let id = request.chain_epoch_id.value();
                let (fetched, tip, committed) = commit(request, committed_roots);
                commits.push((id, tip.value(), fetched.len()));
                reassembly.accept_commit(Ok(committed));
            }
            ReassemblyAction::Flush => reassembly.accept_flush(Ok(())),
            ReassemblyAction::Finish(outcome) => return (commits, outcome),
        }
    }
}

#[test]
fn exact_divisor_bulk_catchup_returns_last_full_batch_outcome() {
    let blocks = (1..=10).map(|height| prepared(height, 0)).collect();
    let (commits, outcome) = run(reassembly(5, ChainTipMetadata::empty()), blocks);
    match outcome {
        Ok(outcome) => {
            assert_eq!(outcome.chain_epoch.id, ChainEpochId::new(2));
            assert_eq!(outcome.chain_epoch.visible_tip_height, BlockHeight::new(10));
        }
        Err(error) => panic!("the run has to succeed, got {error:?}"),
    }
    assert_eq!(commits.len(), 2);
}

#[test]
fn bulk_catchup_commits_newly_completed_subtree_roots() {
    let blocks = vec![prepared(1, SUBTREE_LEAF_COUNT)];
    let mut committed_roots = Vec::new();
    let (commits, outcome) =
        run_with_roots(reassembly(1, ChainTipMetadata::empty()), blocks, &mut committed_roots);
    match outcome {
        Ok(outcome) => {
            assert_eq!(outcome.chain_epoch.visible_tip_height, BlockHeight::new(1))
        }
        Err(error) => panic!("the run has to succeed, got {error:?}"),
    }
    assert_eq!(commits, vec![(1, 1, 1)]);
    assert_eq!(committed_roots.len(), 1);
    let subtree_root = &committed_roots[0];
    assert_eq!(subtree_root.protocol, ShieldedProtocol::Sapling);
    assert_eq!(subtree_root.subtree_index, SubtreeRootIndex::new(0));
    assert_eq!(subtree_root.root_hash.0, [0x33; 32]);
    assert_eq!(subtree_root.completing_block_height, BlockHeight::new(1));
    assert_eq!(subtree_root.completing_block_hash, hash(1));
}

#[test]
fn bulk_catchup_from_checkpoint_skips_pre_checkpoint_subtree_root_indexes() {
    let checkpoint = ChainTipMetadata::new(SUBTREE_LEAF_COUNT, 0, 0);
    let (commits, outcome) = run(reassembly(1, checkpoint), vec![prepared(11, 0)]);
    match outcome {
        Ok(outcome) => {
            assert_eq!(outcome.chain_epoch.visible_tip_height, BlockHeight::new(11))
        }
        Err(error) => panic!("the run has to succeed, got {error:?}"),
    }
    assert_eq!(commits, vec![(1, 11, 0)]);
}

#[test]
fn a_run_without_blocks_commits_nothing() {
    let (commits, outcome) = run(reassembly(1, ChainTipMetadata::empty()), Vec::new());
    assert!(commits.is_empty());
    assert!(matches!(outcome, Err(IngestError::BulkCatchupProducedNoCommit)));
}

#[test]
fn a_failed_block_ends_the_run() {
    let mut reassembly = reassembly(1, ChainTipMetadata::empty());
    assert!(matches!(reassembly.next_action(), ReassemblyAction::AwaitBlock));
    assert!(reassembly
        .accept_block(Some(Err(IngestError::Store(StoreError::ChainEpochSequenceOverflow))))
        .is_none());
    assert!(matches!(
        reassembly.next_action(),
        ReassemblyAction::Finish(Err(IngestError::Store(_)))
    ));
}

fn two_block_batch() -> CanonicalBatch {
    let mut batch = CanonicalBatch::default();
    batch.block_headers.push(header(99));
    batch.block_headers.push(header(100));
    batch.block_headers.push(header(101));
    batch.tip_metadata = Some(ChainTipMetadata::new(7, 0, 0));
    batch
}

#[test]
fn tree_states_are_kept_at_strides_and_at_the_tip() {
    let batch = two_block_batch();
    assert_eq!(
        tree_state_checkpoint_targets(&batch, nonzero_u32(100)),
        vec![
            BlockId::new(BlockHeight::new(100), hash(100)),
            BlockId::new(BlockHeight::new(101), hash(101)),
        ]
    );
    assert_eq!(
        tree_state_checkpoint_targets(&batch, nonzero_u32(1_000)),
        vec![BlockId::new(BlockHeight::new(101), hash(101))]
    );
}

#[test]
fn a_bulk_commit_settles_its_tip() {
    let epoch = match bulk_commit_epoch(
        &two_block_batch(),
        Network::ZcashRegtest,
        ChainEpochId::new(8),
        ArtifactSchemaVersion(12),
        Ok(UnixTimestampMillis(5)),
    ) {
        Ok(epoch) => epoch,
        Err(error) => panic!("the batch has a tip, got {error:?}"),
    };
    assert_eq!(epoch.id, ChainEpochId::new(8));
    assert_eq!(epoch.visible_tip_height, BlockHeight::new(101));
    assert_eq!(epoch.settled_tip_height, BlockHeight::new(101));
    assert_eq!(epoch.settled_tip_hash, hash(101));
    assert_eq!(epoch.tip_metadata, ChainTipMetadata::new(7, 0, 0));
    assert!(matches!(
        bulk_commit_epoch(
            &CanonicalBatch::default(),
            Network::ZcashRegtest,
            ChainEpochId::new(8),
            ArtifactSchemaVersion(12),
            Ok(UnixTimestampMillis(5)),
        ),
        Err(IngestError::EmptyCanonicalBatch)
    ));
}

#[test]
fn a_failing_attachment_fails_the_commit() {
    let mut batch = two_block_batch();
    batch.tip_metadata = Some(ChainTipMetadata::new(SUBTREE_LEAF_COUNT, 0, 0));
    let request = CanonicalCommitRequest {
        batch,
        next_subtree_root_indexes: IngestSubtreeRootIndexes::default(),
        retry_state: IngestRetryState::default(),
        flush_state: BulkCatchupFlushState::default(),
        chain_epoch_id: ChainEpochId::new(1),
    };
    let mut commit = match CanonicalCommit::begin(request, false, nonzero_u32(100)) {
        Ok(commit) => commit,
        Err(failure) => panic!("the batch has a tip, got {failure:?}"),
    };
    assert!(matches!(
        commit.next_attachment(),
        Some(AttachmentRequest::SubtreeRoots(range))
            if range.protocol == ShieldedProtocol::Sapling
                && range.start_index == SubtreeRootIndex::new(0)
    ));
    let error = match commit.accept_subtree_roots(Err(IngestError::EmptyCanonicalBatch)) {
        Ok(()) => panic!("the fetch failed"),
        Err(error) => error,
    };
    let failure = commit.fail(error);
    assert!(matches!(failure.error, IngestError::EmptyCanonicalBatch));
}

#[test]
fn a_large_open_batch_waits_for_the_commit_in_flight() {
    let cost = |blocks, artifact_bytes| CanonicalBatchCost {
        blocks,
        artifact_bytes,
        ..CanonicalBatchCost::default()
    };
    assert!(commit_reassembly_should_wait(nonzero_u64(10), cost(1, 10)));
    assert!(!commit_reassembly_should_wait(nonzero_u64(10), cost(1, 9)));
    assert!(!commit_reassembly_should_wait(nonzero_u64(10), cost(0, 10)));
}

#[test]
fn a_staged_commit_leaves_a_fresh_batch() {
    let mut batch = two_block_batch();
    batch.artifact_bytes = 5;
    batch.prefetched_spent_transparent_outputs.push(TransparentOutputArtifact {
        outpoint: TransparentOutPoint::new(TransactionId::from_bytes([1; 32]), 0),
        value_zat: 21,
        script_pub_key: Vec::new(),
        address_script_hash: TransparentAddressScriptHash([2; 32]),
        block_height: BlockHeight::new(1),
        block_hash: hash(1),
    });
    let request = CanonicalCommitRequest {
        batch,
        next_subtree_root_indexes: IngestSubtreeRootIndexes::default(),
        retry_state: IngestRetryState::default(),
        flush_state: BulkCatchupFlushState::default(),
        chain_epoch_id: ChainEpochId::new(1),
    };
    let mut commit = match CanonicalCommit::begin(request, false, nonzero_u32(100)) {
        Ok(commit) => commit,
        Err(failure) => panic!("the batch has a tip, got {failure:?}"),
    };
    let epoch = match commit.chain_epoch(
        Network::ZcashRegtest,
        ArtifactSchemaVersion(12),
        Ok(UnixTimestampMillis(5)),
    ) {
        Ok(epoch) => epoch,
        Err(error) => panic!("the batch has a tip, got {error:?}"),
    };
    assert!(commit.stage(epoch, Vec::new()).is_ok());
    assert!(commit.batch.block_headers.is_empty());
    assert!(commit.batch.prefetched_spent_transparent_outputs.is_empty());
    assert!(commit.batch.tip_metadata.is_none());
    assert_eq!(commit.batch.work_cost(), CanonicalBatchCost::default());

    commit.batch.artifact_bytes = 3;
    assert!(matches!(
        commit.stage(epoch, Vec::new()),
        Err(IngestError::EmptyCanonicalBatch)
    ));
    assert_eq!(commit.batch.work_cost().artifact_bytes, 3);
}
