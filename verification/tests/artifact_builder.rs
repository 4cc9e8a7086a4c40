use zinder_ingest::artifact_builder::{
    attach_encodings, compact_note_ciphertext_prefix, compact_transaction,
    compact_transaction_has_payload, compact_transactions, count_to_u32,
    current_schema_transparent_outputs, expand_current_schema_block_artifacts,
    finalize_canonical_block, parse_source_block, prepare_canonical_block,
    prepare_canonical_block_with_raw_blob_policy, validate_parsed_block_identity,
    BlockMismatchField, CanonicalBlockConstructionError, CommitmentTreeSizes, RawBlobPolicy,
    RawBlobRetention, COMPACT_NOTE_CIPHERTEXT_PREFIX_LEN,
};
use zinder_ingest::artifacts::{
    BlockHeaderInfo, CanonicalBlockReplayEnvelope, CompactOrchardAction, CompactTx, SourceBlock,
    TransactionFactSet, TransactionIntrinsicValueBalances, TransactionPublicFacts,
    TransparentInputFact, TransparentOutputFact,
};
use zinder_ingest::batch::CanonicalBatch;
use zinder_ingest::bulk_catchup::heap::{
    canonical_block_facts_heap_bytes, compact_block_heap_bytes,
    estimated_peak_block_prepare_bytes, prepared_block_resident_bytes,
    retained_raw_blob_heap_bytes,
};
use zinder_ingest::chain_ingest::{stage_ingest_commit, ReorgWindowChange};
use zinder_ingest::ids::{
    ArtifactSchemaVersion, BlockHash, BlockHeight, ChainEpoch, ChainEpochId, ChainTipMetadata,
    Network, ShieldedProtocol, TransactionId, TransparentAddressScriptHash, TransparentOutPoint,
    UnixTimestampMillis, COINBASE_SENTINEL_OUTPUT_INDEX,
};
use zinder_ingest::zebra::{
    ParsedAction, ParsedBlock, ParsedSaplingOutput, ParsedTransaction, ParsedTransparentInput,
    ParsedTransparentOutput,
};

/// Height-one block with a single version-one coinbase transaction.
fn raw_block() -> Vec<u8> {
    let mut raw = Vec::new();
    raw.extend_from_slice(&4u32.to_le_bytes());
    raw.extend_from_slice(&[0x11; 32]);
    raw.extend_from_slice(&[0x22; 32]);
    raw.extend_from_slice(&[0x00; 32]);
    raw.extend_from_slice(&1_500_000_000u32.to_le_bytes());
    raw.extend_from_slice(&0x200f_0f0fu32.to_le_bytes());
    raw.extend_from_slice(&[0x33; 32]);
    raw.push(36);
    raw.extend_from_slice(&[0x44; 36]);
    raw.push(1);
    raw.extend_from_slice(&raw_coinbase());
    raw
}

fn raw_coinbase() -> Vec<u8> {
    let mut raw = Vec::new();
    raw.extend_from_slice(&1u32.to_le_bytes());
    raw.push(1);
    raw.extend_from_slice(&[0x00; 32]);
    raw.extend_from_slice(&0xffff_ffffu32.to_le_bytes());
    raw.push(2);
    raw.extend_from_slice(&[0x51, 0x00]);
    raw.extend_from_slice(&0xffff_ffffu32.to_le_bytes());
    raw.push(1);
    raw.extend_from_slice(&625_000_000u64.to_le_bytes());
    raw.push(1);
    raw.push(0x51);
    raw.extend_from_slice(&0u32.to_le_bytes());
    raw
}

fn unlabelled_source_block() -> SourceBlock {
    SourceBlock {
        network: Network::ZcashRegtest,
        height: BlockHeight::new(1),
        hash: BlockHash::from_bytes([0; 32]),
        parent_hash: BlockHash::from_bytes([0x11; 32]),
        block_time_seconds: 1_500_000_000,
        raw_block_bytes: raw_block(),
    }
}

fn source_block() -> SourceBlock {
    let block = unlabelled_source_block();
    let parsed = match parse_source_block(&block, RawBlobPolicy::NoBlobs) {
        Ok(parsed) => parsed,
        Err(error) => panic!("the block has to parse: {error:?}"),
    };
    SourceBlock { hash: BlockHash::from_bytes(parsed.hash), ..block }
}

fn header_info(block: &SourceBlock) -> BlockHeaderInfo {
    BlockHeaderInfo {
        height: block.height,
        block_hash: block.hash,
        parent_hash: block.parent_hash,
        merkle_root: [0x22; 32],
        commitment_bytes: [0; 32],
        block_time: 1_500_000_000,
        difficulty_bits: 0x200f_0f0f,
        nonce: [0x33; 32],
        version: 4,
    }
}

fn coinbase_outpoint() -> TransparentOutPoint {
    TransparentOutPoint::new(TransactionId::from_bytes([0; 32]), COINBASE_SENTINEL_OUTPUT_INDEX)
}

fn fact_set(transaction_id: [u8; 32]) -> TransactionFactSet {
    TransactionFactSet {
        public_facts: TransactionPublicFacts {
            transaction_id: TransactionId::from_bytes(transaction_id),
            serialized_size_bytes: raw_coinbase().len() as u64,
            unsupported_sections: Vec::new(),
        },
        intrinsic_value_balances: TransactionIntrinsicValueBalances {
            sprout_zat: 0,
            sapling_zat: 0,
            orchard_zat: 0,
            ironwood_zat: 0,
        },
        transparent_inputs: vec![TransparentInputFact {
            input_index: 0,
            spent_outpoint: coinbase_outpoint(),
        }],
        transparent_outputs: vec![TransparentOutputFact {
            output_index: 0,
            value_zat: 625_000_000,
            script_pub_key: vec![0x51],
            address_script_hash: TransparentAddressScriptHash([7; 32]),
        }],
    }
}

fn coinbase_txid() -> [u8; 32] {
    match parse_source_block(&unlabelled_source_block(), RawBlobPolicy::NoBlobs) {
        Ok(parsed) => parsed.transactions[0].txid,
        Err(error) => panic!("the block has to parse: {error:?}"),
    }
}

fn empty_transaction() -> ParsedTransaction {
    ParsedTransaction {
        txid: [9; 32],
        sapling_nullifiers: Vec::new(),
        sapling_outputs: Vec::new(),
        orchard_actions: Vec::new(),
        ironwood_actions: Vec::new(),
        inputs: Vec::new(),
        outputs: Vec::new(),
        encoding: None,
    }
}

fn action(seed: u8) -> ParsedAction {
    ParsedAction {
        nullifier: [seed; 32],
        cmx: [seed + 1; 32],
        ephemeral_key: [seed + 2; 32],
        enc_ciphertext: [seed + 3; 580],
    }
}

#[test]
fn commitment_tree_size_overflow_identifies_ironwood() {
    let running_sizes = CommitmentTreeSizes {
        ironwood: u32::MAX,
        ..CommitmentTreeSizes::default()
    };
    let additions = CommitmentTreeSizes {
        ironwood: 1,
        ..CommitmentTreeSizes::default()
    };
    let error = match running_sizes.checked_add(additions) {
        Ok(sizes) => panic!("expected Ironwood overflow, got {sizes:?}"),
        Err(error) => error,
    };

    assert!(matches!(
        error,
        CanonicalBlockConstructionError::CommitmentTreeOverflow {
            protocol: ShieldedProtocol::Ironwood
        }
    ));
}

#[test]
fn compact_note_ciphertext_prefix_rejects_short_buffers() {
    let short_ciphertext = [0u8; COMPACT_NOTE_CIPHERTEXT_PREFIX_LEN - 1];
    let error = match compact_note_ciphertext_prefix(&short_ciphertext) {
        Ok(prefix) => panic!("expected short ciphertext failure, got {} bytes", prefix.len()),
        Err(error) => error,
    };

    assert!(matches!(error, CanonicalBlockConstructionError::CompactCiphertextTooShort));
}

#[test]
fn compact_note_ciphertext_prefix_returns_first_lightwalletd_prefix_bytes() {
    let ciphertext = [1u8; 580];
    let prefix = match compact_note_ciphertext_prefix(&ciphertext) {
        Ok(prefix) => prefix,
        Err(error) => panic!("the prefix has to be there: {error:?}"),
    };

    assert_eq!(prefix, vec![1u8; COMPACT_NOTE_CIPHERTEXT_PREFIX_LEN]);
}

#[test]
fn has_payload_keeps_an_ironwood_only_transaction() {
    let ironwood_only_transaction = CompactTx {
        index: 0,
        txid: vec![0u8; 32],
        fee: 0,
        spends: Vec::new(),
        outputs: Vec::new(),
        actions: Vec::new(),
        ironwood_actions: vec![CompactOrchardAction {
            nullifier: vec![0u8; 32],
            cmx: vec![0u8; 32],
            ephemeral_key: vec![0u8; 32],
            ciphertext: vec![0u8; 52],
        }],
        vin: Vec::new(),
        vout: Vec::new(),
    };

    assert!(
        compact_transaction_has_payload(&ironwood_only_transaction),
        "a transaction with only Ironwood actions and no transparent, Sapling, or Orchard \
         components must not be dropped from the compact block's transaction list"
    );
}

#[test]
fn a_transaction_without_parts_has_no_payload() {
    let compact = match compact_transaction(3, &empty_transaction()) {
        Ok(compact) => compact,
        Err(error) => panic!("compaction has to succeed: {error:?}"),
    };
    assert_eq!(compact.index, 3);
    assert_eq!(compact.txid, vec![9; 32]);
    assert_eq!(compact.fee, 0);
    assert!(!compact_transaction_has_payload(&compact));
}

#[test]
fn every_pool_is_compacted_in_order() {
    let transaction = ParsedTransaction {
        sapling_nullifiers: vec![[1; 32], [2; 32]],
        sapling_outputs: vec![ParsedSaplingOutput {
            cmu: [3; 32],
            ephemeral_key: [4; 32],
            enc_ciphertext: [5; 580],
        }],
        orchard_actions: vec![action(10)],
        ironwood_actions: vec![action(20), action(30)],
        inputs: vec![
            ParsedTransparentInput::PrevOut { prevout_txid: [6; 32], prevout_index: 7 },
            ParsedTransparentInput::Coinbase,
        ],
        outputs: vec![ParsedTransparentOutput { value: 8, lock_script: vec![0xac] }],
        ..empty_transaction()
    };
    let compact = match compact_transaction(0, &transaction) {
        Ok(compact) => compact,
        Err(error) => panic!("compaction has to succeed: {error:?}"),
    };
    assert_eq!(compact.spends.len(), 2);
    assert_eq!(compact.spends[1].nf, vec![2; 32]);
    assert_eq!(compact.outputs[0].cmu, vec![3; 32]);
    assert_eq!(compact.outputs[0].ciphertext, vec![5; 52]);
    assert_eq!(compact.actions[0].cmx, vec![11; 32]);
    assert_eq!(compact.ironwood_actions[1].nullifier, vec![30; 32]);
    assert_eq!(compact.ironwood_actions[1].ciphertext, vec![33; 52]);
    assert_eq!(compact.vin.len(), 1);
    assert_eq!(compact.vin[0].prevout_txid, vec![6; 32]);
    assert_eq!(compact.vin[0].prevout_index, 7);
    assert_eq!(compact.vout[0].value, 8);
}

#[test]
fn compacted_blocks_drop_empty_transactions_and_count_notes() {
    let shielded = ParsedTransaction {
        sapling_outputs: vec![ParsedSaplingOutput {
            cmu: [3; 32],
            ephemeral_key: [4; 32],
            enc_ciphertext: [5; 580],
        }],
        orchard_actions: vec![action(10), action(12)],
        ..empty_transaction()
    };
    let block = ParsedBlock {
        coinbase_height: Some(1),
        hash: [0; 32],
        previous_block_hash: [0; 32],
        time_seconds: 0,
        transactions: vec![empty_transaction(), shielded],
        header_encoding: Ok(Vec::new()),
    };
    let (transactions, additions) = match compact_transactions(&block) {
        Ok(compacted) => compacted,
        Err(error) => panic!("compaction has to succeed: {error:?}"),
    };
    assert_eq!(transactions.len(), 1);
    assert_eq!(transactions[0].index, 1);
    assert_eq!(additions, CommitmentTreeSizes { sapling: 1, orchard: 2, ironwood: 0 });
}

#[test]
fn counts_beyond_u32_name_their_field() {
    assert!(matches!(count_to_u32(7, "sapling outputs"), Ok(7)));
    assert!(matches!(
        count_to_u32(u32::MAX as usize + 1, "sapling outputs"),
        Err(CanonicalBlockConstructionError::CountOverflow { field: "sapling outputs" })
    ));
}

#[test]
fn blob_policies_are_spelled_and_signalled() {
    assert_eq!(RawBlobPolicy::NoBlobs.as_kebab_case(), "none");
    assert_eq!(RawBlobPolicy::Transactions.as_kebab_case(), "transactions");
    assert_eq!(RawBlobPolicy::All.as_kebab_case(), "all");
    assert!(!RawBlobPolicy::Transactions.writes_block_blobs());
    assert!(RawBlobPolicy::All.writes_block_blobs());
    assert!(!RawBlobPolicy::NoBlobs.writes_transaction_blobs());
    assert!(RawBlobPolicy::Transactions.writes_transaction_blobs());
    assert_eq!(RawBlobPolicy::All.to_retention(), RawBlobRetention::All);
    assert_eq!(BlockMismatchField::Height.label(), "block height");
    assert_eq!(BlockMismatchField::Hash.label(), "block hash");
    assert_eq!(BlockMismatchField::ParentHash.label(), "parent hash");
    assert_eq!(BlockMismatchField::Time.label(), "block time");
}

#[test]
fn tree_sizes_overflow_pool_by_pool() {
    let full = CommitmentTreeSizes { sapling: u32::MAX, orchard: u32::MAX, ironwood: 0 };
    let one = CommitmentTreeSizes { sapling: 1, orchard: 1, ironwood: 1 };
    assert!(matches!(
        full.checked_add(one),
        Err(CanonicalBlockConstructionError::CommitmentTreeOverflow {
            protocol: ShieldedProtocol::Sapling
        })
    ));
    let orchard_full = CommitmentTreeSizes { sapling: 0, orchard: u32::MAX, ironwood: 0 };
    assert!(matches!(
        orchard_full.checked_add(one),
        Err(CanonicalBlockConstructionError::CommitmentTreeOverflow {
            protocol: ShieldedProtocol::Orchard
        })
    ));
    let sum = match one.checked_add(one) {
        Ok(sum) => sum,
        Err(error) => panic!("the sum fits: {error:?}"),
    };
    assert_eq!(sum.tip_metadata(), ChainTipMetadata::new(2, 2, 2));
    assert_eq!(sum.chain_metadata().orchard_commitment_tree_size, 2);
    assert_eq!(CommitmentTreeSizes::from_tip_metadata(ChainTipMetadata::new(2, 2, 2)), sum);
}

#[test]
fn raw_bytes_are_parsed_by_the_consensus_decoder() {
    let parsed = match parse_source_block(&unlabelled_source_block(), RawBlobPolicy::All) {
        Ok(parsed) => parsed,
        Err(error) => panic!("the block has to parse: {error:?}"),
    };
    assert_eq!(parsed.coinbase_height, Some(1));
    assert_eq!(parsed.previous_block_hash, [0x11; 32]);
    assert_eq!(parsed.time_seconds, 1_500_000_000);
    assert_eq!(parsed.transactions.len(), 1);
    assert_eq!(parsed.transactions[0].inputs, vec![ParsedTransparentInput::Coinbase]);
    assert_eq!(
        parsed.transactions[0].outputs,
        vec![ParsedTransparentOutput { value: 625_000_000, lock_script: vec![0x51] }]
    );
    assert_eq!(parsed.transactions[0].encoding, Some(Ok(raw_coinbase())));
    let header = raw_block()[..177].to_vec();
    assert_eq!(parsed.header_encoding, Ok(header));
    assert_ne!(parsed.hash, [0; 32]);
}

#[test]
fn encodings_are_read_only_where_blobs_are_kept() {
    let parsed = match parse_source_block(&unlabelled_source_block(), RawBlobPolicy::NoBlobs) {
        Ok(parsed) => parsed,
        Err(error) => panic!("the block has to parse: {error:?}"),
    };
    assert_eq!(parsed.transactions[0].encoding, None);
}

#[test]
fn empty_and_malformed_payloads_are_refused() {
    let empty = SourceBlock { raw_block_bytes: Vec::new(), ..unlabelled_source_block() };
    assert!(matches!(
        parse_source_block(&empty, RawBlobPolicy::NoBlobs),
        Err(CanonicalBlockConstructionError::EmptySourcePayload)
    ));
    let malformed = SourceBlock { raw_block_bytes: vec![1, 2, 3], ..unlabelled_source_block() };
    assert!(matches!(
        parse_source_block(&malformed, RawBlobPolicy::NoBlobs),
        Err(CanonicalBlockConstructionError::BlockParseFailed { .. })
    ));
}

#[test]
fn parsed_identity_is_held_against_the_source() {
    let block = source_block();
    let parsed = match parse_source_block(&block, RawBlobPolicy::NoBlobs) {
        Ok(parsed) => parsed,
        Err(error) => panic!("the block has to parse: {error:?}"),
    };
    assert!(validate_parsed_block_identity(&parsed, &block).is_ok());
    let higher = SourceBlock { height: BlockHeight::new(2), ..source_block() };
    match validate_parsed_block_identity(&parsed, &higher) {
        Err(CanonicalBlockConstructionError::SourceBlockMismatch { field, expected, actual }) => {
            assert_eq!(field, BlockMismatchField::Height);
            assert_eq!(expected, "2");
            assert_eq!(actual, "1");
        }
        other => panic!("expected a height mismatch, got {other:?}"),
    }
    let renamed = SourceBlock { hash: BlockHash::from_bytes([1; 32]), ..source_block() };
    assert!(matches!(
        validate_parsed_block_identity(&parsed, &renamed),
        Err(CanonicalBlockConstructionError::SourceBlockMismatch {
            field: BlockMismatchField::Hash,
            ..
        })
    ));
    let orphan = SourceBlock { parent_hash: BlockHash::from_bytes([1; 32]), ..source_block() };
    assert!(matches!(
        validate_parsed_block_identity(&parsed, &orphan),
        Err(CanonicalBlockConstructionError::SourceBlockMismatch {
            field: BlockMismatchField::ParentHash,
            ..
        })
    ));
    let late = SourceBlock { block_time_seconds: 1, ..source_block() };
    assert!(matches!(
        validate_parsed_block_identity(&parsed, &late),
        Err(CanonicalBlockConstructionError::SourceBlockMismatch {
            field: BlockMismatchField::Time,
            ..
        })
    ));
    let headless = ParsedBlock { coinbase_height: None, ..parsed };
    assert!(matches!(
        validate_parsed_block_identity(&headless, &block),
        Err(CanonicalBlockConstructionError::ParsedBlockMissingCoinbaseHeight)
    ));
}

#[test]
fn prepared_blocks_keep_exactly_the_bytes_of_their_policy() {
    let block = source_block();
    let prepare = |policy: RawBlobPolicy| {
        prepare_canonical_block_with_raw_blob_policy(
            &block,
            Ok(header_info(&block)),
            vec![Ok(fact_set(coinbase_txid()))],
            policy,
        )
    };
    let none = match prepare(RawBlobPolicy::NoBlobs) {
        Ok(prepared) => prepared,
        Err(error) => panic!("preparation has to succeed: {error:?}"),
    };
    assert_eq!(none.facts.raw_block_bytes, None);
    assert_eq!(none.facts.transactions[0].raw_transaction_bytes, None);
    assert_eq!(none.facts.block_header.block_size_bytes, raw_block().len() as u64);
    assert_eq!(none.partial_compact_block.height, 1);
    assert_eq!(none.partial_compact_block.time, 1_500_000_000);
    assert_eq!(none.partial_compact_block.chain_metadata, None);
    assert_eq!(none.partial_compact_block.vtx.len(), 1);
    let transactions = match prepare(RawBlobPolicy::Transactions) {
        Ok(prepared) => prepared,
        Err(error) => panic!("preparation has to succeed: {error:?}"),
    };
    assert_eq!(transactions.facts.raw_block_bytes, None);
    assert_eq!(
        transactions.facts.transactions[0].raw_transaction_bytes,
        Some(raw_coinbase())
    );
    let all = match prepare(RawBlobPolicy::All) {
        Ok(prepared) => prepared,
        Err(error) => panic!("preparation has to succeed: {error:?}"),
    };
    assert_eq!(all.facts.raw_block_bytes, Some(raw_block()));
}

#[test]
fn peak_estimate_covers_fixture_prepare_residency_across_blob_policies() {
    let block = source_block();
    let prepare = |policy: RawBlobPolicy| match prepare_canonical_block_with_raw_blob_policy(
        &block,
        Ok(header_info(&block)),
        vec![Ok(fact_set(coinbase_txid()))],
        policy,
    ) {
        Ok(prepared) => prepared,
        Err(error) => panic!("preparation has to succeed: {error:?}"),
    };
    let estimated_peak_bytes =
        estimated_peak_block_prepare_bytes(block.raw_block_bytes.capacity());
    let no_blobs = prepare(RawBlobPolicy::NoBlobs);
    let transaction_blobs = prepare(RawBlobPolicy::Transactions);
    let all_blobs = prepare(RawBlobPolicy::All);

    let no_blob_resident_bytes = prepared_block_resident_bytes(&no_blobs, 1);
    let transaction_blob_resident_bytes = prepared_block_resident_bytes(&transaction_blobs, 1);
    let all_blob_resident_bytes = prepared_block_resident_bytes(&all_blobs, 1);

    assert!(canonical_block_facts_heap_bytes(&no_blobs.facts) > 0);
    assert!(compact_block_heap_bytes(&no_blobs.partial_compact_block) > 0);
    assert_eq!(retained_raw_blob_heap_bytes(&no_blobs.facts), 0);
    assert!(transaction_blob_resident_bytes > no_blob_resident_bytes);
    assert!(all_blob_resident_bytes > transaction_blob_resident_bytes);
    assert!(estimated_peak_bytes >= all_blob_resident_bytes);
}

#[test]
fn fact_parser_failures_are_reported() {
    let block = source_block();
    match prepare_canonical_block(
        &block,
        Err("header refused".to_owned()),
        vec![Ok(fact_set(coinbase_txid()))],
    ) {
        Err(CanonicalBlockConstructionError::BlockHeaderParseFailed { reason }) => {
            assert_eq!(reason, "header refused");
        }
        other => panic!("expected a header failure, got {other:?}"),
    }
    match prepare_canonical_block(
        &block,
        Ok(header_info(&block)),
        vec![Err("facts refused".to_owned())],
    ) {
        Err(CanonicalBlockConstructionError::TransactionFactsParseFailed { reason }) => {
            assert_eq!(reason, "facts refused");
        }
        other => panic!("expected a facts failure, got {other:?}"),
    }
}

#[test]
fn finalized_blocks_advance_the_running_tree_sizes_only_when_they_fit() {
    let block = source_block();
    let prepare = || {
        match prepare_canonical_block(
            &block,
            Ok(header_info(&block)),
            vec![Ok(fact_set(coinbase_txid()))],
        ) {
            Ok(prepared) => prepared,
            Err(error) => panic!("preparation has to succeed: {error:?}"),
        }
    };
    let mut prepared = prepare();
    prepared.tree_size_additions = CommitmentTreeSizes { sapling: 5, orchard: 6, ironwood: 7 };
    let mut running = CommitmentTreeSizes { sapling: 1, orchard: 1, ironwood: 1 };
    let positioned = match finalize_canonical_block(prepared, &mut running) {
        Ok(positioned) => positioned,
        Err(error) => panic!("the block fits: {error:?}"),
    };
    assert_eq!(positioned.tip_metadata, ChainTipMetadata::new(6, 7, 8));
    assert_eq!(running, CommitmentTreeSizes { sapling: 6, orchard: 7, ironwood: 8 });

    let mut overflowing = prepare();
    overflowing.tree_size_additions =
        CommitmentTreeSizes { sapling: u32::MAX, orchard: 0, ironwood: 0 };
    assert!(finalize_canonical_block(overflowing, &mut running).is_err());
    assert_eq!(running, CommitmentTreeSizes { sapling: 6, orchard: 7, ironwood: 8 });
}

#[test]
fn encoded_blocks_expand_into_located_rows() {
    let block = source_block();
    let prepared = match prepare_canonical_block_with_raw_blob_policy(
        &block,
        Ok(header_info(&block)),
        vec![Ok(fact_set(coinbase_txid()))],
        RawBlobPolicy::All,
    ) {
        Ok(prepared) => prepared,
        Err(error) => panic!("preparation has to succeed: {error:?}"),
    };
    let mut running = CommitmentTreeSizes::default();
    let positioned = match finalize_canonical_block(prepared, &mut running) {
        Ok(positioned) => positioned,
        Err(error) => panic!("the block fits: {error:?}"),
    };
    let encoded = attach_encodings(
        positioned,
        CanonicalBlockReplayEnvelope { payload_bytes: vec![1, 2] },
        vec![3, 4, 5],
    );
    assert_eq!(encoded.compact_block.payload_bytes, vec![3, 4, 5]);
    assert_eq!(encoded.compact_block.block_hash, block.hash);
    let outputs = current_schema_transparent_outputs(&encoded.facts);
    assert_eq!(outputs.len(), 1);
    assert_eq!(outputs[0].outpoint.output_index, 0);
    assert_eq!(outputs[0].block_height, BlockHeight::new(1));
    let rows = match expand_current_schema_block_artifacts(encoded.facts) {
        Ok(rows) => rows,
        Err(error) => panic!("expansion has to succeed: {error:?}"),
    };
    assert_eq!(rows.block_transaction_index.len(), 1);
    assert_eq!(rows.block_transaction_index[0].tx_index_in_block, 0);
    assert_eq!(rows.transaction_blobs[0].raw_transaction_bytes, raw_coinbase());
    match rows.block_blob {
        Some(blob) => assert_eq!(blob.raw_block_bytes, raw_block()),
        None => panic!("the block's bytes are kept"),
    }
}

#[test]
fn current_schema_expansion_round_trips_real_fixture_rows() {
    let source_block = source_block();
    let position = || {
        let prepared = match prepare_canonical_block_with_raw_blob_policy(
            &source_block,
            Ok(header_info(&source_block)),
            vec![Ok(fact_set(coinbase_txid()))],
            RawBlobPolicy::All,
        ) {
            Ok(prepared) => prepared,
            Err(error) => panic!("preparation has to succeed: {error:?}"),
        };
        let mut tree_sizes = CommitmentTreeSizes::default();
        match finalize_canonical_block(prepared, &mut tree_sizes) {
            Ok(positioned) => positioned,
            Err(error) => panic!("the block fits: {error:?}"),
        }
    };
    let positioned = position();
    let tip_metadata = positioned.tip_metadata;
    let current_schema = match expand_current_schema_block_artifacts(positioned.facts) {
        Ok(rows) => rows,
        Err(error) => panic!("expansion has to succeed: {error:?}"),
    };
    let location = match current_schema.transaction_locations.first() {
        Some(location) => *location,
        None => panic!("fixture transaction location is missing"),
    };
    let transaction_facts = match current_schema.transaction_facts.first() {
        Some(facts) => facts,
        None => panic!("fixture transaction facts are missing"),
    };
    let transaction_blob = match current_schema.transaction_blobs.first() {
        Some(blob) => blob,
        None => panic!("fixture transaction blob is missing"),
    };
    let transparent_output = match current_schema.transparent_outputs_by_outpoint.first() {
        Some(output) => output,
        None => panic!("fixture transparent output is missing"),
    };
    let chain_epoch = ChainEpoch {
        id: ChainEpochId::new(1),
        network: Network::ZcashRegtest,
        visible_tip_height: source_block.height,
        visible_tip_hash: source_block.hash,
        settled_tip_height: source_block.height,
        settled_tip_hash: source_block.hash,
        artifact_schema_version: ArtifactSchemaVersion(18),
        tip_metadata,
        created_at: UnixTimestampMillis(1_774_669_000_000),
    };
    let mut batch = CanonicalBatch::default();
    assert!(batch
        .absorb(attach_encodings(
            position(),
            CanonicalBlockReplayEnvelope { payload_bytes: vec![1] },
            vec![2],
        ))
        .is_ok());
    let committed = match stage_ingest_commit(
        chain_epoch,
        &mut batch,
        Vec::new(),
        ReorgWindowChange::AdvanceSafeTipTo { height: source_block.height },
    ) {
        Ok(committed) => committed,
        Err(error) => panic!("the batch can be staged: {error:?}"),
    };

    assert_eq!(
        committed
            .block_transaction_index
            .iter()
            .find(|row| row.block_height == source_block.height && row.tx_index_in_block == 0)
            .map(|row| row.transaction_id),
        Some(location.transaction_id)
    );
    assert_eq!(
        committed
            .transaction_locations
            .iter()
            .find(|row| row.transaction_id == location.transaction_id),
        Some(&location)
    );
    assert_eq!(
        committed
            .transaction_facts
            .iter()
            .find(|row| row.location.transaction_id == location.transaction_id),
        Some(transaction_facts)
    );
    assert_eq!(
        committed
            .transaction_blobs
            .iter()
            .find(|row| row.location.transaction_id == location.transaction_id),
        Some(transaction_blob)
    );
    assert_eq!(
        committed
            .transparent_outputs_by_outpoint
            .iter()
            .find(|row| row.outpoint == transparent_output.outpoint),
        Some(transparent_output)
    );
}
