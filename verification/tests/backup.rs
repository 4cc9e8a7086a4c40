use zinder_ingest::backup::{
    backup_preflight, build_backup_manifest, canonical_backup_position,
    canonical_history_backup_bounds, chain_event_committed_start, classify_after_cursor,
    classify_without_cursor, coverage_connects_to_event, coverage_matches_tip,
    cursorless_projection, restore_admission, restore_check, staging_file_name,
    validate_canonical_history_backup_bounds, validate_manifest_structure,
    validate_recomputed_manifest, validation_file_name, BackupManifest, BackupRefusal,
    BackupValidationScratch, CanonicalBackupPosition, CanonicalHistoryBackupBounds,
    CanonicalHistoryBounds, ChainEvent, ChainProjectionPosition, ConsumerProjectionCoverage,
    ConsumerProjectionState, CursorlessProjection, ProjectionBackupPosition,
    ProjectionBackupState, ProjectionDefinition, ProjectionFacts, ProjectionInput, ProjectionKind,
    ProjectionRecoverySource, ProjectionReplayStart, ProjectionRole, RestoreAdmission,
    RestoreCheck, RestoreEvidence, BACKUP_MANIFEST_FORMAT_VERSION,
};
use zinder_ingest::errors::{IngestError, StoreError};
use zinder_ingest::ids::{
    ArtifactSchemaVersion, BlockHash, BlockHeight, BlockHeightRange, BlockId, ChainEpoch,
    ChainEpochId, ChainTipMetadata, Network, UnixTimestampMillis,
};
use zinder_ingest::text::encode_rpc_block_hash_hex;

const ADDRESS_HISTORY: &str = "transparent-address-transaction-history";
const OUTPOINT_SPEND: &str = "transparent-outpoint-spend";
const TRANSACTION_HISTORY: &str = "transaction-history";
const BLOCK_SUMMARY: &str = "block-summary";
const PAID_FEE: &str = "paid-fee-distribution";

fn epoch(height: u32) -> ChainEpoch {
    ChainEpoch {
        id: ChainEpochId::new(u64::from(height)),
        network: Network::ZcashRegtest,
        visible_tip_height: BlockHeight::new(height),
        visible_tip_hash: BlockHash::from_bytes([height as u8; 32]),
        settled_tip_height: BlockHeight::new(height),
        settled_tip_hash: BlockHash::from_bytes([height as u8; 32]),
        artifact_schema_version: ArtifactSchemaVersion(12),
        tip_metadata: ChainTipMetadata::empty(),
        created_at: UnixTimestampMillis(1),
    }
}

fn committed(start: u32, end: u32) -> ChainEvent {
    ChainEvent::ChainCommitted {
        committed: BlockHeightRange::inclusive(BlockHeight::new(start), BlockHeight::new(end)),
    }
}

fn definition(name: &str, complete_preset: bool) -> ProjectionDefinition {
    let wallet = name == ADDRESS_HISTORY || name == OUTPOINT_SPEND;
    ProjectionDefinition {
        name: name.to_owned(),
        schema_version: 1,
        kind: match name {
            ADDRESS_HISTORY => ProjectionKind::TransparentAddressTransactionHistory,
            OUTPOINT_SPEND => ProjectionKind::TransparentOutpointSpend,
            TRANSACTION_HISTORY => ProjectionKind::TransactionHistory,
            _ => ProjectionKind::Other,
        },
        role: if wallet { ProjectionRole::WalletServing } else { ProjectionRole::Auxiliary },
        recovery_source: if name == PAID_FEE {
            ProjectionRecoverySource::CanonicalBackfillAndChainEvents
        } else {
            ProjectionRecoverySource::CanonicalChainEvents
        },
        included: wallet || complete_preset,
    }
}

fn definitions(complete_preset: bool) -> Vec<ProjectionDefinition> {
    vec![
        definition(ADDRESS_HISTORY, complete_preset),
        definition(OUTPOINT_SPEND, complete_preset),
        definition(TRANSACTION_HISTORY, complete_preset),
        definition(BLOCK_SUMMARY, complete_preset),
        definition(PAID_FEE, complete_preset),
    ]
}

fn never_run() -> ProjectionFacts {
    ProjectionFacts {
        cursor: None,
        materialized_height: None,
        chain_position: ChainProjectionPosition::RecoverableBehind {
            replay_start: ProjectionReplayStart::HistoryFloor,
        },
        projection_state: None,
    }
}

fn at_tip() -> ProjectionFacts {
    ProjectionFacts {
        cursor: Some(vec![0xfb, 0xff, 0x01]),
        materialized_height: None,
        chain_position: ChainProjectionPosition::Exact,
        projection_state: None,
    }
}

fn covered(epoch: ChainEpoch) -> ConsumerProjectionState {
    ConsumerProjectionState {
        projection_epoch_id: epoch.id,
        projection_tip_height: epoch.visible_tip_height,
        projection_tip_hash: epoch.visible_tip_hash,
        coverage: Some(ConsumerProjectionCoverage {
            complete_from_height: BlockHeight::new(1),
            complete_through_height: epoch.visible_tip_height,
            complete_through_hash: epoch.visible_tip_hash,
        }),
    }
}

fn build(
    complete_preset: bool,
    epoch: ChainEpoch,
    facts_of: fn(&str, ChainEpoch) -> ProjectionFacts,
) -> Result<BackupManifest, IngestError> {
    let mut inputs = Vec::new();
    for definition in definitions(complete_preset) {
        let facts = facts_of(&definition.name, epoch);
        inputs.push(ProjectionInput { definition, facts });
    }
    build_backup_manifest(
        "zcash-regtest",
        if complete_preset { "complete" } else { "wallet" },
        Some(epoch),
        Some(CanonicalHistoryBounds::Complete),
        inputs,
        "source",
    )
}

fn position<'a>(manifest: &'a BackupManifest, identity: &str) -> &'a ProjectionBackupPosition {
    for position in &manifest.projections {
        if position.identity == identity {
            return position;
        }
    }
    panic!("{identity} is not recorded")
}

fn assert_refused<T>(outcome: Result<T, IngestError>) {
    match outcome {
        Err(IngestError::BackupCheckpointValidation { .. }) => {}
        Err(error) => panic!("expected a validation failure, got {error:?}"),
        Ok(_) => panic!("expected a validation failure"),
    }
}

fn built(outcome: Result<BackupManifest, IngestError>) -> BackupManifest {
    match outcome {
        Ok(manifest) => manifest,
        Err(error) => panic!("the manifest can be built, got {error:?}"),
    }
}

#[test]
fn live_tail_cursor_does_not_overstate_backfill_projection_as_exact() {
    let manifest = built(build(true, epoch(1), |name, _| {
        if name == PAID_FEE {
            at_tip()
        } else {
            never_run()
        }
    }));
    let paid_fee = position(&manifest, PAID_FEE);
    assert!(paid_fee.cursor.is_some());
    assert_eq!(paid_fee.state, ProjectionBackupState::Behind);
}

#[test]
fn wallet_backup_records_selected_and_omitted_projection_positions() {
    let manifest = built(build(false, epoch(1), |_, _| never_run()));
    assert_eq!(manifest.format_version, BACKUP_MANIFEST_FORMAT_VERSION);
    let canonical = match &manifest.canonical_position {
        Some(canonical) => canonical,
        None => panic!("the store has a tip"),
    };
    assert_eq!(
        canonical.visible_tip_hash,
        encode_rpc_block_hash_hex(epoch(1).visible_tip_hash)
    );
    assert_eq!(canonical.artifact_schema_version, epoch(1).artifact_schema_version.0);
    assert!(matches!(
        canonical.history_bounds,
        CanonicalHistoryBackupBounds::Complete { first_available_height: 1 }
    ));
    for definition in definitions(false) {
        let recorded = position(&manifest, &definition.name);
        if definition.included {
            assert_eq!(recorded.state, ProjectionBackupState::Behind);
            assert!(recorded.cursor.is_none());
            assert!(recorded.materialized_height.is_none());
        } else {
            assert_eq!(recorded.state, ProjectionBackupState::Omitted);
            assert!(recorded.cursor.is_none());
        }
    }
    assert!(validate_manifest_structure(
        &manifest,
        "zcash-regtest",
        "wallet",
        &definitions(false),
        "checkpoint"
    )
    .is_ok());
}

#[test]
fn checkpointed_history_manifest_records_and_validates_the_durable_boundary() {
    let checkpoint = BlockId::new(BlockHeight::new(500), BlockHash::from_bytes([0x42; 32]));
    let bounds = match CanonicalHistoryBounds::checkpointed(checkpoint) {
        Some(bounds) => bounds,
        None => panic!("height 500 can be a boundary"),
    };
    let canonical = CanonicalBackupPosition {
        chain_epoch_id: 1,
        visible_tip_height: 500,
        visible_tip_hash: encode_rpc_block_hash_hex(checkpoint.hash),
        artifact_schema_version: 12,
        history_bounds: canonical_history_backup_bounds(bounds),
    };

    assert!(validate_canonical_history_backup_bounds(&canonical, "checkpoint").is_ok());
    let CanonicalHistoryBackupBounds::Checkpointed {
        first_available_height,
        checkpoint_height,
        checkpoint_hash,
    } = canonical.history_bounds
    else {
        panic!("expected checkpointed canonical history");
    };
    assert_eq!(first_available_height, 501);
    assert_eq!(checkpoint_height, 500);
    assert_eq!(checkpoint_hash, encode_rpc_block_hash_hex(checkpoint.hash));
}

#[test]
fn a_boundary_that_contradicts_itself_is_refused() {
    let position = |history_bounds| CanonicalBackupPosition {
        chain_epoch_id: 1,
        visible_tip_height: 600,
        visible_tip_hash: encode_rpc_block_hash_hex(BlockHash::from_bytes([6; 32])),
        artifact_schema_version: 12,
        history_bounds,
    };
    let hash = encode_rpc_block_hash_hex(BlockHash::from_bytes([5; 32]));
    assert_refused(validate_canonical_history_backup_bounds(
        &position(CanonicalHistoryBackupBounds::Complete { first_available_height: 2 }),
        "checkpoint",
    ));
    assert_refused(validate_canonical_history_backup_bounds(
        &position(CanonicalHistoryBackupBounds::Checkpointed {
            first_available_height: 502,
            checkpoint_height: 500,
            checkpoint_hash: hash.clone(),
        }),
        "checkpoint",
    ));
    assert_refused(validate_canonical_history_backup_bounds(
        &position(CanonicalHistoryBackupBounds::Checkpointed {
            first_available_height: 501,
            checkpoint_height: 500,
            checkpoint_hash: "not-a-block-hash".to_owned(),
        }),
        "checkpoint",
    ));
    assert_refused(validate_canonical_history_backup_bounds(
        &position(CanonicalHistoryBackupBounds::Checkpointed {
            first_available_height: 701,
            checkpoint_height: 700,
            checkpoint_hash: hash,
        }),
        "checkpoint",
    ));
    assert!(CanonicalHistoryBounds::checkpointed(BlockId::new(
        BlockHeight::new(u32::MAX),
        BlockHash::from_bytes([5; 32])
    ))
    .is_none());
}

#[test]
fn wallet_projection_exact_state_requires_a_materialized_canonical_tip() {
    assert_refused(build(false, epoch(1), |_, _| at_tip()));

    assert_refused(build(false, epoch(1), |_, epoch| {
        let mut facts = at_tip();
        facts.materialized_height = Some(epoch.visible_tip_height);
        facts
    }));

    let materialized = built(build(false, epoch(1), |name, epoch| {
        let mut facts = at_tip();
        facts.materialized_height = Some(epoch.visible_tip_height);
        if name == OUTPOINT_SPEND {
            facts.projection_state = Some(covered(epoch));
        }
        facts
    }));
    for identity in [ADDRESS_HISTORY, OUTPOINT_SPEND] {
        let recorded = position(&materialized, identity);
        assert_eq!(recorded.state, ProjectionBackupState::Exact);
        assert_eq!(recorded.materialized_height, Some(1));
    }
}

#[test]
fn expired_wallet_projection_cursor_prevents_backup_publication() {
    assert!(matches!(
        classify_after_cursor(Err(StoreError::ChainEventCursorExpired)),
        Ok(ChainProjectionPosition::Unrecoverable)
    ));
    assert_refused(build(false, epoch(3), |_, _| ProjectionFacts {
        cursor: Some(vec![1]),
        materialized_height: Some(BlockHeight::new(1)),
        chain_position: ChainProjectionPosition::Unrecoverable,
        projection_state: None,
    }));
}

#[test]
fn behind_outpoint_cursor_without_contiguous_coverage_prevents_backup_publication() {
    assert_refused(build(false, epoch(2), |_, _| ProjectionFacts {
        cursor: Some(vec![1]),
        materialized_height: Some(BlockHeight::new(1)),
        chain_position: ChainProjectionPosition::RecoverableBehind {
            replay_start: ProjectionReplayStart::AfterCursor {
                first_pending_event: committed(2, 2),
            },
        },
        projection_state: None,
    }));
    let manifest = built(build(false, epoch(2), |_, _| ProjectionFacts {
        cursor: Some(vec![1]),
        materialized_height: Some(BlockHeight::new(1)),
        chain_position: ChainProjectionPosition::RecoverableBehind {
            replay_start: ProjectionReplayStart::AfterCursor {
                first_pending_event: committed(2, 2),
            },
        },
        projection_state: Some(covered(epoch(1))),
    }));
    assert_eq!(position(&manifest, OUTPOINT_SPEND).state, ProjectionBackupState::Behind);
}

#[test]
fn missing_wallet_cursor_without_full_event_history_prevents_backup_publication() {
    assert!(matches!(
        cursorless_projection(Some(epoch(3)), Some(CanonicalHistoryBounds::Complete)),
        Ok(CursorlessProjection::ReadEvents { first_available_height })
            if first_available_height == BlockHeight::new(1)
    ));
    let pruned = classify_without_cursor(BlockHeight::new(1), &vec![committed(3, 3)]);
    assert!(matches!(pruned, ChainProjectionPosition::Unrecoverable));
    assert_refused(build(false, epoch(3), |_, _| ProjectionFacts {
        cursor: None,
        materialized_height: None,
        chain_position: classify_without_cursor(BlockHeight::new(1), &vec![committed(3, 3)]),
        projection_state: None,
    }));
}

#[test]
fn retained_events_decide_whether_a_projection_can_be_rebuilt() {
    assert!(matches!(
        classify_without_cursor(
            BlockHeight::new(1),
            &vec![ChainEvent::Other, committed(1, 1), committed(2, 2)]
        ),
        ChainProjectionPosition::RecoverableBehind {
            replay_start: ProjectionReplayStart::HistoryFloor
        }
    ));
    assert!(matches!(
        cursorless_projection(None, None),
        Ok(CursorlessProjection::NothingToReplay)
    ));
    assert!(matches!(
        cursorless_projection(Some(epoch(1)), None),
        Err(IngestError::Store(StoreError::CanonicalHistoryBoundsMissing))
    ));
    assert!(matches!(classify_after_cursor(Ok(None)), Ok(ChainProjectionPosition::Exact)));
    assert!(matches!(
        classify_after_cursor(Ok(Some(committed(4, 4)))),
        Ok(ChainProjectionPosition::RecoverableBehind {
            replay_start: ProjectionReplayStart::AfterCursor { .. }
        })
    ));
    assert_eq!(chain_event_committed_start(&committed(4, 5)), Some(BlockHeight::new(4)));
    assert_eq!(chain_event_committed_start(&ChainEvent::Other), None);
}

#[test]
fn coverage_has_to_reach_the_tip_or_the_next_event() {
    let floor = BlockHeight::new(1);
    assert!(coverage_matches_tip(Some(covered(epoch(4))), epoch(4), floor));
    assert!(!coverage_matches_tip(Some(covered(epoch(3))), epoch(4), floor));
    assert!(!coverage_matches_tip(None, epoch(4), floor));
    assert!(coverage_connects_to_event(
        Some(covered(epoch(3))),
        Some(BlockHeight::new(3)),
        floor,
        committed(4, 4)
    ));
    assert!(!coverage_connects_to_event(
        Some(covered(epoch(3))),
        Some(BlockHeight::new(3)),
        floor,
        committed(5, 5)
    ));
    assert!(!coverage_connects_to_event(
        None,
        Some(BlockHeight::new(3)),
        floor,
        committed(4, 4)
    ));
}

#[test]
fn transaction_history_requires_verified_tip_coverage_for_exact_backup_state() {
    assert_refused(build(true, epoch(1), |name, _| {
        if name == TRANSACTION_HISTORY {
            at_tip()
        } else {
            never_run()
        }
    }));

    let manifest = built(build(true, epoch(1), |name, epoch| {
        if name == TRANSACTION_HISTORY {
            let mut facts = at_tip();
            facts.projection_state = Some(covered(epoch));
            facts
        } else {
            never_run()
        }
    }));
    assert_eq!(position(&manifest, TRANSACTION_HISTORY).state, ProjectionBackupState::Exact);
}

#[test]
fn an_unreadable_cursor_fails_the_backup() {
    let outcome = classify_after_cursor(Err(StoreError::Operation {
        reason: "malformed-cursor".to_owned(),
    }));
    assert!(matches!(outcome, Err(IngestError::Store(StoreError::Operation { .. }))));
}

#[test]
fn structurally_tampered_manifest_is_rejected_before_publication() {
    let mut manifest = built(build(true, epoch(1), |_, _| never_run()));
    assert!(validate_manifest_structure(
        &manifest,
        "zcash-regtest",
        "complete",
        &definitions(true),
        "checkpoint.staging"
    )
    .is_ok());
    match &mut manifest.canonical_position {
        Some(canonical) => canonical.visible_tip_hash = "not-a-block-hash".to_owned(),
        None => panic!("the store has a tip"),
    }

    assert_refused(validate_manifest_structure(
        &manifest,
        "zcash-regtest",
        "complete",
        &definitions(true),
        "checkpoint.staging",
    ));
}

#[test]
fn every_structural_fault_is_refused() {
    let check = |manifest: &BackupManifest| {
        assert_refused(validate_manifest_structure(
            manifest,
            "zcash-regtest",
            "complete",
            &definitions(true),
            "checkpoint",
        ));
    };
    let fresh = || built(build(true, epoch(1), |_, _| never_run()));

    let mut manifest = fresh();
    manifest.format_version = 1;
    check(&manifest);
    let mut manifest = fresh();
    manifest.projection_preset = "wallet".to_owned();
    check(&manifest);
    let mut manifest = fresh();
    manifest.projections.pop();
    check(&manifest);
    let mut manifest = fresh();
    manifest.projections[1].identity = manifest.projections[0].identity.clone();
    check(&manifest);
    let mut manifest = fresh();
    manifest.projections[0].schema_version = 2;
    check(&manifest);
    let mut manifest = fresh();
    manifest.projections[0].state = ProjectionBackupState::Omitted;
    check(&manifest);
    let mut manifest = fresh();
    manifest.projections[0].cursor = Some("not base64!".to_owned());
    check(&manifest);
}

#[test]
fn mismatched_projection_checkpoint_is_rejected_before_publication() {
    let recorded = built(build(true, epoch(1), |name, _| {
        if name == BLOCK_SUMMARY {
            at_tip()
        } else {
            never_run()
        }
    }));
    let recomputed = built(build(true, epoch(1), |name, _| {
        if name == BLOCK_SUMMARY {
            let mut facts = at_tip();
            facts.cursor = Some(b"mismatched-checkpoint-cursor".to_vec());
            facts
        } else {
            never_run()
        }
    }));
    assert!(validate_recomputed_manifest(&recorded, &recorded, "checkpoint.staging").is_ok());
    assert_refused(validate_recomputed_manifest(&recorded, &recomputed, "checkpoint.staging"));
}

#[test]
fn recorded_cursors_are_url_safe_text() {
    let manifest = built(build(true, epoch(1), |name, _| {
        if name == BLOCK_SUMMARY {
            at_tip()
        } else {
            never_run()
        }
    }));
    assert_eq!(position(&manifest, BLOCK_SUMMARY).cursor, Some("-_8B".to_owned()));
    assert_eq!(position(&manifest, BLOCK_SUMMARY).state, ProjectionBackupState::Exact);
}

#[test]
fn valid_restore_bundle_is_admitted_once_before_writer_use() {
    let pending = RestoreEvidence { pending_manifest: true, admission_record: false };
    let check = match restore_check(pending, "checkpoint") {
        Ok(check) => check,
        Err(error) => panic!("the evidence is consistent, got {error:?}"),
    };
    assert_eq!(check, RestoreCheck::PendingManifest);
    assert_eq!(restore_admission(check), RestoreAdmission::NewlyAdmitted);

    let admitted = RestoreEvidence { pending_manifest: false, admission_record: true };
    let check = match restore_check(admitted, "checkpoint") {
        Ok(check) => check,
        Err(error) => panic!("the evidence is consistent, got {error:?}"),
    };
    assert_eq!(check, RestoreCheck::AdmissionRecord);
    assert_eq!(restore_admission(check), RestoreAdmission::PreviouslyAdmitted);
}

#[test]
fn a_manifest_of_another_network_is_refused() {
    let mut manifest = built(build(true, epoch(1), |_, _| never_run()));
    manifest.network = "zcash-testnet".to_owned();
    assert_refused(validate_manifest_structure(
        &manifest,
        "zcash-regtest",
        "complete",
        &definitions(true),
        "checkpoint",
    ));
}

#[test]
fn conflicting_restore_evidence_fails_closed() {
    let both = RestoreEvidence { pending_manifest: true, admission_record: true };
    assert_refused(restore_check(both, "checkpoint"));
}

#[test]
fn ordinary_store_without_restore_evidence_needs_no_admission() {
    let none = RestoreEvidence { pending_manifest: false, admission_record: false };
    match restore_check(none, "store") {
        Ok(check) => assert_eq!(restore_admission(check), RestoreAdmission::NotApplicable),
        Err(error) => panic!("an ordinary store is no restore, got {error:?}"),
    }
}

#[test]
fn a_backup_is_refused_before_anything_is_written() {
    assert_eq!(
        backup_preflight(false, true, true),
        Some(BackupRefusal::MaterializedViewStoreMissing)
    );
    assert_eq!(backup_preflight(true, true, true), Some(BackupRefusal::DestinationExists));
    assert_eq!(backup_preflight(true, false, true), Some(BackupRefusal::StagingExists));
    assert_eq!(backup_preflight(true, false, false), None);
    assert_eq!(staging_file_name("nightly"), "nightly.staging");
    assert_eq!(staging_file_name("nightly.v2"), "nightly.v2.staging");
    assert_eq!(validation_file_name("nightly.staging"), "nightly.staging.validation");
    let scratch = BackupValidationScratch { path: "nightly.staging.validation".to_owned() };
    assert!(scratch.canonical_path().starts_with("nightly.staging.validation/"));
    assert!(scratch.derive_path().starts_with("nightly.staging.validation/"));
}

#[test]
fn an_empty_store_is_backed_up_without_a_position() {
    assert!(matches!(canonical_backup_position(None, None, "source"), Ok(None)));
    assert!(matches!(
        canonical_backup_position(Some(epoch(1)), None, "source"),
        Err(IngestError::Store(StoreError::CanonicalHistoryBoundsMissing))
    ));
}
