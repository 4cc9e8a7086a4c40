//! Consistent canonical-plus-projection checkpoints and their manifest.

use crate::cursor_text::{cursor_text, decode_cursor, encode_cursor, is_cursor_text};
use crate::errors::{IngestError, StoreError};
use crate::ids::{BlockHash, BlockHeight, BlockHeightRange, BlockId, ChainEpoch, ChainEpochId};
use crate::text::{
    decode_rpc_block_hash_hex, encode_rpc_block_hash_hex, law_rpc_block_hash_text_reads_back,
    rpc_block_hash_text, rpc_block_hash_value, same_text,
};
use vstd::prelude::*;

verus! {

/// Name, without its extension, of the file that describes a backup bundle.
pub const BACKUP_MANIFEST_FILE_STEM: &'static str = "zinder-backup-manifest";

/// Name, without its extension, that the manifest takes once its bundle was admitted.
pub const RESTORE_ADMISSION_FILE_STEM: &'static str = "zinder-restore-admission";

/// Version of the manifest's shape.
pub const BACKUP_MANIFEST_FORMAT_VERSION: u32 = 2;

/// First height of a history without a checkpoint.
pub const COMPLETE_HISTORY_FIRST_HEIGHT: u32 = 1;

/// Where a backup's canonical history begins, as a manifest records it.
#[derive(Debug, PartialEq, Eq)]
pub enum CanonicalHistoryBackupBounds {
    Complete { first_available_height: u32 },
    Checkpointed { first_available_height: u32, checkpoint_height: u32, checkpoint_hash: String },
}

/// Where a backup's canonical chain stands.
#[derive(Debug, PartialEq, Eq)]
pub struct CanonicalBackupPosition {
    pub chain_epoch_id: u64,
    pub visible_tip_height: u32,
    pub visible_tip_hash: String,
    pub artifact_schema_version: u16,
    pub history_bounds: CanonicalHistoryBackupBounds,
}

/// How far a projection had come when it was backed up.
#[derive(Clone, Copy, Debug, PartialEq, Eq, Structural)]
pub enum ProjectionBackupState {
    Exact,
    Behind,
    Omitted,
}

/// Where one projection of a backup stands.
#[derive(Debug, PartialEq, Eq)]
pub struct ProjectionBackupPosition {
    pub identity: String,
    pub schema_version: u16,
    pub cursor: Option<String>,
    pub materialized_height: Option<u32>,
    pub state: ProjectionBackupState,
}

/// Description of a backup bundle.
#[derive(Debug, PartialEq, Eq)]
pub struct BackupManifest {
    pub format_version: u32,
    pub network: String,
    pub projection_preset: String,
    pub canonical_position: Option<CanonicalBackupPosition>,
    pub projections: Vec<ProjectionBackupPosition>,
}

/// Mathematical form of [`CanonicalHistoryBackupBounds`].
#[verifier::ext_equal]
pub enum HistoryBoundsView {
    Complete { first_available_height: u32 },
    Checkpointed {
        first_available_height: u32,
        checkpoint_height: u32,
        checkpoint_hash: Seq<char>,
    },
}

impl View for CanonicalHistoryBackupBounds {
    type V = HistoryBoundsView;

    open spec fn view(&self) -> HistoryBoundsView {
        match *self {
            CanonicalHistoryBackupBounds::Complete { first_available_height } => {
                HistoryBoundsView::Complete { first_available_height }
            },
            CanonicalHistoryBackupBounds::Checkpointed {
                first_available_height,
                checkpoint_height,
                checkpoint_hash,
            } => HistoryBoundsView::Checkpointed {
                first_available_height,
                checkpoint_height,
                checkpoint_hash: checkpoint_hash@,
            },
        }
    }
}

/// Mathematical form of a [`CanonicalBackupPosition`].
#[verifier::ext_equal]
pub struct CanonicalPositionView {
    pub chain_epoch_id: u64,
    pub visible_tip_height: u32,
    pub visible_tip_hash: Seq<char>,
    pub artifact_schema_version: u16,
    pub history_bounds: HistoryBoundsView,
}

impl View for CanonicalBackupPosition {
    type V = CanonicalPositionView;

    open spec fn view(&self) -> CanonicalPositionView {
        CanonicalPositionView {
            chain_epoch_id: self.chain_epoch_id,
            visible_tip_height: self.visible_tip_height,
            visible_tip_hash: self.visible_tip_hash@,
            artifact_schema_version: self.artifact_schema_version,
            history_bounds: self.history_bounds@,
        }
    }
}

/// Mathematical form of a [`ProjectionBackupPosition`].
#[verifier::ext_equal]
pub struct ProjectionPositionView {
    pub identity: Seq<char>,
    pub schema_version: u16,
    pub cursor: Option<Seq<char>>,
    pub materialized_height: Option<u32>,
    pub state: ProjectionBackupState,
}

impl View for ProjectionBackupPosition {
    type V = ProjectionPositionView;

    open spec fn view(&self) -> ProjectionPositionView {
        ProjectionPositionView {
            identity: self.identity@,
            schema_version: self.schema_version,
            cursor: match self.cursor {
                Some(cursor) => Some(cursor@),
                None => None,
            },
            materialized_height: self.materialized_height,
            state: self.state,
        }
    }
}

/// Mathematical form of a [`BackupManifest`].
#[verifier::ext_equal]
pub struct ManifestView {
    pub format_version: u32,
    pub network: Seq<char>,
    pub projection_preset: Seq<char>,
    pub canonical_position: Option<CanonicalPositionView>,
    pub projections: Seq<ProjectionPositionView>,
}

/// Positions in mathematical form.
pub open spec fn positions_view(projections: Seq<ProjectionBackupPosition>) -> Seq<
    ProjectionPositionView,
> {
    projections.map_values(|projection: ProjectionBackupPosition| projection@)
}

/// A canonical position in mathematical form, where there is one.
pub open spec fn canonical_view(position: Option<CanonicalBackupPosition>) -> Option<
    CanonicalPositionView,
> {
    match position {
        Some(position) => Some(position@),
        None => None,
    }
}

impl View for BackupManifest {
    type V = ManifestView;

    open spec fn view(&self) -> ManifestView {
        ManifestView {
            format_version: self.format_version,
            network: self.network@,
            projection_preset: self.projection_preset@,
            canonical_position: canonical_view(self.canonical_position),
            projections: positions_view(self.projections@),
        }
    }
}

fn same_history_bounds(
    left: &CanonicalHistoryBackupBounds,
    right: &CanonicalHistoryBackupBounds,
) -> (same: bool)
    ensures
        same == (left@ == right@),
{
    match (left, right) {
        (
            CanonicalHistoryBackupBounds::Complete { first_available_height: left_first },
            CanonicalHistoryBackupBounds::Complete { first_available_height: right_first },
        ) => *left_first == *right_first,
        (
            CanonicalHistoryBackupBounds::Checkpointed {
                first_available_height: left_first,
                checkpoint_height: left_height,
                checkpoint_hash: left_hash,
            },
            CanonicalHistoryBackupBounds::Checkpointed {
                first_available_height: right_first,
                checkpoint_height: right_height,
                checkpoint_hash: right_hash,
            },
        ) => *left_first == *right_first && *left_height == *right_height && same_text(
            left_hash.as_str(),
            right_hash.as_str(),
        ),
        _ => false,
    }
}

fn same_canonical_position(
    left: &Option<CanonicalBackupPosition>,
    right: &Option<CanonicalBackupPosition>,
) -> (same: bool)
    ensures
        same == (canonical_view(*left) == canonical_view(*right)),
{
    match (left, right) {
        (None, None) => true,
        (Some(left), Some(right)) => left.chain_epoch_id == right.chain_epoch_id
            && left.visible_tip_height == right.visible_tip_height && same_text(
            left.visible_tip_hash.as_str(),
            right.visible_tip_hash.as_str(),
        ) && left.artifact_schema_version == right.artifact_schema_version && same_history_bounds(
            &left.history_bounds,
            &right.history_bounds,
        ),
        _ => false,
    }
}

fn same_height(left: Option<u32>, right: Option<u32>) -> (same: bool)
    ensures
        same == (left == right),
{
    match (left, right) {
        (None, None) => true,
        (Some(left), Some(right)) => left == right,
        _ => false,
    }
}

fn same_projection(left: &ProjectionBackupPosition, right: &ProjectionBackupPosition) -> (same:
    bool)
    ensures
        same == (left@ == right@),
{
    let same_cursor = match (&left.cursor, &right.cursor) {
        (None, None) => true,
        (Some(left), Some(right)) => same_text(left.as_str(), right.as_str()),
        _ => false,
    };
    same_text(left.identity.as_str(), right.identity.as_str()) && left.schema_version
        == right.schema_version && same_cursor && same_height(
        left.materialized_height,
        right.materialized_height,
    ) && left.state == right.state
}

/// Returns whether two manifests describe the same bundle.
pub fn same_manifest(left: &BackupManifest, right: &BackupManifest) -> (same: bool)
    ensures
        same == (left@ == right@),
{
    if left.format_version != right.format_version || !same_text(
        left.network.as_str(),
        right.network.as_str(),
    ) || !same_text(left.projection_preset.as_str(), right.projection_preset.as_str())
        || !same_canonical_position(&left.canonical_position, &right.canonical_position)
        || left.projections.len() != right.projections.len() {
        assert(left@.projections.len() == left.projections@.len());
        assert(right@.projections.len() == right.projections@.len());
        return false;
    }
    let mut i: usize = 0;
    while i < left.projections.len()
        invariant
            0 <= i <= left.projections@.len(),
            left.projections@.len() == right.projections@.len(),
            forall|k: int| 0 <= k < i ==> (#[trigger] left.projections@[k])@ == right.projections@[k]@,
        decreases left.projections@.len() - i,
    {
        if !same_projection(&left.projections[i], &right.projections[i]) {
            assert(left@.projections[i as int] == left.projections@[i as int]@);
            assert(right@.projections[i as int] == right.projections@[i as int]@);
            return false;
        }
        i += 1;
    }
    assert(left@.projections =~= right@.projections);
    true
}

/// Whether a failure refuses a bundle at a path for a reason.
pub open spec fn is_refused(error: IngestError, path: Seq<char>, reason: Seq<char>) -> bool {
    error matches IngestError::BackupCheckpointValidation { path: told_path, reason: told_reason }
        && told_path@ == path && told_reason@ == reason
}

/// Refuses a bundle.
pub fn backup_validation_error(path: &str, reason: &str) -> (error: IngestError)
    ensures
        is_refused(error, path@, reason@),
{
    IngestError::BackupCheckpointValidation { path: path.to_owned(), reason: reason.to_owned() }
}

/// Why a projection cannot be backed up.
pub open spec fn unrecoverable_reason(identity: Seq<char>) -> Seq<char> {
    "included projection "@ + identity
        + " is behind canonical history without provable replay coverage"@
}

/// Refuses a projection that could not be brought up to the canonical tip again.
pub fn unrecoverable_projection_error(path: &str, identity: &str) -> (error: IngestError)
    ensures
        is_refused(error, path@, unrecoverable_reason(identity@)),
{
    let mut reason = "included projection ".to_owned();
    reason.append(identity);
    reason.append(" is behind canonical history without provable replay coverage");
    IngestError::BackupCheckpointValidation { path: path.to_owned(), reason }
}

/// Where a canonical history begins.
#[derive(Clone, Copy, Debug, PartialEq, Eq)]
pub enum CanonicalHistoryBounds {
    /// Right above the first block.
    Complete,
    /// Right above a checkpoint.
    Checkpointed(BlockId),
}

impl CanonicalHistoryBounds {
    /// A checkpoint has a retained successor.
    pub open spec fn well_formed(self) -> bool {
        self matches CanonicalHistoryBounds::Checkpointed(checkpoint) ==> checkpoint.height.0
            < u32::MAX
    }

    /// First height that the history retains.
    pub open spec fn first_available(self) -> int {
        match self {
            CanonicalHistoryBounds::Complete => COMPLETE_HISTORY_FIRST_HEIGHT as int,
            CanonicalHistoryBounds::Checkpointed(checkpoint) => checkpoint.height.0 + 1,
        }
    }

    /// Builds the bounds above a checkpoint, unless no height is left above it.
    pub fn checkpointed(checkpoint: BlockId) -> (bounds: Option<Self>)
        ensures
            bounds is None <==> checkpoint.height.0 == u32::MAX,
            bounds matches Some(bounds) ==> bounds == CanonicalHistoryBounds::Checkpointed(
                checkpoint,
            ) && bounds.well_formed(),
    {
        if checkpoint.height.0 == u32::MAX {
            None
        } else {
            Some(CanonicalHistoryBounds::Checkpointed(checkpoint))
        }
    }

    /// Returns the first height that the history retains.
    pub fn first_available_height(self) -> (height: BlockHeight)
        requires
            self.well_formed(),
        ensures
            height.0 == self.first_available(),
    {
        match self {
            CanonicalHistoryBounds::Complete => BlockHeight(COMPLETE_HISTORY_FIRST_HEIGHT),
            CanonicalHistoryBounds::Checkpointed(checkpoint) => {
                BlockHeight(checkpoint.height.0 + 1)
            },
        }
    }
}

/// How a manifest records where a history begins.
pub open spec fn recorded_bounds(bounds: CanonicalHistoryBounds) -> HistoryBoundsView {
    match bounds {
        CanonicalHistoryBounds::Complete => HistoryBoundsView::Complete {
            first_available_height: COMPLETE_HISTORY_FIRST_HEIGHT,
        },
        CanonicalHistoryBounds::Checkpointed(checkpoint) => HistoryBoundsView::Checkpointed {
            first_available_height: (checkpoint.height.0 + 1) as u32,
            checkpoint_height: checkpoint.height.0,
            checkpoint_hash: rpc_block_hash_text(checkpoint.hash),
        },
    }
}

/// Records where a history begins.
pub fn canonical_history_backup_bounds(bounds: CanonicalHistoryBounds) -> (recorded:
    CanonicalHistoryBackupBounds)
    requires
        bounds.well_formed(),
    ensures
        recorded@ == recorded_bounds(bounds),
{
    let first_available_height: u32 = bounds.first_available_height().0;
    match bounds {
        CanonicalHistoryBounds::Complete => CanonicalHistoryBackupBounds::Complete {
            first_available_height,
        },
        CanonicalHistoryBounds::Checkpointed(checkpoint) => {
            CanonicalHistoryBackupBounds::Checkpointed {
                first_available_height,
                checkpoint_height: checkpoint.height.0,
                checkpoint_hash: encode_rpc_block_hash_hex(checkpoint.hash),
            }
        },
    }
}

/// How a manifest records where a canonical chain stands.
pub open spec fn recorded_position(
    epoch: ChainEpoch,
    bounds: CanonicalHistoryBounds,
) -> CanonicalPositionView {
    CanonicalPositionView {
        chain_epoch_id: epoch.id.0,
        visible_tip_height: epoch.visible_tip_height.0,
        visible_tip_hash: rpc_block_hash_text(epoch.visible_tip_hash),
        artifact_schema_version: epoch.artifact_schema_version.0,
        history_bounds: recorded_bounds(bounds),
    }
}

/// Records where the canonical chain stands, if anything was committed.
pub fn canonical_backup_position(
    epoch: Option<ChainEpoch>,
    bounds: Option<CanonicalHistoryBounds>,
    storage_path: &str,
) -> (position: Result<Option<CanonicalBackupPosition>, IngestError>)
    requires
        bounds matches Some(bounds) ==> bounds.well_formed(),
    ensures
        match (epoch, bounds) {
            (None, None) => position matches Ok(None),
            (Some(epoch), Some(bounds)) => {
                &&& position matches Ok(Some(position))
                &&& position@ == recorded_position(epoch, bounds)
            },
            (Some(_), None) => position matches Err(
                IngestError::Store(StoreError::CanonicalHistoryBoundsMissing),
            ),
            (None, Some(_)) => position is Err && is_refused(
                position->Err_0,
                storage_path@,
                "canonical history bounds exist without a canonical position"@,
            ),
        },
{
    match (epoch, bounds) {
        (None, None) => Ok(None),
        (Some(epoch), Some(bounds)) => Ok(
            Some(
                CanonicalBackupPosition {
                    chain_epoch_id: epoch.id.value(),
                    visible_tip_height: epoch.visible_tip_height.value(),
                    visible_tip_hash: encode_rpc_block_hash_hex(epoch.visible_tip_hash),
                    artifact_schema_version: epoch.artifact_schema_version.0,
                    history_bounds: canonical_history_backup_bounds(bounds),
                },
            ),
        ),
        (Some(_), None) => Err(IngestError::Store(StoreError::CanonicalHistoryBoundsMissing)),
        (None, Some(_)) => Err(
            backup_validation_error(
                storage_path,
                "canonical history bounds exist without a canonical position",
            ),
        ),
    }
}

/// What is wrong with a recorded history boundary, if anything is.
pub open spec fn bounds_fault(canonical: CanonicalPositionView) -> Option<Seq<char>> {
    match canonical.history_bounds {
        HistoryBoundsView::Complete { first_available_height } => {
            if first_available_height != COMPLETE_HISTORY_FIRST_HEIGHT {
                Some("complete canonical history must begin at height 1"@)
            } else {
                None
            }
        },
        HistoryBoundsView::Checkpointed {
            first_available_height,
            checkpoint_height,
            checkpoint_hash,
        } => {
            if rpc_block_hash_value(checkpoint_hash) is None {
                Some("canonical checkpoint hash is malformed"@)
            } else if checkpoint_height == u32::MAX {
                Some("canonical checkpoint height has no retained successor"@)
            } else if first_available_height != checkpoint_height + 1 {
                Some("canonical first available height does not follow its checkpoint"@)
            } else if canonical.visible_tip_height < checkpoint_height {
                Some("canonical tip precedes its recorded history boundary"@)
            } else {
                None
            }
        },
    }
}

/// Checks a recorded history boundary against itself and the recorded tip.
pub fn validate_canonical_history_backup_bounds(
    canonical: &CanonicalBackupPosition,
    bundle_path: &str,
) -> (valid: Result<(), IngestError>)
    ensures
        match valid {
            Ok(_) => bounds_fault(canonical@) is None,
            Err(error) => bounds_fault(canonical@) is Some && is_refused(
                error,
                bundle_path@,
                bounds_fault(canonical@)->0,
            ),
        },
{
    let bounds = match &canonical.history_bounds {
        CanonicalHistoryBackupBounds::Complete { first_available_height } => {
            if *first_available_height != COMPLETE_HISTORY_FIRST_HEIGHT {
                return Err(
                    backup_validation_error(
                        bundle_path,
                        "complete canonical history must begin at height 1",
                    ),
                );
            }
            CanonicalHistoryBounds::Complete
        },
        CanonicalHistoryBackupBounds::Checkpointed {
            first_available_height,
            checkpoint_height,
            checkpoint_hash,
        } => {
            let hash = match decode_rpc_block_hash_hex(checkpoint_hash.as_str()) {
                Some(hash) => hash,
                None => {
                    return Err(
                        backup_validation_error(
                            bundle_path,
                            "canonical checkpoint hash is malformed",
                        ),
                    );
                },
            };
            let checkpoint = BlockId::new(BlockHeight(*checkpoint_height), hash);
            let bounds = match CanonicalHistoryBounds::checkpointed(checkpoint) {
                Some(bounds) => bounds,
                None => {
                    return Err(
                        backup_validation_error(
                            bundle_path,
                            "canonical checkpoint height has no retained successor",
                        ),
                    );
                },
            };
            if *first_available_height != bounds.first_available_height().0 {
                return Err(
                    backup_validation_error(
                        bundle_path,
                        "canonical first available height does not follow its checkpoint",
                    ),
                );
            }
            bounds
        },
    };
    if canonical.visible_tip_height < bounds.first_available_height().0.saturating_sub(1) {
        return Err(
            backup_validation_error(
                bundle_path,
                "canonical tip precedes its recorded history boundary",
            ),
        );
    }
    Ok(())
}

/// What a projection serves.
#[derive(Clone, Copy, Debug, PartialEq, Eq, Structural)]
pub enum ProjectionRole {
    WalletCorrectness,
    WalletServing,
    /// Anything a wallet does not depend on.
    Auxiliary,
}

/// What a projection can be rebuilt from.
#[derive(Clone, Copy, Debug, PartialEq, Eq, Structural)]
pub enum ProjectionRecoverySource {
    CanonicalChainEvents,
    CanonicalBackfillAndChainEvents,
    CanonicalSnapshotAndChainEvents,
    CanonicalBackfill,
    MempoolEvents,
}

/// Projections whose position is read in their own way.
#[derive(Clone, Copy, Debug, PartialEq, Eq, Structural)]
pub enum ProjectionKind {
    TransactionHistory,
    TransparentAddressTransactionHistory,
    TransparentOutpointSpend,
    Other,
}

/// One projection of the bundled catalog, as one preset selects it.
#[derive(Debug, PartialEq, Eq)]
pub struct ProjectionDefinition {
    pub name: String,
    pub schema_version: u16,
    pub kind: ProjectionKind,
    pub role: ProjectionRole,
    pub recovery_source: ProjectionRecoverySource,
    /// Whether the preset selects this projection.
    pub included: bool,
}

impl ProjectionDefinition {
    /// Whether wallets depend on a projection.
    pub open spec fn serves_wallets(self) -> bool {
        self.role is WalletCorrectness || self.role is WalletServing
    }

    /// Returns whether wallets depend on this projection.
    pub fn is_wallet_projection(&self) -> (wallet: bool)
        ensures
            wallet == self.serves_wallets(),
    {
        matches!(self.role, ProjectionRole::WalletCorrectness | ProjectionRole::WalletServing)
    }

    /// Whether a projection follows the canonical chain events with a cursor.
    pub open spec fn follows_chain_events(self) -> bool {
        ||| self.recovery_source is CanonicalChainEvents
        ||| self.recovery_source is CanonicalBackfillAndChainEvents
        ||| self.recovery_source is CanonicalSnapshotAndChainEvents
    }

    /// Returns whether this projection follows the canonical chain events with a cursor.
    pub fn has_chain_event_cursor(&self) -> (follows: bool)
        ensures
            follows == self.follows_chain_events(),
    {
        matches!(
            self.recovery_source,
            ProjectionRecoverySource::CanonicalChainEvents
            | ProjectionRecoverySource::CanonicalBackfillAndChainEvents
            | ProjectionRecoverySource::CanonicalSnapshotAndChainEvents
        )
    }
}

/// What is wrong with a recorded projection position, if anything is.
pub open spec fn position_fault(
    canonical: Option<CanonicalPositionView>,
    projection: ProjectionPositionView,
    definition: ProjectionDefinition,
) -> Option<Seq<char>> {
    if projection.schema_version != definition.schema_version {
        Some("manifest projection schema version does not match the bundled catalog"@)
    } else if definition.included == (projection.state is Omitted) {
        Some("manifest projection inclusion does not match its preset"@)
    } else if projection.state is Omitted && (projection.cursor is Some
        || projection.materialized_height is Some) {
        Some("omitted projection contains position evidence"@)
    } else if projection.cursor is Some && !is_cursor_text(projection.cursor->0) {
        Some("projection cursor is malformed"@)
    } else if projection.materialized_height is Some && canonical is None {
        Some("projection materialized height exists without a canonical position"@)
    } else if projection.materialized_height is Some && projection.materialized_height->0
        > canonical->0.visible_tip_height {
        Some("projection materialized height exceeds the canonical tip"@)
    } else if projection.state is Exact && projection.cursor is None {
        Some("exact projection is missing its authenticated cursor"@)
    } else if projection.state is Exact && definition.serves_wallets()
        && projection.materialized_height != tip_height_of(canonical) {
        Some("exact wallet projection is missing materialized canonical-tip evidence"@)
    } else {
        None
    }
}

/// Recorded tip height, where a canonical position is recorded.
pub open spec fn tip_height_of(canonical: Option<CanonicalPositionView>) -> Option<u32> {
    match canonical {
        Some(position) => Some(position.visible_tip_height),
        None => None,
    }
}

/// Checks a recorded projection position against the catalog and the canonical position.
pub fn validate_projection_position(
    canonical: &Option<CanonicalBackupPosition>,
    projection: &ProjectionBackupPosition,
    definition: &ProjectionDefinition,
    bundle_path: &str,
) -> (valid: Result<(), IngestError>)
    ensures
        match valid {
            Ok(_) => position_fault(canonical_view(*canonical), projection@, *definition) is None,
            Err(error) => {
                let fault = position_fault(canonical_view(*canonical), projection@, *definition);
                fault is Some && is_refused(error, bundle_path@, fault->0)
            },
        },
{
    if projection.schema_version != definition.schema_version {
        return Err(
            backup_validation_error(
                bundle_path,
                "manifest projection schema version does not match the bundled catalog",
            ),
        );
    }
    let omitted = matches!(projection.state, ProjectionBackupState::Omitted);
    let exact = matches!(projection.state, ProjectionBackupState::Exact);
    if definition.included == omitted {
        return Err(
            backup_validation_error(
                bundle_path,
                "manifest projection inclusion does not match its preset",
            ),
        );
    }
    if omitted && (projection.cursor.is_some() || projection.materialized_height.is_some()) {
        return Err(
            backup_validation_error(bundle_path, "omitted projection contains position evidence"),
        );
    }
    if let Some(cursor) = &projection.cursor {
        if decode_cursor(cursor.as_str()).is_none() {
            return Err(backup_validation_error(bundle_path, "projection cursor is malformed"));
        }
    }
    let canonical_tip: Option<u32> = match canonical {
        Some(position) => Some(position.visible_tip_height),
        None => None,
    };
    if let Some(materialized_height) = projection.materialized_height {
        match canonical_tip {
            None => {
                return Err(
                    backup_validation_error(
                        bundle_path,
                        "projection materialized height exists without a canonical position",
                    ),
                );
            },
            Some(tip) => {
                if materialized_height > tip {
                    return Err(
                        backup_validation_error(
                            bundle_path,
                            "projection materialized height exceeds the canonical tip",
                        ),
                    );
                }
            },
        }
    }
    if exact {
        if projection.cursor.is_none() {
            return Err(
                backup_validation_error(
                    bundle_path,
                    "exact projection is missing its authenticated cursor",
                ),
            );
        }
        if definition.is_wallet_projection() && !same_height(
            projection.materialized_height,
            canonical_tip,
        ) {
            return Err(
                backup_validation_error(
                    bundle_path,
                    "exact wallet projection is missing materialized canonical-tip evidence",
                ),
            );
        }
    }
    Ok(())
}

/// First definition of a catalog that has a name.
pub open spec fn definition_named(definitions: Seq<ProjectionDefinition>, name: Seq<char>) -> Option<
    ProjectionDefinition,
>
    decreases definitions.len(),
{
    if definitions.len() == 0 {
        None
    } else if definitions.first().name@ == name {
        Some(definitions.first())
    } else {
        definition_named(definitions.drop_first(), name)
    }
}

fn find_definition<'a>(definitions: &'a Vec<ProjectionDefinition>, name: &str) -> (found: Option<
    &'a ProjectionDefinition,
>)
    ensures
        match found {
            Some(found) => definition_named(definitions@, name@) == Some(*found),
            None => definition_named(definitions@, name@) is None,
        },
{
    let mut i: usize = 0;
    assert(definitions@.skip(0) =~= definitions@);
    while i < definitions.len()
        invariant
            0 <= i <= definitions@.len(),
            definition_named(definitions@, name@) == definition_named(
                definitions@.skip(i as int),
                name@,
            ),
        decreases definitions@.len() - i,
    {
        assert(definitions@.skip(i as int).drop_first() =~= definitions@.skip(i + 1));
        if same_text(definitions[i].name.as_str(), name) {
            return Some(&definitions[i]);
        }
        i += 1;
    }
    None
}

/// Whether an earlier position of a manifest names the same projection.
pub open spec fn repeats_identity(projections: Seq<ProjectionPositionView>, at: int) -> bool {
    exists|j: int| 0 <= j < at && (#[trigger] projections[j]).identity == projections[at].identity
}

fn identity_repeats(projections: &Vec<ProjectionBackupPosition>, at: usize) -> (repeats: bool)
    requires
        at < projections@.len(),
    ensures
        repeats == repeats_identity(positions_view(projections@), at as int),
{
    let ghost views = positions_view(projections@);
    let mut j: usize = 0;
    while j < at
        invariant
            0 <= j <= at,
            at < projections@.len(),
            views == positions_view(projections@),
            forall|k: int| 0 <= k < j ==> (#[trigger] views[k]).identity != views[at as int].identity,
        decreases at - j,
    {
        assert(views[j as int] == projections@[j as int]@);
        assert(views[at as int] == projections@[at as int]@);
        if same_text(projections[j].identity.as_str(), projections[at].identity.as_str()) {
            return true;
        }
        j += 1;
    }
    false
}

/// What is wrong with the recorded position at an index, if anything is.
pub open spec fn entry_fault(
    canonical: Option<CanonicalPositionView>,
    projections: Seq<ProjectionPositionView>,
    definitions: Seq<ProjectionDefinition>,
    at: int,
) -> Option<Seq<char>> {
    if repeats_identity(projections, at) {
        Some("manifest contains a duplicate projection identity"@)
    } else {
        match definition_named(definitions, projections[at].identity) {
            None => Some("manifest contains an unknown projection identity"@),
            Some(definition) => position_fault(canonical, projections[at], definition),
        }
    }
}

/// The first fault of the recorded positions from an index on.
pub open spec fn entries_fault(
    canonical: Option<CanonicalPositionView>,
    projections: Seq<ProjectionPositionView>,
    definitions: Seq<ProjectionDefinition>,
    from: int,
) -> Option<Seq<char>>
    decreases projections.len() - from,
{
    if from >= projections.len() {
        None
    } else {
        match entry_fault(canonical, projections, definitions, from) {
            Some(fault) => Some(fault),
            None => entries_fault(canonical, projections, definitions, from + 1),
        }
    }
}

/// What is wrong with a manifest's shape, if anything is.
pub open spec fn manifest_fault(
    manifest: ManifestView,
    network: Seq<char>,
    preset: Seq<char>,
    definitions: Seq<ProjectionDefinition>,
) -> Option<Seq<char>> {
    if manifest.format_version != BACKUP_MANIFEST_FORMAT_VERSION {
        Some("manifest format version is unsupported"@)
    } else if manifest.network != network {
        Some("manifest network does not match the requested backup network"@)
    } else if manifest.projection_preset != preset {
        Some("manifest projection preset does not match the requested backup preset"@)
    } else if manifest.canonical_position is Some && rpc_block_hash_value(
        manifest.canonical_position->0.visible_tip_hash,
    ) is None {
        Some("canonical tip hash is malformed"@)
    } else if manifest.canonical_position is Some && bounds_fault(
        manifest.canonical_position->0,
    ) is Some {
        bounds_fault(manifest.canonical_position->0)
    } else if manifest.projections.len() != definitions.len() {
        Some("manifest projection count does not match the bundled catalog"@)
    } else {
        entries_fault(manifest.canonical_position, manifest.projections, definitions, 0)
    }
}

/// Checks a manifest's shape against the network, preset and catalog it is
/// expected to be for.
pub fn validate_manifest_structure(
    manifest: &BackupManifest,
    expected_network: &str,
    expected_preset: &str,
    definitions: &Vec<ProjectionDefinition>,
    bundle_path: &str,
) -> (valid: Result<(), IngestError>)
    ensures
        match valid {
            Ok(_) => manifest_fault(
                manifest@,
                expected_network@,
                expected_preset@,
                definitions@,
            ) is None,
            Err(error) => {
                let fault = manifest_fault(
                    manifest@,
                    expected_network@,
                    expected_preset@,
                    definitions@,
                );
                fault is Some && is_refused(error, bundle_path@, fault->0)
            },
        },
{
    if manifest.format_version != BACKUP_MANIFEST_FORMAT_VERSION {
        return Err(backup_validation_error(bundle_path, "manifest format version is unsupported"));
    }
    if !same_text(manifest.network.as_str(), expected_network) {
        return Err(
            backup_validation_error(
                bundle_path,
                "manifest network does not match the requested backup network",
            ),
        );
    }
    if !same_text(manifest.projection_preset.as_str(), expected_preset) {
        return Err(
            backup_validation_error(
                bundle_path,
                "manifest projection preset does not match the requested backup preset",
            ),
        );
    }
    if let Some(canonical) = &manifest.canonical_position {
        if decode_rpc_block_hash_hex(canonical.visible_tip_hash.as_str()).is_none() {
            return Err(backup_validation_error(bundle_path, "canonical tip hash is malformed"));
        }
        match validate_canonical_history_backup_bounds(canonical, bundle_path) {
            Ok(_) => {},
            Err(error) => {
                return Err(error);
            },
        }
    }
    let ghost canonical = manifest@.canonical_position;
    let ghost views = manifest@.projections;
    assert(views.len() == manifest.projections@.len());
    if manifest.projections.len() != definitions.len() {
        return Err(
            backup_validation_error(
                bundle_path,
                "manifest projection count does not match the bundled catalog",
            ),
        );
    }
    let ghost expected = manifest_fault(
        manifest@,
        expected_network@,
        expected_preset@,
        definitions@,
    );
    let mut i: usize = 0;
    while i < manifest.projections.len()
        invariant
            0 <= i <= manifest.projections@.len(),
            views == positions_view(manifest.projections@),
            canonical == canonical_view(manifest.canonical_position),
            expected == entries_fault(canonical, views, definitions@, i as int),
            expected == manifest_fault(
                manifest@,
                expected_network@,
                expected_preset@,
                definitions@,
            ),
        decreases manifest.projections@.len() - i,
    {
        let projection = &manifest.projections[i];
        assert(views[i as int] == projection@);
        if identity_repeats(&manifest.projections, i) {
            return Err(
                backup_validation_error(
                    bundle_path,
                    "manifest contains a duplicate projection identity",
                ),
            );
        }
        match find_definition(definitions, projection.identity.as_str()) {
            None => {
                return Err(
                    backup_validation_error(
                        bundle_path,
                        "manifest contains an unknown projection identity",
                    ),
                );
            },
            Some(definition) => {
                match validate_projection_position(
                    &manifest.canonical_position,
                    projection,
                    definition,
                    bundle_path,
                ) {
                    Ok(_) => {},
                    Err(error) => {
                        return Err(error);
                    },
                }
            },
        }
        i += 1;
    }
    Ok(())
}

/// One event of the canonical chain, as far as replay depends on it.
#[derive(Clone, Copy, Debug, PartialEq, Eq, Structural)]
#[allow(inconsistent_fields)]
pub enum ChainEvent {
    /// Blocks were appended.
    ChainCommitted { committed: BlockHeightRange },
    /// Blocks were replaced.
    ChainReorged { reverted: BlockHeightRange, committed: BlockHeightRange },
    /// Anything that neither adds nor removes blocks.
    Other,
}

/// First height that an event adds, if it adds any.
pub open spec fn committed_start(event: ChainEvent) -> Option<BlockHeight> {
    match event {
        ChainEvent::ChainCommitted { committed } => range_start(committed),
        ChainEvent::ChainReorged { committed, .. } => range_start(committed),
        ChainEvent::Other => None,
    }
}

/// First height of a range, unless the range is empty.
pub open spec fn range_start(range: BlockHeightRange) -> Option<BlockHeight> {
    if range.start.0 <= range.end.0 {
        Some(range.start)
    } else {
        None
    }
}

/// Returns the first height that an event adds, if it adds any.
pub fn chain_event_committed_start(event: &ChainEvent) -> (start: Option<BlockHeight>)
    ensures
        start == committed_start(*event),
{
    let committed = match event {
        ChainEvent::ChainCommitted { committed } => *committed,
        ChainEvent::ChainReorged { committed, .. } => *committed,
        ChainEvent::Other => {
            return None;
        },
    };
    if committed.start.0 <= committed.end.0 {
        Some(committed.start)
    } else {
        None
    }
}

/// Where a projection would have to be replayed from.
#[derive(Clone, Copy, Debug, PartialEq, Eq, Structural)]
pub enum ProjectionReplayStart {
    /// From the first retained block.
    HistoryFloor,
    /// From the first event after its cursor.
    AfterCursor { first_pending_event: ChainEvent },
}

/// How a projection's cursor stands to the canonical chain events.
#[derive(Clone, Copy, Debug, PartialEq, Eq, Structural)]
pub enum ChainProjectionPosition {
    /// No event is pending.
    Exact,
    /// The pending events are retained.
    RecoverableBehind { replay_start: ProjectionReplayStart },
    /// Some pending event is gone.
    Unrecoverable,
}

/// What decides the position of a projection without a cursor.
#[derive(Clone, Copy, Debug, PartialEq, Eq, Structural)]
pub enum CursorlessProjection {
    /// No block would have to be replayed.
    NothingToReplay,
    /// The retained events have to reach down to the first retained block.
    ReadEvents { first_available_height: BlockHeight },
}

/// Decides what the position of a projection without a cursor depends on.
pub fn cursorless_projection(
    epoch: Option<ChainEpoch>,
    bounds: Option<CanonicalHistoryBounds>,
) -> (projection: Result<CursorlessProjection, IngestError>)
    requires
        bounds matches Some(bounds) ==> bounds.well_formed(),
    ensures
        match (epoch, bounds) {
            (None, _) => projection == Ok::<CursorlessProjection, IngestError>(
                CursorlessProjection::NothingToReplay,
            ),
            (Some(_), None) => projection matches Err(
                IngestError::Store(StoreError::CanonicalHistoryBoundsMissing),
            ),
            (Some(epoch), Some(bounds)) => projection == Ok::<CursorlessProjection, IngestError>(
                if epoch.visible_tip_height.0 < bounds.first_available() {
                    CursorlessProjection::NothingToReplay
                } else {
                    CursorlessProjection::ReadEvents {
                        first_available_height: BlockHeight(bounds.first_available() as u32),
                    }
                },
            ),
        },
{
    let epoch = match epoch {
        Some(epoch) => epoch,
        None => {
            return Ok(CursorlessProjection::NothingToReplay);
        },
    };
    let bounds = match bounds {
        Some(bounds) => bounds,
        None => {
            return Err(IngestError::Store(StoreError::CanonicalHistoryBoundsMissing));
        },
    };
    let first_available_height = bounds.first_available_height();
    if epoch.visible_tip_height.0 < first_available_height.0 {
        Ok(CursorlessProjection::NothingToReplay)
    } else {
        Ok(CursorlessProjection::ReadEvents { first_available_height })
    }
}

/// First height that the earliest block-adding event of a sequence adds.
pub open spec fn earliest_start(events: Seq<ChainEvent>) -> Option<BlockHeight>
    decreases events.len(),
{
    if events.len() == 0 {
        None
    } else if committed_start(events.first()) is Some {
        committed_start(events.first())
    } else {
        earliest_start(events.drop_first())
    }
}

/// Classifies a projection without a cursor: it can be replayed only if the
/// retained events begin at the first retained block.
pub fn classify_without_cursor(
    first_available_height: BlockHeight,
    events: &Vec<ChainEvent>,
) -> (position: ChainProjectionPosition)
    ensures
        position == if earliest_start(events@) == Some(first_available_height) {
            ChainProjectionPosition::RecoverableBehind {
                replay_start: ProjectionReplayStart::HistoryFloor,
            }
        } else {
            ChainProjectionPosition::Unrecoverable
        },
{
    let mut i: usize = 0;
    assert(events@.skip(0) =~= events@);
    while i < events.len()
        invariant
            0 <= i <= events@.len(),
            earliest_start(events@) == earliest_start(events@.skip(i as int)),
        decreases events@.len() - i,
    {
        assert(events@.skip(i as int).drop_first() =~= events@.skip(i + 1));
        match chain_event_committed_start(&events[i]) {
            Some(start) => {
                if start.0 == first_available_height.0 {
                    return ChainProjectionPosition::RecoverableBehind {
                        replay_start: ProjectionReplayStart::HistoryFloor,
                    };
                }
                return ChainProjectionPosition::Unrecoverable;
            },
            None => {},
        }
        i += 1;
    }
    ChainProjectionPosition::Unrecoverable
}

/// Classifies a projection by what the store holds after its cursor.
pub fn classify_after_cursor(
    first_pending_event: Result<Option<ChainEvent>, StoreError>,
) -> (position: Result<ChainProjectionPosition, IngestError>)
    ensures
        position == match first_pending_event {
            Ok(None) => Ok::<ChainProjectionPosition, IngestError>(ChainProjectionPosition::Exact),
            Ok(Some(event)) => Ok(
                ChainProjectionPosition::RecoverableBehind {
                    replay_start: ProjectionReplayStart::AfterCursor { first_pending_event: event },
                },
            ),
            Err(StoreError::ChainEventCursorExpired) => Ok(ChainProjectionPosition::Unrecoverable),
            Err(error) => Err(IngestError::Store(error)),
        },
{
    match first_pending_event {
        Ok(None) => Ok(ChainProjectionPosition::Exact),
        Ok(Some(event)) => Ok(
            ChainProjectionPosition::RecoverableBehind {
                replay_start: ProjectionReplayStart::AfterCursor { first_pending_event: event },
            },
        ),
        Err(StoreError::ChainEventCursorExpired) => Ok(ChainProjectionPosition::Unrecoverable),
        Err(error) => Err(IngestError::Store(error)),
    }
}

/// Blocks that a projection is known to cover without a gap.
#[derive(Clone, Copy, Debug, PartialEq, Eq)]
pub struct ConsumerProjectionCoverage {
    pub complete_from_height: BlockHeight,
    pub complete_through_height: BlockHeight,
    pub complete_through_hash: BlockHash,
}

/// What a projection records about itself.
#[derive(Clone, Copy, Debug, PartialEq, Eq)]
pub struct ConsumerProjectionState {
    pub projection_epoch_id: ChainEpochId,
    pub projection_tip_height: BlockHeight,
    pub projection_tip_hash: BlockHash,
    pub coverage: Option<ConsumerProjectionCoverage>,
}

/// Whether a projection provably covers everything up to the canonical tip.
pub open spec fn covers_to_tip(
    state: Option<ConsumerProjectionState>,
    epoch: ChainEpoch,
    first_available: int,
) -> bool {
    &&& state matches Some(state)
    &&& state.coverage matches Some(coverage)
    &&& state.projection_epoch_id == epoch.id
    &&& state.projection_tip_height == epoch.visible_tip_height
    &&& state.projection_tip_hash == epoch.visible_tip_hash
    &&& coverage.complete_from_height.0 <= first_available
    &&& coverage.complete_through_height == epoch.visible_tip_height
    &&& coverage.complete_through_hash == epoch.visible_tip_hash
}

/// Returns whether a projection provably covers everything up to the canonical tip.
pub fn coverage_matches_tip(
    state: Option<ConsumerProjectionState>,
    epoch: ChainEpoch,
    first_available_height: BlockHeight,
) -> (covers: bool)
    ensures
        covers == covers_to_tip(state, epoch, first_available_height.0 as int),
{
    match state {
        Some(state) => match state.coverage {
            Some(coverage) => state.projection_epoch_id == epoch.id && state.projection_tip_height
                == epoch.visible_tip_height && state.projection_tip_hash == epoch.visible_tip_hash
                && coverage.complete_from_height.0 <= first_available_height.0
                && coverage.complete_through_height == epoch.visible_tip_height
                && coverage.complete_through_hash == epoch.visible_tip_hash,
            None => false,
        },
        None => false,
    }
}

/// Whether a pending event takes up where a coverage ends.
pub open spec fn event_connects(through: BlockHeight, event: ChainEvent) -> bool {
    match event {
        ChainEvent::ChainCommitted { committed } => committed.start.0 > committed.end.0
            || through.spec_next() == Some(committed.start),
        ChainEvent::ChainReorged { reverted, committed } => through.0 >= reverted.start.0
            && committed.start == reverted.start,
        ChainEvent::Other => false,
    }
}

/// Whether a projection's coverage is contiguous and continued by a pending event.
pub open spec fn coverage_connects(
    state: Option<ConsumerProjectionState>,
    materialized_height: Option<BlockHeight>,
    first_available: int,
    event: ChainEvent,
) -> bool {
    &&& state matches Some(state)
    &&& state.coverage matches Some(coverage)
    &&& materialized_height == Some(state.projection_tip_height)
    &&& coverage.complete_from_height.0 <= first_available
    &&& coverage.complete_through_height == state.projection_tip_height
    &&& coverage.complete_through_hash == state.projection_tip_hash
    &&& event_connects(coverage.complete_through_height, event)
}

/// Returns whether a projection's coverage is contiguous and continued by a
/// pending event.
pub fn coverage_connects_to_event(
    state: Option<ConsumerProjectionState>,
    materialized_height: Option<BlockHeight>,
    first_available_height: BlockHeight,
    first_pending_event: ChainEvent,
) -> (connects: bool)
    ensures
        connects == coverage_connects(
            state,
            materialized_height,
            first_available_height.0 as int,
            first_pending_event,
        ),
{
    let state = match state {
        Some(state) => state,
        None => {
            return false;
        },
    };
    let coverage = match state.coverage {
        Some(coverage) => coverage,
        None => {
            return false;
        },
    };
    let materialized = match materialized_height {
        Some(height) => height == state.projection_tip_height,
        None => false,
    };
    if !(materialized && coverage.complete_from_height.0 <= first_available_height.0
        && coverage.complete_through_height == state.projection_tip_height
        && coverage.complete_through_hash == state.projection_tip_hash) {
        return false;
    }
    match first_pending_event {
        ChainEvent::ChainCommitted { committed } => committed.start.0 > committed.end.0
            || match coverage.complete_through_height.next() {
            Some(next) => next == committed.start,
            None => false,
        },
        ChainEvent::ChainReorged { reverted, committed } => coverage.complete_through_height.0
            >= reverted.start.0 && committed.start == reverted.start,
        ChainEvent::Other => false,
    }
}

/// Everything the stores say about one projection.
#[derive(Debug)]
pub struct ProjectionFacts {
    /// Cursor of the projection, where it has one.
    pub cursor: Option<Vec<u8>>,
    /// Highest height the projection has materialized, where it records one.
    pub materialized_height: Option<BlockHeight>,
    /// How the cursor stands to the canonical chain events.
    pub chain_position: ChainProjectionPosition,
    /// What the projection records about itself.
    pub projection_state: Option<ConsumerProjectionState>,
}

/// State of a wallet projection that is provably restorable.
pub open spec fn wallet_state(
    kind: ProjectionKind,
    facts: ProjectionFacts,
    epoch: Option<ChainEpoch>,
    bounds: Option<CanonicalHistoryBounds>,
) -> Option<ProjectionBackupState> {
    let spends = kind is TransparentOutpointSpend;
    match facts.chain_position {
        ChainProjectionPosition::Exact => {
            let exact = {
                &&& epoch matches Some(epoch)
                &&& facts.materialized_height == Some(epoch.visible_tip_height)
                &&& spends ==> bounds is Some && covers_to_tip(
                    facts.projection_state,
                    epoch,
                    bounds->0.first_available(),
                )
            };
            if exact {
                Some(ProjectionBackupState::Exact)
            } else {
                None
            }
        },
        ChainProjectionPosition::RecoverableBehind { replay_start } => {
            let connected = replay_start matches ProjectionReplayStart::AfterCursor {
                first_pending_event,
            } ==> {
                spends ==> bounds is Some && coverage_connects(
                    facts.projection_state,
                    facts.materialized_height,
                    bounds->0.first_available(),
                    first_pending_event,
                )
            };
            if connected {
                Some(ProjectionBackupState::Behind)
            } else {
                None
            }
        },
        ChainProjectionPosition::Unrecoverable => None,
    }
}

/// Classifies a wallet projection: exact only with evidence at the tip,
/// behind only where its replay provably connects.
pub fn classify_wallet_projection_position(
    kind: ProjectionKind,
    identity: &str,
    facts: &ProjectionFacts,
    epoch: Option<ChainEpoch>,
    bounds: Option<CanonicalHistoryBounds>,
    backup_path: &str,
) -> (state: Result<ProjectionBackupState, IngestError>)
    requires
        bounds matches Some(bounds) ==> bounds.well_formed(),
    ensures
        match wallet_state(kind, *facts, epoch, bounds) {
            Some(expected) => state == Ok::<ProjectionBackupState, IngestError>(expected),
            None => state is Err && is_refused(
                state->Err_0,
                backup_path@,
                unrecoverable_reason(identity@),
            ),
        },
{
    let spends = matches!(kind, ProjectionKind::TransparentOutpointSpend);
    match facts.chain_position {
        ChainProjectionPosition::Exact => {
            let epoch = match epoch {
                Some(epoch) => epoch,
                None => {
                    return Err(unrecoverable_projection_error(backup_path, identity));
                },
            };
            let retention_coverage_is_exact = if spends {
                match bounds {
                    Some(bounds) => coverage_matches_tip(
                        facts.projection_state,
                        epoch,
                        bounds.first_available_height(),
                    ),
                    None => {
                        return Err(unrecoverable_projection_error(backup_path, identity));
                    },
                }
            } else {
                true
            };
            let at_tip = match facts.materialized_height {
                Some(height) => height == epoch.visible_tip_height,
                None => false,
            };
            if at_tip && retention_coverage_is_exact {
                Ok(ProjectionBackupState::Exact)
            } else {
                Err(unrecoverable_projection_error(backup_path, identity))
            }
        },
        ChainProjectionPosition::RecoverableBehind { replay_start } => {
            if let ProjectionReplayStart::AfterCursor { first_pending_event } = replay_start {
                if spends {
                    let connects = match bounds {
                        Some(bounds) => coverage_connects_to_event(
                            facts.projection_state,
                            facts.materialized_height,
                            bounds.first_available_height(),
                            first_pending_event,
                        ),
                        None => false,
                    };
                    if !connects {
                        return Err(unrecoverable_projection_error(backup_path, identity));
                    }
                }
            }
            Ok(ProjectionBackupState::Behind)
        },
        ChainProjectionPosition::Unrecoverable => {
            Err(unrecoverable_projection_error(backup_path, identity))
        },
    }
}

/// Whether the transaction-history projection lacks what its state is decided by.
pub open spec fn history_bounds_missing(
    facts: ProjectionFacts,
    epoch: Option<ChainEpoch>,
    bounds: Option<CanonicalHistoryBounds>,
) -> bool {
    &&& facts.chain_position is Exact
    &&& epoch is Some
    &&& facts.projection_state is Some
    &&& bounds is None
}

/// State of the transaction-history projection where it is provably restorable.
pub open spec fn transaction_history_state(
    facts: ProjectionFacts,
    epoch: Option<ChainEpoch>,
    bounds: Option<CanonicalHistoryBounds>,
) -> Option<ProjectionBackupState> {
    match facts.chain_position {
        ChainProjectionPosition::RecoverableBehind { .. } => Some(ProjectionBackupState::Behind),
        ChainProjectionPosition::Unrecoverable => None,
        ChainProjectionPosition::Exact => if epoch is Some && bounds is Some && covers_to_tip(
            facts.projection_state,
            epoch->0,
            bounds->0.first_available(),
        ) {
            Some(ProjectionBackupState::Exact)
        } else {
            None
        },
    }
}

/// Classifies the transaction-history projection: exact only with coverage of
/// everything up to the tip.
pub fn classify_transaction_history_position(
    identity: &str,
    facts: &ProjectionFacts,
    epoch: Option<ChainEpoch>,
    bounds: Option<CanonicalHistoryBounds>,
    backup_path: &str,
) -> (state: Result<ProjectionBackupState, IngestError>)
    requires
        bounds matches Some(bounds) ==> bounds.well_formed(),
    ensures
        if history_bounds_missing(*facts, epoch, bounds) {
            state matches Err(IngestError::Store(StoreError::CanonicalHistoryBoundsMissing))
        } else {
            match transaction_history_state(*facts, epoch, bounds) {
                Some(expected) => state == Ok::<ProjectionBackupState, IngestError>(expected),
                None => state is Err && is_refused(
                    state->Err_0,
                    backup_path@,
                    unrecoverable_reason(identity@),
                ),
            }
        },
{
    match facts.chain_position {
        ChainProjectionPosition::RecoverableBehind { .. } => {
            return Ok(ProjectionBackupState::Behind);
        },
        ChainProjectionPosition::Unrecoverable => {
            return Err(unrecoverable_projection_error(backup_path, identity));
        },
        ChainProjectionPosition::Exact => {},
    }
    let epoch = match epoch {
        Some(epoch) => epoch,
        None => {
            return Err(unrecoverable_projection_error(backup_path, identity));
        },
    };
    if facts.projection_state.is_none() {
        return Err(unrecoverable_projection_error(backup_path, identity));
    }
    let bounds = match bounds {
        Some(bounds) => bounds,
        None => {
            return Err(IngestError::Store(StoreError::CanonicalHistoryBoundsMissing));
        },
    };
    if coverage_matches_tip(facts.projection_state, epoch, bounds.first_available_height()) {
        Ok(ProjectionBackupState::Exact)
    } else {
        Err(unrecoverable_projection_error(backup_path, identity))
    }
}

/// Records how a projection stands that only its cursor says something about.
pub fn chain_projection_backup_state(
    position: ChainProjectionPosition,
    backup_path: &str,
    identity: &str,
) -> (state: Result<ProjectionBackupState, IngestError>)
    ensures
        match position {
            ChainProjectionPosition::Exact => state == Ok::<ProjectionBackupState, IngestError>(
                ProjectionBackupState::Exact,
            ),
            ChainProjectionPosition::RecoverableBehind { .. } => state == Ok::<
                ProjectionBackupState,
                IngestError,
            >(ProjectionBackupState::Behind),
            ChainProjectionPosition::Unrecoverable => state is Err && is_refused(
                state->Err_0,
                backup_path@,
                unrecoverable_reason(identity@),
            ),
        },
{
    match position {
        ChainProjectionPosition::Exact => Ok(ProjectionBackupState::Exact),
        ChainProjectionPosition::RecoverableBehind { .. } => Ok(ProjectionBackupState::Behind),
        ChainProjectionPosition::Unrecoverable => {
            Err(unrecoverable_projection_error(backup_path, identity))
        },
    }
}

/// Whether a projection records the height it has materialized.
pub open spec fn records_materialized_height(kind: ProjectionKind) -> bool {
    kind is TransparentAddressTransactionHistory || kind is TransparentOutpointSpend
}

/// The facts that count for a projection: a height only where it records one,
/// a cursor only where it follows the chain events.
pub open spec fn relevant_facts(
    definition: ProjectionDefinition,
    facts: ProjectionFacts,
) -> ProjectionFacts {
    ProjectionFacts {
        cursor: if definition.follows_chain_events() {
            facts.cursor
        } else {
            None
        },
        materialized_height: if records_materialized_height(definition.kind) {
            facts.materialized_height
        } else {
            None
        },
        chain_position: facts.chain_position,
        projection_state: facts.projection_state,
    }
}

/// State of an included projection that is provably restorable.
///
/// A cursor alone proves neither backfill nor snapshot coverage, and mempool
/// projections have no canonical cursor: all of those count as behind.
pub open spec fn included_state(
    definition: ProjectionDefinition,
    facts: ProjectionFacts,
    epoch: Option<ChainEpoch>,
    bounds: Option<CanonicalHistoryBounds>,
) -> Option<ProjectionBackupState> {
    if !(definition.recovery_source is CanonicalChainEvents) {
        Some(ProjectionBackupState::Behind)
    } else if definition.kind is TransactionHistory {
        transaction_history_state(facts, epoch, bounds)
    } else if definition.serves_wallets() {
        wallet_state(definition.kind, facts, epoch, bounds)
    } else {
        match facts.chain_position {
            ChainProjectionPosition::Exact => Some(ProjectionBackupState::Exact),
            ChainProjectionPosition::RecoverableBehind { .. } => Some(
                ProjectionBackupState::Behind,
            ),
            ChainProjectionPosition::Unrecoverable => None,
        }
    }
}

/// Text of a cursor, where there is one.
pub open spec fn optional_cursor_text(cursor: Option<Vec<u8>>) -> Option<Seq<char>> {
    match cursor {
        Some(bytes) => Some(cursor_text(bytes@)),
        None => None,
    }
}

/// A height as a plain integer, where there is one.
pub open spec fn optional_height(height: Option<BlockHeight>) -> Option<u32> {
    match height {
        Some(height) => Some(height.0),
        None => None,
    }
}

/// What a manifest records of an included projection in some state.
pub open spec fn included_position(
    definition: ProjectionDefinition,
    facts: ProjectionFacts,
    state: ProjectionBackupState,
) -> ProjectionPositionView {
    ProjectionPositionView {
        identity: definition.name@,
        schema_version: definition.schema_version,
        cursor: optional_cursor_text(facts.cursor),
        materialized_height: optional_height(facts.materialized_height),
        state,
    }
}

/// What a manifest records of a projection that its preset does not select.
pub open spec fn omitted_position(definition: ProjectionDefinition) -> ProjectionPositionView {
    ProjectionPositionView {
        identity: definition.name@,
        schema_version: definition.schema_version,
        cursor: None,
        materialized_height: None,
        state: ProjectionBackupState::Omitted,
    }
}

/// Whether an outcome is what recording a projection's position comes to.
pub open spec fn is_position_outcome(
    outcome: Result<ProjectionBackupPosition, IngestError>,
    definition: ProjectionDefinition,
    facts: ProjectionFacts,
    epoch: Option<ChainEpoch>,
    bounds: Option<CanonicalHistoryBounds>,
    backup_path: Seq<char>,
) -> bool {
    let relevant = relevant_facts(definition, facts);
    if !definition.included {
        outcome matches Ok(position) && position@ == omitted_position(definition)
    } else if definition.recovery_source is CanonicalChainEvents && definition.kind
        is TransactionHistory && history_bounds_missing(relevant, epoch, bounds) {
        outcome matches Err(IngestError::Store(StoreError::CanonicalHistoryBoundsMissing))
    } else {
        match included_state(definition, relevant, epoch, bounds) {
            Some(state) => outcome matches Ok(position) && position@ == included_position(
                definition,
                relevant,
                state,
            ),
            None => outcome matches Err(error) && is_refused(
                error,
                backup_path,
                unrecoverable_reason(definition.name@),
            ),
        }
    }
}

/// Whether a cursor can be written out.
pub open spec fn cursor_fits(facts: ProjectionFacts) -> bool {
    facts.cursor matches Some(bytes) ==> bytes@.len() <= usize::MAX / 4
}

fn classify_included_projection(
    definition: &ProjectionDefinition,
    facts: &ProjectionFacts,
    epoch: Option<ChainEpoch>,
    bounds: Option<CanonicalHistoryBounds>,
    backup_path: &str,
) -> (state: Result<ProjectionBackupState, IngestError>)
    requires
        bounds matches Some(bounds) ==> bounds.well_formed(),
    ensures
        if definition.recovery_source is CanonicalChainEvents && definition.kind
            is TransactionHistory && history_bounds_missing(*facts, epoch, bounds) {
            state matches Err(IngestError::Store(StoreError::CanonicalHistoryBoundsMissing))
        } else {
            match included_state(*definition, *facts, epoch, bounds) {
                Some(expected) => state == Ok::<ProjectionBackupState, IngestError>(expected),
                None => state is Err && is_refused(
                    state->Err_0,
                    backup_path@,
                    unrecoverable_reason(definition.name@),
                ),
            }
        },
{
    let identity = definition.name.as_str();
    match definition.recovery_source {
        ProjectionRecoverySource::CanonicalChainEvents => {
            if matches!(definition.kind, ProjectionKind::TransactionHistory) {
                classify_transaction_history_position(identity, facts, epoch, bounds, backup_path)
            } else if definition.is_wallet_projection() {
                classify_wallet_projection_position(
                    definition.kind,
                    identity,
                    facts,
                    epoch,
                    bounds,
                    backup_path,
                )
            } else {
                chain_projection_backup_state(facts.chain_position, backup_path, identity)
            }
        },
        ProjectionRecoverySource::CanonicalBackfillAndChainEvents
        | ProjectionRecoverySource::CanonicalSnapshotAndChainEvents
        | ProjectionRecoverySource::CanonicalBackfill
        | ProjectionRecoverySource::MempoolEvents => Ok(ProjectionBackupState::Behind),
    }
}

/// Records where one projection of the catalog stands.
pub fn projection_backup_position(
    definition: &ProjectionDefinition,
    facts: ProjectionFacts,
    epoch: Option<ChainEpoch>,
    bounds: Option<CanonicalHistoryBounds>,
    backup_path: &str,
) -> (position: Result<ProjectionBackupPosition, IngestError>)
    requires
        bounds matches Some(bounds) ==> bounds.well_formed(),
        cursor_fits(facts),
    ensures
        is_position_outcome(position, *definition, facts, epoch, bounds, backup_path@),
{
    if !definition.included {
        return Ok(
            ProjectionBackupPosition {
                identity: definition.name.as_str().to_owned(),
                schema_version: definition.schema_version,
                cursor: None,
                materialized_height: None,
                state: ProjectionBackupState::Omitted,
            },
        );
    }
    let ProjectionFacts { cursor, materialized_height, chain_position, projection_state } = facts;
    let cursor = if definition.has_chain_event_cursor() {
        cursor
    } else {
        None
    };
    let materialized_height = match definition.kind {
        ProjectionKind::TransparentAddressTransactionHistory
        | ProjectionKind::TransparentOutpointSpend => materialized_height,
        _ => None,
    };
    let relevant = ProjectionFacts {
        cursor,
        materialized_height,
        chain_position,
        projection_state,
    };
    assert(relevant == relevant_facts(*definition, facts));
    let state = match classify_included_projection(
        definition,
        &relevant,
        epoch,
        bounds,
        backup_path,
    ) {
        Ok(state) => state,
        Err(error) => {
            return Err(error);
        },
    };
    let cursor = match &relevant.cursor {
        Some(bytes) => Some(encode_cursor(bytes.as_slice())),
        None => None,
    };
    let materialized_height: Option<u32> = match relevant.materialized_height {
        Some(height) => Some(height.0),
        None => None,
    };
    let position = ProjectionBackupPosition {
        identity: definition.name.as_str().to_owned(),
        schema_version: definition.schema_version,
        cursor,
        materialized_height,
        state,
    };
    assert(position@ == included_position(*definition, relevant, state));
    Ok(position)
}

/// One projection of the catalog and everything the stores say about it.
#[derive(Debug)]
pub struct ProjectionInput {
    pub definition: ProjectionDefinition,
    pub facts: ProjectionFacts,
}

/// Whether recording a projection's position fails.
pub open spec fn position_refused(
    input: ProjectionInput,
    epoch: Option<ChainEpoch>,
    bounds: Option<CanonicalHistoryBounds>,
) -> bool {
    let relevant = relevant_facts(input.definition, input.facts);
    &&& input.definition.included
    &&& {
        ||| input.definition.recovery_source is CanonicalChainEvents && input.definition.kind
            is TransactionHistory && history_bounds_missing(relevant, epoch, bounds)
        ||| included_state(input.definition, relevant, epoch, bounds) is None
    }
}

/// What a manifest records of a projection whose position can be recorded.
pub open spec fn position_recorded(
    input: ProjectionInput,
    epoch: Option<ChainEpoch>,
    bounds: Option<CanonicalHistoryBounds>,
) -> ProjectionPositionView {
    let relevant = relevant_facts(input.definition, input.facts);
    if !input.definition.included {
        omitted_position(input.definition)
    } else {
        included_position(
            input.definition,
            relevant,
            included_state(input.definition, relevant, epoch, bounds)->0,
        )
    }
}

/// The manifest of a bundle whose positions can all be recorded.
pub open spec fn manifest_of(
    network: Seq<char>,
    preset: Seq<char>,
    epoch: Option<ChainEpoch>,
    bounds: Option<CanonicalHistoryBounds>,
    inputs: Seq<ProjectionInput>,
) -> ManifestView {
    ManifestView {
        format_version: BACKUP_MANIFEST_FORMAT_VERSION,
        network,
        projection_preset: preset,
        canonical_position: match (epoch, bounds) {
            (Some(epoch), Some(bounds)) => Some(recorded_position(epoch, bounds)),
            _ => None,
        },
        projections: Seq::new(
            inputs.len(),
            |i: int| position_recorded(inputs[i], epoch, bounds),
        ),
    }
}

/// Whether the input at an index is the first whose position cannot be recorded.
pub open spec fn first_refused(
    inputs: Seq<ProjectionInput>,
    epoch: Option<ChainEpoch>,
    bounds: Option<CanonicalHistoryBounds>,
    at: int,
) -> bool {
    &&& 0 <= at < inputs.len()
    &&& position_refused(inputs[at], epoch, bounds)
    &&& forall|i: int| 0 <= i < at ==> !position_refused(#[trigger] inputs[i], epoch, bounds)
}

/// Builds the manifest of a bundle.
pub fn build_backup_manifest(
    network: &str,
    preset: &str,
    epoch: Option<ChainEpoch>,
    bounds: Option<CanonicalHistoryBounds>,
    inputs: Vec<ProjectionInput>,
    storage_path: &str,
) -> (manifest: Result<BackupManifest, IngestError>)
    requires
        bounds matches Some(bounds) ==> bounds.well_formed(),
        forall|i: int| 0 <= i < inputs@.len() ==> cursor_fits((#[trigger] inputs@[i]).facts),
    ensures
        match manifest {
            Ok(manifest) => {
                &&& epoch is Some <==> bounds is Some
                &&& forall|i: int|
                    0 <= i < inputs@.len() ==> !position_refused(
                        #[trigger] inputs@[i],
                        epoch,
                        bounds,
                    )
                &&& manifest@ == manifest_of(network@, preset@, epoch, bounds, inputs@)
            },
            Err(error) => if epoch is Some && bounds is None {
                error matches IngestError::Store(StoreError::CanonicalHistoryBoundsMissing)
            } else if epoch is None && bounds is Some {
                is_refused(
                    error,
                    storage_path@,
                    "canonical history bounds exist without a canonical position"@,
                )
            } else {
                exists|at: int|
                    #![trigger inputs@[at]]
                    first_refused(inputs@, epoch, bounds, at) && is_refused(
                        error,
                        storage_path@,
                        unrecoverable_reason(inputs@[at].definition.name@),
                    )
            },
        },
{
    let canonical_position = match canonical_backup_position(epoch, bounds, storage_path) {
        Ok(position) => position,
        Err(error) => {
            return Err(error);
        },
    };
    let ghost all = inputs@;
    let mut projections: Vec<ProjectionBackupPosition> = Vec::new();
    for input in it: inputs
        invariant
            it.seq() == all,
            all == inputs@,
            projections@.len() == it.index(),
            bounds matches Some(bounds) ==> bounds.well_formed(),
            epoch is Some <==> bounds is Some,
            forall|i: int| 0 <= i < all.len() ==> cursor_fits((#[trigger] all[i]).facts),
            forall|i: int|
                0 <= i < it.index() ==> !position_refused(#[trigger] all[i], epoch, bounds),
            forall|i: int|
                0 <= i < it.index() ==> (#[trigger] projections@[i])@ == position_recorded(
                    all[i],
                    epoch,
                    bounds,
                ),
    {
        let ProjectionInput { definition, facts } = input;
        assert(cursor_fits(all[it.index()].facts));
        match projection_backup_position(&definition, facts, epoch, bounds, storage_path) {
            Ok(position) => {
                assert(!position_refused(all[it.index()], epoch, bounds));
                projections.push(position);
            },
            Err(error) => {
                assert(first_refused(all, epoch, bounds, it.index()));
                return Err(error);
            },
        }
    }
    let manifest = BackupManifest {
        format_version: BACKUP_MANIFEST_FORMAT_VERSION,
        network: network.to_owned(),
        projection_preset: preset.to_owned(),
        canonical_position,
        projections,
    };
    assert(manifest@.projections =~= manifest_of(
        network@,
        preset@,
        epoch,
        bounds,
        all,
    ).projections);
    Ok(manifest)
}

/// Accepts a recorded manifest that describes the reopened checkpoints.
pub fn validate_recomputed_manifest(
    recorded: &BackupManifest,
    recomputed: &BackupManifest,
    bundle_path: &str,
) -> (valid: Result<(), IngestError>)
    ensures
        match valid {
            Ok(_) => recorded@ == recomputed@,
            Err(error) => recorded@ != recomputed@ && is_refused(
                error,
                bundle_path@,
                "manifest positions do not match the reopened staged checkpoints"@,
            ),
        },
{
    if !same_manifest(recorded, recomputed) {
        return Err(
            backup_validation_error(
                bundle_path,
                "manifest positions do not match the reopened staged checkpoints",
            ),
        );
    }
    Ok(())
}

/// Why no backup is started.
#[derive(Clone, Copy, Debug, PartialEq, Eq, Structural)]
pub enum BackupRefusal {
    /// There is no materialized-view store to back up.
    MaterializedViewStoreMissing,
    /// Something stands at the destination already.
    DestinationExists,
    /// An earlier backup left its staging directory behind.
    StagingExists,
}

/// Decides whether a backup may start.
pub fn backup_preflight(
    view_store_exists: bool,
    destination_exists: bool,
    staging_exists: bool,
) -> (refusal: Option<BackupRefusal>)
    ensures
        refusal == if !view_store_exists {
            Some(BackupRefusal::MaterializedViewStoreMissing)
        } else if destination_exists {
            Some(BackupRefusal::DestinationExists)
        } else if staging_exists {
            Some(BackupRefusal::StagingExists)
        } else {
            None
        },
{
    if !view_store_exists {
        Some(BackupRefusal::MaterializedViewStoreMissing)
    } else if destination_exists {
        Some(BackupRefusal::DestinationExists)
    } else if staging_exists {
        Some(BackupRefusal::StagingExists)
    } else {
        None
    }
}

/// How a store relates to a restored bundle.
#[derive(Clone, Copy, Debug, PartialEq, Eq, Structural)]
pub enum RestoreAdmission {
    NotApplicable,
    NewlyAdmitted,
    PreviouslyAdmitted,
}

/// Which restore evidence stands beside a store.
#[derive(Clone, Copy, Debug, PartialEq, Eq, Structural)]
pub struct RestoreEvidence {
    pub pending_manifest: bool,
    pub admission_record: bool,
}

/// What has to be checked before a writer may use a store.
#[derive(Clone, Copy, Debug, PartialEq, Eq, Structural)]
pub enum RestoreCheck {
    /// Nothing: the store was never restored.
    Nothing,
    /// The shape of the admission record.
    AdmissionRecord,
    /// The pending manifest against the reopened checkpoints; it then becomes
    /// the admission record.
    PendingManifest,
}

/// What a store's restore evidence calls for, unless it contradicts itself.
pub open spec fn restore_check_of(evidence: RestoreEvidence) -> Option<RestoreCheck> {
    if evidence.pending_manifest && evidence.admission_record {
        None
    } else if evidence.admission_record {
        Some(RestoreCheck::AdmissionRecord)
    } else if evidence.pending_manifest {
        Some(RestoreCheck::PendingManifest)
    } else {
        Some(RestoreCheck::Nothing)
    }
}

/// Decides what has to be checked before a writer may use a store.
pub fn restore_check(evidence: RestoreEvidence, bundle_path: &str) -> (check: Result<
    RestoreCheck,
    IngestError,
>)
    ensures
        match restore_check_of(evidence) {
            Some(expected) => check == Ok::<RestoreCheck, IngestError>(expected),
            None => check is Err && is_refused(
                check->Err_0,
                bundle_path@,
                "restore bundle contains both a pending manifest and an admission record"@,
            ),
        },
{
    if evidence.pending_manifest && evidence.admission_record {
        return Err(
            backup_validation_error(
                bundle_path,
                "restore bundle contains both a pending manifest and an admission record",
            ),
        );
    }
    if evidence.admission_record {
        return Ok(RestoreCheck::AdmissionRecord);
    }
    if evidence.pending_manifest {
        return Ok(RestoreCheck::PendingManifest);
    }
    Ok(RestoreCheck::Nothing)
}

/// How a store relates to a restored bundle once its check has passed.
pub open spec fn admission_of(check: RestoreCheck) -> RestoreAdmission {
    match check {
        RestoreCheck::Nothing => RestoreAdmission::NotApplicable,
        RestoreCheck::AdmissionRecord => RestoreAdmission::PreviouslyAdmitted,
        RestoreCheck::PendingManifest => RestoreAdmission::NewlyAdmitted,
    }
}

/// Returns how a store relates to a restored bundle once its check has passed.
pub fn restore_admission(check: RestoreCheck) -> (admission: RestoreAdmission)
    ensures
        admission == admission_of(check),
{
    match check {
        RestoreCheck::Nothing => RestoreAdmission::NotApplicable,
        RestoreCheck::AdmissionRecord => RestoreAdmission::PreviouslyAdmitted,
        RestoreCheck::PendingManifest => RestoreAdmission::NewlyAdmitted,
    }
}

/// Evidence that stands beside a store once its check has passed: a pending
/// manifest has become the admission record.
pub open spec fn evidence_after(evidence: RestoreEvidence) -> RestoreEvidence {
    RestoreEvidence {
        pending_manifest: false,
        admission_record: evidence.pending_manifest || evidence.admission_record,
    }
}

/// A bundle is newly admitted at most once: after its check has passed, the
/// next start finds it admitted already, and a store that was never restored
/// stays so.
pub proof fn law_bundle_is_admitted_once(evidence: RestoreEvidence)
    requires
        restore_check_of(evidence) is Some,
    ensures
        ({
            let next = restore_check_of(evidence_after(evidence));
            &&& next is Some
            &&& !(admission_of(next->0) is NewlyAdmitted)
            &&& admission_of(next->0) is PreviouslyAdmitted <==> !(admission_of(
                restore_check_of(evidence)->0,
            ) is NotApplicable)
        }),
{
}

/// Whether names occur once in a catalog, and wallets do not depend on its
/// transaction-history projection.
pub open spec fn catalog_is_consistent(inputs: Seq<ProjectionInput>) -> bool {
    &&& forall|i: int, j: int|
        0 <= i < j < inputs.len() ==> (#[trigger] inputs[i]).definition.name@ != (
        #[trigger] inputs[j]).definition.name@
    &&& forall|i: int|
        0 <= i < inputs.len() ==> ((#[trigger] inputs[i]).definition.kind is TransactionHistory
            ==> !inputs[i].definition.serves_wallets())
}

/// Whether the stores agree with each other on one projection: only a cursor
/// makes it exact, and it has not materialized more than the canonical chain.
pub open spec fn facts_are_consistent(facts: ProjectionFacts, epoch: Option<ChainEpoch>) -> bool {
    &&& facts.chain_position is Exact ==> facts.cursor is Some
    &&& facts.materialized_height matches Some(height) ==> epoch is Some && height.0
        <= epoch->0.visible_tip_height.0
}

/// Definitions of a run of inputs.
pub open spec fn definitions_of(inputs: Seq<ProjectionInput>) -> Seq<ProjectionDefinition> {
    inputs.map_values(|input: ProjectionInput| input.definition)
}

proof fn lemma_definition_found(definitions: Seq<ProjectionDefinition>, at: int)
    requires
        0 <= at < definitions.len(),
        forall|i: int|
            0 <= i < definitions.len() && i != at ==> (#[trigger] definitions[i]).name@
                != definitions[at].name@,
    ensures
        definition_named(definitions, definitions[at].name@) == Some(definitions[at]),
    decreases definitions.len(),
{
    if at > 0 {
        let rest = definitions.drop_first();
        assert(rest[at - 1] == definitions[at]);
        assert(definitions.first() == definitions[0]);
        assert forall|i: int| 0 <= i < rest.len() && i != at - 1 implies (#[trigger] rest[i]).name@
            != rest[at - 1].name@ by {
            assert(rest[i] == definitions[i + 1]);
        }
        lemma_definition_found(rest, at - 1);
    }
}

proof fn lemma_recorded_position_is_valid(
    canonical: Option<CanonicalPositionView>,
    input: ProjectionInput,
    epoch: Option<ChainEpoch>,
    bounds: Option<CanonicalHistoryBounds>,
)
    requires
        epoch is Some <==> bounds is Some,
        canonical == (match (epoch, bounds) {
            (Some(epoch), Some(bounds)) => Some(recorded_position(epoch, bounds)),
            _ => None,
        }),
        !position_refused(input, epoch, bounds),
        facts_are_consistent(input.facts, epoch),
        input.definition.kind is TransactionHistory ==> !input.definition.serves_wallets(),
    ensures
        position_fault(
            canonical,
            position_recorded(input, epoch, bounds),
            input.definition,
        ) is None,
{
    let recorded = position_recorded(input, epoch, bounds);
    if recorded.cursor is Some {
        assert(is_cursor_text(recorded.cursor->0));
    }
}

proof fn lemma_recorded_entries_are_valid(
    inputs: Seq<ProjectionInput>,
    epoch: Option<ChainEpoch>,
    bounds: Option<CanonicalHistoryBounds>,
    canonical: Option<CanonicalPositionView>,
    projections: Seq<ProjectionPositionView>,
    from: int,
)
    requires
        epoch is Some <==> bounds is Some,
        canonical == (match (epoch, bounds) {
            (Some(epoch), Some(bounds)) => Some(recorded_position(epoch, bounds)),
            _ => None,
        }),
        catalog_is_consistent(inputs),
        forall|i: int|
            0 <= i < inputs.len() ==> !position_refused(#[trigger] inputs[i], epoch, bounds)
                && facts_are_consistent(inputs[i].facts, epoch),
        projections.len() == inputs.len(),
        forall|i: int|
            0 <= i < inputs.len() ==> #[trigger] projections[i] == position_recorded(
                inputs[i],
                epoch,
                bounds,
            ),
        0 <= from <= inputs.len(),
    ensures
        entries_fault(canonical, projections, definitions_of(inputs), from) is None,
    decreases inputs.len() - from,
{
    if from < inputs.len() {
        let definitions = definitions_of(inputs);
        assert(projections[from].identity == inputs[from].definition.name@);
        if repeats_identity(projections, from) {
            let j = choose|j: int|
                0 <= j < from && (#[trigger] projections[j]).identity == projections[from].identity;
            assert(projections[j].identity == inputs[j].definition.name@);
            assert(inputs[j].definition.name@ != inputs[from].definition.name@);
        }
        assert(definitions[from] == inputs[from].definition);
        assert forall|i: int| 0 <= i < definitions.len() && i != from implies (
        #[trigger] definitions[i]).name@ != definitions[from].name@ by {
            assert(definitions[i] == inputs[i].definition);
            if i < from {
                assert(inputs[i].definition.name@ != inputs[from].definition.name@);
            } else {
                assert(inputs[from].definition.name@ != inputs[i].definition.name@);
            }
        }
        lemma_definition_found(definitions, from);
        lemma_recorded_position_is_valid(canonical, inputs[from], epoch, bounds);
        lemma_recorded_entries_are_valid(
            inputs,
            epoch,
            bounds,
            canonical,
            projections,
            from + 1,
        );
    }
}

/// Every manifest that is built passes the structural checks for its own
/// network, preset and catalog, so that a bundle can be restored where it was
/// made. The canonical tip has to lie at or above its checkpoint, and the
/// stores must not contradict each other.
pub proof fn law_built_manifest_is_valid(
    network: Seq<char>,
    preset: Seq<char>,
    epoch: Option<ChainEpoch>,
    bounds: Option<CanonicalHistoryBounds>,
    inputs: Seq<ProjectionInput>,
)
    requires
        epoch is Some <==> bounds is Some,
        bounds matches Some(bounds) ==> bounds.well_formed()
            && epoch->0.visible_tip_height.0 + 1 >= bounds.first_available(),
        catalog_is_consistent(inputs),
        forall|i: int|
            0 <= i < inputs.len() ==> !position_refused(#[trigger] inputs[i], epoch, bounds)
                && facts_are_consistent(inputs[i].facts, epoch),
    ensures
        manifest_fault(
            manifest_of(network, preset, epoch, bounds, inputs),
            network,
            preset,
            definitions_of(inputs),
        ) is None,
{
    let manifest = manifest_of(network, preset, epoch, bounds, inputs);
    if let Some(epoch) = epoch {
        law_rpc_block_hash_text_reads_back(epoch.visible_tip_hash);
        if let CanonicalHistoryBounds::Checkpointed(checkpoint) = bounds->0 {
            law_rpc_block_hash_text_reads_back(checkpoint.hash);
        }
    }
    lemma_recorded_entries_are_valid(
        inputs,
        epoch,
        bounds,
        manifest.canonical_position,
        manifest.projections,
        0,
    );
}

/// A wallet projection is recorded as exact only with evidence that it has
/// materialized the canonical tip.
pub proof fn law_exact_wallet_projection_has_tip_evidence(
    input: ProjectionInput,
    epoch: Option<ChainEpoch>,
    bounds: Option<CanonicalHistoryBounds>,
)
    requires
        !position_refused(input, epoch, bounds),
        input.definition.serves_wallets(),
        !(input.definition.kind is TransactionHistory),
        position_recorded(input, epoch, bounds).state is Exact,
    ensures
        epoch is Some,
        position_recorded(input, epoch, bounds).materialized_height == Some(
            epoch->0.visible_tip_height.0,
        ),
{
}

/// A projection that is rebuilt from anything but chain events alone is never
/// recorded as exact.
pub proof fn law_cursor_alone_never_proves_backfill(
    input: ProjectionInput,
    epoch: Option<ChainEpoch>,
    bounds: Option<CanonicalHistoryBounds>,
)
    requires
        !(input.definition.recovery_source is CanonicalChainEvents),
    ensures
        !position_refused(input, epoch, bounds),
        !(position_recorded(input, epoch, bounds).state is Exact),
{
}

/// Returns the name under which a bundle of some file name is staged.
pub fn staging_file_name(file_name: &str) -> (staging: String)
    ensures
        staging@ == file_name@ + ".staging"@,
{
    let mut staging = file_name.to_owned();
    staging.append(".staging");
    staging
}

/// Returns the name of the directory in which a staged bundle of some file
/// name is validated.
pub fn validation_file_name(file_name: &str) -> (validation: String)
    ensures
        validation@ == file_name@ + ".validation"@,
{
    let mut validation = file_name.to_owned();
    validation.append(".validation");
    validation
}

/// Directory in which the checkpoints of a staged bundle are reopened.
#[derive(Debug)]
pub struct BackupValidationScratch {
    pub path: String,
}

/// Path of an entry of a directory.
pub open spec fn entry_path(directory: Seq<char>, entry: Seq<char>) -> Seq<char> {
    if directory.len() == 0 || directory.last() == '/' {
        directory + entry
    } else {
        directory + "/"@ + entry
    }
}

fn join_path(directory: &str, entry: &str) -> (path: String)
    ensures
        path@ == entry_path(directory@, entry@),
{
    let mut path = directory.to_owned();
    let length: usize = directory.unicode_len();
    if length > 0 {
        let last = directory.get_char(length - 1);
        if last != '/' {
            path.append("/");
        }
    }
    path.append(entry);
    path
}

impl BackupValidationScratch {
    /// Returns where the canonical checkpoint is reopened.
    pub fn canonical_path(&self) -> (path: String)
        ensures
            path@ == entry_path(self.path@, "canonical-secondary"@),
    {
        join_path(self.path.as_str(), "canonical-secondary")
    }

    /// Returns where the materialized-view checkpoint is reopened.
    pub fn derive_path(&self) -> (path: String)
        ensures
            path@ == entry_path(self.path@, "derive-secondary"@),
    {
        join_path(self.path.as_str(), "derive-secondary")
    }
}

/// What is seen of a manifest is what it holds, field by field.
pub proof fn law_manifest_is_seen_whole(manifest: BackupManifest, i: int)
    ensures
        manifest@.format_version == manifest.format_version,
        manifest@.network == manifest.network@,
        manifest@.projection_preset == manifest.projection_preset@,
        manifest.canonical_position is None <==> manifest@.canonical_position is None,
        manifest.canonical_position matches Some(position) ==> {
            let seen = manifest@.canonical_position->0;
            &&& seen.chain_epoch_id == position.chain_epoch_id
            &&& seen.visible_tip_height == position.visible_tip_height
            &&& seen.visible_tip_hash == position.visible_tip_hash@
            &&& seen.artifact_schema_version == position.artifact_schema_version
            &&& seen.history_bounds == position.history_bounds@
        },
        manifest@.projections.len() == manifest.projections@.len(),
        0 <= i < manifest.projections@.len() ==> {
            let held = manifest.projections@[i];
            let seen = manifest@.projections[i];
            &&& seen.identity == held.identity@
            &&& seen.schema_version == held.schema_version
            &&& held.cursor is None ==> seen.cursor is None
            &&& held.cursor matches Some(cursor) ==> seen.cursor == Some(cursor@)
            &&& seen.materialized_height == held.materialized_height
            &&& seen.state == held.state
        },
{
}

/// What is seen of history bounds is what they hold.
pub proof fn law_history_bounds_are_seen_whole(bounds: CanonicalHistoryBackupBounds)
    ensures
        bounds matches CanonicalHistoryBackupBounds::Complete { first_available_height }
            ==> bounds@ == (HistoryBoundsView::Complete { first_available_height }),
        bounds matches CanonicalHistoryBackupBounds::Checkpointed {
            first_available_height,
            checkpoint_height,
            checkpoint_hash,
        } ==> bounds@ == (HistoryBoundsView::Checkpointed {
            first_available_height,
            checkpoint_height,
            checkpoint_hash: checkpoint_hash@,
        }),
{
}

/// A refusal names the path and the reason; an unrecoverable projection is
/// named in it.
pub proof fn law_refusal_tells_path_and_reason(
    error: IngestError,
    path: Seq<char>,
    reason: Seq<char>,
    identity: Seq<char>,
)
    ensures
        is_refused(error, path, reason) <==> (error matches
            IngestError::BackupCheckpointValidation { path: told_path, reason: told_reason }
            && told_path@ == path && told_reason@ == reason),
        unrecoverable_reason(identity) == "included projection "@ + identity
            + " is behind canonical history without provable replay coverage"@,
{
}

/// Complete history starts at the first block; checkpointed history right above
/// its checkpoint. Both are recorded as they are.
pub proof fn law_history_starts_above_its_checkpoint(bounds: CanonicalHistoryBounds)
    requires
        bounds.well_formed(),
    ensures
        bounds is Complete ==> bounds.first_available() == 1 && recorded_bounds(bounds) == (
        HistoryBoundsView::Complete { first_available_height: 1 }),
        bounds matches CanonicalHistoryBounds::Checkpointed(checkpoint) ==> {
            &&& bounds.first_available() == checkpoint.height.0 + 1
            &&& recorded_bounds(bounds) matches HistoryBoundsView::Checkpointed {
                first_available_height,
                checkpoint_height,
                checkpoint_hash,
            }
            &&& first_available_height == checkpoint.height.0 + 1
            &&& checkpoint_height == checkpoint.height.0
            &&& checkpoint_hash == rpc_block_hash_text(checkpoint.hash)
        },
{
}

/// A recorded position is that of the visible tip.
pub proof fn law_recorded_position_is_the_visible_tip(
    epoch: ChainEpoch,
    bounds: CanonicalHistoryBounds,
)
    ensures
        ({
            let position = recorded_position(epoch, bounds);
            &&& position.chain_epoch_id == epoch.id.0
            &&& position.visible_tip_height == epoch.visible_tip_height.0
            &&& position.visible_tip_hash == rpc_block_hash_text(epoch.visible_tip_hash)
            &&& position.artifact_schema_version == epoch.artifact_schema_version.0
            &&& position.history_bounds == recorded_bounds(bounds)
        }),
{
}

/// Recorded bounds are sound exactly where complete history starts at height 1,
/// and checkpointed history right above a checkpoint that has a hash and is not
/// above the tip.
pub proof fn law_sound_bounds_start_where_they_say(canonical: CanonicalPositionView)
    ensures
        bounds_fault(canonical) is None <==> match canonical.history_bounds {
            HistoryBoundsView::Complete { first_available_height } => first_available_height == 1,
            HistoryBoundsView::Checkpointed {
                first_available_height,
                checkpoint_height,
                checkpoint_hash,
            } => {
                &&& rpc_block_hash_value(checkpoint_hash) is Some
                &&& first_available_height == checkpoint_height + 1
                &&& checkpoint_height <= canonical.visible_tip_height
            },
        },
{
}

/// A projection serves wallets by its role, and follows chain events by where
/// it recovers from.
pub proof fn law_projection_is_what_it_declares(definition: ProjectionDefinition)
    ensures
        definition.serves_wallets() <==> definition.role is WalletCorrectness
            || definition.role is WalletServing,
        definition.follows_chain_events() <==> !(definition.recovery_source is CanonicalBackfill
            || definition.recovery_source is MempoolEvents),
        records_materialized_height(definition.kind) <==> definition.kind
            is TransparentAddressTransactionHistory || definition.kind
            is TransparentOutpointSpend,
{
}

/// A recorded projection is sound exactly where its schema and inclusion are
/// those of the catalog, an omitted one has no position, its cursor is one, its
/// height is not above the tip, and an exact one has the cursor, and for
/// wallets the tip height, to show for it.
pub proof fn law_sound_projection_shows_its_evidence(
    canonical: Option<CanonicalPositionView>,
    projection: ProjectionPositionView,
    definition: ProjectionDefinition,
)
    ensures
        position_fault(canonical, projection, definition) is None <==> {
            &&& projection.schema_version == definition.schema_version
            &&& definition.included <==> !(projection.state is Omitted)
            &&& projection.state is Omitted ==> projection.cursor is None
                && projection.materialized_height is None
            &&& projection.cursor matches Some(cursor) ==> is_cursor_text(cursor)
            &&& projection.materialized_height matches Some(height) ==> canonical is Some
                && height <= canonical->0.visible_tip_height
            &&& projection.state is Exact ==> projection.cursor is Some
            &&& projection.state is Exact && definition.serves_wallets() ==> (
            projection.materialized_height is Some <==> canonical is Some) && (
            projection.materialized_height matches Some(height) ==> height
                == canonical->0.visible_tip_height)
        },
{
}

/// A definition is found by name as the first one of the catalog.
pub proof fn law_first_definition_of_the_name_is_found(
    definitions: Seq<ProjectionDefinition>,
    name: Seq<char>,
)
    ensures
        match definition_named(definitions, name) {
            Some(found) => exists|d: int|
                {
                    &&& 0 <= d < definitions.len()
                    &&& #[trigger] definitions[d] == found
                    &&& found.name@ == name
                    &&& forall|earlier: int|
                        0 <= earlier < d ==> (#[trigger] definitions[earlier]).name@ != name
                },
            None => forall|d: int|
                0 <= d < definitions.len() ==> (#[trigger] definitions[d]).name@ != name,
        },
    decreases definitions.len(),
{
    if definitions.len() > 0 {
        if definitions.first().name@ == name {
            assert(definitions[0] == definitions.first());
        } else {
            let rest = definitions.drop_first();
            law_first_definition_of_the_name_is_found(rest, name);
            match definition_named(rest, name) {
                Some(found) => {
                    let d = choose|d: int|
                        {
                            &&& 0 <= d < rest.len()
                            &&& #[trigger] rest[d] == found
                            &&& found.name@ == name
                            &&& forall|earlier: int|
                                0 <= earlier < d ==> (#[trigger] rest[earlier]).name@ != name
                        };
                    assert(definitions[d + 1] == found);
                    assert forall|earlier: int| 0 <= earlier < d + 1 implies (
                    #[trigger] definitions[earlier]).name@ != name by {
                        if earlier > 0 {
                            assert(rest[earlier - 1] == definitions[earlier]);
                        }
                    }
                },
                None => {
                    assert forall|d: int| 0 <= d < definitions.len() implies (
                    #[trigger] definitions[d]).name@ != name by {
                        if d > 0 {
                            assert(rest[d - 1] == definitions[d]);
                        }
                    }
                },
            }
        }
    }
}

proof fn lemma_entries_fault(
    canonical: Option<CanonicalPositionView>,
    projections: Seq<ProjectionPositionView>,
    definitions: Seq<ProjectionDefinition>,
    from: int,
)
    requires
        0 <= from <= projections.len(),
    ensures
        entries_fault(canonical, projections, definitions, from) is None <==> forall|i: int|
            from <= i < projections.len() ==> #[trigger] entry_fault(
                canonical,
                projections,
                definitions,
                i,
            ) is None,
    decreases projections.len() - from,
{
    if from < projections.len() {
        lemma_entries_fault(canonical, projections, definitions, from + 1);
        assert(entry_fault(canonical, projections, definitions, from) is Some || entry_fault(
            canonical,
            projections,
            definitions,
            from,
        ) is None);
    }
}

/// A manifest is sound exactly where its format is the second, its network and
/// preset are those asked for, its tip hash is one and its bounds are sound, and
/// it lists as many projections as the catalog, each known, listed once and
/// sound.
pub proof fn law_sound_manifest_lists_the_catalog(
    manifest: ManifestView,
    network: Seq<char>,
    preset: Seq<char>,
    definitions: Seq<ProjectionDefinition>,
)
    ensures
        manifest_fault(manifest, network, preset, definitions) is None <==> {
            &&& manifest.format_version == 2
            &&& manifest.network == network
            &&& manifest.projection_preset == preset
            &&& manifest.canonical_position matches Some(position) ==> rpc_block_hash_value(
                position.visible_tip_hash,
            ) is Some && bounds_fault(position) is None
            &&& manifest.projections.len() == definitions.len()
            &&& forall|i: int|
                0 <= i < manifest.projections.len() ==> #[trigger] entry_fault(
                    manifest.canonical_position,
                    manifest.projections,
                    definitions,
                    i,
                ) is None
        },
{
    lemma_entries_fault(manifest.canonical_position, manifest.projections, definitions, 0);
}

/// A listed projection is sound exactly where no earlier entry has its identity,
/// the catalog knows it, and its position is sound.
pub proof fn law_sound_entry_is_known_and_listed_once(
    canonical: Option<CanonicalPositionView>,
    projections: Seq<ProjectionPositionView>,
    definitions: Seq<ProjectionDefinition>,
    at: int,
)
    ensures
        entry_fault(canonical, projections, definitions, at) is None <==> {
            &&& forall|j: int|
                0 <= j < at ==> (#[trigger] projections[j]).identity != projections[at].identity
            &&& definition_named(definitions, projections[at].identity) matches Some(definition)
            &&& position_fault(canonical, projections[at], definition) is None
        },
{
    if repeats_identity(projections, at) {
        let j = choose|j: int|
            0 <= j < at && (#[trigger] projections[j]).identity == projections[at].identity;
        assert(projections[j].identity == projections[at].identity);
    }
}

/// An event commits from the start of its committed range, where that has any
/// block.
pub proof fn law_event_commits_from_its_range(event: ChainEvent)
    ensures
        match event {
            ChainEvent::ChainCommitted { committed } => {
                &&& committed.start.0 <= committed.end.0 ==> committed_start(event) == Some(
                    committed.start,
                )
                &&& committed.start.0 > committed.end.0 ==> committed_start(event) is None
            },
            ChainEvent::ChainReorged { reverted, committed } => {
                &&& committed.start.0 <= committed.end.0 ==> committed_start(event) == Some(
                    committed.start,
                )
                &&& committed.start.0 > committed.end.0 ==> committed_start(event) is None
            },
            ChainEvent::Other => committed_start(event) is None,
        },
{
}

/// Retained events start where the first one that commits a block does.
pub proof fn law_first_committing_event_sets_the_start(events: Seq<ChainEvent>)
    ensures
        match earliest_start(events) {
            Some(start) => exists|e: int|
                {
                    &&& 0 <= e < events.len()
                    &&& committed_start(#[trigger] events[e]) == Some(start)
                    &&& forall|earlier: int|
                        0 <= earlier < e ==> committed_start(#[trigger] events[earlier]) is None
                },
            None => forall|e: int|
                0 <= e < events.len() ==> committed_start(#[trigger] events[e]) is None,
        },
    decreases events.len(),
{
    if events.len() > 0 {
        if committed_start(events.first()) is Some {
            assert(events[0] == events.first());
        } else {
            let rest = events.drop_first();
            law_first_committing_event_sets_the_start(rest);
            match earliest_start(rest) {
                Some(start) => {
                    let e = choose|e: int|
                        {
                            &&& 0 <= e < rest.len()
                            &&& committed_start(#[trigger] rest[e]) == Some(start)
                            &&& forall|earlier: int|
                                0 <= earlier < e ==> committed_start(
                                    #[trigger] rest[earlier],
                                ) is None
                        };
                    assert(events[e + 1] == rest[e]);
                    assert forall|earlier: int| 0 <= earlier < e + 1 implies committed_start(
                        #[trigger] events[earlier],
                    ) is None by {
                        if earlier > 0 {
                            assert(rest[earlier - 1] == events[earlier]);
                        }
                    }
                },
                None => {
                    assert forall|e: int| 0 <= e < events.len() implies committed_start(
                        #[trigger] events[e],
                    ) is None by {
                        if e > 0 {
                            assert(rest[e - 1] == events[e]);
                        }
                    }
                },
            }
        }
    }
}

/// A projection covers history up to the tip exactly where it stands at the
/// visible tip, of that epoch, and is complete from the first retained block
/// through that tip.
pub proof fn law_coverage_reaches_from_floor_to_tip(
    state: ConsumerProjectionState,
    coverage: ConsumerProjectionCoverage,
    epoch: ChainEpoch,
    first_available: int,
)
    requires
        state.coverage == Some(coverage),
    ensures
        covers_to_tip(Some(state), epoch, first_available) <==> {
            &&& state.projection_epoch_id == epoch.id
            &&& state.projection_tip_height == epoch.visible_tip_height
            &&& state.projection_tip_hash == epoch.visible_tip_hash
            &&& coverage.complete_from_height.0 <= first_available
            &&& coverage.complete_through_height == epoch.visible_tip_height
            &&& coverage.complete_through_hash == epoch.visible_tip_hash
        },
        !covers_to_tip(None, epoch, first_available),
        !covers_to_tip(
            Some(ConsumerProjectionState { coverage: None, ..state }),
            epoch,
            first_available,
        ),
{
}

/// A pending event connects to a height exactly where it commits right above
/// it, commits nothing, or replaces blocks from one at or below it on.
pub proof fn law_pending_event_leaves_no_gap(through: BlockHeight, event: ChainEvent)
    ensures
        event_connects(through, event) <==> match event {
            ChainEvent::ChainCommitted { committed } => committed.start.0 > committed.end.0
                || committed.start.0 == through.0 + 1,
            ChainEvent::ChainReorged { reverted, committed } => reverted.start.0 <= through.0
                && committed.start.0 == reverted.start.0,
            ChainEvent::Other => false,
        },
{
}

/// A coverage connects to a pending event exactly where the projection stands
/// where it materialized, is complete from the floor through that block, and
/// the event leaves no gap above it.
pub proof fn law_connected_coverage_can_be_replayed(
    state: ConsumerProjectionState,
    coverage: ConsumerProjectionCoverage,
    materialized_height: Option<BlockHeight>,
    first_available: int,
    event: ChainEvent,
)
    requires
        state.coverage == Some(coverage),
    ensures
        coverage_connects(Some(state), materialized_height, first_available, event) <==> {
            &&& materialized_height == Some(state.projection_tip_height)
            &&& coverage.complete_from_height.0 <= first_available
            &&& coverage.complete_through_height == state.projection_tip_height
            &&& coverage.complete_through_hash == state.projection_tip_hash
            &&& event_connects(coverage.complete_through_height, event)
        },
        !coverage_connects(None, materialized_height, first_available, event),
{
}

/// A wallet projection is exact where it stands at the tip and, for spends,
/// covers history; it is behind where its pending events can be replayed, for
/// spends from a connected coverage; else it is refused.
pub proof fn law_wallet_projection_is_judged_by_its_evidence(
    kind: ProjectionKind,
    facts: ProjectionFacts,
    epoch: ChainEpoch,
    bounds: CanonicalHistoryBounds,
)
    ensures
        ({
            let state = wallet_state(kind, facts, Some(epoch), Some(bounds));
            let spends = kind is TransparentOutpointSpend;
            &&& !(state == Some(ProjectionBackupState::Omitted))
            &&& state == Some(ProjectionBackupState::Exact) <==> {
                &&& facts.chain_position is Exact
                &&& facts.materialized_height == Some(epoch.visible_tip_height)
                &&& spends ==> covers_to_tip(
                    facts.projection_state,
                    epoch,
                    bounds.first_available(),
                )
            }
            &&& facts.chain_position is Unrecoverable ==> state is None
            &&& facts.chain_position matches ChainProjectionPosition::RecoverableBehind {
                replay_start,
            } ==> match replay_start {
                ProjectionReplayStart::HistoryFloor => state == Some(
                    ProjectionBackupState::Behind,
                ),
                ProjectionReplayStart::AfterCursor { first_pending_event } => {
                    state == Some(ProjectionBackupState::Behind) <==> (!spends
                        || coverage_connects(
                        facts.projection_state,
                        facts.materialized_height,
                        bounds.first_available(),
                        first_pending_event,
                    ))
                },
            }
        }),
        facts.chain_position is Exact ==> wallet_state(kind, facts, None, Some(bounds)) is None,
{
}

/// A transaction history is exact where it covers history up to the tip, behind
/// where its events can be replayed, and else refused; bounds are missed
/// exactly where it would need them.
pub proof fn law_transaction_history_is_judged_by_its_coverage(
    facts: ProjectionFacts,
    epoch: Option<ChainEpoch>,
    bounds: Option<CanonicalHistoryBounds>,
)
    ensures
        ({
            let state = transaction_history_state(facts, epoch, bounds);
            &&& state == Some(ProjectionBackupState::Exact) <==> {
                &&& facts.chain_position is Exact
                &&& epoch is Some
                &&& bounds is Some
                &&& covers_to_tip(facts.projection_state, epoch->0, bounds->0.first_available())
            }
            &&& state == Some(ProjectionBackupState::Behind)
                <==> facts.chain_position is RecoverableBehind
            &&& facts.chain_position is Unrecoverable ==> state is None
        }),
        history_bounds_missing(facts, epoch, bounds) <==> facts.chain_position is Exact
            && epoch is Some && facts.projection_state is Some && bounds is None,
{
}

/// A projection that does not recover from chain events alone is recorded as
/// behind; one that does is judged as a transaction history, a wallet
/// projection or by its chain position.
pub proof fn law_projection_is_judged_by_its_role(
    definition: ProjectionDefinition,
    facts: ProjectionFacts,
    epoch: Option<ChainEpoch>,
    bounds: Option<CanonicalHistoryBounds>,
)
    ensures
        ({
            let state = included_state(definition, facts, epoch, bounds);
            let by_events = definition.recovery_source is CanonicalChainEvents;
            let history = definition.kind is TransactionHistory;
            let wallets = definition.role is WalletCorrectness || definition.role is WalletServing;
            &&& !by_events ==> state == Some(ProjectionBackupState::Behind)
            &&& by_events && history ==> state == transaction_history_state(facts, epoch, bounds)
            &&& by_events && !history && wallets ==> state == wallet_state(
                definition.kind,
                facts,
                epoch,
                bounds,
            )
            &&& by_events && !history && !wallets ==> {
                &&& state == Some(ProjectionBackupState::Exact) <==> facts.chain_position is Exact
                &&& state == Some(ProjectionBackupState::Behind)
                    <==> facts.chain_position is RecoverableBehind
                &&& state is None <==> facts.chain_position is Unrecoverable
            }
        }),
{
}

/// Of the facts of a projection, the cursor counts where it follows chain
/// events and the height where it records one.
pub proof fn law_only_relevant_facts_count(
    definition: ProjectionDefinition,
    facts: ProjectionFacts,
)
    ensures
        ({
            let relevant = relevant_facts(definition, facts);
            let follows = !(definition.recovery_source is CanonicalBackfill
                || definition.recovery_source is MempoolEvents);
            let records = definition.kind is TransparentAddressTransactionHistory
                || definition.kind is TransparentOutpointSpend;
            &&& follows ==> relevant.cursor == facts.cursor
            &&& !follows ==> relevant.cursor is None
            &&& records ==> relevant.materialized_height == facts.materialized_height
            &&& !records ==> relevant.materialized_height is None
            &&& relevant.chain_position == facts.chain_position
            &&& relevant.projection_state == facts.projection_state
        }),
{
}

/// A recorded projection carries its name and schema; an omitted one nothing
/// else, an included one its cursor, its height and its state.
pub proof fn law_recorded_projection_carries_its_position(
    definition: ProjectionDefinition,
    facts: ProjectionFacts,
    state: ProjectionBackupState,
)
    ensures
        ({
            let included = included_position(definition, facts, state);
            &&& included.identity == definition.name@
            &&& included.schema_version == definition.schema_version
            &&& included.state == state
            &&& facts.cursor is None ==> included.cursor is None
            &&& facts.cursor matches Some(bytes) ==> included.cursor == Some(cursor_text(bytes@))
            &&& facts.materialized_height is None ==> included.materialized_height is None
            &&& facts.materialized_height matches Some(height) ==> included.materialized_height
                == Some(height.0)
        }),
        ({
            let omitted = omitted_position(definition);
            &&& omitted.identity == definition.name@
            &&& omitted.schema_version == definition.schema_version
            &&& omitted.state is Omitted
            &&& omitted.cursor is None
            &&& omitted.materialized_height is None
        }),
{
}

/// A projection is recorded as omitted exactly where its preset leaves it out;
/// an included one is recorded with the state that its relevant facts show, and
/// refused by name where they show none.
pub proof fn law_position_outcome_follows_the_facts(
    outcome: Result<ProjectionBackupPosition, IngestError>,
    definition: ProjectionDefinition,
    facts: ProjectionFacts,
    epoch: Option<ChainEpoch>,
    bounds: Option<CanonicalHistoryBounds>,
    backup_path: Seq<char>,
)
    requires
        is_position_outcome(outcome, definition, facts, epoch, bounds, backup_path),
        bounds is Some,
    ensures
        ({
            let state = included_state(
                definition,
                relevant_facts(definition, facts),
                epoch,
                bounds,
            );
            &&& outcome matches Ok(position) ==> {
                &&& position.identity@ == definition.name@
                &&& position.schema_version == definition.schema_version
                &&& !definition.included ==> position.state is Omitted
                &&& definition.included ==> state == Some(position.state)
            }
            &&& outcome is Err <==> definition.included && state is None
            &&& outcome matches Err(error) ==> is_refused(
                error,
                backup_path,
                unrecoverable_reason(definition.name@),
            )
        }),
{
    if let Ok(position) = outcome {
        assert(position@.identity == position.identity@);
    }
}

/// A built manifest names its format, network and preset, stands at the visible
/// tip and records every projection at its place.
pub proof fn law_built_manifest_records_every_projection(
    network: Seq<char>,
    preset: Seq<char>,
    epoch: ChainEpoch,
    bounds: CanonicalHistoryBounds,
    inputs: Seq<ProjectionInput>,
    i: int,
)
    requires
        0 <= i < inputs.len(),
        !position_refused(inputs[i], Some(epoch), Some(bounds)),
    ensures
        ({
            let manifest = manifest_of(network, preset, Some(epoch), Some(bounds), inputs);
            let definition = inputs[i].definition;
            let state = included_state(
                definition,
                relevant_facts(definition, inputs[i].facts),
                Some(epoch),
                Some(bounds),
            );
            &&& manifest.format_version == 2
            &&& manifest.network == network
            &&& manifest.projection_preset == preset
            &&& manifest.canonical_position == Some(recorded_position(epoch, bounds))
            &&& manifest.projections.len() == inputs.len()
            &&& manifest.projections[i].identity == definition.name@
            &&& manifest.projections[i].schema_version == definition.schema_version
            &&& !definition.included ==> manifest.projections[i].state is Omitted
            &&& definition.included ==> state == Some(manifest.projections[i].state)
        }),
        manifest_of(network, preset, None, None, inputs).canonical_position is None,
{
}

/// A bundle is refused where it holds both a pending manifest and an admission
/// record; else what it holds is checked, and admits it anew, again or not at
/// all.
pub proof fn law_restored_bundle_is_checked_by_its_evidence(evidence: RestoreEvidence)
    ensures
        restore_check_of(evidence) is None <==> evidence.pending_manifest
            && evidence.admission_record,
        restore_check_of(evidence) == Some(RestoreCheck::PendingManifest)
            <==> evidence.pending_manifest && !evidence.admission_record,
        restore_check_of(evidence) == Some(RestoreCheck::AdmissionRecord)
            <==> !evidence.pending_manifest && evidence.admission_record,
        restore_check_of(evidence) == Some(RestoreCheck::Nothing) <==> !evidence.pending_manifest
            && !evidence.admission_record,
        admission_of(RestoreCheck::Nothing) is NotApplicable,
        admission_of(RestoreCheck::AdmissionRecord) is PreviouslyAdmitted,
        admission_of(RestoreCheck::PendingManifest) is NewlyAdmitted,
        !evidence_after(evidence).pending_manifest,
        evidence_after(evidence).admission_record <==> evidence.pending_manifest
            || evidence.admission_record,
{
}

/// An entry's path is its directory, one slash and its name.
pub proof fn law_entry_stands_below_its_directory(directory: Seq<char>, entry: Seq<char>)
    ensures
        directory.len() == 0 ==> entry_path(directory, entry) == entry,
        directory.len() > 0 && directory[directory.len() - 1] == '/' ==> entry_path(
            directory,
            entry,
        ) == directory + entry,
        directory.len() > 0 && directory[directory.len() - 1] != '/' ==> entry_path(
            directory,
            entry,
        ) == directory + "/"@ + entry,
{
    if directory.len() == 0 {
        assert(directory + entry =~= entry);
    }
}

/// A projection is refused exactly where its preset includes it and its facts
/// show no state, or a history needs bounds that are not there.
pub proof fn law_only_unprovable_projections_are_refused(
    input: ProjectionInput,
    epoch: Option<ChainEpoch>,
    bounds: Option<CanonicalHistoryBounds>,
)
    ensures
        ({
            let relevant = relevant_facts(input.definition, input.facts);
            let state = included_state(input.definition, relevant, epoch, bounds);
            let unbounded = input.definition.recovery_source is CanonicalChainEvents
                && input.definition.kind is TransactionHistory && input.facts.chain_position
                is Exact && epoch is Some && input.facts.projection_state is Some
                && bounds is None;
            &&& position_refused(input, epoch, bounds) <==> input.definition.included && (
            state is None || unbounded)
            &&& !position_refused(input, epoch, bounds) ==> {
                let recorded = position_recorded(input, epoch, bounds);
                &&& recorded.identity == input.definition.name@
                &&& recorded.schema_version == input.definition.schema_version
                &&& input.definition.included ==> state == Some(recorded.state)
                &&& !input.definition.included ==> recorded.state is Omitted
                    && recorded.cursor is None && recorded.materialized_height is None
            }
        }),
{
}

/// The first refused projection is refused, and none before it is.
pub proof fn law_first_refused_projection_is_told(
    inputs: Seq<ProjectionInput>,
    epoch: Option<ChainEpoch>,
    bounds: Option<CanonicalHistoryBounds>,
    at: int,
)
    requires
        first_refused(inputs, epoch, bounds, at),
    ensures
        0 <= at < inputs.len(),
        position_refused(inputs[at], epoch, bounds),
        forall|i: int| 0 <= i < at ==> !position_refused(#[trigger] inputs[i], epoch, bounds),
{
}

/// The height of a canonical position is that of its visible tip.
pub proof fn law_tip_height_is_that_of_the_position(canonical: Option<CanonicalPositionView>)
    ensures
        canonical is None ==> tip_height_of(canonical) is None,
        canonical matches Some(position) ==> tip_height_of(canonical) == Some(
            position.visible_tip_height,
        ),
{
}

} // verus!
