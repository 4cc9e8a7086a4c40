//! Canonical construction, admission, and follower handoff.

use crate::bounds::{floored_difference, larger};
use crate::bulk_catchup::run::{ReadinessCause, ReadinessState};
use crate::bytes::same_bytes;
use crate::canonical_construction::{CanonicalConstructionError, CanonicalStoreError};
use crate::canonical_follow::{CanonicalFollowError, IngestPhase, PhasedReadiness};
use crate::errors::SourceError;
use crate::ids::{BlockHeight, BlockId, ChainEpochId};
use vstd::prelude::*;

verus! {

/// What a store's path is extended by while the store is being built.
pub const CONSTRUCTION_STAGING_SUFFIX: &'static str = ".building";

/// Failure while opening or constructing the canonical runtime.
#[derive(Debug)]
#[non_exhaustive]
#[allow(inconsistent_fields)]
pub enum CanonicalRuntimeError {
    /// The configured store path could not be inspected.
    PathUnavailable { path: String, reason: String },
    /// The source could not provide an identity needed before construction.
    Source(SourceError),
    /// The fixed construction range was invalid.
    BuildPlan { reason: String },
    /// Fresh canonical loading or validation failed.
    Construction(CanonicalConstructionError),
    /// Canonical store admission, publication, or readback failed.
    Store(CanonicalStoreError),
    /// The checkpoint cannot yet have a retained successor at the observed source tip.
    CheckpointNotBehindSource { checkpoint_height: BlockHeight, source_tip: BlockId },
    /// Continuous following failed after admission.
    Follow(CanonicalFollowError),
    /// A staged store changed identity while it was installed and reopened.
    InstalledFenceMismatch,
    /// The private canonical-control server stopped while the writer was still running.
    ControlServer { reason: String },
}

/// A tip that is known, or the block that has to be fetched to know it.
#[derive(Clone, Copy, Debug, PartialEq, Eq)]
pub enum TipLookup {
    Known(BlockId),
    Fetch { height: BlockHeight },
}

impl TipLookup {
    /// Height of the tip a lookup comes to.
    pub open spec fn height(self) -> BlockHeight {
        match self {
            TipLookup::Known(tip) => tip.height,
            TipLookup::Fetch { height } => height,
        }
    }
}

/// Where construction stops: at the stop height, where it lies below the source tip.
pub open spec fn fixed_tip_of(
    source_tip: BlockId,
    target_height: Option<BlockHeight>,
) -> TipLookup {
    match target_height {
        Some(target) if target.0 < source_tip.height.0 => TipLookup::Fetch { height: target },
        _ => TipLookup::Known(source_tip),
    }
}

/// Decides where construction stops.
pub fn fixed_tip(source_tip: BlockId, target_height: Option<BlockHeight>) -> (tip: TipLookup)
    ensures
        tip == fixed_tip_of(source_tip, target_height),
{
    match target_height {
        Some(target) => if target.0 < source_tip.height.0 {
            TipLookup::Fetch { height: target }
        } else {
            TipLookup::Known(source_tip)
        },
        None => TipLookup::Known(source_tip),
    }
}

/// What the retained history rests on.
#[derive(Clone, Copy, Debug, PartialEq, Eq, Structural)]
pub enum HistoryBase {
    /// An authenticated predecessor.
    Checkpoint { height: BlockHeight },
    /// The first block.
    Genesis,
}

/// Decides what the retained history rests on; a checkpoint has to lie below
/// the tip.
pub fn history_base(checkpoint_height: Option<BlockHeight>, fixed_tip: BlockId) -> (base: Result<
    HistoryBase,
    CanonicalRuntimeError,
>)
    ensures
        base == match checkpoint_height {
            None => Ok::<HistoryBase, CanonicalRuntimeError>(HistoryBase::Genesis),
            Some(height) => if fixed_tip.height.0 <= height.0 {
                Err(
                    CanonicalRuntimeError::CheckpointNotBehindSource {
                        checkpoint_height: height,
                        source_tip: fixed_tip,
                    },
                )
            } else {
                Ok(HistoryBase::Checkpoint { height })
            },
        },
{
    match checkpoint_height {
        None => Ok(HistoryBase::Genesis),
        Some(height) => {
            if fixed_tip.height.0 <= height.0 {
                return Err(
                    CanonicalRuntimeError::CheckpointNotBehindSource {
                        checkpoint_height: height,
                        source_tip: fixed_tip,
                    },
                );
            }
            Ok(HistoryBase::Checkpoint { height })
        },
    }
}

/// Height up to which the constructed history counts as settled.
pub open spec fn settled_height_of(
    fixed_tip: BlockId,
    reorg_window_blocks: u32,
    first_retained_height: BlockHeight,
) -> BlockHeight {
    BlockHeight(
        larger(
            floored_difference(fixed_tip.height.0 as int, reorg_window_blocks as int),
            first_retained_height.0 as int,
        ) as u32,
    )
}

/// The settled tip, or the block that has to be fetched to know it.
pub open spec fn settled_tip_of(
    fixed_tip: BlockId,
    reorg_window_blocks: u32,
    first_retained_height: BlockHeight,
) -> TipLookup {
    let height = settled_height_of(fixed_tip, reorg_window_blocks, first_retained_height);
    if height == fixed_tip.height {
        TipLookup::Known(fixed_tip)
    } else {
        TipLookup::Fetch { height }
    }
}

/// Decides which block the constructed history is settled up to.
pub fn settled_tip(
    fixed_tip: BlockId,
    reorg_window_blocks: u32,
    first_retained_height: BlockHeight,
) -> (tip: TipLookup)
    ensures
        tip == settled_tip_of(fixed_tip, reorg_window_blocks, first_retained_height),
{
    let below_window: u32 = fixed_tip.height.0.saturating_sub(reorg_window_blocks);
    let height: u32 = if below_window >= first_retained_height.0 {
        below_window
    } else {
        first_retained_height.0
    };
    if height == fixed_tip.height.0 {
        TipLookup::Known(fixed_tip)
    } else {
        TipLookup::Fetch { height: BlockHeight(height) }
    }
}

/// What stands at the path a store is built under.
#[derive(Clone, Copy, Debug, PartialEq, Eq, Structural)]
pub enum StagingState {
    Absent,
    Empty,
    Populated,
}

/// How the runtime comes by its store.
#[derive(Clone, Copy, Debug, PartialEq, Eq, Structural)]
pub enum StoreEntry {
    /// Open the published store.
    OpenPublished,
    /// Discard leftovers of an earlier block load and construct.
    DiscardBlockLoad,
    /// Remove the empty staging directory and construct.
    RemoveEmptyStaging,
    /// Open the staged store and find out whether it was finished.
    OpenStaged,
}

/// Decides how the runtime comes by its store.
pub fn store_entry(published: bool, staging: StagingState) -> (entry: StoreEntry)
    ensures
        entry == if published {
            StoreEntry::OpenPublished
        } else {
            match staging {
                StagingState::Absent => StoreEntry::DiscardBlockLoad,
                StagingState::Empty => StoreEntry::RemoveEmptyStaging,
                StagingState::Populated => StoreEntry::OpenStaged,
            }
        },
{
    if published {
        return StoreEntry::OpenPublished;
    }
    match staging {
        StagingState::Absent => StoreEntry::DiscardBlockLoad,
        StagingState::Empty => StoreEntry::RemoveEmptyStaging,
        StagingState::Populated => StoreEntry::OpenStaged,
    }
}

/// What becomes of a staged store.
#[derive(Clone, Copy, Debug, PartialEq, Eq, Structural)]
pub enum StagedStore {
    /// It was finished: install it and reopen it.
    Install,
    /// It was not: remove it and construct anew.
    Restart,
}

/// Decides what becomes of a staged store, given how opening it went.
pub fn staged_store(opened: Result<(), CanonicalStoreError>) -> (staged: Result<
    StagedStore,
    CanonicalRuntimeError,
>)
    ensures
        staged == match opened {
            Ok(_) => Ok::<StagedStore, CanonicalRuntimeError>(StagedStore::Install),
            Err(CanonicalStoreError::StoreNotReady) => Ok(StagedStore::Restart),
            Err(error) => Err(CanonicalRuntimeError::Store(error)),
        },
{
    match opened {
        Ok(_) => Ok(StagedStore::Install),
        Err(CanonicalStoreError::StoreNotReady) => Ok(StagedStore::Restart),
        Err(error) => Err(CanonicalRuntimeError::Store(error)),
    }
}

/// Identity of a published chain state.
#[derive(Clone, Copy, Debug, PartialEq, Eq)]
pub struct CanonicalEventFence {
    pub chain_epoch_id: ChainEpochId,
    pub chain_event_sequence: u64,
    pub visible_tip: BlockId,
    pub sequence_digest: [u8; 32],
}

/// Accepts an installed store that still shows the published state.
pub fn validate_installed_fence(
    installed: CanonicalEventFence,
    published: CanonicalEventFence,
) -> (valid: Result<(), CanonicalRuntimeError>)
    ensures
        match valid {
            Ok(_) => installed == published,
            Err(error) => installed != published && error
                == CanonicalRuntimeError::InstalledFenceMismatch,
        },
{
    let same = installed.chain_epoch_id == published.chain_epoch_id
        && installed.chain_event_sequence == published.chain_event_sequence
        && installed.visible_tip.height == published.visible_tip.height
        && installed.visible_tip.hash == published.visible_tip.hash && same_bytes(
        &installed.sequence_digest,
        &published.sequence_digest,
    );
    if !same {
        return Err(CanonicalRuntimeError::InstalledFenceMismatch);
    }
    Ok(())
}

/// Reports readiness while a fresh store is constructed, once its range is known.
pub fn construction_readiness(range: Option<(BlockHeight, BlockId)>) -> (readiness:
    PhasedReadiness)
    ensures
        readiness == (PhasedReadiness {
            state: ReadinessState {
                cause: ReadinessCause::Syncing {
                    lag_blocks: match range {
                        Some((first_retained_height, fixed_tip)) => Some(
                            floored_difference(
                                fixed_tip.height.0 as int,
                                first_retained_height.0 as int,
                            ) as u64,
                        ),
                        None => None,
                    },
                },
                current_height: None,
                target_height: match range {
                    Some((_, fixed_tip)) => Some(fixed_tip.height.0),
                    None => None,
                },
            },
            phase: IngestPhase::BulkCatchup,
        }),
{
    let (lag_blocks, target_height): (Option<u64>, Option<u32>) = match range {
        Some((first_retained_height, fixed_tip)) => (
            Some(fixed_tip.height.0.saturating_sub(first_retained_height.0) as u64),
            Some(fixed_tip.height.0),
        ),
        None => (None, None),
    };
    PhasedReadiness {
        state: ReadinessState {
            cause: ReadinessCause::Syncing { lag_blocks },
            current_height: None,
            target_height,
        },
        phase: IngestPhase::BulkCatchup,
    }
}

/// Returns the path a store is built under.
pub fn construction_staging_path(storage_path: &str) -> (staging_path: String)
    ensures
        staging_path@ == storage_path@ + CONSTRUCTION_STAGING_SUFFIX@,
{
    let mut staging_path = storage_path.to_owned();
    staging_path.append(CONSTRUCTION_STAGING_SUFFIX);
    staging_path
}

/// Construction never passes the observed source tip or the stop height.
pub proof fn law_construction_stops_in_time(
    source_tip: BlockId,
    target_height: Option<BlockHeight>,
)
    ensures
        fixed_tip_of(source_tip, target_height).height().0 <= source_tip.height.0,
        target_height matches Some(target) ==> fixed_tip_of(
            source_tip,
            target_height,
        ).height().0 <= target.0,
{
}

/// The settled tip lies within the retained history, at or below the tip, and
/// everything deeper than the reorg window is settled.
pub proof fn law_settled_tip_is_retained_and_deep(
    fixed_tip: BlockId,
    reorg_window_blocks: u32,
    first_retained_height: BlockHeight,
)
    requires
        first_retained_height.0 <= fixed_tip.height.0,
    ensures
        ({
            let settled = settled_tip_of(
                fixed_tip,
                reorg_window_blocks,
                first_retained_height,
            ).height();
            &&& first_retained_height.0 <= settled.0 <= fixed_tip.height.0
            &&& fixed_tip.height.0 - settled.0 <= reorg_window_blocks
        }),
{
}

/// Construction ends at the target where that is below the source tip, and at
/// the source tip else; only a block below the tip has to be looked up.
pub proof fn law_construction_ends_at_target_or_tip(
    source_tip: BlockId,
    target_height: Option<BlockHeight>,
)
    ensures
        match fixed_tip_of(source_tip, target_height) {
            TipLookup::Known(tip) => tip == source_tip && (target_height matches Some(target)
                ==> target.0 >= source_tip.height.0),
            TipLookup::Fetch { height } => target_height == Some(height) && height.0
                < source_tip.height.0,
        },
        fixed_tip_of(source_tip, target_height).height().0 == source_tip.height.0
            || target_height == Some(fixed_tip_of(source_tip, target_height).height()),
{
}

/// The settled tip stands below the fixed one by the reorg window, but is
/// retained; only one below the fixed tip has to be looked up.
pub proof fn law_settled_tip_stands_below_the_window(
    fixed_tip: BlockId,
    reorg_window_blocks: u32,
    first_retained_height: BlockHeight,
)
    ensures
        ({
            let tip = settled_tip_of(fixed_tip, reorg_window_blocks, first_retained_height);
            let below = fixed_tip.height.0 - reorg_window_blocks;
            &&& tip.height().0 >= first_retained_height.0
            &&& below >= first_retained_height.0 ==> tip.height().0 == below
            &&& below <= first_retained_height.0 ==> tip.height() == first_retained_height
            &&& tip is Known <==> tip.height() == fixed_tip.height
            &&& tip matches TipLookup::Known(known) ==> known == fixed_tip
        }),
{
}

/// A tip tells its height whether it is known or has to be looked up.
pub proof fn law_tip_tells_its_height(tip: BlockId, height: BlockHeight)
    ensures
        TipLookup::Known(tip).height() == tip.height,
        (TipLookup::Fetch { height }).height() == height,
{
}

} // verus!
