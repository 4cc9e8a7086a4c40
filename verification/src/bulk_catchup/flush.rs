//! Flush cadence for bulk-catchup commits.
//!
//! Flushing after every committed epoch would serialize the write-ahead log on
//! the hot path, so epochs committed since the last flush are counted and
//! flushed together at the configured interval.

use super::segment_sizer::{
    branch_at, NetworkUpgradeActivations, SizerState, SourceSegmentSizer,
};
use crate::bounds::{capped, NonZeroU32, NonZeroU64};
use crate::ids::BlockHeight;
use vstd::prelude::*;

verus! {

/// Mutable state carried across bulk-catchup batches.
///
/// This state keeps the flush cadence and source-density sizing tied to the
/// continuous bulk range rather than to one batch of it.
#[derive(Debug)]
pub struct BulkCatchupFlushState {
    pub epochs_since_last_flush: u32,
    pub source_segment_sizer: Option<SourceSegmentSizer>,
}

impl Default for BulkCatchupFlushState {
    fn default() -> (state: Self)
        ensures
            state.epochs_since_last_flush == 0,
            state.source_segment_sizer is None,
    {
        BulkCatchupFlushState { epochs_since_last_flush: 0, source_segment_sizer: None }
    }
}

impl BulkCatchupFlushState {
    /// Counts one more committed epoch.
    pub fn record_committed_epoch(&mut self)
        ensures
            final(self).epochs_since_last_flush == capped(
                old(self).epochs_since_last_flush + 1,
                u32::MAX as int,
            ),
            final(self).source_segment_sizer == old(self).source_segment_sizer,
    {
        self.epochs_since_last_flush = self.epochs_since_last_flush.saturating_add(1);
    }

    /// Returns whether a flush is due.
    pub fn should_flush(&self, flush_interval_epochs: NonZeroU32) -> (due: bool)
        ensures
            due == (self.epochs_since_last_flush >= flush_interval_epochs@),
    {
        self.epochs_since_last_flush >= flush_interval_epochs.get()
    }

    /// Notes that everything committed so far was flushed.
    pub fn mark_flushed(&mut self)
        ensures
            final(self).epochs_since_last_flush == 0,
            final(self).source_segment_sizer == old(self).source_segment_sizer,
    {
        self.epochs_since_last_flush = 0;
    }

    /// Returns whether a committed epoch waits for a flush.
    pub fn has_pending_epochs(&self) -> (pending: bool)
        ensures
            pending == (self.epochs_since_last_flush > 0),
    {
        self.epochs_since_last_flush > 0
    }

    /// Returns how many committed epochs wait for a flush.
    pub fn pending_epoch_count(&self) -> (count: u32)
        ensures
            count == self.epochs_since_last_flush,
    {
        self.epochs_since_last_flush
    }

    /// Hands out the sizer of the bulk range, which is made on first use.
    ///
    /// The sizer moves out of the state; it is put back with
    /// [`BulkCatchupFlushState::keep_source_segment_sizer`].
    pub fn take_source_segment_sizer(
        &mut self,
        source_segment_max_blocks: NonZeroU32,
        source_segment_target_response_bytes: NonZeroU64,
        network_upgrade_activations: NetworkUpgradeActivations,
        from_height: BlockHeight,
    ) -> (sizer: SourceSegmentSizer)
        ensures
            final(self).source_segment_sizer is None,
            final(self).epochs_since_last_flush == old(self).epochs_since_last_flush,
            match old(self).source_segment_sizer {
                Some(kept) => sizer == kept,
                None => {
                    &&& sizer.activations == network_upgrade_activations
                    &&& sizer@ == (SizerState {
                        max_blocks: source_segment_max_blocks@ as int,
                        target_response_payload_bytes: source_segment_target_response_bytes@ as int,
                        current_blocks: source_segment_max_blocks@ as int,
                        success_count: 0,
                        overshoot_clear_success_count: 0,
                        overshoot_bytes_per_block: None,
                        active_branch_id: branch_at(
                            network_upgrade_activations.activations@,
                            from_height,
                        ),
                        samples: Seq::empty(),
                    })
                },
            },
    {
        let mut kept: Option<SourceSegmentSizer> = None;
        std::mem::swap(&mut kept, &mut self.source_segment_sizer);
        match kept {
            Some(sizer) => sizer,
            None => SourceSegmentSizer::new(
                source_segment_max_blocks,
                source_segment_target_response_bytes,
                network_upgrade_activations,
                from_height,
            ),
        }
    }

    /// Puts the sizer of the bulk range back.
    pub fn keep_source_segment_sizer(&mut self, sizer: SourceSegmentSizer)
        ensures
            final(self).source_segment_sizer == Some(sizer),
            final(self).epochs_since_last_flush == old(self).epochs_since_last_flush,
    {
        self.source_segment_sizer = Some(sizer);
    }
}

/// What happens to pending writes when a run completes.
#[derive(Clone, Copy, Debug, PartialEq, Eq, Structural)]
pub enum BulkCatchupCompletionFlush {
    FlushPending,
    PreservePending,
}

impl BulkCatchupCompletionFlush {
    /// Returns whether pending writes are flushed when a run completes.
    pub fn flushes_pending(self) -> (flushes: bool)
        ensures
            flushes == (self is FlushPending),
    {
        match self {
            BulkCatchupCompletionFlush::FlushPending => true,
            BulkCatchupCompletionFlush::PreservePending => false,
        }
    }
}

/// Epochs that wait for a flush after some more were committed, each followed
/// by a flush where one is due.
pub open spec fn pending_after_commits(pending: u32, commits: nat, interval: u32) -> int
    decreases commits,
{
    if commits == 0 {
        pending as int
    } else {
        let before = pending_after_commits(pending, (commits - 1) as nat, interval);
        if before + 1 >= interval {
            0
        } else {
            before + 1
        }
    }
}

/// With a flush whenever one is due, fewer epochs than the interval ever wait.
pub proof fn law_flush_cadence_bounds_pending_epochs(pending: u32, commits: nat, interval: u32)
    requires
        interval > 0,
        pending < interval,
    ensures
        0 <= pending_after_commits(pending, commits, interval) < interval,
    decreases commits,
{
    if commits > 0 {
        law_flush_cadence_bounds_pending_epochs(pending, (commits - 1) as nat, interval);
    }
}

/// Each commit adds one pending epoch, until as many are pending as the
/// interval says: then a flush clears them.
pub proof fn law_every_interval_ends_in_a_flush(pending: u32, commits: nat, interval: u32)
    requires
        interval > 0,
    ensures
        pending_after_commits(pending, 0, interval) == pending,
        ({
            let before = pending_after_commits(pending, commits, interval);
            let after = pending_after_commits(pending, commits + 1, interval);
            &&& before + 1 < interval ==> after == before + 1
            &&& before + 1 >= interval ==> after == 0
        }),
{
}

} // verus!
