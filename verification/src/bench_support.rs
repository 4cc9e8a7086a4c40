//! Settings of a fixed-range benchmark replay.
//!
//! A benchmark replays captured source payloads through the bulk-catchup
//! pipeline and varies only the knobs under measurement; everything else is
//! fixed here.

use crate::artifact_builder::RawBlobPolicy;
use crate::batch::{
    DEFAULT_CANONICAL_BATCH_MAX_ESTIMATED_WRITE_BYTES,
    DEFAULT_CANONICAL_BATCH_MIN_BLOCKS_BEFORE_ESTIMATED_WRITE_CLOSE,
};
use crate::bounds::{larger, nonzero_u32, nonzero_u64, NonZeroU32, NonZeroU64};
use crate::bulk_catchup::run::BulkCatchupRunConfig;
use crate::chain_ingest::NodeSourceKind;
use crate::ids::{BlockHeight, Network};
use crate::retry::{duration_nanos, NANOS_PER_SECOND};
use std::time::Duration;
use vstd::prelude::*;

verus! {

/// Maximum blocks committed in one bulk-catchup epoch.
pub const BENCH_CANONICAL_BATCH_MAX_BLOCKS: u32 = 1_000;

/// Maximum in-memory canonical artifact bytes accumulated before commit.
pub const BENCH_CANONICAL_BATCH_MAX_ARTIFACT_BYTES: u64 = 536_870_912;

/// Maximum connected blocks requested from the source in one segment.
pub const BENCH_SOURCE_SEGMENT_MAX_BLOCKS: u32 = 16;

/// Target source response payload bytes for adaptive segment sizing.
pub const BENCH_SOURCE_SEGMENT_TARGET_RESPONSE_BYTES: u64 = 33_554_432;

/// Maximum concurrent source segment fetches.
pub const BENCH_SOURCE_FETCH_MAX_IN_FLIGHT_REQUESTS: u32 = 12;

/// Maximum reserved response bytes across source fetches.
pub const BENCH_SOURCE_FETCH_MAX_IN_FLIGHT_BYTES: u64 = 402_653_184;

/// Admission watermark for active prepare peaks and completed resident data.
pub const BENCH_BLOCK_PREPARE_MEMORY_WATERMARK_BYTES: u64 = 536_870_912;

/// Maximum safe-tip artifact bytes queued while the previous batch commits.
pub const BENCH_COMMIT_REASSEMBLY_MAX_QUEUED_ARTIFACT_BYTES: u64 = 536_870_912;

/// Epochs after which a flush is forced.
pub const BENCH_FLUSH_INTERVAL_EPOCHS: u32 = 5;

/// Per-request source timeout applied to the placeholder node target.
pub const BENCH_NODE_REQUEST_TIMEOUT_SECS: u64 = 30;

/// Maximum response body size applied to the placeholder node target.
pub const BENCH_MAX_RESPONSE_BYTES: u64 = 402_653_184;

/// Reorg window of the replayed store.
pub const BENCH_REORG_WINDOW_BLOCKS: u32 = 100;

/// Derive-replay batch size used when the harness drives derive replay.
pub const BENCH_DERIVE_REPLAY_BATCH_BLOCKS: u32 = 100;

/// Smallest derive-replay batch under memory pressure.
pub const BENCH_DERIVE_MIN_REPLAY_BATCH_BLOCKS: u32 = 10;

/// Percentage of the memory budget at which derive replay starts shrinking its batch.
pub const BENCH_DERIVE_MEMORY_DEGRADE_PERCENT: u32 = 90;

/// Percentage of the memory budget at which derive replay pauses.
pub const BENCH_DERIVE_MEMORY_PAUSE_PERCENT: u32 = 99;

/// Percentage of the memory budget below which derive replay resumes normal batching.
pub const BENCH_DERIVE_MEMORY_RESUME_PERCENT: u32 = 80;

/// Residual derive lag at which a production boot hands replay to the tailer.
pub const BENCH_DERIVE_STARTUP_HANDOFF_LAG_BLOCKS: u64 = 1_000;

/// Address of the node that a replay never asks.
pub const BENCH_PLACEHOLDER_JSON_RPC_ADDR: &'static str = "http://127.0.0.1:0";

/// Builds a nonzero bound, lifting zero to one.
pub fn nz32(candidate: u32) -> (bound: NonZeroU32)
    ensures
        bound@ == larger(candidate as int, 1),
{
    nonzero_u32(candidate)
}

/// Builds a nonzero bound, lifting zero to one.
pub fn nz64(candidate: u64) -> (bound: NonZeroU64)
    ensures
        bound@ == larger(candidate as int, 1),
{
    nonzero_u64(candidate)
}

/// Measured-and-varied inputs for a fixed-range benchmark run.
#[derive(Debug)]
pub struct BenchBulkCatchupParams {
    /// Network the captured fixture belongs to.
    pub network: Network,
    /// Canonical store path (a writable clone of the captured start state).
    pub storage_path: String,
    /// First block height to replay.
    pub from_height: BlockHeight,
    /// Last block height to replay.
    pub to_height: BlockHeight,
    /// Parallel canonical block-prepare slots.
    pub block_prepare_concurrency: NonZeroU32,
    /// Raw-block blob write policy.
    pub raw_blob_policy: RawBlobPolicy,
}

/// One benchmark run: the pipeline's configuration and the node it stands in for.
#[derive(Debug)]
pub struct BenchBulkCatchupRun {
    pub node_source: NodeSourceKind,
    pub node_address: String,
    pub node_request_timeout: Duration,
    pub storage_path: String,
    pub reorg_window_blocks: u32,
    pub config: BulkCatchupRunConfig,
}

/// Assembles the configuration of a fixed-range benchmark replay.
///
/// The whole captured range is settled in one call: the fixture is immutable
/// history without a live reorg window.
pub fn bench_bulk_catchup_run_config(params: BenchBulkCatchupParams) -> (run: BenchBulkCatchupRun)
    ensures
        run.node_source == NodeSourceKind::ZebraJsonRpc,
        run.node_address@ == BENCH_PLACEHOLDER_JSON_RPC_ADDR@,
        duration_nanos(run.node_request_timeout) == BENCH_NODE_REQUEST_TIMEOUT_SECS
            * NANOS_PER_SECOND,
        run.storage_path == params.storage_path,
        run.reorg_window_blocks == BENCH_REORG_WINDOW_BLOCKS,
        run.config.network == params.network,
        run.config.from_height == params.from_height,
        run.config.to_height == params.to_height,
        run.config.canonical_batch_max_blocks@ == BENCH_CANONICAL_BATCH_MAX_BLOCKS,
        run.config.canonical_batch_max_artifact_bytes@ == BENCH_CANONICAL_BATCH_MAX_ARTIFACT_BYTES,
        run.config.canonical_batch_max_estimated_write_bytes@
            == DEFAULT_CANONICAL_BATCH_MAX_ESTIMATED_WRITE_BYTES,
        run.config.canonical_batch_min_blocks_before_estimated_write_close@
            == DEFAULT_CANONICAL_BATCH_MIN_BLOCKS_BEFORE_ESTIMATED_WRITE_CLOSE,
        run.config.source_segment_max_blocks@ == BENCH_SOURCE_SEGMENT_MAX_BLOCKS,
        run.config.source_segment_target_response_bytes@
            == BENCH_SOURCE_SEGMENT_TARGET_RESPONSE_BYTES,
        run.config.max_response_bytes@ == BENCH_MAX_RESPONSE_BYTES,
        run.config.source_fetch_max_in_flight_requests@
            == BENCH_SOURCE_FETCH_MAX_IN_FLIGHT_REQUESTS,
        run.config.source_fetch_max_in_flight_bytes@ == BENCH_SOURCE_FETCH_MAX_IN_FLIGHT_BYTES,
        run.config.block_prepare_concurrency == params.block_prepare_concurrency,
        run.config.block_prepare_max_in_flight_artifact_bytes@
            == BENCH_BLOCK_PREPARE_MEMORY_WATERMARK_BYTES,
        run.config.commit_reassembly_max_queued_artifact_bytes@
            == BENCH_COMMIT_REASSEMBLY_MAX_QUEUED_ARTIFACT_BYTES,
        run.config.flush_interval_epochs@ == BENCH_FLUSH_INTERVAL_EPOCHS,
        run.config.raw_blob_policy == params.raw_blob_policy,
        run.config.upstream_tip_hint == Some(params.to_height),
        run.config.allow_near_tip_finalize,
        run.config.checkpoint is None,
{
    BenchBulkCatchupRun {
        node_source: NodeSourceKind::ZebraJsonRpc,
        node_address: BENCH_PLACEHOLDER_JSON_RPC_ADDR.to_owned(),
        node_request_timeout: Duration::from_secs(BENCH_NODE_REQUEST_TIMEOUT_SECS),
        storage_path: params.storage_path,
        reorg_window_blocks: BENCH_REORG_WINDOW_BLOCKS,
        config: BulkCatchupRunConfig {
            network: params.network,
            from_height: params.from_height,
            to_height: params.to_height,
            canonical_batch_max_blocks: nz32(BENCH_CANONICAL_BATCH_MAX_BLOCKS),
            canonical_batch_max_artifact_bytes: nz64(BENCH_CANONICAL_BATCH_MAX_ARTIFACT_BYTES),
            canonical_batch_max_estimated_write_bytes: nz64(
                DEFAULT_CANONICAL_BATCH_MAX_ESTIMATED_WRITE_BYTES,
            ),
            canonical_batch_min_blocks_before_estimated_write_close: nz32(
                DEFAULT_CANONICAL_BATCH_MIN_BLOCKS_BEFORE_ESTIMATED_WRITE_CLOSE,
            ),
            source_segment_max_blocks: nz32(BENCH_SOURCE_SEGMENT_MAX_BLOCKS),
            source_segment_target_response_bytes: nz64(BENCH_SOURCE_SEGMENT_TARGET_RESPONSE_BYTES),
            max_response_bytes: nz64(BENCH_MAX_RESPONSE_BYTES),
            source_fetch_max_in_flight_requests: nz32(BENCH_SOURCE_FETCH_MAX_IN_FLIGHT_REQUESTS),
            source_fetch_max_in_flight_bytes: nz64(BENCH_SOURCE_FETCH_MAX_IN_FLIGHT_BYTES),
            block_prepare_concurrency: params.block_prepare_concurrency,
            block_prepare_max_in_flight_artifact_bytes: nz64(
                BENCH_BLOCK_PREPARE_MEMORY_WATERMARK_BYTES,
            ),
            commit_reassembly_max_queued_artifact_bytes: nz64(
                BENCH_COMMIT_REASSEMBLY_MAX_QUEUED_ARTIFACT_BYTES,
            ),
            flush_interval_epochs: nz32(BENCH_FLUSH_INTERVAL_EPOCHS),
            raw_blob_policy: params.raw_blob_policy,
            upstream_tip_hint: Some(params.to_height),
            allow_near_tip_finalize: true,
            checkpoint: None,
        },
    }
}

/// Which plane derive replay gives way to.
#[derive(Clone, Copy, Debug, PartialEq, Eq, Structural)]
pub enum DeriveReplayPolicy {
    /// Canonical ingest comes first.
    CanonicalFirst,
}

/// Derive-replay settings; memory thresholds are percentages of the budget.
#[derive(Clone, Copy, Debug, PartialEq, Eq)]
pub struct IngestDeriveConfig {
    pub replay_batch_blocks: NonZeroU32,
    pub replay_policy: DeriveReplayPolicy,
    pub memory_budget_bytes: Option<NonZeroU64>,
    pub memory_degrade_percent: u32,
    pub memory_pause_percent: u32,
    pub memory_resume_percent: u32,
    pub min_replay_batch_blocks: NonZeroU32,
    pub startup_handoff_lag_blocks: u64,
}

/// Returns the derive-replay configuration that a benchmark drives.
pub fn bench_derive_config() -> (config: IngestDeriveConfig)
    ensures
        config.replay_batch_blocks@ == BENCH_DERIVE_REPLAY_BATCH_BLOCKS,
        config.replay_policy == DeriveReplayPolicy::CanonicalFirst,
        config.memory_budget_bytes is None,
        config.memory_degrade_percent == BENCH_DERIVE_MEMORY_DEGRADE_PERCENT,
        config.memory_pause_percent == BENCH_DERIVE_MEMORY_PAUSE_PERCENT,
        config.memory_resume_percent == BENCH_DERIVE_MEMORY_RESUME_PERCENT,
        config.min_replay_batch_blocks@ == BENCH_DERIVE_MIN_REPLAY_BATCH_BLOCKS,
        config.startup_handoff_lag_blocks == BENCH_DERIVE_STARTUP_HANDOFF_LAG_BLOCKS,
{
    IngestDeriveConfig {
        replay_batch_blocks: nz32(BENCH_DERIVE_REPLAY_BATCH_BLOCKS),
        replay_policy: DeriveReplayPolicy::CanonicalFirst,
        memory_budget_bytes: None,
        memory_degrade_percent: BENCH_DERIVE_MEMORY_DEGRADE_PERCENT,
        memory_pause_percent: BENCH_DERIVE_MEMORY_PAUSE_PERCENT,
        memory_resume_percent: BENCH_DERIVE_MEMORY_RESUME_PERCENT,
        min_replay_batch_blocks: nz32(BENCH_DERIVE_MIN_REPLAY_BATCH_BLOCKS),
        startup_handoff_lag_blocks: BENCH_DERIVE_STARTUP_HANDOFF_LAG_BLOCKS,
    }
}

/// The bounds of a benchmark run fit together: the fetches in flight may hold
/// one target response each, any response may be as large as all of them, and
/// the batch, prepare and reassembly stages hold the same number of bytes.
pub proof fn law_bench_bounds_fit_together()
    ensures
        BENCH_SOURCE_FETCH_MAX_IN_FLIGHT_BYTES == BENCH_SOURCE_FETCH_MAX_IN_FLIGHT_REQUESTS
            * BENCH_SOURCE_SEGMENT_TARGET_RESPONSE_BYTES,
        BENCH_MAX_RESPONSE_BYTES == BENCH_SOURCE_FETCH_MAX_IN_FLIGHT_BYTES,
        BENCH_SOURCE_SEGMENT_TARGET_RESPONSE_BYTES == 32 * 1024 * 1024,
        BENCH_SOURCE_FETCH_MAX_IN_FLIGHT_REQUESTS == 12,
        BENCH_CANONICAL_BATCH_MAX_ARTIFACT_BYTES == 512 * 1024 * 1024,
        BENCH_BLOCK_PREPARE_MEMORY_WATERMARK_BYTES == BENCH_CANONICAL_BATCH_MAX_ARTIFACT_BYTES,
        BENCH_COMMIT_REASSEMBLY_MAX_QUEUED_ARTIFACT_BYTES
            == BENCH_CANONICAL_BATCH_MAX_ARTIFACT_BYTES,
        BENCH_CANONICAL_BATCH_MAX_BLOCKS == 1_000,
        BENCH_SOURCE_SEGMENT_MAX_BLOCKS == 16,
        BENCH_FLUSH_INTERVAL_EPOCHS == 5,
        BENCH_NODE_REQUEST_TIMEOUT_SECS == 30,
        BENCH_REORG_WINDOW_BLOCKS == 100,
{
}

/// Derived replay resumes below the share of memory at which it slows down,
/// which is below that at which it pauses; its least batch is a tenth of the
/// usual one.
pub proof fn law_bench_replay_thresholds_rise()
    ensures
        BENCH_DERIVE_MEMORY_RESUME_PERCENT == 80,
        BENCH_DERIVE_MEMORY_DEGRADE_PERCENT == BENCH_DERIVE_MEMORY_RESUME_PERCENT + 10,
        BENCH_DERIVE_MEMORY_PAUSE_PERCENT == BENCH_DERIVE_MEMORY_DEGRADE_PERCENT + 9,
        BENCH_DERIVE_REPLAY_BATCH_BLOCKS == 100,
        BENCH_DERIVE_REPLAY_BATCH_BLOCKS == 10 * BENCH_DERIVE_MIN_REPLAY_BATCH_BLOCKS,
        BENCH_DERIVE_STARTUP_HANDOFF_LAG_BLOCKS == 1_000,
{
}

} // verus!
