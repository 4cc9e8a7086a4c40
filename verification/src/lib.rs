//! Canonical chain ingest: the verified decision core of the Zinder writer.
//!
//! Every rule the writer follows between two I/O steps lives here: block
//! construction, batching, source sizing, reassembly, reorg selection,
//! subtree-root population, prevout resolution, backup classification and the
//! follower loop. Reading sockets, opening stores and sleeping stay with the
//! caller, which hands plain values in and takes plain values back.

pub mod artifact_builder;
pub mod artifacts;
pub mod backfill;
pub mod backup;
pub mod batch;
pub mod bench_support;
pub mod block_production_time_backfill;
pub mod bounds;
pub mod bytes;
pub mod bulk_catchup;
pub mod canonical_block_context;
pub mod canonical_construction;
pub mod canonical_follow;
pub mod canonical_runtime;
pub mod chain_ingest;
pub mod cli_parse;
pub mod commitment_root_backfill;
pub mod cursor_text;
pub mod errors;
pub mod ids;
pub mod outpoint_map;
pub mod retry;
pub mod source_outage;
pub mod text;
pub mod zebra;
