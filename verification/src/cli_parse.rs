//! Conversion of command-line and configuration inputs into typed values.

use crate::bounds::NonZeroU32;
use crate::chain_ingest::NodeSourceKind;
use crate::errors::IngestError;
use crate::retry::{duration_nanos, NANOS_PER_MILLISECOND};
use crate::text::same_text;
use std::time::Duration;
use vstd::prelude::*;

verus! {

/// A configuration value that cannot be used, with the reason.
#[derive(Debug, PartialEq, Eq)]
pub struct ConfigError {
    pub reason: &'static str,
}

/// Parses the public node source configuration name.
pub fn parse_node_source(node_source: &str) -> (kind: Result<NodeSourceKind, IngestError>)
    ensures
        match kind {
            Ok(kind) => node_source@ == "zebra-json-rpc"@ && kind == NodeSourceKind::ZebraJsonRpc,
            Err(error) => {
                &&& node_source@ != "zebra-json-rpc"@
                &&& error matches IngestError::UnknownNodeSource { node_source: name }
                &&& name@ == node_source@
            },
        },
{
    if same_text(node_source, "zebra-json-rpc") {
        Ok(NodeSourceKind::ZebraJsonRpc)
    } else {
        Err(IngestError::UnknownNodeSource { node_source: node_source.to_owned() })
    }
}

/// Parses the maximum commit batch size.
pub fn parse_commit_batch_blocks(commit_batch_blocks: u32) -> (bound: Result<
    NonZeroU32,
    ConfigError,
>)
    ensures
        match bound {
            Ok(bound) => bound@ == commit_batch_blocks && commit_batch_blocks > 0,
            Err(error) => commit_batch_blocks == 0 && error.reason@
                == "ingest.bulk_catchup.commit_batch_blocks must be greater than zero"@,
        },
{
    match NonZeroU32::new(commit_batch_blocks) {
        Some(bound) => Ok(bound),
        None => Err(
            ConfigError {
                reason: "ingest.bulk_catchup.commit_batch_blocks must be greater than zero",
            },
        ),
    }
}

/// Parses the maximum replaceable reorg-window size.
pub fn parse_reorg_window_blocks(reorg_window_blocks: u32) -> (window: Result<u32, ConfigError>)
    ensures
        match window {
            Ok(window) => window == reorg_window_blocks && reorg_window_blocks > 0,
            Err(error) => reorg_window_blocks == 0 && error.reason@
                == "ingest.reorg_window_blocks must be greater than zero"@,
        },
{
    if reorg_window_blocks == 0 {
        return Err(
            ConfigError { reason: "ingest.reorg_window_blocks must be greater than zero" },
        );
    }
    Ok(reorg_window_blocks)
}

/// Parses the tip-follow poll interval in milliseconds.
pub fn parse_poll_interval_ms(poll_interval_ms: u64) -> (interval: Result<Duration, ConfigError>)
    ensures
        match interval {
            Ok(interval) => poll_interval_ms > 0 && duration_nanos(interval) == poll_interval_ms
                * NANOS_PER_MILLISECOND,
            Err(error) => poll_interval_ms == 0 && error.reason@
                == "ingest.tip_follow.poll_interval_ms must be greater than zero"@,
        },
{
    if poll_interval_ms == 0 {
        return Err(
            ConfigError {
                reason: "ingest.tip_follow.poll_interval_ms must be greater than zero",
            },
        );
    }
    Ok(Duration::from_millis(poll_interval_ms))
}

} // verus!
