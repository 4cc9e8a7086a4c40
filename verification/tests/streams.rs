use std::collections::VecDeque;
use zinder_ingest::artifact_builder::{CommitmentTreeSizes, PreparedCanonicalBlock};
use zinder_ingest::artifacts::{
    BlockHeaderArtifact, CanonicalBlockFacts, CanonicalBlockReplayEnvelope,
    CanonicalTransactionFacts, CompactBlock, SourceBlock, TransactionIntrinsicValueBalances,
    TransactionPublicFacts, TransparentInputFact, TransparentOutputArtifact,
};
use zinder_ingest::bounds::{nonzero_u32, nonzero_u64};
use zinder_ingest::bulk_catchup::block_prepare::{
    prepared_block_transparent_input_count, BlockPrepareStep, BlockPrepareStreamState,
    PendingBlockPrepareSchedule, DENSE_PREVOUT_COALESCE_DELAY_MILLIS,
    LIGHT_PREVOUT_COALESCE_DELAY_MILLIS,
};
use zinder_ingest::bulk_catchup::fact_build::{FactBuildStep, FactBuildStreamState};
use zinder_ingest::bulk_catchup::heap::{
    estimated_peak_block_prepare_bytes, prepared_block_resident_bytes, resident_bytes,
    resident_bytes_with, HeapTally,
};
use zinder_ingest::bulk_catchup::prevout_cache::{cache_entry_bytes, CachedTransparentOutput};
use zinder_ingest::bulk_catchup::prevout_window::{
    cold_outpoints_in_order, look_up_window, prepare_resolved_window,
};
use zinder_ingest::bulk_catchup::segment_sizer::{
    NetworkUpgradeActivations, SourceChainSegmentStats, SourceSegmentSizer,
};
use zinder_ingest::bulk_catchup::source_fetch::{
    next_height_after_segment, queued_source_segment_bytes, validate_prefetched_block_link,
    SourceBlockStreamState, SourceChainSegment, SourceChainUpdate, SourceFetchRequest,
    SourceFetchStep,
};
use zinder_ingest::errors::{IngestError, SourceError};
use zinder_ingest::ids::{
    BlockHash, BlockHeight, BlockId, Network, TransactionId, TransparentAddressScriptHash,
    TransparentOutPoint,
};
use zinder_ingest::outpoint_map::OutPointMap;

const MIB: u64 = 1024 * 1024;

fn hash(height: u32) -> BlockHash {
    BlockHash::from_bytes([height as u8; 32])
}

fn source_block(height: u32) -> SourceBlock {
    SourceBlock {
        network: Network::ZcashRegtest,
        height: BlockHeight::new(height),
        hash: hash(height),
        parent_hash: hash(height - 1),
        block_time_seconds: height,
        raw_block_bytes: vec![height as u8],
    }
}

fn prepared(height: u32, transparent_inputs: u32) -> PreparedCanonicalBlock {
    let mut inputs = Vec::new();
    for index in 0..transparent_inputs {
        inputs.push(TransparentInputFact {
            input_index: index,
            spent_outpoint: TransparentOutPoint::new(
                TransactionId::from_bytes([0xee; 32]),
                index,
            ),
        });
    }
    PreparedCanonicalBlock {
        facts: CanonicalBlockFacts {
            block_header: BlockHeaderArtifact {
                height: BlockHeight::new(height),
                block_hash: hash(height),
                parent_hash: hash(height - 1),
                merkle_root: [0; 32],
                commitment_bytes: [0; 32],
                block_time: 0,
                difficulty_bits: 0,
                nonce: [0; 32],
                version: 4,
                block_size_bytes: 1,
            },
            raw_block_bytes: None,
            transactions: vec![CanonicalTransactionFacts {
                public_facts: TransactionPublicFacts {
                    transaction_id: TransactionId::from_bytes([height as u8; 32]),
                    serialized_size_bytes: 1,
                    unsupported_sections: Vec::new(),
                },
                intrinsic_value_balances: TransactionIntrinsicValueBalances {
                    sprout_zat: 0,
                    sapling_zat: 0,
                    orchard_zat: 0,
                    ironwood_zat: 0,
                },
                transparent_inputs: inputs,
                transparent_outputs: Vec::new(),
                raw_transaction_bytes: None,
            }],
        },
        partial_compact_block: CompactBlock {
            height: u64::from(height),
            hash: Vec::new(),
            prev_hash: Vec::new(),
            time: 0,
            header: Vec::new(),
            vtx: Vec::new(),
            chain_metadata: None,
        },
        tree_size_additions: CommitmentTreeSizes { sapling: 0, orchard: 0, ironwood: 0 },
    }
}

fn sizer(max_blocks: u32) -> SourceSegmentSizer {
    SourceSegmentSizer::new(
        nonzero_u32(max_blocks),
        nonzero_u64(12 * MIB),
        NetworkUpgradeActivations::empty(Network::ZcashRegtest),
        BlockHeight::new(1),
    )
}

fn segment(start: u32, blocks: u32) -> SourceChainSegment {
    let mut updates = Vec::new();
    for height in start..start + blocks {
        updates.push(SourceChainUpdate::ConnectedBlock { block: source_block(height) });
    }
    SourceChainSegment {
        updates,
        stats: SourceChainSegmentStats {
            response_payload_bytes: 12 * MIB,
            connected_blocks: blocks,
            split_count: 0,
        },
    }
}

#[derive(Clone, Copy, Debug, PartialEq, Eq)]
enum FetchEvent {
    Started(u32),
    Finished(u32),
}

/// Runs a stream to its end with a source that answers the first segment last.
fn run_with_slow_first_segment(
    max_in_flight_requests: u32,
    max_in_flight_bytes: u64,
) -> (Vec<u32>, Vec<FetchEvent>) {
    let mut sizer = sizer(2);
    let mut state = SourceBlockStreamState::new(
        BlockHeight::new(1),
        BlockHeight::new(6),
        nonzero_u64(16 * MIB),
        nonzero_u64(12 * MIB),
        nonzero_u32(max_in_flight_requests),
        nonzero_u64(max_in_flight_bytes),
    );
    let mut events = Vec::new();
    let mut heights = Vec::new();
    let mut in_flight: Vec<SourceFetchRequest> = Vec::new();
    loop {
        match state.advance(&mut sizer) {
            SourceFetchStep::Start(request) => {
                events.push(FetchEvent::Started(request.start_height.value()));
                in_flight.push(request);
            }
            SourceFetchStep::Emit(block) => heights.push(block.height.value()),
            SourceFetchStep::AwaitFetch => {
                let request = match in_flight.pop() {
                    Some(request) => request,
                    None => panic!("nothing is in flight"),
                };
                let start = request.start_height.value();
                events.push(FetchEvent::Finished(start));
                let fetched = segment(start, request.max_connected_blocks.get());
                assert!(state.complete_fetch(request, Ok(fetched)).is_ok());
            }
            SourceFetchStep::Fail(error) => panic!("the source is consistent, got {error:?}"),
            SourceFetchStep::Finished => return (heights, events),
        }
    }
}

fn index_of(events: &Vec<FetchEvent>, event: FetchEvent) -> usize {
    for (index, seen) in events.iter().enumerate() {
        if *seen == event {
            return index;
        }
    }
    panic!("{event:?} did not happen in {events:?}")
}

/// Takes the next block out of a stream whose source answers in order, and
/// notes the first height and the largest count of each request.
fn next_source_block(
    source: &mut SourceBlockStreamState,
    sizer: &mut SourceSegmentSizer,
    in_flight: &mut VecDeque<SourceFetchRequest>,
    requested_segments: &mut Vec<(u32, u32)>,
) -> Option<SourceBlock> {
    loop {
        match source.advance(sizer) {
            SourceFetchStep::Start(request) => {
                requested_segments
                    .push((request.start_height.value(), request.max_connected_blocks.get()));
                in_flight.push_back(request);
            }
            SourceFetchStep::Emit(block) => return Some(block),
            SourceFetchStep::AwaitFetch => {
                let request = match in_flight.pop_front() {
                    Some(request) => request,
                    None => panic!("nothing is in flight"),
                };
                let start = request.start_height.value();
                let blocks = request.max_connected_blocks.get().min(6 - (start - 1));
                assert!(source.complete_fetch(request, Ok(segment(start, blocks))).is_ok());
            }
            SourceFetchStep::Fail(error) => panic!("the source is consistent, got {error:?}"),
            SourceFetchStep::Finished => return None,
        }
    }
}

#[test]
fn block_prepare_stream_fetches_source_segments_and_yields_ordered_blocks() {
    let mut sizer = sizer(2);
    let mut source = SourceBlockStreamState::new(
        BlockHeight::new(1),
        BlockHeight::new(6),
        nonzero_u64(16 * MIB),
        nonzero_u64(12 * MIB),
        nonzero_u32(8),
        nonzero_u64(64 * MIB),
    );
    let mut state = BlockPrepareStreamState::new(
        BlockHeight::new(1),
        BlockHeight::new(6),
        2,
        nonzero_u64(32 * MIB),
    );
    let store_outputs = OutPointMap::new();
    let mut requested_segments = Vec::new();
    let mut in_flight = VecDeque::new();
    let mut prepares = VecDeque::new();
    let mut observed_heights = Vec::new();
    let mut deadline_elapsed = false;
    loop {
        let step = state.advance(deadline_elapsed);
        deadline_elapsed = false;
        match step {
            BlockPrepareStep::Prepare(scheduled) => prepares.push_back(scheduled),
            BlockPrepareStep::ResolveWindow(queued) => {
                let window = look_up_window(
                    &mut state.recent_outputs,
                    &mut state.block_prepare_watermark,
                    queued,
                );
                for mut block in prepare_resolved_window(
                    &mut state.recent_outputs,
                    &mut state.block_prepare_watermark,
                    window,
                    &store_outputs,
                ) {
                    observed_heights.push(block.prepared.facts.block_header.height.value());
                    state.block_prepare_watermark.release(&mut block.block_prepare_reservation);
                }
            }
            BlockPrepareStep::Await { accept_source, await_prepare, .. } => {
                if accept_source {
                    match next_source_block(
                        &mut source,
                        &mut sizer,
                        &mut in_flight,
                        &mut requested_segments,
                    ) {
                        Some(block) => state.accept_source_chunk(VecDeque::from(vec![block])),
                        None => state.accept_source_end(),
                    }
                } else if await_prepare {
                    let scheduled = match prepares.pop_front() {
                        Some(scheduled) => scheduled,
                        None => panic!("no prepare is in flight"),
                    };
                    let height = scheduled.source_block.height.value();
                    assert!(state
                        .complete_block_prepare(
                            scheduled.ticket,
                            Ok((
                                prepared(height, 0),
                                CanonicalBlockReplayEnvelope { payload_bytes: Vec::new() },
                            )),
                        )
                        .is_ok());
                } else {
                    deadline_elapsed = true;
                }
            }
            BlockPrepareStep::Finished => break,
        }
    }
    assert_eq!(observed_heights, vec![1, 2, 3, 4, 5, 6]);
    assert_eq!(requested_segments, vec![(1, 2), (3, 2), (5, 2)]);
    assert_eq!(state.block_prepare_watermark.snapshot().reserved_bytes, 0);
}

#[test]
fn the_room_of_the_raw_bytes_decides_what_a_prepare_reserves() {
    let mut state = BlockPrepareStreamState::new(
        BlockHeight::new(1),
        BlockHeight::new(3),
        3,
        nonzero_u64(200_000),
    );
    assert!(matches!(
        state.schedule_block_prepare(100),
        PendingBlockPrepareSchedule::Idle
    ));
    state.accept_source_chunk(VecDeque::from(vec![
        source_block(1),
        source_block(2),
        source_block(3),
    ]));
    let first = match state.schedule_block_prepare(100) {
        PendingBlockPrepareSchedule::Scheduled(scheduled) => scheduled,
        other => panic!("block 1 fits, got {other:?}"),
    };
    assert_eq!(first.ticket.estimated_peak_resident_bytes, 65_536 + 16 * 100);
    assert_eq!(first.ticket.reservation.bytes, 65_536 + 16 * 100);
    let second = match state.schedule_block_prepare(0) {
        PendingBlockPrepareSchedule::Scheduled(scheduled) => scheduled,
        other => panic!("block 2 fits, got {other:?}"),
    };
    assert_eq!(second.ticket.estimated_peak_resident_bytes, 65_536 + 16);
    assert!(matches!(
        state.schedule_block_prepare(10_000),
        PendingBlockPrepareSchedule::WatermarkBlocked
    ));
    assert_eq!(state.block_prepare_watermark.reserved_bytes, 2 * 65_536 + 16 * 101);
    assert!(matches!(
        state.follow_schedule(PendingBlockPrepareSchedule::WatermarkBlocked, false),
        BlockPrepareStep::Await { accept_source: false, await_prepare: true, .. }
    ));

    assert!(state
        .complete_measured_block_prepare(
            first.ticket,
            prepared(1, 0),
            CanonicalBlockReplayEnvelope { payload_bytes: Vec::new() },
            70_000,
        )
        .is_ok());
    assert_eq!(state.completed_block_prepare_resident_bytes, 70_000);
    assert_eq!(state.block_prepare_watermark.reserved_bytes, 70_000 + 65_536 + 16);
    assert!(state
        .complete_measured_block_prepare(
            second.ticket,
            prepared(2, 0),
            CanonicalBlockReplayEnvelope { payload_bytes: Vec::new() },
            5,
        )
        .is_ok());
    assert_eq!(state.completed_block_prepare_resident_bytes, 70_005);
    assert_eq!(state.block_prepare_watermark.reserved_bytes, 70_000 + 65_536 + 16);
}

#[test]
fn room_is_counted_rather_than_items() {
    let mut tally = HeapTally::new();
    tally.count::<u32>(3, 5);
    assert_eq!(tally.bytes, 20);
    tally.count::<u8>(0, 7);
    assert_eq!(tally.bytes, 27);
    tally.visit(&Vec::<u64>::new());
    assert_eq!(tally.bytes, 27);
    tally.count::<u16>(0, usize::MAX);
    assert_eq!(tally.bytes, usize::MAX);

    let fixed = std::mem::size_of::<PreparedCanonicalBlock>() as u64;
    assert_eq!(resident_bytes(1, 20, 300, 4_000), fixed + 4_321);
    assert_eq!(resident_bytes(usize::MAX, 1, 1, 1), usize::MAX as u64);
    assert_eq!(resident_bytes_with(7, &Vec::new()), 7);

    let entry = 2 * std::mem::size_of::<TransparentOutPoint>()
        + std::mem::size_of::<TransparentOutputArtifact>()
        + std::mem::size_of::<CachedTransparentOutput>()
        + std::mem::size_of::<u128>();
    assert_eq!(cache_entry_bytes(0), entry as u64);
    assert_eq!(cache_entry_bytes(25), entry as u64 + 25);
    assert_eq!(cache_entry_bytes(usize::MAX), usize::MAX as u64);
}

#[test]
fn source_fetch_schedules_past_slow_earlier_segment() {
    let (heights, events) = run_with_slow_first_segment(2, 48 * MIB);
    assert_eq!(heights, vec![1, 2, 3, 4, 5, 6]);
    assert!(
        index_of(&events, FetchEvent::Started(5)) < index_of(&events, FetchEvent::Finished(1)),
        "expected later segment to start before the slow first segment finished; events: {events:?}"
    );
}

#[test]
fn source_fetch_counts_completed_reassembly_bytes_against_watermark() {
    let (heights, events) = run_with_slow_first_segment(8, 36 * MIB);
    assert_eq!(heights, vec![1, 2, 3, 4, 5, 6]);
    assert!(
        index_of(&events, FetchEvent::Finished(1)) < index_of(&events, FetchEvent::Started(5)),
        "expected completed out-of-order segment bytes to block segment 5 until segment 1 emitted; events: {events:?}"
    );
}

#[test]
fn source_fetch_watermark_covers_active_and_completed_bytes() {
    let (heights, events) = run_with_slow_first_segment(8, 24 * MIB);
    assert_eq!(heights, vec![1, 2, 3, 4, 5, 6]);
    assert!(
        index_of(&events, FetchEvent::Finished(1)) < index_of(&events, FetchEvent::Started(3)),
        "expected source byte watermark to block segment 3 until segment 1 released active bytes; events: {events:?}"
    );
}

fn stream_of_three() -> SourceBlockStreamState {
    SourceBlockStreamState::new(
        BlockHeight::new(1),
        BlockHeight::new(3),
        nonzero_u64(16 * MIB),
        nonzero_u64(12 * MIB),
        nonzero_u32(1),
        nonzero_u64(64 * MIB),
    )
}

fn answer(first: SourceChainSegment) -> SourceFetchStep {
    let mut sizer = sizer(4);
    let mut state = stream_of_three();
    let request = match state.advance(&mut sizer) {
        SourceFetchStep::Start(request) => request,
        other => panic!("a fetch is due, got {other:?}"),
    };
    assert_eq!(request.start_height, BlockHeight::new(1));
    assert_eq!(request.max_connected_blocks.get(), 3);
    assert!(matches!(state.advance(&mut sizer), SourceFetchStep::AwaitFetch));
    assert!(state.complete_fetch(request, Ok(first)).is_ok());
    state.advance(&mut sizer)
}

#[test]
fn inconsistent_segments_fail_the_stream() {
    let mut unlinked = segment(1, 3);
    match &mut unlinked.updates[2] {
        SourceChainUpdate::ConnectedBlock { block } => block.parent_hash = hash(9),
        _ => panic!("blocks are connected"),
    }
    assert!(matches!(
        answer(unlinked),
        SourceFetchStep::Fail(IngestError::Source(SourceError::BlockReorgDuringFetch { height, .. }))
            if height == BlockHeight::new(3)
    ));
    let mut skipped = segment(1, 3);
    skipped.updates.remove(1);
    assert!(matches!(
        answer(skipped),
        SourceFetchStep::Fail(IngestError::Source(SourceError::SourceProtocolMismatch { .. }))
    ));
    let mut empty = segment(1, 1);
    empty.updates.clear();
    assert!(matches!(answer(empty), SourceFetchStep::Finished));
    let mut finalized_only = segment(1, 1);
    finalized_only.updates[0] = SourceChainUpdate::FinalizedTip {
        block_id: BlockId::new(BlockHeight::new(1), hash(1)),
    };
    assert!(matches!(answer(finalized_only), SourceFetchStep::Fail(IngestError::Source(_))));
    let mut reverted = segment(1, 1);
    reverted.updates.push(SourceChainUpdate::RevertedBlock {
        block_id: BlockId::new(BlockHeight::new(1), hash(1)),
    });
    assert!(matches!(answer(reverted), SourceFetchStep::Fail(IngestError::Source(_))));
    assert!(matches!(answer(segment(1, 3)), SourceFetchStep::Emit(block) if block.height == BlockHeight::new(1)));
}

#[test]
fn the_first_block_continues_a_known_predecessor() {
    let mut sizer = sizer(4);
    let mut state = stream_of_three();
    state.continue_from(BlockId::new(BlockHeight::new(0), hash(9)));
    let request = match state.advance(&mut sizer) {
        SourceFetchStep::Start(request) => request,
        other => panic!("a fetch is due, got {other:?}"),
    };
    assert!(state.complete_fetch(request, Ok(segment(1, 3))).is_ok());
    assert!(matches!(
        state.advance(&mut sizer),
        SourceFetchStep::Fail(IngestError::Source(SourceError::BlockReorgDuringFetch { height, .. }))
            if height == BlockHeight::new(1)
    ));
}

#[test]
fn a_failed_fetch_fails_the_stream() {
    let mut sizer = sizer(4);
    let mut state = stream_of_three();
    let request = match state.advance(&mut sizer) {
        SourceFetchStep::Start(request) => request,
        other => panic!("a fetch is due, got {other:?}"),
    };
    assert!(matches!(
        state.complete_fetch(request, Err(IngestError::EmptyCanonicalBatch)),
        Err(IngestError::EmptyCanonicalBatch)
    ));
    assert_eq!(state.in_flight_segments, 0);
    assert_eq!(state.source_fetch_watermark.reserved_bytes, 0);
}

#[test]
fn segments_and_links_are_measured() {
    assert_eq!(
        next_height_after_segment(BlockHeight::new(10), nonzero_u32(5)),
        Some(BlockHeight::new(15))
    );
    assert_eq!(next_height_after_segment(BlockHeight::new(u32::MAX), nonzero_u32(1)), None);
    assert!(validate_prefetched_block_link(None, &source_block(7)).is_ok());
    assert!(validate_prefetched_block_link(
        Some(BlockId::new(BlockHeight::new(6), hash(6))),
        &source_block(7)
    )
    .is_ok());
    assert!(validate_prefetched_block_link(
        Some(BlockId::new(BlockHeight::new(5), hash(5))),
        &source_block(7)
    )
    .is_err());
    assert!(validate_prefetched_block_link(
        Some(BlockId::new(BlockHeight::new(u32::MAX), hash(5))),
        &source_block(7)
    )
    .is_err());
    assert_eq!(queued_source_segment_bytes(&segment(1, 2), 16 * MIB), 12 * MIB);
}

#[test]
fn block_prepare_schedules_past_slow_earlier_block() {
    let mut state = BlockPrepareStreamState::new(
        BlockHeight::new(1),
        BlockHeight::new(3),
        2,
        nonzero_u64(32 * MIB),
    );
    let mut chunk = VecDeque::new();
    for height in 1..=3 {
        chunk.push_back(source_block(height));
    }
    assert!(matches!(
        state.advance(false),
        BlockPrepareStep::Await { accept_source: true, await_prepare: false, .. }
    ));
    state.accept_source_chunk(chunk);
    let first = match state.advance(false) {
        BlockPrepareStep::Prepare(scheduled) => scheduled,
        other => panic!("block 1 is due, got {other:?}"),
    };
    let second = match state.advance(false) {
        BlockPrepareStep::Prepare(scheduled) => scheduled,
        other => panic!("block 2 is due, got {other:?}"),
    };
    assert_eq!(first.source_block.height, BlockHeight::new(1));
    assert_eq!(second.source_block.height, BlockHeight::new(2));
    assert!(matches!(
        state.advance(false),
        BlockPrepareStep::Await { await_prepare: true, .. }
    ));
    assert!(state
        .complete_block_prepare(
            second.ticket,
            Ok((prepared(2, 1), CanonicalBlockReplayEnvelope { payload_bytes: vec![2] })),
        )
        .is_ok());
    let third = match state.advance(false) {
        BlockPrepareStep::Prepare(scheduled) => scheduled,
        other => panic!("block 3 starts before block 1 is done, got {other:?}"),
    };
    assert_eq!(third.source_block.height, BlockHeight::new(3));
    assert!(state
        .complete_block_prepare(
            first.ticket,
            Ok((prepared(1, 0), CanonicalBlockReplayEnvelope { payload_bytes: vec![1] })),
        )
        .is_ok());
    state.accept_source_end();
    match state.advance(false) {
        BlockPrepareStep::ResolveWindow(window) => {
            assert_eq!(window.len(), 2);
            assert_eq!(window[0].prepared.facts.block_header.height, BlockHeight::new(1));
            assert_eq!(window[1].prepared.facts.block_header.height, BlockHeight::new(2));
        }
        other => panic!("two blocks are ready, got {other:?}"),
    }
    assert!(state
        .complete_block_prepare(
            third.ticket,
            Ok((prepared(3, 128), CanonicalBlockReplayEnvelope { payload_bytes: vec![3] })),
        )
        .is_ok());
    match state.advance(false) {
        BlockPrepareStep::ResolveWindow(window) => assert_eq!(window.len(), 1),
        other => panic!("the last block is ready, got {other:?}"),
    }
    assert!(matches!(state.advance(false), BlockPrepareStep::Finished));
}

fn coalesced_after_one_block(transparent_inputs: u32) -> BlockPrepareStreamState {
    let mut state = BlockPrepareStreamState::new(
        BlockHeight::new(1),
        BlockHeight::new(9),
        2,
        nonzero_u64(32 * MIB),
    );
    let mut chunk = VecDeque::new();
    chunk.push_back(source_block(1));
    state.accept_source_chunk(chunk);
    let first = match state.advance(false) {
        BlockPrepareStep::Prepare(scheduled) => scheduled,
        other => panic!("block 1 is due, got {other:?}"),
    };
    assert!(state
        .complete_block_prepare(
            first.ticket,
            Ok((
                prepared(1, transparent_inputs),
                CanonicalBlockReplayEnvelope { payload_bytes: Vec::new() },
            )),
        )
        .is_ok());
    state
}

#[test]
fn dense_blocks_are_coalesced_longer() {
    assert_eq!(prepared_block_transparent_input_count(&prepared(1, 128)), 128);
    let mut state = coalesced_after_one_block(128);
    assert!(state.next_completed_block_is_dense());
    assert_eq!(state.contiguous_completed_window_shape(), (1, 128));
    assert!(matches!(
        state.advance(false),
        BlockPrepareStep::Await { start_coalescing: Some(delay), .. }
            if delay == DENSE_PREVOUT_COALESCE_DELAY_MILLIS
    ));
    let mut state = coalesced_after_one_block(127);
    assert!(!state.next_completed_block_is_dense());
    assert!(matches!(
        state.advance(false),
        BlockPrepareStep::Await { start_coalescing: Some(delay), .. }
            if delay == LIGHT_PREVOUT_COALESCE_DELAY_MILLIS
    ));
    assert!(matches!(
        state.advance(false),
        BlockPrepareStep::Await { start_coalescing: None, await_deadline: true, .. }
    ));
    assert!(matches!(state.advance(true), BlockPrepareStep::ResolveWindow(_)));
}

#[test]
fn a_failed_prepare_gives_its_bytes_back() {
    let mut state = BlockPrepareStreamState::new(
        BlockHeight::new(1),
        BlockHeight::new(2),
        2,
        nonzero_u64(32 * MIB),
    );
    let mut chunk = VecDeque::new();
    chunk.push_back(source_block(1));
    state.accept_source_chunk(chunk);
    let first = match state.advance(false) {
        BlockPrepareStep::Prepare(scheduled) => scheduled,
        other => panic!("block 1 is due, got {other:?}"),
    };
    assert!(first.ticket.estimated_peak_resident_bytes >= 65_536);
    assert_eq!(
        state.block_prepare_watermark.reserved_bytes,
        first.ticket.estimated_peak_resident_bytes
    );
    assert!(state
        .complete_block_prepare(first.ticket, Err(IngestError::EmptyCanonicalBatch))
        .is_err());
    assert_eq!(state.block_prepare_watermark.reserved_bytes, 0);
}

#[test]
fn fact_builds_leave_in_height_order() {
    let mut state = FactBuildStreamState::new(
        BlockHeight::new(1),
        BlockHeight::new(2),
        2,
        nonzero_u64(MIB),
    );
    assert!(matches!(
        state.advance(),
        FactBuildStep::Await { accept_source: true, await_build: false }
    ));
    let (_, first) = match state.accept_source_block(source_block(1)) {
        Some(started) => started,
        None => panic!("block 1 can start"),
    };
    let (_, second) = match state.accept_source_block(source_block(2)) {
        Some(started) => started,
        None => panic!("block 2 can start"),
    };
    state.accept_source_end();
    assert!(state.complete_fact_build(second, Ok((prepared(2, 0), 10))).is_ok());
    assert!(matches!(state.advance(), FactBuildStep::Await { await_build: true, .. }));
    assert!(state.complete_fact_build(first, Ok((prepared(1, 0), 10))).is_ok());
    for height in 1..=2 {
        match state.advance() {
            FactBuildStep::Emit(block) => {
                assert_eq!(block.facts.block_header.height, BlockHeight::new(height))
            }
            other => panic!("block {height} is ready, got {other:?}"),
        }
    }
    assert!(matches!(state.advance(), FactBuildStep::Finished));
    assert_eq!(state.fact_build_watermark.reserved_bytes, 0);
}

#[test]
fn completed_prepare_retains_admission_peak_until_prevout_resolution() {
    let block = source_block(1);
    let prepared_peak_bytes = estimated_peak_block_prepare_bytes(block.raw_block_bytes.capacity());
    let mut state = BlockPrepareStreamState::new(
        BlockHeight::new(1),
        BlockHeight::new(1),
        1,
        nonzero_u64(64 * MIB),
    );
    let mut chunk = VecDeque::new();
    chunk.push_back(block);
    state.accept_source_chunk(chunk);
    let scheduled = match state.advance(false) {
        BlockPrepareStep::Prepare(scheduled) => scheduled,
        other => panic!("block prepare should be admitted, got {other:?}"),
    };
    assert_eq!(state.block_prepare_watermark.snapshot().reserved_bytes, prepared_peak_bytes);

    let prepared = prepared(1, 0);
    let resident_bytes = prepared_block_resident_bytes(&prepared, 0);
    assert!(state
        .complete_block_prepare(
            scheduled.ticket,
            Ok((prepared, CanonicalBlockReplayEnvelope { payload_bytes: Vec::new() })),
        )
        .is_ok());
    assert_eq!(
        state.block_prepare_watermark.snapshot().reserved_bytes,
        prepared_peak_bytes.max(resident_bytes)
    );

    let mut completed = state.take_contiguous_completed_block_prepares();
    assert_eq!(completed.len(), 1);
    assert_eq!(completed[0].resident_bytes, resident_bytes);
    state.block_prepare_watermark.release(&mut completed[0].reservation);
    assert_eq!(state.block_prepare_watermark.snapshot().reserved_bytes, 0);
}

#[test]
fn block_prepare_stream_prefetches_spent_transparent_outputs() {
    let spent_outpoint = TransparentOutPoint::new(TransactionId::from_bytes([0x11; 32]), 0);
    let stored_output = || TransparentOutputArtifact {
        outpoint: spent_outpoint,
        value_zat: 42,
        script_pub_key: vec![0x51],
        address_script_hash: TransparentAddressScriptHash([0x33; 32]),
        block_height: BlockHeight::new(1),
        block_hash: hash(1),
    };
    let mut store_outputs = OutPointMap::new();
    store_outputs.insert(spent_outpoint, stored_output());

    let mut state = BlockPrepareStreamState::new(
        BlockHeight::new(2),
        BlockHeight::new(2),
        1,
        nonzero_u64(32 * MIB),
    );
    let mut chunk = VecDeque::new();
    chunk.push_back(source_block(2));
    state.accept_source_chunk(chunk);
    let scheduled = match state.advance(false) {
        BlockPrepareStep::Prepare(scheduled) => scheduled,
        other => panic!("block 2 is due, got {other:?}"),
    };
    let mut spending = prepared(2, 1);
    spending.facts.transactions[0].public_facts.transaction_id =
        TransactionId::from_bytes([0x22; 32]);
    spending.facts.transactions[0].transparent_inputs[0].spent_outpoint = spent_outpoint;
    assert!(state
        .complete_block_prepare(
            scheduled.ticket,
            Ok((spending, CanonicalBlockReplayEnvelope { payload_bytes: Vec::new() })),
        )
        .is_ok());
    let queued = match state.advance(false) {
        BlockPrepareStep::ResolveWindow(queued) => queued,
        other => panic!("the window is ready, got {other:?}"),
    };
    let window = look_up_window(
        &mut state.recent_outputs,
        &mut state.block_prepare_watermark,
        queued,
    );
    assert_eq!(cold_outpoints_in_order(&window), vec![spent_outpoint]);
    let resolved = prepare_resolved_window(
        &mut state.recent_outputs,
        &mut state.block_prepare_watermark,
        window,
        &store_outputs,
    );
    assert_eq!(resolved.len(), 1);
    assert_eq!(resolved[0].prepared.facts.block_header.height, BlockHeight::new(2));
    assert_eq!(resolved[0].prefetched_spent_transparent_outputs, vec![stored_output()]);
    state.accept_source_end();
    assert!(matches!(state.advance(false), BlockPrepareStep::Finished));
}
