//! Ordered source blocks from concurrently fetched segments.
//!
//! Segments are requested ahead of time and may complete in any order; their
//! blocks leave in ascending height order, each connected to the one before.

use super::segment_sizer::{SourceChainSegmentStats, SourceSegmentSizer};
use super::watermark::{requested, ByteReservation, ByteWatermark};
use crate::artifacts::SourceBlock;
use crate::bounds::{
    capped, floored_difference, nonzero_u32_to_usize, NonZeroU32, NonZeroU64,
};
use crate::errors::{IngestError, SourceError};
use crate::ids::{BlockHeight, BlockId};
use std::collections::{BTreeMap, VecDeque};
use vstd::prelude::*;

verus! {

/// One step of the upstream chain.
#[derive(Debug, PartialEq, Eq)]
pub enum SourceChainUpdate {
    /// A block was connected to the chain.
    ConnectedBlock { block: SourceBlock },
    /// A block was taken off the chain.
    RevertedBlock { block_id: BlockId },
    /// Blocks up to this one can no longer be taken off the chain.
    FinalizedTip { block_id: BlockId },
}

/// Consecutive steps of the upstream chain, with their measurements.
#[derive(Debug, PartialEq, Eq)]
pub struct SourceChainSegment {
    pub updates: Vec<SourceChainUpdate>,
    pub stats: SourceChainSegmentStats,
}

/// Failure for an answer ingest does not accept.
pub open spec fn is_mismatch(error: IngestError, cause: Seq<char>) -> bool {
    match error {
        IngestError::Source(SourceError::SourceProtocolMismatch { cause: told }) => told@ == cause,
        _ => false,
    }
}

/// Failure for a chain that changed while it was fetched.
pub open spec fn is_reorg(error: IngestError, at: BlockHeight, cause: Seq<char>) -> bool {
    match error {
        IngestError::Source(SourceError::BlockReorgDuringFetch { height, cause: told }) => {
            height == at && told@ == cause
        },
        _ => false,
    }
}

fn mismatch(cause: &'static str) -> (error: IngestError)
    ensures
        is_mismatch(error, cause@),
{
    IngestError::Source(SourceError::SourceProtocolMismatch { cause })
}

/// Height that follows a segment, if one is left.
pub open spec fn height_after(start_height: BlockHeight, blocks: int) -> Option<BlockHeight> {
    if start_height.0 + blocks > u32::MAX {
        None
    } else {
        Some(BlockHeight((start_height.0 + blocks) as u32))
    }
}

/// Height that follows a segment, unless it is beyond the last requested one.
pub open spec fn height_after_within(
    start_height: BlockHeight,
    blocks: int,
    to_height: BlockHeight,
) -> Option<BlockHeight> {
    match height_after(start_height, blocks) {
        Some(height) => if height.0 <= to_height.0 {
            Some(height)
        } else {
            None
        },
        None => None,
    }
}

/// Returns the height that follows a segment, if one is left.
pub fn next_height_after_segment(
    start_height: BlockHeight,
    source_segment_max_blocks: NonZeroU32,
) -> (next: Option<BlockHeight>)
    ensures
        next == height_after(start_height, source_segment_max_blocks@ as int),
{
    match start_height.value().checked_add(source_segment_max_blocks.get()) {
        Some(height) => Some(BlockHeight::new(height)),
        None => None,
    }
}

fn next_height_within(
    start_height: BlockHeight,
    blocks: NonZeroU32,
    to_height: BlockHeight,
) -> (next: Option<BlockHeight>)
    ensures
        next == height_after_within(start_height, blocks@ as int, to_height),
{
    match next_height_after_segment(start_height, blocks) {
        Some(height) => if height.value() <= to_height.value() {
            Some(height)
        } else {
            None
        },
        None => None,
    }
}

/// How a block fails to continue the chain, if it does.
pub enum LinkFault {
    /// No height is left after the previous block.
    PastLastHeight,
    /// The block does not stand right above the previous one.
    SkippedHeight,
    /// The block names another parent.
    OtherParent { height: BlockHeight },
}

/// How a block fails to continue from the previous one, if it does.
pub open spec fn link_fault(previous: Option<BlockId>, block: SourceBlock) -> Option<LinkFault> {
    match previous {
        None => None,
        Some(previous) => match previous.height.spec_next() {
            None => Some(LinkFault::PastLastHeight),
            Some(expected) => if block.height != expected {
                Some(LinkFault::SkippedHeight)
            } else if block.parent_hash != previous.hash {
                Some(LinkFault::OtherParent { height: block.height })
            } else {
                None
            },
        },
    }
}

/// Whether an error reports a fault.
pub open spec fn reports_link_fault(error: IngestError, fault: LinkFault) -> bool {
    match fault {
        LinkFault::PastLastHeight => is_mismatch(
            error,
            "source chain segment continued after maximum block height"@,
        ),
        LinkFault::SkippedHeight => is_mismatch(
            error,
            "source chain segment skipped a height during bulk catchup"@,
        ),
        LinkFault::OtherParent { height } => is_reorg(
            error,
            height,
            "prefetched source chain segment did not connect to the previous segment"@,
        ),
    }
}

/// Checks that a block continues from the previous one.
pub fn validate_prefetched_block_link(
    previous_block_id: Option<BlockId>,
    block: &SourceBlock,
) -> (linked: Result<(), IngestError>)
    ensures
        match linked {
            Ok(_) => link_fault(previous_block_id, *block) is None,
            Err(error) => {
                &&& link_fault(previous_block_id, *block) is Some
                &&& reports_link_fault(error, link_fault(previous_block_id, *block)->0)
            },
        },
{
    let previous = match previous_block_id {
        Some(previous) => previous,
        None => {
            return Ok(());
        },
    };
    let expected_height = match previous.height.next() {
        Some(expected_height) => expected_height,
        None => {
            return Err(mismatch("source chain segment continued after maximum block height"));
        },
    };
    if block.height != expected_height {
        return Err(mismatch("source chain segment skipped a height during bulk catchup"));
    }
    if block.parent_hash != previous.hash {
        return Err(
            IngestError::Source(
                SourceError::BlockReorgDuringFetch {
                    height: block.height,
                    cause: "prefetched source chain segment did not connect to the previous segment",
                },
            ),
        );
    }
    Ok(())
}

/// How a segment fails to continue the chain, if it does.
pub enum SegmentFault {
    /// A block does not continue from the one before.
    Link { fault: LinkFault },
    /// A block was taken off the chain.
    Reverted { height: BlockHeight },
    /// No block of the segment was asked for.
    NoConnectedBlocks,
}

/// Progress through the updates of a segment.
#[verifier::ext_equal]
pub struct SegmentWalk {
    /// Last block that was found to continue the chain.
    pub last: Option<BlockId>,
    /// Blocks that were asked for.
    pub blocks: Seq<SourceBlock>,
    /// What ended the walk early, if anything.
    pub fault: Option<SegmentFault>,
}

/// Progress through a run of updates that follow some block.
pub open spec fn walk(
    updates: Seq<SourceChainUpdate>,
    to_height: BlockHeight,
    previous: Option<BlockId>,
) -> SegmentWalk
    decreases updates.len(),
{
    if updates.len() == 0 {
        SegmentWalk { last: previous, blocks: Seq::empty(), fault: None }
    } else {
        let before = walk(updates.drop_last(), to_height, previous);
        if before.fault is Some {
            before
        } else {
            match updates.last() {
                SourceChainUpdate::ConnectedBlock { block } => match link_fault(
                    before.last,
                    block,
                ) {
                    Some(fault) => SegmentWalk {
                        fault: Some(SegmentFault::Link { fault }),
                        ..before
                    },
                    None => SegmentWalk {
                        last: Some(BlockId { height: block.height, hash: block.hash }),
                        blocks: if block.height.0 <= to_height.0 {
                            before.blocks.push(block)
                        } else {
                            before.blocks
                        },
                        fault: None,
                    },
                },
                SourceChainUpdate::RevertedBlock { block_id } => SegmentWalk {
                    fault: Some(SegmentFault::Reverted { height: block_id.height }),
                    ..before
                },
                SourceChainUpdate::FinalizedTip { .. } => before,
            }
        }
    }
}

/// What a whole segment fails on, if anything.
pub open spec fn segment_fault(
    updates: Seq<SourceChainUpdate>,
    to_height: BlockHeight,
    previous: Option<BlockId>,
) -> Option<SegmentFault> {
    let walked = walk(updates, to_height, previous);
    if walked.fault is Some {
        walked.fault
    } else if walked.blocks.len() == 0 {
        Some(SegmentFault::NoConnectedBlocks)
    } else {
        None
    }
}

/// Whether an error reports a fault.
pub open spec fn reports_segment_fault(error: IngestError, fault: SegmentFault) -> bool {
    match fault {
        SegmentFault::Link { fault } => reports_link_fault(error, fault),
        SegmentFault::Reverted { height } => is_reorg(
            error,
            height,
            "source chain segment reverted during bulk catchup"@,
        ),
        SegmentFault::NoConnectedBlocks => is_mismatch(
            error,
            "source chain segment did not contain connected blocks during bulk catchup"@,
        ),
    }
}

proof fn lemma_walk_fault_persists(
    updates: Seq<SourceChainUpdate>,
    to_height: BlockHeight,
    previous: Option<BlockId>,
    k: int,
)
    requires
        0 <= k <= updates.len(),
        walk(updates.take(k), to_height, previous).fault is Some,
    ensures
        walk(updates, to_height, previous) == walk(updates.take(k), to_height, previous),
    decreases updates.len(),
{
    if k < updates.len() {
        assert(updates.drop_last().take(k) =~= updates.take(k));
        lemma_walk_fault_persists(updates.drop_last(), to_height, previous, k);
    } else {
        assert(updates.take(k) =~= updates);
    }
}

/// Whether blocks stand on ascending heights without a gap, each naming the
/// one before as its parent, after some block.
pub open spec fn chained(previous: Option<BlockId>, blocks: Seq<SourceBlock>) -> bool
    decreases blocks.len(),
{
    if blocks.len() == 0 {
        true
    } else {
        let rest = blocks.drop_last();
        &&& chained(previous, rest)
        &&& link_fault(
            if rest.len() == 0 {
                previous
            } else {
                Some(BlockId { height: rest.last().height, hash: rest.last().hash })
            },
            blocks.last(),
        ) is None
    }
}

/// The blocks a segment contributes continue the chain without a gap.
pub proof fn law_walked_blocks_are_chained(
    updates: Seq<SourceChainUpdate>,
    to_height: BlockHeight,
    previous: Option<BlockId>,
)
    ensures
        chained(previous, walk(updates, to_height, previous).blocks),
        ({
            let walked = walk(updates, to_height, previous);
            walked.last matches Some(last) && last.height.0 <= to_height.0
                ==> walked.last == if walked.blocks.len() == 0 {
                previous
            } else {
                Some(
                    BlockId {
                        height: walked.blocks.last().height,
                        hash: walked.blocks.last().hash,
                    },
                )
            }
        }),
        walk(updates, to_height, previous).last is None ==> walk(
            updates,
            to_height,
            previous,
        ).blocks.len() == 0 && previous is None,
    decreases updates.len(),
{
    if updates.len() > 0 {
        law_walked_blocks_are_chained(updates.drop_last(), to_height, previous);
        let before = walk(updates.drop_last(), to_height, previous);
        let walked = walk(updates, to_height, previous);
        if before.fault is None {
            match updates.last() {
                SourceChainUpdate::ConnectedBlock { block } => {
                    if walked.fault is None && block.height.0 <= to_height.0 {
                        assert(walked.blocks.drop_last() =~= before.blocks);
                        assert(walked.blocks.last() == block);
                    }
                },
                _ => {},
            }
        }
    }
}

/// A segment that is to be fetched.
#[derive(Debug)]
pub struct SourceFetchRequest {
    pub start_height: BlockHeight,
    pub max_connected_blocks: NonZeroU32,
    pub reserved_response_bytes: u64,
    pub reservation: ByteReservation,
}

/// A fetched segment that waits for its turn.
#[derive(Debug)]
pub struct PrefetchedSourceSegment {
    pub start_height: BlockHeight,
    pub max_connected_blocks: NonZeroU32,
    pub segment: SourceChainSegment,
    pub queued_response_bytes: u64,
}

/// Bytes a fetched segment counts with while it waits.
pub open spec fn queued_bytes(segment: SourceChainSegment, reserved_response_bytes: u64) -> u64 {
    if segment.stats.response_payload_bytes == 0 && segment.updates@.len() > 0 {
        reserved_response_bytes
    } else {
        segment.stats.response_payload_bytes
    }
}

/// Returns the bytes a fetched segment counts with while it waits: those
/// measured, or those reserved where nothing was measured.
pub fn queued_source_segment_bytes(
    segment: &SourceChainSegment,
    reserved_response_bytes: u64,
) -> (bytes: u64)
    ensures
        bytes == queued_bytes(*segment, reserved_response_bytes),
{
    if segment.stats.response_payload_bytes == 0 && segment.updates.len() > 0 {
        reserved_response_bytes
    } else {
        segment.stats.response_payload_bytes
    }
}

/// Returns whether reserved, waiting and requested bytes together fit within a limit.
fn fits_within(reserved: u64, waiting: u64, next: u64, limit: u64) -> (fits: bool)
    ensures
        fits == (reserved + waiting + next <= limit),
{
    match reserved.checked_add(waiting) {
        Some(held) => match held.checked_add(next) {
            Some(held) => held <= limit,
            None => false,
        },
        None => false,
    }
}

/// What is to happen next for source blocks to flow.
#[derive(Debug)]
pub enum SourceFetchStep {
    /// A segment is to be fetched, concurrently with those already in flight.
    Start(SourceFetchRequest),
    /// The next block of the chain.
    Emit(SourceBlock),
    /// The chain cannot be followed.
    Fail(IngestError),
    /// One of the fetches in flight is to be awaited.
    AwaitFetch,
    /// No block is left.
    Finished,
}

/// Fetches in flight, segments that wait for their turn, and blocks ready to leave.
#[derive(Debug)]
pub struct SourceBlockStreamState {
    pub from_height: BlockHeight,
    pub to_height: BlockHeight,
    pub max_response_bytes: NonZeroU64,
    pub target_response_payload_bytes: NonZeroU64,
    pub source_fetch_max_in_flight_requests: NonZeroU32,
    pub source_fetch_watermark: ByteWatermark,
    pub completed_segment_bytes: u64,
    pub next_fetch_height: Option<BlockHeight>,
    pub next_emit_height: Option<BlockHeight>,
    pub in_flight_segments: usize,
    pub completed_segments: BTreeMap<u32, PrefetchedSourceSegment>,
    pub pending_blocks: VecDeque<SourceBlock>,
    pub last_connected_block_id: Option<BlockId>,
}

impl SourceBlockStreamState {
    /// Whether the request the state serves is that of another state.
    pub open spec fn serves_request_of(self, other: Self) -> bool {
        &&& self.from_height == other.from_height
        &&& self.to_height == other.to_height
        &&& self.max_response_bytes == other.max_response_bytes
        &&& self.target_response_payload_bytes == other.target_response_payload_bytes
        &&& self.source_fetch_max_in_flight_requests == other.source_fetch_max_in_flight_requests
        &&& self.source_fetch_watermark.limit_bytes == other.source_fetch_watermark.limit_bytes
    }

    /// Whether nothing but the fetches in flight differs from another state.
    pub open spec fn holds_segments_of(self, other: Self) -> bool {
        &&& self.completed_segment_bytes == other.completed_segment_bytes
        &&& self.next_emit_height == other.next_emit_height
        &&& self.completed_segments@ == other.completed_segments@
        &&& self.pending_blocks@ == other.pending_blocks@
        &&& self.last_connected_block_id == other.last_connected_block_id
    }

    /// Whether the fetches in flight are those of another state.
    pub open spec fn fetches_as(self, other: Self) -> bool {
        &&& self.source_fetch_watermark@ == other.source_fetch_watermark@
        &&& self.next_fetch_height == other.next_fetch_height
        &&& self.in_flight_segments == other.in_flight_segments
    }

    /// Bytes reserved for each fetch: as many as a response can have.
    pub open spec fn bytes_per_fetch(self) -> u64 {
        self.max_response_bytes@ as u64
    }

    /// Whether the byte limit leaves room for one more fetch. What was fetched
    /// already and waits for its turn counts too; a fetch that would be the
    /// only one in flight always has room.
    pub open spec fn has_room_for_fetch(self) -> bool {
        let held = self.source_fetch_watermark@;
        &&& held.grants(self.bytes_per_fetch())
        &&& held.reservations == 0 || held.reserved_bytes + self.completed_segment_bytes
            + requested(self.bytes_per_fetch()) <= held.limit_bytes
    }

    /// Starts without fetches.
    pub fn new(
        from_height: BlockHeight,
        to_height: BlockHeight,
        max_response_bytes: NonZeroU64,
        target_response_payload_bytes: NonZeroU64,
        source_fetch_max_in_flight_requests: NonZeroU32,
        source_fetch_max_in_flight_bytes: NonZeroU64,
    ) -> (state: Self)
        ensures
            state.from_height == from_height,
            state.to_height == to_height,
            state.max_response_bytes == max_response_bytes,
            state.target_response_payload_bytes == target_response_payload_bytes,
            state.source_fetch_max_in_flight_requests == source_fetch_max_in_flight_requests,
            state.source_fetch_watermark.limit_bytes == source_fetch_max_in_flight_bytes,
            state.source_fetch_watermark@.reserved_bytes == 0,
            state.source_fetch_watermark@.reservations == 0,
            state.completed_segment_bytes == 0,
            state.next_fetch_height == Some(from_height),
            state.next_emit_height == Some(from_height),
            state.in_flight_segments == 0,
            state.completed_segments@ == Map::<u32, PrefetchedSourceSegment>::empty(),
            state.pending_blocks@.len() == 0,
            state.last_connected_block_id is None,
    {
        SourceBlockStreamState {
            from_height,
            to_height,
            max_response_bytes,
            target_response_payload_bytes,
            source_fetch_max_in_flight_requests,
            source_fetch_watermark: ByteWatermark::new(source_fetch_max_in_flight_bytes),
            completed_segment_bytes: 0,
            next_fetch_height: Some(from_height),
            next_emit_height: Some(from_height),
            in_flight_segments: 0,
            completed_segments: BTreeMap::new(),
            pending_blocks: VecDeque::new(),
            last_connected_block_id: None,
        }
    }

    /// Makes the first block continue the chain after a known block.
    pub fn continue_from(&mut self, predecessor: BlockId)
        ensures
            final(self).serves_request_of(*old(self)),
            final(self).fetches_as(*old(self)),
            final(self).completed_segment_bytes == old(self).completed_segment_bytes,
            final(self).next_emit_height == old(self).next_emit_height,
            final(self).completed_segments@ == old(self).completed_segments@,
            final(self).pending_blocks@ == old(self).pending_blocks@,
            final(self).last_connected_block_id == Some(predecessor),
    {
        self.last_connected_block_id = Some(predecessor);
    }

    /// Whether `after` is what planning one more fetch makes of `self`.
    pub open spec fn plans(
        self,
        after: Self,
        sizer: SourceSegmentSizer,
        sizer_after: SourceSegmentSizer,
        request: Option<SourceFetchRequest>,
    ) -> bool {
        &&& after.serves_request_of(self)
        &&& after.holds_segments_of(self)
        &&& sizer_after@.well_formed()
        &&& sizer_after.activations == sizer.activations
        &&& if self.in_flight_segments >= self.source_fetch_max_in_flight_requests@
            || self.next_fetch_height is None {
            &&& request is None
            &&& after.fetches_as(self)
            &&& sizer_after@ == sizer@
        } else {
            let height = self.next_fetch_height->0;
            if height.0 > self.to_height.0 {
                &&& request is None
                &&& after.next_fetch_height is None
                &&& after.source_fetch_watermark@ == self.source_fetch_watermark@
                &&& after.in_flight_segments == self.in_flight_segments
                &&& sizer_after@ == sizer@
            } else {
                let blocks = capped(
                    capped(self.to_height.0 - height.0 + 1, u32::MAX as int),
                    sizer_after@.current_blocks,
                );
                &&& sizer_after@ == sizer@.under_branch(
                    super::segment_sizer::branch_at(sizer.activations.activations@, height),
                )
                &&& match request {
                    Some(request) => {
                        &&& self.has_room_for_fetch()
                        &&& request.start_height == height
                        &&& request.max_connected_blocks@ == blocks
                        &&& request.reserved_response_bytes == self.bytes_per_fetch()
                        &&& request.reservation.bytes == requested(self.bytes_per_fetch())
                        &&& !request.reservation.is_released
                        &&& after.source_fetch_watermark@ == self.source_fetch_watermark@.reserved(
                            self.bytes_per_fetch(),
                        )
                        &&& after.in_flight_segments == self.in_flight_segments + 1
                        &&& after.next_fetch_height == height_after_within(
                            height,
                            blocks,
                            self.to_height,
                        )
                    },
                    None => {
                        &&& !self.has_room_for_fetch()
                        &&& after.fetches_as(self)
                    },
                }
            }
        }
    }

    /// Plans the next fetch, where the limits on fetches in flight allow one.
    fn plan_next_fetch(&mut self, sizer: &mut SourceSegmentSizer) -> (request: Option<
        SourceFetchRequest,
    >)
        requires
            old(sizer)@.well_formed(),
        ensures
            old(self).plans(*final(self), *old(sizer), *final(sizer), request),
    {
        if self.in_flight_segments >= nonzero_u32_to_usize(
            self.source_fetch_max_in_flight_requests,
        ) {
            return None;
        }
        let next_height = match self.next_fetch_height {
            Some(next_height) => next_height,
            None => {
                return None;
            },
        };
        let source_segment_max_blocks = match sizer.blocks_for_remaining_range(
            next_height,
            self.to_height,
        ) {
            Some(source_segment_max_blocks) => source_segment_max_blocks,
            None => {
                self.next_fetch_height = None;
                return None;
            },
        };
        let reserved_response_bytes: u64 = self.max_response_bytes.get();
        let held = self.source_fetch_watermark.snapshot();
        if held.reservations > 0 && !fits_within(
            held.reserved_bytes,
            self.completed_segment_bytes,
            reserved_response_bytes,
            held.limit_bytes,
        ) {
            return None;
        }
        let reservation = match self.source_fetch_watermark.try_reserve(reserved_response_bytes) {
            Some(reservation) => reservation,
            None => {
                return None;
            },
        };
        self.in_flight_segments = self.in_flight_segments + 1;
        self.next_fetch_height =
        next_height_within(next_height, source_segment_max_blocks, self.to_height);
        Some(
            SourceFetchRequest {
                start_height: next_height,
                max_connected_blocks: source_segment_max_blocks,
                reserved_response_bytes,
                reservation,
            },
        )
    }

    /// Segment whose blocks leave next, if it was fetched already.
    pub open spec fn segment_in_turn(self) -> Option<PrefetchedSourceSegment> {
        match self.next_emit_height {
            Some(height) => if self.completed_segments@.contains_key(height.0) {
                Some(self.completed_segments@[height.0])
            } else {
                None
            },
            None => None,
        }
    }

    /// Takes the segment whose blocks leave next, if it was fetched already.
    pub fn pop_next_completed_source_segment(&mut self) -> (popped: Option<
        PrefetchedSourceSegment,
    >)
        ensures
            popped == old(self).segment_in_turn(),
            final(self).serves_request_of(*old(self)),
            final(self).fetches_as(*old(self)),
            final(self).pending_blocks@ == old(self).pending_blocks@,
            final(self).last_connected_block_id == old(self).last_connected_block_id,
            match popped {
                Some(segment) => {
                    let height = old(self).next_emit_height->0;
                    &&& final(self).completed_segments@ == old(self).completed_segments@.remove(
                        height.0,
                    )
                    &&& final(self).completed_segment_bytes == floored_difference(
                        old(self).completed_segment_bytes as int,
                        segment.queued_response_bytes as int,
                    )
                    &&& final(self).next_emit_height == height_after_within(
                        height,
                        segment.max_connected_blocks@ as int,
                        old(self).to_height,
                    )
                },
                None => final(self).holds_segments_of(*old(self)),
            },
    {
        let next_emit_height = match self.next_emit_height {
            Some(next_emit_height) => next_emit_height,
            None => {
                return None;
            },
        };
        let ghost before = self.completed_segments@;
        match self.completed_segments.remove(&next_emit_height.value()) {
            None => {
                assert(self.completed_segments@ =~= before);
                None
            },
            Some(prefetched_segment) => {
                self.completed_segment_bytes =
                self.completed_segment_bytes.saturating_sub(
                    prefetched_segment.queued_response_bytes,
                );
                self.next_emit_height =
                next_height_within(
                    next_emit_height,
                    prefetched_segment.max_connected_blocks,
                    self.to_height,
                );
                Some(prefetched_segment)
            },
        }
    }

    /// Whether a segment that starts at a height belongs to the requested range.
    pub open spec fn was_requested(self, start_height: BlockHeight) -> bool {
        self.from_height.0 <= start_height.0 <= self.to_height.0
    }

    /// Keeps a fetched segment until its turn comes.
    pub fn insert_completed_source_segment(
        &mut self,
        prefetched_segment: PrefetchedSourceSegment,
    ) -> (inserted: Result<(), IngestError>)
        ensures
            final(self).serves_request_of(*old(self)),
            final(self).fetches_as(*old(self)),
            final(self).pending_blocks@ == old(self).pending_blocks@,
            final(self).last_connected_block_id == old(self).last_connected_block_id,
            final(self).next_emit_height == old(self).next_emit_height,
            match inserted {
                Ok(_) => {
                    &&& old(self).was_requested(prefetched_segment.start_height)
                    &&& !old(self).completed_segments@.contains_key(
                        prefetched_segment.start_height.0,
                    )
                    &&& final(self).completed_segments@ == old(self).completed_segments@.insert(
                        prefetched_segment.start_height.0,
                        prefetched_segment,
                    )
                    &&& final(self).completed_segment_bytes == capped(
                        old(self).completed_segment_bytes
                            + prefetched_segment.queued_response_bytes,
                        u64::MAX as int,
                    )
                },
                Err(error) => if old(self).was_requested(prefetched_segment.start_height) {
                    &&& old(self).completed_segments@.contains_key(
                        prefetched_segment.start_height.0,
                    )
                    &&& is_mismatch(
                        error,
                        "source chain segment completed twice during bulk catchup"@,
                    )
                    &&& final(self).completed_segments@ == old(self).completed_segments@.insert(
                        prefetched_segment.start_height.0,
                        prefetched_segment,
                    )
                    &&& final(self).completed_segment_bytes == old(self).completed_segment_bytes
                } else {
                    &&& is_mismatch(
                        error,
                        "source chain segment completed outside the requested bulk-catchup range"@,
                    )
                    &&& final(self).holds_segments_of(*old(self))
                },
            },
    {
        let start_height: u32 = prefetched_segment.start_height.value();
        if start_height < self.from_height.value() || start_height > self.to_height.value() {
            return Err(
                mismatch(
                    "source chain segment completed outside the requested bulk-catchup range",
                ),
            );
        }
        let queued_response_bytes: u64 = prefetched_segment.queued_response_bytes;
        match self.completed_segments.insert(start_height, prefetched_segment) {
            Some(_) => {
                return Err(mismatch("source chain segment completed twice during bulk catchup"));
            },
            None => {},
        }
        self.completed_segment_bytes =
        self.completed_segment_bytes.saturating_add(queued_response_bytes);
        Ok(())
    }

    /// Ends one fetch in flight: its bytes are given back, and what it fetched
    /// waits for its turn.
    pub fn complete_fetch(
        &mut self,
        request: SourceFetchRequest,
        fetched: Result<SourceChainSegment, IngestError>,
    ) -> (completed: Result<(), IngestError>)
        requires
            !request.reservation.is_released,
            old(self).in_flight_segments > 0,
        ensures
            final(self).serves_request_of(*old(self)),
            final(self).in_flight_segments == old(self).in_flight_segments - 1,
            final(self).next_fetch_height == old(self).next_fetch_height,
            final(self).source_fetch_watermark@ == old(self).source_fetch_watermark@.released(
                request.reservation.bytes,
            ),
            final(self).pending_blocks@ == old(self).pending_blocks@,
            final(self).last_connected_block_id == old(self).last_connected_block_id,
            final(self).next_emit_height == old(self).next_emit_height,
            match fetched {
                Ok(segment) => {
                    let waiting = PrefetchedSourceSegment {
                        start_height: request.start_height,
                        max_connected_blocks: request.max_connected_blocks,
                        segment,
                        queued_response_bytes: queued_bytes(
                            segment,
                            request.reserved_response_bytes,
                        ),
                    };
                    match completed {
                        Ok(_) => {
                            &&& old(self).was_requested(request.start_height)
                            &&& !old(self).completed_segments@.contains_key(
                                request.start_height.0,
                            )
                            &&& final(self).completed_segments@ == old(
                                self,
                            ).completed_segments@.insert(request.start_height.0, waiting)
                            &&& final(self).completed_segment_bytes == capped(
                                old(self).completed_segment_bytes + waiting.queued_response_bytes,
                                u64::MAX as int,
                            )
                        },
                        Err(error) => if old(self).was_requested(request.start_height) {
                            &&& old(self).completed_segments@.contains_key(request.start_height.0)
                            &&& is_mismatch(
                                error,
                                "source chain segment completed twice during bulk catchup"@,
                            )
                            &&& final(self).completed_segments@ == old(
                                self,
                            ).completed_segments@.insert(request.start_height.0, waiting)
                            &&& final(self).completed_segment_bytes == old(
                                self,
                            ).completed_segment_bytes
                        } else {
                            &&& is_mismatch(
                                error,
                                "source chain segment completed outside the requested bulk-catchup range"@,
                            )
                            &&& final(self).holds_segments_of(*old(self))
                        },
                    }
                },
                Err(error) => {
                    &&& completed == Err::<(), IngestError>(error)
                    &&& final(self).holds_segments_of(*old(self))
                },
            },
    {
        let SourceFetchRequest {
            start_height,
            max_connected_blocks,
            reserved_response_bytes,
            reservation,
        } = request;
        let mut reservation = reservation;
        self.in_flight_segments = self.in_flight_segments - 1;
        self.source_fetch_watermark.release(&mut reservation);
        let segment = match fetched {
            Ok(segment) => segment,
            Err(error) => {
                return Err(error);
            },
        };
        let queued_response_bytes: u64 = queued_source_segment_bytes(
            &segment,
            reserved_response_bytes,
        );
        self.insert_completed_source_segment(
            PrefetchedSourceSegment {
                start_height,
                max_connected_blocks,
                segment,
                queued_response_bytes,
            },
        )
    }

    /// Appends the blocks of a segment to those ready to leave.
    ///
    /// Blocks before the first one that does not continue the chain stay appended.
    pub fn enqueue_source_segment_max_blocks(
        &mut self,
        segment: SourceChainSegment,
    ) -> (enqueued: Result<(), IngestError>)
        ensures
            final(self).serves_request_of(*old(self)),
            final(self).fetches_as(*old(self)),
            final(self).completed_segment_bytes == old(self).completed_segment_bytes,
            final(self).next_emit_height == old(self).next_emit_height,
            final(self).completed_segments@ == old(self).completed_segments@,
            ({
                let walked = walk(
                    segment.updates@,
                    old(self).to_height,
                    old(self).last_connected_block_id,
                );
                &&& final(self).pending_blocks@ == old(self).pending_blocks@ + walked.blocks
                &&& final(self).last_connected_block_id == walked.last
            }),
            ({
                let fault = segment_fault(
                    segment.updates@,
                    old(self).to_height,
                    old(self).last_connected_block_id,
                );
                match enqueued {
                    Ok(_) => fault is None,
                    Err(error) => fault is Some && reports_segment_fault(error, fault->0),
                }
            }),
    {
        let ghost updates = segment.updates@;
        let ghost previous = self.last_connected_block_id;
        let ghost before = *self;
        let update_count: usize = segment.updates.len();
        let mut connected_blocks: usize = 0;
        assert(updates.take(0) =~= Seq::empty());
        assert(self.pending_blocks@ =~= before.pending_blocks@ + walk(
            updates.take(0),
            before.to_height,
            previous,
        ).blocks);
        for update in it: segment.updates
            invariant
                it.seq() == updates,
                update_count == updates.len(),
                before == *old(self),
                updates == segment.updates@,
                previous == before.last_connected_block_id,
                connected_blocks <= it.index(),
                self.serves_request_of(before),
                self.fetches_as(before),
                self.completed_segment_bytes == before.completed_segment_bytes,
                self.next_emit_height == before.next_emit_height,
                self.completed_segments@ == before.completed_segments@,
                ({
                    let walked = walk(updates.take(it.index() as int), before.to_height, previous);
                    &&& walked.fault is None
                    &&& walked.blocks.len() == connected_blocks
                    &&& self.pending_blocks@ == before.pending_blocks@ + walked.blocks
                    &&& self.last_connected_block_id == walked.last
                }),
        {
            let ghost k = it.index() as int;
            let ghost walked = walk(updates.take(k), before.to_height, previous);
            proof {
                assert(updates.take(k + 1).drop_last() =~= updates.take(k));
                assert(updates.take(k + 1).last() == update);
                if walk(updates.take(k + 1), before.to_height, previous).fault is Some {
                    lemma_walk_fault_persists(updates, before.to_height, previous, k + 1);
                }
            }
            match update {
                SourceChainUpdate::ConnectedBlock { block } => {
                    match validate_prefetched_block_link(self.last_connected_block_id, &block) {
                        Ok(_) => {},
                        Err(error) => {
                            return Err(error);
                        },
                    }
                    self.last_connected_block_id = Some(BlockId::new(block.height, block.hash));
                    if block.height.value() <= self.to_height.value() {
                        connected_blocks = connected_blocks + 1;
                        let ghost taken = block;
                        self.pending_blocks.push_back(block);
                        assert(self.pending_blocks@ =~= before.pending_blocks@
                            + walked.blocks.push(taken));
                    }
                },
                SourceChainUpdate::RevertedBlock { block_id } => {
                    return Err(
                        IngestError::Source(
                            SourceError::BlockReorgDuringFetch {
                                height: block_id.height,
                                cause: "source chain segment reverted during bulk catchup",
                            },
                        ),
                    );
                },
                SourceChainUpdate::FinalizedTip { .. } => {},
            }
        }
        assert(updates.take(updates.len() as int) =~= updates);
        if connected_blocks == 0 {
            return Err(
                mismatch(
                    "source chain segment did not contain connected blocks during bulk catchup",
                ),
            );
        }
        Ok(())
    }

    /// Whether `after` is what asking for the next block makes of `self`, once
    /// no more fetches can start.
    pub open spec fn yields(
        self,
        after: Self,
        sizer: SourceSegmentSizer,
        sizer_after: SourceSegmentSizer,
        step: SourceFetchStep,
    ) -> bool {
        &&& after.serves_request_of(self)
        &&& after.fetches_as(self)
        &&& sizer_after@.well_formed()
        &&& sizer_after.activations == sizer.activations
        &&& if self.pending_blocks@.len() > 0 {
            &&& step == SourceFetchStep::Emit(self.pending_blocks@[0])
            &&& after.pending_blocks@ == self.pending_blocks@.drop_first()
            &&& after.completed_segment_bytes == self.completed_segment_bytes
            &&& after.next_emit_height == self.next_emit_height
            &&& after.completed_segments@ == self.completed_segments@
            &&& after.last_connected_block_id == self.last_connected_block_id
            &&& sizer_after@ == sizer@
        } else {
            match self.segment_in_turn() {
                None => {
                    &&& step == if self.in_flight_segments == 0 {
                        SourceFetchStep::Finished
                    } else {
                        SourceFetchStep::AwaitFetch
                    }
                    &&& after.holds_segments_of(self)
                    &&& sizer_after@ == sizer@
                },
                Some(turn) => {
                    let height = self.next_emit_height->0;
                    let updates = turn.segment.updates@;
                    let walked = walk(updates, self.to_height, self.last_connected_block_id);
                    let fault = segment_fault(
                        updates,
                        self.to_height,
                        self.last_connected_block_id,
                    );
                    &&& after.completed_segments@ == self.completed_segments@.remove(height.0)
                    &&& after.completed_segment_bytes == floored_difference(
                        self.completed_segment_bytes as int,
                        turn.queued_response_bytes as int,
                    )
                    &&& after.next_emit_height == height_after_within(
                        height,
                        turn.max_connected_blocks@ as int,
                        self.to_height,
                    )
                    &&& if updates.len() == 0 {
                        &&& step == SourceFetchStep::Finished
                        &&& after.pending_blocks@.len() == 0
                        &&& after.last_connected_block_id == self.last_connected_block_id
                        &&& sizer_after@ == sizer@
                    } else {
                        &&& sizer_after@ == sizer@.recorded(turn.segment.stats)
                        &&& after.last_connected_block_id == walked.last
                        &&& match step {
                            SourceFetchStep::Emit(block) => {
                                &&& fault is None
                                &&& block == walked.blocks[0]
                                &&& after.pending_blocks@ == walked.blocks.drop_first()
                            },
                            SourceFetchStep::Fail(error) => {
                                &&& fault is Some
                                &&& reports_segment_fault(error, fault->0)
                                &&& after.pending_blocks@ == walked.blocks
                            },
                            _ => false,
                        }
                    }
                },
            }
        }
    }

    fn next_source_block(&mut self, sizer: &mut SourceSegmentSizer) -> (step: SourceFetchStep)
        requires
            old(sizer)@.well_formed(),
        ensures
            old(self).yields(*final(self), *old(sizer), *final(sizer), step),
    {
        let ghost pending = self.pending_blocks@;
        if let Some(block) = self.pending_blocks.pop_front() {
            assert(self.pending_blocks@ =~= pending.drop_first());
            return SourceFetchStep::Emit(block);
        }
        let ghost before = *self;
        let prefetched_segment = match self.pop_next_completed_source_segment() {
            Some(prefetched_segment) => prefetched_segment,
            None => {
                return if self.in_flight_segments == 0 {
                    SourceFetchStep::Finished
                } else {
                    SourceFetchStep::AwaitFetch
                };
            },
        };
        let segment = prefetched_segment.segment;
        if segment.updates.len() == 0 {
            return SourceFetchStep::Finished;
        }
        let ghost updates = segment.updates@;
        sizer.record_segment(segment.stats);
        match self.enqueue_source_segment_max_blocks(segment) {
            Ok(_) => {},
            Err(error) => {
                assert(self.pending_blocks@ =~= walk(
                    updates,
                    before.to_height,
                    before.last_connected_block_id,
                ).blocks);
                return SourceFetchStep::Fail(error);
            },
        }
        let ghost walked = walk(updates, before.to_height, before.last_connected_block_id);
        assert(self.pending_blocks@ =~= walked.blocks);
        match self.pending_blocks.pop_front() {
            Some(block) => {
                assert(self.pending_blocks@ =~= walked.blocks.drop_first());
                SourceFetchStep::Emit(block)
            },
            None => SourceFetchStep::AwaitFetch,
        }
    }

    /// Decides what is to happen next: ready blocks leave first, then fetches
    /// start as far as the limits allow, then the segment in turn is opened.
    pub fn advance(&mut self, sizer: &mut SourceSegmentSizer) -> (step: SourceFetchStep)
        requires
            old(sizer)@.well_formed(),
        ensures
            final(sizer)@.well_formed(),
            if old(self).pending_blocks@.len() > 0 {
                old(self).yields(*final(self), *old(sizer), *final(sizer), step)
            } else {
                exists|
                    planned: SourceBlockStreamState,
                    sizer_planned: SourceSegmentSizer,
                    request: Option<SourceFetchRequest>,
                | #[trigger]
                    old(self).plans(planned, *old(sizer), sizer_planned, request) && match request {
                        Some(request) => {
                            &&& step == SourceFetchStep::Start(request)
                            &&& *final(self) == planned
                            &&& *final(sizer) == sizer_planned
                        },
                        None => planned.yields(*final(self), sizer_planned, *final(sizer), step),
                    }
            },
    {
        if self.pending_blocks.len() > 0 {
            return self.next_source_block(sizer);
        }
        let ghost before = *self;
        let ghost sizer_before = *sizer;
        let planned_request = self.plan_next_fetch(sizer);
        let ghost planned = *self;
        let ghost sizer_planned = *sizer;
        assert(before.plans(planned, sizer_before, sizer_planned, planned_request));
        match planned_request {
            Some(request) => SourceFetchStep::Start(request),
            None => self.next_source_block(sizer),
        }
    }
}

/// A fetch that starts beside others leaves everything fetched or being
/// fetched, and not yet in turn, within the byte limit.
pub proof fn law_fetches_stay_within_the_byte_limit(
    state: SourceBlockStreamState,
    after: SourceBlockStreamState,
    sizer: SourceSegmentSizer,
    sizer_after: SourceSegmentSizer,
    request: SourceFetchRequest,
)
    requires
        state.plans(after, sizer, sizer_after, Some(request)),
        state.source_fetch_watermark@.reservations > 0,
    ensures
        after.source_fetch_watermark@.reserved_bytes + after.completed_segment_bytes
            <= after.source_fetch_watermark@.limit_bytes,
{
}

/// Blocks that leave one after the other continue the chain: once some blocks
/// are ready and chained after the last one that left, taking the next segment
/// in turn keeps all of them chained.
pub proof fn law_opened_segment_continues_the_chain(
    state: SourceBlockStreamState,
    after: SourceBlockStreamState,
    sizer: SourceSegmentSizer,
    sizer_after: SourceSegmentSizer,
    block: SourceBlock,
)
    requires
        state.pending_blocks@.len() == 0,
        state.yields(after, sizer, sizer_after, SourceFetchStep::Emit(block)),
    ensures
        chained(state.last_connected_block_id, seq![block] + after.pending_blocks@),
{
    let turn = state.segment_in_turn()->0;
    let walked = walk(turn.segment.updates@, state.to_height, state.last_connected_block_id);
    law_walked_blocks_are_chained(
        turn.segment.updates@,
        state.to_height,
        state.last_connected_block_id,
    );
    assert(seq![block] + after.pending_blocks@ =~= walked.blocks);
}

/// A mismatch and a reorg are reported with their cause, the reorg with its
/// height too.
pub proof fn law_source_faults_tell_their_cause(
    error: IngestError,
    at: BlockHeight,
    cause: Seq<char>,
)
    ensures
        is_mismatch(error, cause) <==> (error matches IngestError::Source(source)
            && source matches SourceError::SourceProtocolMismatch { cause: told } && told@
            == cause),
        is_reorg(error, at, cause) <==> (error matches IngestError::Source(source)
            && source matches SourceError::BlockReorgDuringFetch { height, cause: told } && height
            == at && told@ == cause),
{
}

/// The height after a run of blocks is that many above the start; there is none
/// beyond the highest height, and none beyond the end of the range.
pub proof fn law_next_start_is_right_behind_the_segment(
    start_height: BlockHeight,
    blocks: int,
    to_height: BlockHeight,
)
    requires
        blocks >= 0,
    ensures
        match height_after(start_height, blocks) {
            Some(height) => height.0 == start_height.0 + blocks,
            None => start_height.0 + blocks > 0xffff_ffff,
        },
        match height_after_within(start_height, blocks, to_height) {
            Some(height) => height.0 == start_height.0 + blocks && height.0 <= to_height.0,
            None => start_height.0 + blocks > to_height.0,
        },
{
}

/// A block continues the chain exactly where nothing stands before it, or it
/// stands right above the block before and names it as its parent. A skipped
/// height is told before a foreign parent.
pub proof fn law_block_continues_its_parent(previous: Option<BlockId>, block: SourceBlock)
    ensures
        link_fault(previous, block) is None <==> (previous matches Some(last) ==> block.height.0
            == last.height.0 + 1 && block.parent_hash == last.hash),
        previous matches Some(last) ==> {
            &&& last.height.0 == 0xffff_ffff ==> link_fault(previous, block) == Some(
                LinkFault::PastLastHeight,
            )
            &&& last.height.0 < 0xffff_ffff && block.height.0 != last.height.0 + 1 ==> link_fault(
                previous,
                block,
            ) == Some(LinkFault::SkippedHeight)
            &&& block.height.0 == last.height.0 + 1 && block.parent_hash != last.hash
                ==> link_fault(previous, block) == Some(
                LinkFault::OtherParent { height: block.height },
            )
        },
{
}

/// A break of the chain is reported as what it is: only a foreign parent is a
/// reorg, at the height of the block.
pub proof fn law_link_fault_is_reported_as_it_is(error: IngestError, height: BlockHeight)
    ensures
        reports_link_fault(error, LinkFault::PastLastHeight) <==> is_mismatch(
            error,
            "source chain segment continued after maximum block height"@,
        ),
        reports_link_fault(error, LinkFault::SkippedHeight) <==> is_mismatch(
            error,
            "source chain segment skipped a height during bulk catchup"@,
        ),
        reports_link_fault(error, LinkFault::OtherParent { height }) <==> is_reorg(
            error,
            height,
            "prefetched source chain segment did not connect to the previous segment"@,
        ),
        reports_segment_fault(error, SegmentFault::Reverted { height }) <==> is_reorg(
            error,
            height,
            "source chain segment reverted during bulk catchup"@,
        ),
        reports_segment_fault(error, SegmentFault::NoConnectedBlocks) <==> is_mismatch(
            error,
            "source chain segment did not contain connected blocks during bulk catchup"@,
        ),
{
}

/// One more update moves a walk on: a connected block that continues the chain
/// becomes the last one and is kept where it was asked for; one that does not,
/// or a reverted block, ends the walk; a finalized tip changes nothing, and
/// nothing follows a fault.
pub proof fn law_walk_takes_each_update_in_turn(
    updates: Seq<SourceChainUpdate>,
    next: SourceChainUpdate,
    to_height: BlockHeight,
    previous: Option<BlockId>,
)
    ensures
        walk(Seq::empty(), to_height, previous).last == previous,
        walk(Seq::empty(), to_height, previous).blocks.len() == 0,
        walk(Seq::empty(), to_height, previous).fault is None,
        ({
            let before = walk(updates, to_height, previous);
            let after = walk(updates.push(next), to_height, previous);
            if before.fault is Some {
                after == before
            } else {
                match next {
                    SourceChainUpdate::ConnectedBlock { block } => {
                        let continues = before.last matches Some(last) ==> block.height.0
                            == last.height.0 + 1 && block.parent_hash == last.hash;
                        if continues {
                            &&& after.fault is None
                            &&& after.last matches Some(last)
                            &&& last.height == block.height
                            &&& last.hash == block.hash
                            &&& block.height.0 <= to_height.0 ==> after.blocks
                                == before.blocks.push(block)
                            &&& block.height.0 > to_height.0 ==> after.blocks == before.blocks
                        } else {
                            &&& after.fault is Some
                            &&& after.fault->0 is Link
                            &&& after.blocks == before.blocks
                            &&& after.last == before.last
                        }
                    },
                    SourceChainUpdate::RevertedBlock { block_id } => {
                        &&& after.fault == Some(SegmentFault::Reverted { height: block_id.height })
                        &&& after.blocks == before.blocks
                        &&& after.last == before.last
                    },
                    SourceChainUpdate::FinalizedTip { .. } => after == before,
                }
            }
        }),
{
    assert(updates.push(next).drop_last() =~= updates);
}

/// A segment is accepted exactly where its walk meets no fault and keeps a
/// block; a fault of the walk is told before an empty one.
pub proof fn law_segment_needs_a_block(
    updates: Seq<SourceChainUpdate>,
    to_height: BlockHeight,
    previous: Option<BlockId>,
)
    ensures
        ({
            let walked = walk(updates, to_height, previous);
            let fault = segment_fault(updates, to_height, previous);
            &&& fault is None <==> walked.fault is None && walked.blocks.len() > 0
            &&& walked.fault is Some ==> fault == walked.fault
            &&& walked.fault is None && walked.blocks.len() == 0 ==> fault == Some(
                SegmentFault::NoConnectedBlocks,
            )
        }),
{
}

/// In a chain every block stands right above the one before and names it as its
/// parent.
pub proof fn law_chained_blocks_name_their_parent(
    previous: Option<BlockId>,
    blocks: Seq<SourceBlock>,
)
    requires
        chained(previous, blocks),
    ensures
        forall|i: int|
            #![trigger blocks[i]]
            1 <= i < blocks.len() ==> {
                &&& blocks[i].height.0 == blocks[i - 1].height.0 + 1
                &&& blocks[i].parent_hash == blocks[i - 1].hash
            },
        blocks.len() > 0 ==> (previous matches Some(last) ==> blocks[0].height.0 == last.height.0
            + 1 && blocks[0].parent_hash == last.hash),
    decreases blocks.len(),
{
    if blocks.len() > 0 {
        let rest = blocks.drop_last();
        law_chained_blocks_name_their_parent(previous, rest);
        assert forall|i: int|
            #![trigger blocks[i]]
            1 <= i < blocks.len() implies {
            &&& blocks[i].height.0 == blocks[i - 1].height.0 + 1
            &&& blocks[i].parent_hash == blocks[i - 1].hash
        } by {
            if i < rest.len() {
                assert(rest[i] == blocks[i]);
                assert(rest[i - 1] == blocks[i - 1]);
            } else {
                assert(rest.last() == blocks[i - 1]);
                assert(blocks.last() == blocks[i]);
            }
        }
        if rest.len() > 0 {
            assert(rest[0] == blocks[0]);
        }
    }
}

/// A waiting segment counts the bytes of its response, and the reserved bytes
/// where a response with updates was not measured.
pub proof fn law_waiting_segment_counts_its_response(
    segment: SourceChainSegment,
    reserved_response_bytes: u64,
)
    ensures
        segment.stats.response_payload_bytes > 0 ==> queued_bytes(
            segment,
            reserved_response_bytes,
        ) == segment.stats.response_payload_bytes,
        segment.stats.response_payload_bytes == 0 && segment.updates@.len() > 0 ==> queued_bytes(
            segment,
            reserved_response_bytes,
        ) == reserved_response_bytes,
        segment.stats.response_payload_bytes == 0 && segment.updates@.len() == 0 ==> queued_bytes(
            segment,
            reserved_response_bytes,
        ) == 0,
{
}

/// A stream keeps its request, its segments or its fetches exactly where every
/// part of them stays as it was.
pub proof fn law_stream_keeps_its_parts(
    after: SourceBlockStreamState,
    before: SourceBlockStreamState,
)
    ensures
        after.serves_request_of(before) <==> {
            &&& after.from_height == before.from_height
            &&& after.to_height == before.to_height
            &&& after.max_response_bytes == before.max_response_bytes
            &&& after.target_response_payload_bytes == before.target_response_payload_bytes
            &&& after.source_fetch_max_in_flight_requests
                == before.source_fetch_max_in_flight_requests
            &&& after.source_fetch_watermark.limit_bytes
                == before.source_fetch_watermark.limit_bytes
        },
        after.holds_segments_of(before) <==> {
            &&& after.completed_segment_bytes == before.completed_segment_bytes
            &&& after.next_emit_height == before.next_emit_height
            &&& after.completed_segments@ == before.completed_segments@
            &&& after.pending_blocks@ == before.pending_blocks@
            &&& after.last_connected_block_id == before.last_connected_block_id
        },
        after.fetches_as(before) <==> {
            &&& after.source_fetch_watermark@ == before.source_fetch_watermark@
            &&& after.next_fetch_height == before.next_fetch_height
            &&& after.in_flight_segments == before.in_flight_segments
        },
{
}

/// There is room for a fetch exactly where its largest response can be
/// reserved, and beside other fetches only within the limit, counted with the
/// segments that wait.
pub proof fn law_fetch_has_room_for_its_largest_response(state: SourceBlockStreamState)
    requires
        state.max_response_bytes@ >= 1,
    ensures
        state.bytes_per_fetch() == state.max_response_bytes@,
        state.has_room_for_fetch() <==> {
            let held = state.source_fetch_watermark@;
            &&& held.reserved_bytes + state.max_response_bytes@ <= u64::MAX
            &&& held.reservations == 0 || held.reserved_bytes + state.completed_segment_bytes
                + state.max_response_bytes@ <= held.limit_bytes
        },
{
}

/// A segment is fetched where the stream stands, for as many blocks as the
/// sizer and the range allow; the next fetch starts right behind it.
pub proof fn law_fetches_cover_the_range_without_gaps(
    state: SourceBlockStreamState,
    after: SourceBlockStreamState,
    sizer: SourceSegmentSizer,
    sizer_after: SourceSegmentSizer,
    request: SourceFetchRequest,
)
    requires
        state.plans(after, sizer, sizer_after, Some(request)),
    ensures
        state.next_fetch_height == Some(request.start_height),
        request.start_height.0 <= state.to_height.0,
        request.max_connected_blocks@ >= 1,
        request.max_connected_blocks@ <= sizer_after.current_blocks@,
        request.start_height.0 + request.max_connected_blocks@ <= state.to_height.0 + 1,
        request.max_connected_blocks@ == sizer_after.current_blocks@
            || request.start_height.0 + request.max_connected_blocks@ == state.to_height.0 + 1
            || request.max_connected_blocks@ == 0xffff_ffff,
        match after.next_fetch_height {
            Some(next) => next.0 == request.start_height.0 + request.max_connected_blocks@,
            None => request.start_height.0 + request.max_connected_blocks@ > state.to_height.0,
        },
        after.in_flight_segments == state.in_flight_segments + 1,
        state.in_flight_segments < state.source_fetch_max_in_flight_requests@,
        !request.reservation.is_released,
        request.reserved_response_bytes == state.max_response_bytes@,
        after.pending_blocks@ == state.pending_blocks@,
        after.completed_segments@ == state.completed_segments@,
{
}

/// While the range is not fetched, a fetch is started wherever one is allowed:
/// there is a free slot and room for its response.
pub proof fn law_fetch_starts_where_one_is_allowed(
    state: SourceBlockStreamState,
    after: SourceBlockStreamState,
    sizer: SourceSegmentSizer,
    sizer_after: SourceSegmentSizer,
    request: Option<SourceFetchRequest>,
)
    requires
        state.plans(after, sizer, sizer_after, request),
    ensures
        request is Some <==> {
            &&& state.in_flight_segments < state.source_fetch_max_in_flight_requests@
            &&& state.next_fetch_height matches Some(height)
            &&& height.0 <= state.to_height.0
            &&& state.has_room_for_fetch()
        },
{
}

/// The segment in turn is the completed one that starts at the next height.
pub proof fn law_segment_in_turn_starts_at_the_next_height(state: SourceBlockStreamState)
    ensures
        match state.segment_in_turn() {
            Some(segment) => {
                &&& state.next_emit_height matches Some(height)
                &&& state.completed_segments@.contains_key(height.0)
                &&& state.completed_segments@[height.0] == segment
            },
            None => state.next_emit_height matches Some(height)
                ==> !state.completed_segments@.contains_key(height.0),
        },
{
}

/// A start was asked for exactly where it lies in the range.
pub proof fn law_only_starts_in_the_range_were_asked_for(
    state: SourceBlockStreamState,
    start_height: BlockHeight,
)
    ensures
        state.was_requested(start_height) <==> state.from_height.0 <= start_height.0
            && start_height.0 <= state.to_height.0,
{
}

/// Blocks that wait leave first and in order, and nothing else moves; without
/// one, the segment in turn is opened, and without that the stream waits for
/// its fetches or ends.
pub proof fn law_waiting_blocks_leave_in_order(
    state: SourceBlockStreamState,
    after: SourceBlockStreamState,
    sizer: SourceSegmentSizer,
    sizer_after: SourceSegmentSizer,
    step: SourceFetchStep,
)
    requires
        state.yields(after, sizer, sizer_after, step),
    ensures
        state.pending_blocks@.len() > 0 ==> {
            &&& step matches SourceFetchStep::Emit(block)
            &&& state.pending_blocks@ == seq![block] + after.pending_blocks@
            &&& after.completed_segments@ == state.completed_segments@
            &&& after.last_connected_block_id == state.last_connected_block_id
        },
        state.pending_blocks@.len() == 0 && state.segment_in_turn() is None ==> {
            &&& step is Finished <==> state.in_flight_segments == 0
            &&& step is AwaitFetch <==> state.in_flight_segments > 0
            &&& after.completed_segments@ == state.completed_segments@
            &&& after.pending_blocks@ == state.pending_blocks@
        },
        after.in_flight_segments == state.in_flight_segments,
        after.next_fetch_height == state.next_fetch_height,
{
    if state.pending_blocks@.len() > 0 {
        assert(state.pending_blocks@ =~= seq![state.pending_blocks@[0]] + after.pending_blocks@);
    }
}

/// The segment in turn leaves the waiting ones when it is opened; it is emitted
/// block by block where it continues the chain, and fails where it does not.
pub proof fn law_segment_in_turn_is_opened(
    state: SourceBlockStreamState,
    after: SourceBlockStreamState,
    sizer: SourceSegmentSizer,
    sizer_after: SourceSegmentSizer,
    step: SourceFetchStep,
    turn: PrefetchedSourceSegment,
)
    requires
        state.yields(after, sizer, sizer_after, step),
        state.pending_blocks@.len() == 0,
        state.segment_in_turn() == Some(turn),
    ensures
        ({
            let height = state.next_emit_height->0;
            let walked = walk(
                turn.segment.updates@,
                state.to_height,
                state.last_connected_block_id,
            );
            &&& !after.completed_segments@.contains_key(height.0)
            &&& turn.segment.updates@.len() == 0 ==> step is Finished
            &&& turn.segment.updates@.len() > 0 ==> {
                &&& step is Emit <==> walked.fault is None && walked.blocks.len() > 0
                &&& step is Fail <==> walked.fault is Some || walked.blocks.len() == 0
                &&& step matches SourceFetchStep::Emit(block) ==> walked.blocks == seq![block]
                    + after.pending_blocks@
                &&& after.last_connected_block_id == walked.last
            }
            &&& match after.next_emit_height {
                Some(next) => next.0 == height.0 + turn.max_connected_blocks@,
                None => height.0 + turn.max_connected_blocks@ > state.to_height.0,
            }
        }),
{
    let walked = walk(turn.segment.updates@, state.to_height, state.last_connected_block_id);
    if walked.blocks.len() > 0 {
        assert(walked.blocks =~= seq![walked.blocks[0]] + walked.blocks.drop_first());
    }
}

/// Where no fetch is started, nothing in flight and nothing that waits changes;
/// at the end of the range no further fetch is planned.
pub proof fn law_stream_without_a_fetch_stays_as_it_is(
    state: SourceBlockStreamState,
    after: SourceBlockStreamState,
    sizer: SourceSegmentSizer,
    sizer_after: SourceSegmentSizer,
)
    requires
        state.plans(after, sizer, sizer_after, None),
    ensures
        after.in_flight_segments == state.in_flight_segments,
        after.source_fetch_watermark@ == state.source_fetch_watermark@,
        after.completed_segments@ == state.completed_segments@,
        after.pending_blocks@ == state.pending_blocks@,
        after.next_emit_height == state.next_emit_height,
        after.last_connected_block_id == state.last_connected_block_id,
        after.to_height == state.to_height,
        after.from_height == state.from_height,
        after.next_fetch_height == state.next_fetch_height || after.next_fetch_height is None,
        after.next_fetch_height is None && state.next_fetch_height is Some ==> (
        state.next_fetch_height->0).0 > state.to_height.0,
{
}

/// A step of a stream keeps its range and its limits; planning or yielding
/// leaves the sizer sound and with its upgrades.
pub proof fn law_stream_steps_keep_the_request(
    state: SourceBlockStreamState,
    after: SourceBlockStreamState,
    sizer: SourceSegmentSizer,
    sizer_after: SourceSegmentSizer,
    request: Option<SourceFetchRequest>,
    step: SourceFetchStep,
)
    requires
        state.plans(after, sizer, sizer_after, request) || state.yields(
            after,
            sizer,
            sizer_after,
            step,
        ),
    ensures
        after.from_height == state.from_height,
        after.to_height == state.to_height,
        after.max_response_bytes == state.max_response_bytes,
        after.source_fetch_max_in_flight_requests == state.source_fetch_max_in_flight_requests,
        after.source_fetch_watermark.limit_bytes == state.source_fetch_watermark.limit_bytes,
        sizer_after@.well_formed(),
        sizer_after.activations == sizer.activations,
{
}

/// A planned fetch sizes its segment for the branch at its start, reserves its
/// largest response and keeps the blocks that wait.
pub proof fn law_planned_fetch_reserves_its_response(
    state: SourceBlockStreamState,
    after: SourceBlockStreamState,
    sizer: SourceSegmentSizer,
    sizer_after: SourceSegmentSizer,
    request: SourceFetchRequest,
)
    requires
        state.plans(after, sizer, sizer_after, Some(request)),
        state.max_response_bytes@ >= 1,
    ensures
        request.reservation.bytes == state.max_response_bytes@,
        after.source_fetch_watermark@.reserved_bytes == state.source_fetch_watermark@.reserved_bytes
            + state.max_response_bytes@,
        sizer_after@ == sizer@.under_branch(
            super::segment_sizer::branch_at(
                sizer.activations.activations@,
                request.start_height,
            ),
        ),
        after.next_emit_height == state.next_emit_height,
        after.completed_segment_bytes == state.completed_segment_bytes,
        after.last_connected_block_id == state.last_connected_block_id,
{
}

/// A yielded step leaves the sizer as it was, unless it opened a segment with
/// updates, whose response it then records.
pub proof fn law_opened_segment_is_measured(
    state: SourceBlockStreamState,
    after: SourceBlockStreamState,
    sizer: SourceSegmentSizer,
    sizer_after: SourceSegmentSizer,
    step: SourceFetchStep,
)
    requires
        state.yields(after, sizer, sizer_after, step),
    ensures
        ({
            let opened = state.pending_blocks@.len() == 0 && state.segment_in_turn() is Some;
            let turn = state.segment_in_turn()->0;
            &&& !opened ==> sizer_after@ == sizer@ && after.completed_segment_bytes
                == state.completed_segment_bytes && after.next_emit_height
                == state.next_emit_height
            &&& opened && turn.segment.updates@.len() == 0 ==> sizer_after@ == sizer@
                && after.pending_blocks@.len() == 0 && after.last_connected_block_id
                == state.last_connected_block_id
            &&& opened && turn.segment.updates@.len() > 0 ==> sizer_after@ == sizer@.recorded(
                turn.segment.stats,
            )
            &&& opened && state.completed_segment_bytes >= turn.queued_response_bytes
                ==> after.completed_segment_bytes == state.completed_segment_bytes
                - turn.queued_response_bytes
            &&& opened ==> after.completed_segments@ == state.completed_segments@.remove(
                (state.next_emit_height->0).0,
            )
            &&& step matches SourceFetchStep::Fail(error) ==> exists|fault: SegmentFault|
                #[trigger] reports_segment_fault(error, fault) && segment_fault(
                    turn.segment.updates@,
                    state.to_height,
                    state.last_connected_block_id,
                ) == Some(fault)
        }),
{
}

} // verus!
