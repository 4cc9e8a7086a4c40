//! Concurrent block preparation ahead of canonical commit.
//!
//! Several blocks are prepared at once, but they leave in contiguous height
//! order: a block that finishes out of turn is held until every lower height
//! has also completed, so commit reassembly never sees a gap.

use super::heap::{
    capacity_of, estimated_peak_block_prepare_bytes, is_resident, peak_estimate,
    prepared_block_resident_bytes,
};
use super::prevout_cache::{make_room, CacheState, RecentTransparentOutputCache};
use super::prevout_window::QueuedPreparedBlock;
use super::source_fetch::is_mismatch;
use super::watermark::{requested, ByteReservation, ByteWatermark};
use crate::artifact_builder::PreparedCanonicalBlock;
use crate::artifacts::{
    CanonicalBlockReplayEnvelope, CanonicalTransactionFacts, SourceBlock,
};
use crate::batch::{clipped, total};
use crate::bounds::{capped, floored_difference, larger, NonZeroU64};
use crate::errors::{IngestError, SourceError};
use crate::ids::BlockHeight;
use std::collections::{BTreeMap, VecDeque};
use vstd::prelude::*;

verus! {

/// Milliseconds a ready block waits for others before prevouts are resolved.
pub const LIGHT_PREVOUT_COALESCE_DELAY_MILLIS: u64 = 2;

/// Milliseconds a ready block with many inputs waits for others.
pub const DENSE_PREVOUT_COALESCE_DELAY_MILLIS: u64 = 20;

/// Transparent inputs from which on a block counts as dense.
pub const DENSE_BLOCK_TRANSPARENT_INPUTS: usize = 128;

/// Transparent inputs at which a window is resolved without waiting for more.
pub const PREVOUT_WINDOW_TARGET_TRANSPARENT_INPUTS: usize = 2_048;

/// Transparent inputs of a block.
pub open spec fn input_total(prepared: PreparedCanonicalBlock) -> int {
    clipped(
        total(
            prepared.facts.transactions@,
            |transaction: CanonicalTransactionFacts| transaction.transparent_inputs@.len() as int,
        ),
    )
}

/// Counts the transparent inputs of a block.
pub fn prepared_block_transparent_input_count(prepared: &PreparedCanonicalBlock) -> (count: usize)
    ensures
        count == input_total(*prepared),
{
    let ghost weight = |transaction: CanonicalTransactionFacts|
        transaction.transparent_inputs@.len() as int;
    let transactions = &prepared.facts.transactions;
    let mut count: usize = 0;
    let mut i: usize = 0;
    while i < transactions.len()
        invariant
            0 <= i <= transactions@.len(),
            weight == (|transaction: CanonicalTransactionFacts|
                transaction.transparent_inputs@.len() as int),
            count == clipped(total(transactions@.take(i as int), weight)),
            total(transactions@.take(i as int), weight) >= 0,
        decreases transactions@.len() - i,
    {
        assert(transactions@.take(i + 1).drop_last() =~= transactions@.take(i as int));
        count = count.saturating_add(transactions[i].transparent_inputs.len());
        i += 1;
    }
    assert(transactions@.take(i as int) =~= transactions@);
    count
}

/// Transparent inputs of a run of blocks.
pub open spec fn window_inputs(blocks: Seq<QueuedPreparedBlock>) -> int {
    clipped(total(blocks, |queued: QueuedPreparedBlock| input_total(queued.prepared)))
}

/// Height above another one, unless it is beyond the last requested one.
pub open spec fn next_within(height: BlockHeight, to_height: BlockHeight) -> Option<BlockHeight> {
    match height.spec_next() {
        Some(next) => if next.0 <= to_height.0 {
            Some(next)
        } else {
            None
        },
        None => None,
    }
}

fn next_height_within(height: BlockHeight, to_height: BlockHeight) -> (next: Option<BlockHeight>)
    ensures
        next == next_within(height, to_height),
{
    match height.next() {
        Some(next) => if next.value() <= to_height.value() {
            Some(next)
        } else {
            None
        },
        None => None,
    }
}

/// Completed blocks from a height on, up to the first gap.
pub open spec fn contiguous(
    completed: Map<u32, QueuedPreparedBlock>,
    next: Option<BlockHeight>,
    to_height: BlockHeight,
) -> Seq<QueuedPreparedBlock>
    decreases
            (if next is Some {
                u32::MAX - (next->0).0 + 1
            } else {
                0
            }),
{
    match next {
        None => Seq::empty(),
        Some(height) => if completed.contains_key(height.0) {
            seq![completed[height.0]] + contiguous(
                completed,
                next_within(height, to_height),
                to_height,
            )
        } else {
            Seq::empty()
        },
    }
}

/// Next height after some blocks from a height on have left.
pub open spec fn height_after_leaving(
    next: Option<BlockHeight>,
    count: nat,
    to_height: BlockHeight,
) -> Option<BlockHeight>
    decreases count,
{
    if count == 0 {
        next
    } else {
        match height_after_leaving(next, (count - 1) as nat, to_height) {
            Some(height) => next_within(height, to_height),
            None => None,
        }
    }
}

/// Whether a number of leading blocks is what one window takes: as many as
/// are ready, up to the concurrency and up to the block that reaches the
/// targeted number of inputs.
pub open spec fn is_window_size(
    ready: Seq<QueuedPreparedBlock>,
    concurrency: int,
    count: int,
) -> bool {
    &&& 0 <= count <= ready.len()
    &&& count <= concurrency
    &&& count == ready.len() || count == concurrency || (count > 0 && window_inputs(
        ready.take(count),
    ) >= PREVOUT_WINDOW_TARGET_TRANSPARENT_INPUTS)
    &&& forall|k: int|
        0 < k < count ==> #[trigger] window_inputs(ready.take(k))
            < PREVOUT_WINDOW_TARGET_TRANSPARENT_INPUTS
}

/// Bytes that are left once some blocks have left.
pub open spec fn bytes_after_leaving(
    resident_bytes: u64,
    blocks: Seq<QueuedPreparedBlock>,
) -> u64
    decreases blocks.len(),
{
    if blocks.len() == 0 {
        resident_bytes
    } else {
        floored_difference(
            bytes_after_leaving(resident_bytes, blocks.drop_last()) as int,
            blocks.last().resident_bytes as int,
        ) as u64
    }
}

/// A block that is to be prepared.
#[derive(Debug)]
pub struct ScheduledBlockPrepare {
    pub source_block: SourceBlock,
    pub ticket: BlockPrepareTicket,
}

/// What a prepare in flight holds of the stage.
#[derive(Debug)]
pub struct BlockPrepareTicket {
    pub height: BlockHeight,
    pub estimated_peak_resident_bytes: u64,
    pub reservation: ByteReservation,
}

/// Outcome of trying to start the next prepare.
#[derive(Debug)]
pub enum PendingBlockPrepareSchedule {
    Scheduled(ScheduledBlockPrepare),
    WatermarkBlocked,
    Idle,
}

/// What is to happen next for prepared blocks to flow.
#[derive(Debug)]
pub enum BlockPrepareStep {
    /// A block is to be prepared, concurrently with those already in flight.
    Prepare(ScheduledBlockPrepare),
    /// The prevouts of consecutive blocks are to be resolved.
    ResolveWindow(Vec<QueuedPreparedBlock>),
    /// Source blocks, a prepare in flight, or the coalescing deadline are to be awaited.
    Await {
        accept_source: bool,
        await_prepare: bool,
        await_deadline: bool,
        /// Milliseconds until the deadline that starts now, if one starts.
        start_coalescing: Option<u64>,
    },
    /// No block is left.
    Finished,
}

/// Prepares in flight and completed blocks that wait for their turn.
#[derive(Debug)]
pub struct BlockPrepareStreamState {
    pub completed_block_prepares: BTreeMap<u32, QueuedPreparedBlock>,
    pub completed_block_prepare_resident_bytes: u64,
    pub pending_source_chunk: Option<VecDeque<SourceBlock>>,
    pub in_flight_block_prepares: usize,
    pub block_prepare_concurrency: usize,
    pub block_prepare_watermark: ByteWatermark,
    pub recent_outputs: RecentTransparentOutputCache,
    pub is_coalescing: bool,
    pub next_emit_height: Option<BlockHeight>,
    pub to_height: BlockHeight,
    pub source_exhausted: bool,
}

/// Source blocks that wait to be prepared.
pub open spec fn waiting_blocks(chunk: Option<VecDeque<SourceBlock>>) -> Seq<SourceBlock> {
    match chunk {
        Some(blocks) => blocks@,
        None => Seq::empty(),
    }
}

impl BlockPrepareStreamState {
    /// Whether the state is one the stage can be in.
    pub open spec fn well_formed(self) -> bool {
        &&& self.recent_outputs.well_formed()
        &&& self.block_prepare_concurrency >= 1
        &&& forall|height: u32| #[trigger]
            self.completed_block_prepares@.contains_key(height)
                ==> !self.completed_block_prepares@[height].reservation.is_released
    }

    /// Completed blocks that can leave now.
    pub open spec fn ready(self) -> Seq<QueuedPreparedBlock> {
        contiguous(self.completed_block_prepares@, self.next_emit_height, self.to_height)
    }

    /// Whether more source blocks may be taken in.
    pub open spec fn accepts_source(self) -> bool {
        &&& !self.source_exhausted
        &&& self.pending_source_chunk is None
        &&& self.in_flight_block_prepares < self.block_prepare_concurrency
        &&& self.completed_block_prepares@.len() < self.block_prepare_concurrency
    }

    /// Whether the limits of the stage are those of another state.
    pub open spec fn serves_request_of(self, other: Self) -> bool {
        &&& self.block_prepare_concurrency == other.block_prepare_concurrency
        &&& self.to_height == other.to_height
        &&& self.block_prepare_watermark.limit_bytes == other.block_prepare_watermark.limit_bytes
    }

    /// Whether the completed blocks are those of another state.
    pub open spec fn holds_completed_of(self, other: Self) -> bool {
        &&& self.completed_block_prepares@ == other.completed_block_prepares@
        &&& self.completed_block_prepare_resident_bytes
            == other.completed_block_prepare_resident_bytes
        &&& self.next_emit_height == other.next_emit_height
    }

    /// Whether the work in flight, and what it holds, is that of another state.
    pub open spec fn prepares_as(self, other: Self) -> bool {
        &&& self.pending_source_chunk is Some == other.pending_source_chunk is Some
        &&& waiting_blocks(self.pending_source_chunk) == waiting_blocks(other.pending_source_chunk)
        &&& self.in_flight_block_prepares == other.in_flight_block_prepares
        &&& self.block_prepare_watermark@ == other.block_prepare_watermark@
        &&& self.recent_outputs@ == other.recent_outputs@
    }

    /// Starts without work in flight; at least one block is prepared at a time.
    pub fn new(
        from_height: BlockHeight,
        to_height: BlockHeight,
        block_prepare_concurrency: usize,
        block_prepare_memory_watermark_bytes: NonZeroU64,
    ) -> (state: Self)
        ensures
            state.well_formed(),
            state.completed_block_prepares@ == Map::<u32, QueuedPreparedBlock>::empty(),
            state.completed_block_prepare_resident_bytes == 0,
            state.pending_source_chunk is None,
            state.in_flight_block_prepares == 0,
            state.block_prepare_concurrency == larger(block_prepare_concurrency as int, 1),
            state.block_prepare_watermark.limit_bytes == block_prepare_memory_watermark_bytes,
            state.block_prepare_watermark@.reserved_bytes == 0,
            state.block_prepare_watermark@.reservations == 0,
            state.recent_outputs@ == CacheState::nothing(),
            !state.is_coalescing,
            state.next_emit_height == Some(from_height),
            state.to_height == to_height,
            !state.source_exhausted,
    {
        BlockPrepareStreamState {
            completed_block_prepares: BTreeMap::new(),
            completed_block_prepare_resident_bytes: 0,
            pending_source_chunk: None,
            in_flight_block_prepares: 0,
            block_prepare_concurrency: if block_prepare_concurrency >= 1 {
                block_prepare_concurrency
            } else {
                1
            },
            block_prepare_watermark: ByteWatermark::new(block_prepare_memory_watermark_bytes),
            recent_outputs: RecentTransparentOutputCache::new(),
            is_coalescing: false,
            next_emit_height: Some(from_height),
            to_height,
            source_exhausted: false,
        }
    }

    /// Takes in a chunk of source blocks, in the order in which they are prepared.
    pub fn accept_source_chunk(&mut self, source_chunk: VecDeque<SourceBlock>)
        requires
            old(self).well_formed(),
        ensures
            final(self).well_formed(),
            final(self).serves_request_of(*old(self)),
            final(self).holds_completed_of(*old(self)),
            final(self).pending_source_chunk == Some(source_chunk),
            final(self).in_flight_block_prepares == old(self).in_flight_block_prepares,
            final(self).block_prepare_watermark@ == old(self).block_prepare_watermark@,
            final(self).recent_outputs@ == old(self).recent_outputs@,
            final(self).is_coalescing == old(self).is_coalescing,
            final(self).source_exhausted == old(self).source_exhausted,
    {
        self.pending_source_chunk = Some(source_chunk);
    }

    /// Notes that no more source blocks come.
    pub fn accept_source_end(&mut self)
        requires
            old(self).well_formed(),
        ensures
            final(self).well_formed(),
            final(self).serves_request_of(*old(self)),
            final(self).holds_completed_of(*old(self)),
            final(self).prepares_as(*old(self)),
            final(self).is_coalescing == old(self).is_coalescing,
            final(self).source_exhausted,
    {
        self.source_exhausted = true;
    }

    /// Whether `after` is what trying to start the next prepare makes of `self`,
    /// where the raw bytes of the first block that waits have some room.
    pub open spec fn schedules_with(
        self,
        after: Self,
        schedule: PendingBlockPrepareSchedule,
        raw_block_capacity: nat,
    ) -> bool {
        let waiting = waiting_blocks(self.pending_source_chunk);
        &&& after.well_formed()
        &&& after.serves_request_of(self)
        &&& after.holds_completed_of(self)
        &&& after.is_coalescing == self.is_coalescing
        &&& after.source_exhausted == self.source_exhausted
        &&& if self.in_flight_block_prepares >= self.block_prepare_concurrency || waiting.len()
            == 0 {
            schedule is Idle && after.prepares_as(self)
        } else {
            let bytes = peak_estimate(raw_block_capacity as int) as u64;
            let (rest, free) = make_room(
                self.recent_outputs@,
                self.block_prepare_watermark@,
                bytes,
            );
            &&& after.recent_outputs@ == rest
            &&& match schedule {
                PendingBlockPrepareSchedule::Scheduled(scheduled) => {
                    &&& free.grants(bytes)
                    &&& scheduled.source_block == waiting[0]
                    &&& scheduled.ticket.height == waiting[0].height
                    &&& scheduled.ticket.estimated_peak_resident_bytes == bytes
                    &&& scheduled.ticket.reservation.bytes == requested(bytes)
                    &&& !scheduled.ticket.reservation.is_released
                    &&& after.block_prepare_watermark@ == free.reserved(bytes)
                    &&& after.in_flight_block_prepares == self.in_flight_block_prepares + 1
                    &&& waiting_blocks(after.pending_source_chunk) == waiting.drop_first()
                    &&& after.pending_source_chunk is Some == (waiting.len() > 1)
                },
                PendingBlockPrepareSchedule::WatermarkBlocked => {
                    &&& !free.grants(bytes)
                    &&& after.block_prepare_watermark@ == free
                    &&& after.in_flight_block_prepares == self.in_flight_block_prepares
                    &&& waiting_blocks(after.pending_source_chunk) == waiting
                    &&& after.pending_source_chunk is Some
                },
                PendingBlockPrepareSchedule::Idle => false,
            }
        }
    }

    /// Whether `after` is what trying to start the next prepare makes of `self`.
    pub open spec fn schedules(
        self,
        after: Self,
        schedule: PendingBlockPrepareSchedule,
    ) -> bool {
        let waiting = waiting_blocks(self.pending_source_chunk);
        exists|capacity: nat|
            (waiting.len() > 0 ==> capacity >= waiting[0].raw_block_bytes@.len())
                && #[trigger] self.schedules_with(after, schedule, capacity)
    }

    /// Tries to start the next prepare, at the expense of the recently created
    /// outputs where the stage has no bytes left.
    ///
    /// `raw_block_capacity` is the room that the raw bytes of the first block
    /// that waits have. It counts only where a prepare can start.
    pub fn schedule_block_prepare(
        &mut self,
        raw_block_capacity: usize,
    ) -> (schedule: PendingBlockPrepareSchedule)
        requires
            old(self).well_formed(),
        ensures
            old(self).schedules_with(*final(self), schedule, raw_block_capacity as nat),
    {
        if self.in_flight_block_prepares >= self.block_prepare_concurrency {
            return PendingBlockPrepareSchedule::Idle;
        }
        let mut chunk: Option<VecDeque<SourceBlock>> = None;
        std::mem::swap(&mut chunk, &mut self.pending_source_chunk);
        let mut source_chunk = match chunk {
            Some(source_chunk) => source_chunk,
            None => {
                return PendingBlockPrepareSchedule::Idle;
            },
        };
        let ghost waiting = source_chunk@;
        let source_block = match source_chunk.pop_front() {
            Some(source_block) => source_block,
            None => {
                self.pending_source_chunk = Some(source_chunk);
                return PendingBlockPrepareSchedule::Idle;
            },
        };
        assert(source_chunk@ =~= waiting.drop_first());
        let estimated_peak_resident_bytes: u64 = estimated_peak_block_prepare_bytes(
            raw_block_capacity,
        );
        match self.recent_outputs.reserve(
            &mut self.block_prepare_watermark,
            estimated_peak_resident_bytes,
        ) {
            None => {
                source_chunk.push_front(source_block);
                assert(source_chunk@ =~= waiting);
                self.pending_source_chunk = Some(source_chunk);
                PendingBlockPrepareSchedule::WatermarkBlocked
            },
            Some(reservation) => {
                if source_chunk.len() > 0 {
                    self.pending_source_chunk = Some(source_chunk);
                }
                self.in_flight_block_prepares = self.in_flight_block_prepares + 1;
                assert(waiting_blocks(self.pending_source_chunk) =~= waiting.drop_first());
                let height = source_block.height;
                PendingBlockPrepareSchedule::Scheduled(
                    ScheduledBlockPrepare {
                        source_block,
                        ticket: BlockPrepareTicket {
                            height,
                            estimated_peak_resident_bytes,
                            reservation,
                        },
                    },
                )
            },
        }
    }

    /// Tries to start the next prepare with the room that its raw bytes have.
    pub fn schedule_next_pending_block_prepare(&mut self) -> (schedule: PendingBlockPrepareSchedule)
        requires
            old(self).well_formed(),
        ensures
            old(self).schedules(*final(self), schedule),
    {
        let ghost before = *self;
        let raw_block_capacity: usize = match &self.pending_source_chunk {
            Some(source_chunk) => if source_chunk.len() > 0 {
                capacity_of(&source_chunk[0].raw_block_bytes)
            } else {
                0
            },
            None => 0,
        };
        let schedule = self.schedule_block_prepare(raw_block_capacity);
        assert(before.schedules_with(*self, schedule, raw_block_capacity as nat));
        schedule
    }
}

/// Completed blocks that are left once some from a height on have left.
pub open spec fn completed_after_leaving(
    completed: Map<u32, QueuedPreparedBlock>,
    next: Option<BlockHeight>,
    count: nat,
    to_height: BlockHeight,
) -> Map<u32, QueuedPreparedBlock>
    decreases count,
{
    if count == 0 {
        completed
    } else {
        let before = completed_after_leaving(completed, next, (count - 1) as nat, to_height);
        match height_after_leaving(next, (count - 1) as nat, to_height) {
            Some(height) => before.remove(height.0),
            None => before,
        }
    }
}

proof fn lemma_contiguous_ignores_lower_heights(
    left: Map<u32, QueuedPreparedBlock>,
    right: Map<u32, QueuedPreparedBlock>,
    next: Option<BlockHeight>,
    to_height: BlockHeight,
)
    requires
        next is Some ==> forall|height: u32|
            height >= (next->0).0 ==> {
                &&& #[trigger] left.contains_key(height) <==> right.contains_key(height)
                &&& left.contains_key(height) ==> left[height] == right[height]
            },
    ensures
        contiguous(left, next, to_height) == contiguous(right, next, to_height),
    decreases
            (if next is Some {
                u32::MAX - (next->0).0 + 1
            } else {
                0
            }),
{
    if next is Some {
        let height = next->0;
        assert(left.contains_key(height.0) <==> right.contains_key(height.0));
        if left.contains_key(height.0) {
            lemma_contiguous_ignores_lower_heights(
                left,
                right,
                next_within(height, to_height),
                to_height,
            );
        }
    }
}

proof fn lemma_input_totals_are_nonnegative(blocks: Seq<QueuedPreparedBlock>)
    ensures
        total(blocks, |queued: QueuedPreparedBlock| input_total(queued.prepared)) >= 0,
    decreases blocks.len(),
{
    if blocks.len() > 0 {
        lemma_input_totals_are_nonnegative(blocks.drop_last());
        let weight = |transaction: CanonicalTransactionFacts|
            transaction.transparent_inputs@.len() as int;
        crate::batch::lemma_total_is_nonnegative(
            blocks.last().prepared.facts.transactions@,
            weight,
        );
    }
}

proof fn lemma_window_inputs_push(
    blocks: Seq<QueuedPreparedBlock>,
    queued: QueuedPreparedBlock,
)
    ensures
        window_inputs(blocks.push(queued)) == clipped(
            window_inputs(blocks) + input_total(queued.prepared),
        ),
{
    lemma_input_totals_are_nonnegative(blocks);
    let weight = |transaction: CanonicalTransactionFacts|
        transaction.transparent_inputs@.len() as int;
    crate::batch::lemma_total_is_nonnegative(queued.prepared.facts.transactions@, weight);
    assert(blocks.push(queued).drop_last() =~= blocks);
}

impl BlockPrepareStreamState {
    /// Keeps a completed block until its turn comes. A block that is refused,
    /// or that another one replaces, gives its bytes back.
    pub fn insert_completed_block_prepare(
        &mut self,
        height: BlockHeight,
        queued: QueuedPreparedBlock,
    ) -> (inserted: Result<(), IngestError>)
        requires
            old(self).well_formed(),
            !queued.reservation.is_released,
        ensures
            final(self).well_formed(),
            final(self).serves_request_of(*old(self)),
            final(self).next_emit_height == old(self).next_emit_height,
            final(self).pending_source_chunk == old(self).pending_source_chunk,
            final(self).in_flight_block_prepares == old(self).in_flight_block_prepares,
            final(self).recent_outputs@ == old(self).recent_outputs@,
            final(self).is_coalescing == old(self).is_coalescing,
            final(self).source_exhausted == old(self).source_exhausted,
            if height.0 > old(self).to_height.0 {
                &&& inserted matches Err(error)
                &&& is_mismatch(
                    error,
                    "prepared block completed outside the requested bulk-catchup range"@,
                )
                &&& final(self).holds_completed_of(*old(self))
                &&& final(self).block_prepare_watermark@ == old(
                    self,
                ).block_prepare_watermark@.released(queued.reservation.bytes)
            } else {
                &&& final(self).completed_block_prepares@ == old(
                    self,
                ).completed_block_prepares@.insert(height.0, queued)
                &&& final(self).completed_block_prepare_resident_bytes == capped(
                    old(self).completed_block_prepare_resident_bytes + queued.resident_bytes,
                    u64::MAX as int,
                )
                &&& if old(self).completed_block_prepares@.contains_key(height.0) {
                    &&& inserted matches Err(error)
                    &&& is_mismatch(error, "prepared block completed twice during bulk catchup"@)
                    &&& final(self).block_prepare_watermark@ == old(
                        self,
                    ).block_prepare_watermark@.released(
                        old(self).completed_block_prepares@[height.0].reservation.bytes,
                    )
                } else {
                    &&& inserted is Ok
                    &&& final(self).block_prepare_watermark@ == old(self).block_prepare_watermark@
                }
            },
    {
        if height.value() > self.to_height.value() {
            let mut reservation = queued.reservation;
            self.block_prepare_watermark.release(&mut reservation);
            return Err(
                IngestError::Source(
                    SourceError::SourceProtocolMismatch {
                        cause: "prepared block completed outside the requested bulk-catchup range",
                    },
                ),
            );
        }
        let ghost before = self.completed_block_prepares@;
        self.completed_block_prepare_resident_bytes =
        self.completed_block_prepare_resident_bytes.saturating_add(queued.resident_bytes);
        let replaced = self.completed_block_prepares.insert(height.value(), queued);
        assert forall|other: u32| #[trigger]
            self.completed_block_prepares@.contains_key(
                other,
            ) implies !self.completed_block_prepares@[other].reservation.is_released by {
            if other != height.0 {
                assert(before.contains_key(other));
            }
        }
        match replaced {
            Some(replaced) => {
                let mut reservation = replaced.reservation;
                self.block_prepare_watermark.release(&mut reservation);
                Err(
                    IngestError::Source(
                        SourceError::SourceProtocolMismatch {
                            cause: "prepared block completed twice during bulk catchup",
                        },
                    ),
                )
            },
            None => Ok(()),
        }
    }

    /// Whether `after` and `completed` are what the end of a prepare makes of
    /// `self`, where the prepared block was measured to hold some bytes.
    pub open spec fn completes_with(
        self,
        after: Self,
        ticket: BlockPrepareTicket,
        prepared: PreparedCanonicalBlock,
        replay_envelope: CanonicalBlockReplayEnvelope,
        resident_bytes: u64,
        completed: Result<(), IngestError>,
    ) -> bool {
        let held = larger(
            ticket.estimated_peak_resident_bytes as int,
            resident_bytes as int,
        ) as u64;
        let free = self.block_prepare_watermark@.resized(ticket.reservation.bytes, held);
        let queued = QueuedPreparedBlock {
            prepared,
            replay_envelope,
            resident_bytes,
            reservation: ByteReservation { bytes: requested(held) as u64, is_released: false },
        };
        if ticket.height.0 > self.to_height.0 {
            &&& completed matches Err(error)
            &&& is_mismatch(
                error,
                "prepared block completed outside the requested bulk-catchup range"@,
            )
            &&& after.holds_completed_of(self)
            &&& after.block_prepare_watermark@ == free.released(queued.reservation.bytes)
        } else {
            &&& after.completed_block_prepares@ == self.completed_block_prepares@.insert(
                ticket.height.0,
                queued,
            )
            &&& after.completed_block_prepare_resident_bytes == capped(
                self.completed_block_prepare_resident_bytes + resident_bytes,
                u64::MAX as int,
            )
            &&& if self.completed_block_prepares@.contains_key(ticket.height.0) {
                &&& completed matches Err(error)
                &&& is_mismatch(error, "prepared block completed twice during bulk catchup"@)
                &&& after.block_prepare_watermark@ == free.released(
                    self.completed_block_prepares@[ticket.height.0].reservation.bytes,
                )
            } else {
                &&& completed is Ok
                &&& after.block_prepare_watermark@ == free
            }
        }
    }

    /// Whether `self` has one prepare less in flight than `before`, and is the
    /// same in all that the end of a prepare leaves alone.
    pub open spec fn ends_one_prepare_of(self, before: Self) -> bool {
        &&& self.serves_request_of(before)
        &&& self.next_emit_height == before.next_emit_height
        &&& self.pending_source_chunk == before.pending_source_chunk
        &&& self.in_flight_block_prepares == before.in_flight_block_prepares - 1
        &&& self.recent_outputs@ == before.recent_outputs@
        &&& self.is_coalescing == before.is_coalescing
        &&& self.source_exhausted == before.source_exhausted
    }

    /// Ends one prepare in flight whose block was measured. The block keeps the
    /// larger of its estimated peak and what it now holds, and waits for its
    /// turn.
    pub fn complete_measured_block_prepare(
        &mut self,
        ticket: BlockPrepareTicket,
        prepared: PreparedCanonicalBlock,
        replay_envelope: CanonicalBlockReplayEnvelope,
        resident_bytes: u64,
    ) -> (completed: Result<(), IngestError>)
        requires
            old(self).well_formed(),
            old(self).in_flight_block_prepares > 0,
            !ticket.reservation.is_released,
        ensures
            final(self).well_formed(),
            final(self).ends_one_prepare_of(*old(self)),
            old(self).completes_with(
                *final(self),
                ticket,
                prepared,
                replay_envelope,
                resident_bytes,
                completed,
            ),
    {
        let BlockPrepareTicket { height, estimated_peak_resident_bytes, reservation } = ticket;
        let mut reservation = reservation;
        self.in_flight_block_prepares = self.in_flight_block_prepares - 1;
        let held: u64 = if estimated_peak_resident_bytes >= resident_bytes {
            estimated_peak_resident_bytes
        } else {
            resident_bytes
        };
        self.block_prepare_watermark.resize(&mut reservation, held);
        let queued = QueuedPreparedBlock { prepared, replay_envelope, resident_bytes, reservation };
        assert(queued.reservation == (ByteReservation {
            bytes: requested(held) as u64,
            is_released: false,
        }));
        self.insert_completed_block_prepare(height, queued)
    }

    /// Ends one prepare in flight. A failed one gives its bytes back; a
    /// completed one is measured and waits for its turn.
    pub fn complete_block_prepare(
        &mut self,
        ticket: BlockPrepareTicket,
        outcome: Result<(PreparedCanonicalBlock, CanonicalBlockReplayEnvelope), IngestError>,
    ) -> (completed: Result<(), IngestError>)
        requires
            old(self).well_formed(),
            old(self).in_flight_block_prepares > 0,
            !ticket.reservation.is_released,
        ensures
            final(self).well_formed(),
            final(self).ends_one_prepare_of(*old(self)),
            match outcome {
                Err(error) => {
                    &&& completed == Err::<(), IngestError>(error)
                    &&& final(self).holds_completed_of(*old(self))
                    &&& final(self).block_prepare_watermark@ == old(
                        self,
                    ).block_prepare_watermark@.released(ticket.reservation.bytes)
                },
                Ok((prepared, replay_envelope)) => exists|resident_bytes: u64|
                    #[trigger] is_resident(
                        resident_bytes,
                        prepared,
                        replay_envelope.payload_bytes@.len() as usize,
                    ) && old(self).completes_with(
                        *final(self),
                        ticket,
                        prepared,
                        replay_envelope,
                        resident_bytes,
                        completed,
                    ),
            },
    {
        let (prepared, replay_envelope) = match outcome {
            Ok(outcome) => outcome,
            Err(error) => {
                let mut reservation = ticket.reservation;
                self.in_flight_block_prepares = self.in_flight_block_prepares - 1;
                self.block_prepare_watermark.release(&mut reservation);
                return Err(error);
            },
        };
        let resident_bytes: u64 = prepared_block_resident_bytes(
            &prepared,
            replay_envelope.payload_bytes.len(),
        );
        assert(is_resident(
            resident_bytes,
            prepared,
            replay_envelope.payload_bytes@.len() as usize,
        ));
        self.complete_measured_block_prepare(ticket, prepared, replay_envelope, resident_bytes)
    }

    /// Counts the completed blocks that can leave now, and their transparent inputs.
    pub fn contiguous_completed_window_shape(&self) -> (shape: (usize, usize))
        ensures
            shape.0 == clipped(self.ready().len() as int),
            shape.1 == window_inputs(self.ready()),
    {
        let ghost ready = self.ready();
        let ghost mut visited: Seq<QueuedPreparedBlock> = Seq::empty();
        let mut count: usize = 0;
        let mut transparent_input_count: usize = 0;
        let mut next_height = self.next_emit_height;
        assert(visited + self.ready() =~= ready);
        loop
            invariant
                ready == self.ready(),
                ready == visited + contiguous(
                    self.completed_block_prepares@,
                    next_height,
                    self.to_height,
                ),
                count == clipped(visited.len() as int),
                transparent_input_count == window_inputs(visited),
            decreases
                    (if next_height is Some {
                        u32::MAX - (next_height->0).0 + 1
                    } else {
                        0
                    }),
        {
            let height = match next_height {
                Some(height) => height,
                None => {
                    assert(visited =~= ready);
                    return (count, transparent_input_count);
                },
            };
            match self.completed_block_prepares.get(&height.value()) {
                None => {
                    assert(visited =~= ready);
                    return (count, transparent_input_count);
                },
                Some(queued) => {
                    count = count.saturating_add(1);
                    transparent_input_count =
                    transparent_input_count.saturating_add(
                        prepared_block_transparent_input_count(&queued.prepared),
                    );
                    proof {
                        lemma_window_inputs_push(visited, *queued);
                        let rest = contiguous(
                            self.completed_block_prepares@,
                            next_within(height, self.to_height),
                            self.to_height,
                        );
                        assert(visited + (seq![*queued] + rest) =~= visited.push(*queued) + rest);
                        visited = visited.push(*queued);
                    }
                    next_height = next_height_within(height, self.to_height);
                },
            }
        }
    }

    /// Returns whether the next block to leave has completed and has many inputs.
    pub fn next_completed_block_is_dense(&self) -> (dense: bool)
        ensures
            dense == (self.ready().len() > 0 && input_total(self.ready()[0].prepared)
                >= DENSE_BLOCK_TRANSPARENT_INPUTS),
    {
        match self.next_emit_height {
            None => false,
            Some(height) => match self.completed_block_prepares.get(&height.value()) {
                None => false,
                Some(queued) => prepared_block_transparent_input_count(&queued.prepared)
                    >= DENSE_BLOCK_TRANSPARENT_INPUTS,
            },
        }
    }

    /// Returns whether more source blocks may be taken in.
    pub fn can_schedule_block_prepare(&self) -> (can: bool)
        ensures
            can == self.accepts_source(),
    {
        !self.source_exhausted && self.pending_source_chunk.is_none()
            && self.in_flight_block_prepares < self.block_prepare_concurrency
            && self.completed_block_prepares.len() < self.block_prepare_concurrency
    }

    /// Whether `after` is what is left of `self` once some blocks have left.
    pub open spec fn leaves(self, after: Self, blocks: Seq<QueuedPreparedBlock>) -> bool {
        &&& after.well_formed()
        &&& after.serves_request_of(self)
        &&& after.prepares_as(self)
        &&& after.source_exhausted == self.source_exhausted
        &&& is_window_size(
            self.ready(),
            self.block_prepare_concurrency as int,
            blocks.len() as int,
        )
        &&& blocks == self.ready().take(blocks.len() as int)
        &&& after.completed_block_prepares@ == completed_after_leaving(
            self.completed_block_prepares@,
            self.next_emit_height,
            blocks.len(),
            self.to_height,
        )
        &&& after.next_emit_height == height_after_leaving(
            self.next_emit_height,
            blocks.len(),
            self.to_height,
        )
        &&& after.completed_block_prepare_resident_bytes == bytes_after_leaving(
            self.completed_block_prepare_resident_bytes,
            blocks,
        )
    }

    /// Takes the completed blocks that one window resolves together.
    pub fn take_contiguous_completed_block_prepares(&mut self) -> (blocks: Vec<
        QueuedPreparedBlock,
    >)
        requires
            old(self).well_formed(),
        ensures
            old(self).leaves(*final(self), blocks@),
            final(self).is_coalescing == old(self).is_coalescing,
    {
        let ghost before = *self;
        let ghost ready = self.ready();
        let mut ready_blocks: Vec<QueuedPreparedBlock> = Vec::new();
        let mut transparent_input_count: usize = 0;
        assert(ready.skip(0) =~= ready);
        assert(ready.take(0) =~= Seq::empty());
        loop
            invariant
                before == *old(self),
                ready == before.ready(),
                self.well_formed(),
                self.serves_request_of(before),
                self.prepares_as(before),
                self.source_exhausted == before.source_exhausted,
                self.is_coalescing == before.is_coalescing,
                ready_blocks@.len() <= ready.len(),
                ready_blocks@ == ready.take(ready_blocks@.len() as int),
                transparent_input_count == window_inputs(ready_blocks@),
                ready_blocks@.len() <= before.block_prepare_concurrency,
                forall|k: int|
                    0 < k < ready_blocks@.len() ==> #[trigger] window_inputs(ready.take(k))
                        < PREVOUT_WINDOW_TARGET_TRANSPARENT_INPUTS,
                contiguous(
                    self.completed_block_prepares@,
                    self.next_emit_height,
                    self.to_height,
                ) == ready.skip(ready_blocks@.len() as int),
                self.completed_block_prepares@ == completed_after_leaving(
                    before.completed_block_prepares@,
                    before.next_emit_height,
                    ready_blocks@.len(),
                    before.to_height,
                ),
                self.next_emit_height == height_after_leaving(
                    before.next_emit_height,
                    ready_blocks@.len(),
                    before.to_height,
                ),
                self.completed_block_prepare_resident_bytes == bytes_after_leaving(
                    before.completed_block_prepare_resident_bytes,
                    ready_blocks@,
                ),
            decreases ready.len() - ready_blocks@.len(),
        {
            let ghost taken = ready_blocks@;
            let next_emit_height = match self.next_emit_height {
                Some(next_emit_height) => next_emit_height,
                None => {
                    assert(ready.skip(taken.len() as int).len() == 0);
                    return ready_blocks;
                },
            };
            if ready_blocks.len() >= self.block_prepare_concurrency {
                return ready_blocks;
            }
            if ready_blocks.len() > 0 && transparent_input_count
                >= PREVOUT_WINDOW_TARGET_TRANSPARENT_INPUTS {
                return ready_blocks;
            }
            let ghost completed = self.completed_block_prepares@;
            match self.completed_block_prepares.remove(&next_emit_height.value()) {
                None => {
                    assert(ready.skip(taken.len() as int).len() == 0);
                    assert(self.completed_block_prepares@ =~= completed);
                    return ready_blocks;
                },
                Some(queued) => {
                    let ghost left = ready.skip(taken.len() as int);
                    let ghost rest = contiguous(
                        completed,
                        next_within(next_emit_height, self.to_height),
                        self.to_height,
                    );
                    proof {
                        assert(left =~= seq![queued] + rest);
                        assert(left.len() > 0);
                        assert(left[0] == ready[taken.len() as int]);
                        assert(ready.skip((taken.len() + 1) as int) =~= left.drop_first());
                        assert(left.drop_first() =~= rest);
                        lemma_contiguous_ignores_lower_heights(
                            completed,
                            self.completed_block_prepares@,
                            next_within(next_emit_height, self.to_height),
                            self.to_height,
                        );
                        lemma_window_inputs_push(taken, queued);
                        assert(ready.take((taken.len() + 1) as int) =~= taken.push(queued));
                        assert(taken.push(queued).drop_last() =~= taken);
                        assert forall|height: u32| #[trigger]
                            self.completed_block_prepares@.contains_key(
                                height,
                            ) implies !self.completed_block_prepares@[
                            height
                        ].reservation.is_released by {
                            assert(completed.contains_key(height));
                        }
                    }
                    transparent_input_count =
                    transparent_input_count.saturating_add(
                        prepared_block_transparent_input_count(&queued.prepared),
                    );
                    self.next_emit_height = next_height_within(next_emit_height, self.to_height);
                    self.completed_block_prepare_resident_bytes =
                    self.completed_block_prepare_resident_bytes.saturating_sub(
                        queued.resident_bytes,
                    );
                    ready_blocks.push(queued);
                },
            }
        }
    }

    /// Whether the ready blocks are to be resolved without waiting for more.
    pub open spec fn resolves_now(self, schedule_blocked: bool, deadline_elapsed: bool) -> bool {
        &&& self.ready().len() > 0
        &&& {
            ||| self.ready().len() >= self.block_prepare_concurrency
            ||| window_inputs(self.ready()) >= PREVOUT_WINDOW_TARGET_TRANSPARENT_INPUTS
            ||| schedule_blocked
            ||| self.is_coalescing && deadline_elapsed
            ||| self.source_exhausted && self.in_flight_block_prepares == 0
        }
    }

    /// Whether `after` is what a decision makes of `self`, once no more
    /// prepares can start.
    pub open spec fn decides(
        self,
        after: Self,
        schedule_blocked: bool,
        deadline_elapsed: bool,
        step: BlockPrepareStep,
    ) -> bool {
        if self.resolves_now(schedule_blocked, deadline_elapsed) {
            &&& step matches BlockPrepareStep::ResolveWindow(blocks)
            &&& self.leaves(after, blocks@)
            &&& !after.is_coalescing
        } else {
            &&& after.well_formed()
            &&& after.serves_request_of(self)
            &&& after.holds_completed_of(self)
            &&& after.prepares_as(self)
            &&& after.source_exhausted == self.source_exhausted
            &&& after.is_coalescing == (self.is_coalescing || self.ready().len() > 0)
            &&& step == if !self.accepts_source() && self.in_flight_block_prepares == 0 {
                BlockPrepareStep::Finished
            } else {
                BlockPrepareStep::Await {
                    accept_source: self.accepts_source(),
                    await_prepare: self.in_flight_block_prepares > 0,
                    await_deadline: after.is_coalescing,
                    start_coalescing: if self.ready().len() > 0 && !self.is_coalescing {
                        Some(
                            if input_total(self.ready()[0].prepared)
                                >= DENSE_BLOCK_TRANSPARENT_INPUTS {
                                DENSE_PREVOUT_COALESCE_DELAY_MILLIS
                            } else {
                                LIGHT_PREVOUT_COALESCE_DELAY_MILLIS
                            },
                        )
                    } else {
                        None
                    },
                }
            }
        }
    }

    fn decide(&mut self, schedule_blocked: bool, deadline_elapsed: bool) -> (step: BlockPrepareStep)
        requires
            old(self).well_formed(),
        ensures
            old(self).decides(*final(self), schedule_blocked, deadline_elapsed, step),
    {
        let (ready_block_count, ready_transparent_input_count) =
            self.contiguous_completed_window_shape();
        let deadline_counts = self.is_coalescing && deadline_elapsed;
        if ready_block_count > 0 && (ready_block_count >= self.block_prepare_concurrency
            || ready_transparent_input_count >= PREVOUT_WINDOW_TARGET_TRANSPARENT_INPUTS
            || schedule_blocked || deadline_counts || (self.source_exhausted
            && self.in_flight_block_prepares == 0)) {
            let queued_blocks = self.take_contiguous_completed_block_prepares();
            self.is_coalescing = false;
            return BlockPrepareStep::ResolveWindow(queued_blocks);
        }
        let start_coalescing: Option<u64> = if ready_block_count > 0 && !self.is_coalescing {
            if self.next_completed_block_is_dense() {
                Some(DENSE_PREVOUT_COALESCE_DELAY_MILLIS)
            } else {
                Some(LIGHT_PREVOUT_COALESCE_DELAY_MILLIS)
            }
        } else {
            None
        };
        if ready_block_count > 0 {
            self.is_coalescing = true;
        }
        let accept_source = self.can_schedule_block_prepare();
        if !accept_source && self.in_flight_block_prepares == 0 {
            return BlockPrepareStep::Finished;
        }
        BlockPrepareStep::Await {
            accept_source,
            await_prepare: self.in_flight_block_prepares > 0,
            await_deadline: self.is_coalescing,
            start_coalescing,
        }
    }

    /// Whether `after` and `step` follow from what became of the next prepare.
    pub open spec fn follows(
        self,
        after: Self,
        schedule: PendingBlockPrepareSchedule,
        deadline_elapsed: bool,
        step: BlockPrepareStep,
    ) -> bool {
        match schedule {
            PendingBlockPrepareSchedule::Scheduled(prepare) => {
                step == BlockPrepareStep::Prepare(prepare) && after == self
            },
            PendingBlockPrepareSchedule::WatermarkBlocked => self.decides(
                after,
                true,
                deadline_elapsed,
                step,
            ),
            PendingBlockPrepareSchedule::Idle => self.decides(after, false, deadline_elapsed, step),
        }
    }

    /// Decides what is to happen once the next prepare was tried.
    pub fn follow_schedule(
        &mut self,
        schedule: PendingBlockPrepareSchedule,
        deadline_elapsed: bool,
    ) -> (step: BlockPrepareStep)
        requires
            old(self).well_formed(),
        ensures
            final(self).well_formed(),
            old(self).follows(*final(self), schedule, deadline_elapsed, step),
    {
        match schedule {
            PendingBlockPrepareSchedule::Scheduled(prepare) => BlockPrepareStep::Prepare(prepare),
            PendingBlockPrepareSchedule::WatermarkBlocked => self.decide(true, deadline_elapsed),
            PendingBlockPrepareSchedule::Idle => self.decide(false, deadline_elapsed),
        }
    }

    /// Decides what is to happen next: prepares start as far as the limits
    /// allow, then ready blocks leave together, or more work is awaited.
    ///
    /// `deadline_elapsed` says whether the coalescing deadline that was
    /// started last has passed.
    pub fn advance(&mut self, deadline_elapsed: bool) -> (step: BlockPrepareStep)
        requires
            old(self).well_formed(),
        ensures
            final(self).well_formed(),
            exists|scheduled: BlockPrepareStreamState, schedule: PendingBlockPrepareSchedule|
                #[trigger] old(self).schedules(scheduled, schedule) && scheduled.follows(
                    *final(self),
                    schedule,
                    deadline_elapsed,
                    step,
                ),
    {
        let ghost before = *self;
        let schedule = self.schedule_next_pending_block_prepare();
        let ghost scheduled = *self;
        assert(before.schedules(scheduled, schedule));
        self.follow_schedule(schedule, deadline_elapsed)
    }
}

proof fn lemma_contiguous_heights(
    completed: Map<u32, QueuedPreparedBlock>,
    next: BlockHeight,
    to_height: BlockHeight,
    i: int,
)
    requires
        0 <= i < contiguous(completed, Some(next), to_height).len(),
    ensures
        next.0 + i <= u32::MAX,
        completed.contains_key((next.0 + i) as u32),
        contiguous(completed, Some(next), to_height)[i] == completed[(next.0 + i) as u32],
    decreases i,
{
    let rest = contiguous(completed, next_within(next, to_height), to_height);
    assert(contiguous(completed, Some(next), to_height) =~= seq![completed[next.0]] + rest);
    if i > 0 {
        let above = next_within(next, to_height)->0;
        lemma_contiguous_heights(completed, above, to_height, i - 1);
    }
}

/// Blocks leave on ascending heights without a gap: the one at each position
/// of a window is the one completed at the next height to leave plus that position.
pub proof fn law_blocks_leave_without_gaps(
    state: BlockPrepareStreamState,
    after: BlockPrepareStreamState,
    blocks: Seq<QueuedPreparedBlock>,
    i: int,
)
    requires
        state.leaves(after, blocks),
        0 <= i < blocks.len(),
    ensures
        state.next_emit_height matches Some(next) && next.0 + i <= u32::MAX && blocks[i]
            == state.completed_block_prepares@[(next.0 + i) as u32],
{
    if state.next_emit_height is None {
        assert(state.ready().len() == 0);
    } else {
        lemma_contiguous_heights(
            state.completed_block_prepares@,
            state.next_emit_height->0,
            state.to_height,
            i,
        );
    }
}

/// A window never holds more blocks than are prepared at a time, and takes at
/// least one where one is ready.
pub proof fn law_window_size_is_bounded(
    state: BlockPrepareStreamState,
    after: BlockPrepareStreamState,
    blocks: Seq<QueuedPreparedBlock>,
)
    requires
        state.well_formed(),
        state.leaves(after, blocks),
    ensures
        blocks.len() <= state.block_prepare_concurrency,
        state.ready().len() > 0 ==> blocks.len() > 0,
{
}

/// The transparent inputs of a block, and of a window of blocks, are those of
/// its transactions, counted one by one.
pub proof fn law_inputs_are_counted_one_by_one(
    transactions: Seq<CanonicalTransactionFacts>,
    transaction: CanonicalTransactionFacts,
    before: PreparedCanonicalBlock,
    after: PreparedCanonicalBlock,
    blocks: Seq<QueuedPreparedBlock>,
    next: QueuedPreparedBlock,
)
    requires
        before.facts.transactions@ == transactions,
        after.facts.transactions@ == transactions.push(transaction),
        input_total(after) < usize::MAX,
        window_inputs(blocks.push(next)) < usize::MAX,
    ensures
        transactions.len() == 0 ==> input_total(before) == 0,
        input_total(after) == input_total(before) + transaction.transparent_inputs@.len(),
        window_inputs(Seq::empty()) == 0,
        window_inputs(blocks.push(next)) == window_inputs(blocks) + input_total(next.prepared),
{
    assert(transactions.push(transaction).drop_last() =~= transactions);
    assert(blocks.push(next).drop_last() =~= blocks);
    let inputs = |transaction: CanonicalTransactionFacts|
        transaction.transparent_inputs@.len() as int;
    crate::batch::lemma_total_is_nonnegative(transactions, inputs);
    let weights = |queued: QueuedPreparedBlock| input_total(queued.prepared);
    assert forall|queued: QueuedPreparedBlock| #[trigger] weights(queued) >= 0 by {
        crate::batch::lemma_total_is_nonnegative(queued.prepared.facts.transactions@, inputs);
    }
    crate::batch::lemma_total_is_nonnegative(blocks, weights);
    assert(weights(next) >= 0);
}

/// The next height within a range is one more, and there is none at its end.
pub proof fn law_next_height_stays_within_the_range(height: BlockHeight, to_height: BlockHeight)
    ensures
        match next_within(height, to_height) {
            Some(next) => next.0 == height.0 + 1 && height.0 < to_height.0,
            None => height.0 >= to_height.0,
        },
{
}

/// The blocks that are ready are those completed from the next height on,
/// without a gap: each stands at its height, and the run ends at the first
/// height that is missing or at the end of the range.
pub proof fn law_ready_blocks_stand_without_a_gap(
    completed: Map<u32, QueuedPreparedBlock>,
    next: BlockHeight,
    to_height: BlockHeight,
)
    requires
        next.0 <= to_height.0,
    ensures
        ({
            let ready = contiguous(completed, Some(next), to_height);
            &&& next.0 + ready.len() <= to_height.0 + 1
            &&& forall|height: u32|
                next.0 <= height < next.0 + ready.len() ==> #[trigger] completed.contains_key(
                    height,
                ) && ready[height - next.0] == completed[height]
            &&& next.0 + ready.len() == to_height.0 + 1 || !completed.contains_key(
                (next.0 + ready.len()) as u32,
            )
        }),
    decreases to_height.0 - next.0,
{
    let ready = contiguous(completed, Some(next), to_height);
    if completed.contains_key(next.0) {
        let after = next_within(next, to_height);
        let rest = contiguous(completed, after, to_height);
        assert(ready =~= seq![completed[next.0]] + rest);
        if let Some(following) = after {
            law_ready_blocks_stand_without_a_gap(completed, following, to_height);
            assert forall|height: u32|
                next.0 <= height < next.0 + ready.len() implies #[trigger] completed.contains_key(
                height,
            ) && ready[height - next.0] == completed[height] by {
                if height > next.0 {
                    assert(ready[height - next.0] == rest[height - following.0]);
                }
            }
            assert(following.0 + rest.len() == next.0 + ready.len());
        } else {
            assert(rest.len() == 0);
        }
    }
}

/// A run of blocks that leaves moves the next height on by as many, up to the
/// end of the range.
pub proof fn law_next_height_follows_the_blocks_that_left(
    next: BlockHeight,
    count: nat,
    to_height: BlockHeight,
)
    requires
        next.0 <= to_height.0,
    ensures
        match height_after_leaving(Some(next), count, to_height) {
            Some(height) => height.0 == next.0 + count && height.0 <= to_height.0,
            None => next.0 + count > to_height.0,
        },
        height_after_leaving(None, count, to_height) is None,
    decreases count,
{
    if count > 0 {
        law_next_height_follows_the_blocks_that_left(next, (count - 1) as nat, to_height);
    }
}

/// The blocks that left are no longer among the completed; every other one is.
pub proof fn law_only_the_blocks_that_left_are_gone(
    completed: Map<u32, QueuedPreparedBlock>,
    next: BlockHeight,
    count: nat,
    to_height: BlockHeight,
    height: u32,
)
    requires
        next.0 + count <= to_height.0 + 1,
    ensures
        ({
            let after = completed_after_leaving(completed, Some(next), count, to_height);
            &&& next.0 <= height < next.0 + count ==> !after.contains_key(height)
            &&& !(next.0 <= height < next.0 + count) ==> {
                &&& after.contains_key(height) <==> completed.contains_key(height)
                &&& after[height] == completed[height]
            }
        }),
    decreases count,
{
    if count > 0 {
        let fewer = (count - 1) as nat;
        law_only_the_blocks_that_left_are_gone(completed, next, fewer, to_height, height);
        law_next_height_follows_the_blocks_that_left(next, fewer, to_height);
    }
}

/// Each block that leaves gives back its resident bytes.
pub proof fn law_leaving_blocks_give_their_bytes_back(
    resident_bytes: u64,
    blocks: Seq<QueuedPreparedBlock>,
    next: QueuedPreparedBlock,
)
    ensures
        bytes_after_leaving(resident_bytes, Seq::empty()) == resident_bytes,
        bytes_after_leaving(resident_bytes, blocks) >= next.resident_bytes
            ==> bytes_after_leaving(resident_bytes, blocks.push(next)) == bytes_after_leaving(
            resident_bytes,
            blocks,
        ) - next.resident_bytes,
        bytes_after_leaving(resident_bytes, blocks) < next.resident_bytes ==> bytes_after_leaving(
            resident_bytes,
            blocks.push(next),
        ) == 0,
{
    assert(blocks.push(next).drop_last() =~= blocks);
}

/// A window is closed at the worker count, at the first block with which it
/// has 2048 inputs, or where no block is ready; it is not closed before.
pub proof fn law_window_closes_at_its_bound(
    ready: Seq<QueuedPreparedBlock>,
    concurrency: int,
    count: int,
)
    requires
        is_window_size(ready, concurrency, count),
    ensures
        0 <= count <= ready.len(),
        count <= concurrency,
        count < ready.len() && count < concurrency ==> count > 0 && window_inputs(
            ready.take(count),
        ) >= 2048,
        forall|k: int| 0 < k < count ==> #[trigger] window_inputs(ready.take(k)) < 2048,
{
}

/// Source blocks are accepted exactly where the source has not ended, no chunk
/// waits, and there is room both in flight and among the completed.
pub proof fn law_chunk_is_accepted_while_there_is_room(state: BlockPrepareStreamState)
    ensures
        state.accepts_source() <==> {
            &&& !state.source_exhausted
            &&& state.pending_source_chunk is None
            &&& state.in_flight_block_prepares < state.block_prepare_concurrency
            &&& state.completed_block_prepares@.len() < state.block_prepare_concurrency
        },
        state.pending_source_chunk matches Some(blocks) ==> waiting_blocks(
            state.pending_source_chunk,
        ) == blocks@,
        state.pending_source_chunk is None ==> waiting_blocks(state.pending_source_chunk).len()
            == 0,
{
}

/// A stream keeps its bounds, its completed blocks or its work exactly where
/// every part of them stays as it was.
pub proof fn law_prepare_stream_keeps_its_parts(
    after: BlockPrepareStreamState,
    before: BlockPrepareStreamState,
)
    ensures
        after.serves_request_of(before) <==> {
            &&& after.block_prepare_concurrency == before.block_prepare_concurrency
            &&& after.to_height == before.to_height
            &&& after.block_prepare_watermark.limit_bytes
                == before.block_prepare_watermark.limit_bytes
        },
        after.holds_completed_of(before) <==> {
            &&& after.completed_block_prepares@ == before.completed_block_prepares@
            &&& after.completed_block_prepare_resident_bytes
                == before.completed_block_prepare_resident_bytes
            &&& after.next_emit_height == before.next_emit_height
        },
        after.prepares_as(before) ==> {
            &&& waiting_blocks(after.pending_source_chunk) == waiting_blocks(
                before.pending_source_chunk,
            )
            &&& after.in_flight_block_prepares == before.in_flight_block_prepares
            &&& after.block_prepare_watermark@ == before.block_prepare_watermark@
            &&& after.recent_outputs@ == before.recent_outputs@
        },
        after.ends_one_prepare_of(before) ==> {
            &&& after.in_flight_block_prepares == before.in_flight_block_prepares - 1
            &&& after.next_emit_height == before.next_emit_height
            &&& after.pending_source_chunk == before.pending_source_chunk
            &&& after.recent_outputs@ == before.recent_outputs@
            &&& after.source_exhausted == before.source_exhausted
        },
{
}

/// The block that waits first is prepared where a worker is free and its peak
/// fits; it leaves the waiting ones, counts as one in flight and is known by
/// its height. Where it does not fit it goes on waiting.
pub proof fn law_first_waiting_block_is_prepared(
    state: BlockPrepareStreamState,
    after: BlockPrepareStreamState,
    schedule: PendingBlockPrepareSchedule,
)
    requires
        state.schedules(after, schedule),
    ensures
        ({
            let waiting = waiting_blocks(state.pending_source_chunk);
            &&& schedule is Idle <==> state.in_flight_block_prepares
                >= state.block_prepare_concurrency || waiting.len() == 0
            &&& schedule matches PendingBlockPrepareSchedule::Scheduled(scheduled) ==> {
                &&& waiting == seq![scheduled.source_block] + waiting_blocks(
                    after.pending_source_chunk,
                )
                &&& scheduled.ticket.height == scheduled.source_block.height
                &&& !scheduled.ticket.reservation.is_released
                &&& scheduled.ticket.reservation.bytes
                    == scheduled.ticket.estimated_peak_resident_bytes
                &&& after.in_flight_block_prepares == state.in_flight_block_prepares + 1
            }
            &&& schedule is WatermarkBlocked ==> {
                &&& waiting_blocks(after.pending_source_chunk) == waiting
                &&& after.in_flight_block_prepares == state.in_flight_block_prepares
            }
            &&& after.completed_block_prepares@ == state.completed_block_prepares@
            &&& after.next_emit_height == state.next_emit_height
        }),
{
    let waiting = waiting_blocks(state.pending_source_chunk);
    let capacity = choose|capacity: nat|
        (waiting.len() > 0 ==> capacity >= waiting[0].raw_block_bytes@.len())
            && #[trigger] state.schedules_with(after, schedule, capacity);
    assert(state.schedules_with(after, schedule, capacity));
    let bytes = crate::bulk_catchup::heap::peak_estimate(capacity as int) as u64;
    assert(bytes >= 1);
    if let PendingBlockPrepareSchedule::Scheduled(scheduled) = schedule {
        assert(waiting =~= seq![waiting[0]] + waiting.drop_first());
    }
}

/// A completed block stands under its height, with its envelope and its bytes;
/// its reservation is the larger one of the estimate and the bytes. A second
/// one at the height, or one beyond the range, is refused.
pub proof fn law_completed_block_stands_under_its_height(
    state: BlockPrepareStreamState,
    after: BlockPrepareStreamState,
    ticket: BlockPrepareTicket,
    prepared: PreparedCanonicalBlock,
    replay_envelope: CanonicalBlockReplayEnvelope,
    resident_bytes: u64,
    completed: Result<(), IngestError>,
)
    requires
        state.completes_with(
            after,
            ticket,
            prepared,
            replay_envelope,
            resident_bytes,
            completed,
        ),
    ensures
        completed is Ok <==> ticket.height.0 <= state.to_height.0
            && !state.completed_block_prepares@.contains_key(ticket.height.0),
        completed is Ok ==> {
            let queued = after.completed_block_prepares@[ticket.height.0];
            &&& after.completed_block_prepares@.dom() == state.completed_block_prepares@.dom().insert(
                ticket.height.0,
            )
            &&& queued.prepared == prepared
            &&& queued.replay_envelope == replay_envelope
            &&& queued.resident_bytes == resident_bytes
            &&& !queued.reservation.is_released
            &&& queued.reservation.bytes >= resident_bytes
            &&& queued.reservation.bytes >= ticket.estimated_peak_resident_bytes
        },
        ticket.height.0 > state.to_height.0 ==> after.completed_block_prepares@
            == state.completed_block_prepares@,
{
}

/// Ready blocks are resolved at once where they fill the workers or the window,
/// where preparing is blocked, where their delay has run out, or where no
/// other block comes.
pub proof fn law_ready_blocks_are_resolved_when_due(
    state: BlockPrepareStreamState,
    schedule_blocked: bool,
    deadline_elapsed: bool,
)
    ensures
        state.resolves_now(schedule_blocked, deadline_elapsed) <==> state.ready().len() > 0 && (
        state.ready().len() >= state.block_prepare_concurrency || window_inputs(state.ready())
            >= 2048 || schedule_blocked || (state.is_coalescing && deadline_elapsed) || (
        state.source_exhausted && state.in_flight_block_prepares == 0)),
{
}

/// A stream that resolves nothing waits for what can still come, with a delay
/// of 20 milliseconds for a block of at least 128 inputs and of 2 for another;
/// it ends where nothing can come.
pub proof fn law_stream_waits_for_what_can_come(
    state: BlockPrepareStreamState,
    after: BlockPrepareStreamState,
    schedule_blocked: bool,
    deadline_elapsed: bool,
    step: BlockPrepareStep,
)
    requires
        state.decides(after, schedule_blocked, deadline_elapsed, step),
    ensures
        step is ResolveWindow <==> state.resolves_now(schedule_blocked, deadline_elapsed),
        !(step is ResolveWindow) ==> {
            &&& step is Finished <==> !state.accepts_source() && state.in_flight_block_prepares
                == 0
            &&& step matches BlockPrepareStep::Await {
                accept_source,
                await_prepare,
                await_deadline,
                start_coalescing,
            } ==> {
                &&& accept_source == state.accepts_source()
                &&& await_prepare == (state.in_flight_block_prepares > 0)
                &&& await_deadline == (state.is_coalescing || state.ready().len() > 0)
                &&& start_coalescing is Some <==> state.ready().len() > 0 && !state.is_coalescing
                &&& start_coalescing matches Some(delay) ==> delay == if input_total(
                    state.ready()[0].prepared,
                ) >= 128 {
                    20u64
                } else {
                    2u64
                }
            }
            &&& after.completed_block_prepares@ == state.completed_block_prepares@
        },
        step matches BlockPrepareStep::ResolveWindow(blocks) ==> {
            &&& blocks@ == state.ready().take(blocks@.len() as int)
            &&& !after.is_coalescing
        },
{
}

/// A scheduled block is prepared before anything is decided.
pub proof fn law_scheduled_block_is_prepared_first(
    state: BlockPrepareStreamState,
    after: BlockPrepareStreamState,
    schedule: PendingBlockPrepareSchedule,
    deadline_elapsed: bool,
    step: BlockPrepareStep,
)
    requires
        state.follows(after, schedule, deadline_elapsed, step),
    ensures
        schedule matches PendingBlockPrepareSchedule::Scheduled(prepare) ==> step
            == BlockPrepareStep::Prepare(prepare) && after == state,
        schedule is WatermarkBlocked ==> state.decides(after, true, deadline_elapsed, step),
        schedule is Idle ==> state.decides(after, false, deadline_elapsed, step),
{
}

/// A window that leaves is taken from the ready blocks in order; the stream
/// goes on right behind it.
pub proof fn law_stream_goes_on_behind_the_window(
    state: BlockPrepareStreamState,
    after: BlockPrepareStreamState,
    blocks: Seq<QueuedPreparedBlock>,
)
    requires
        state.leaves(after, blocks),
        state.next_emit_height matches Some(next) && next.0 <= state.to_height.0,
    ensures
        blocks == state.ready().take(blocks.len() as int),
        match after.next_emit_height {
            Some(height) => height.0 == (state.next_emit_height->0).0 + blocks.len(),
            None => (state.next_emit_height->0).0 + blocks.len() > state.to_height.0,
        },
        after.in_flight_block_prepares == state.in_flight_block_prepares,
        waiting_blocks(after.pending_source_chunk) == waiting_blocks(state.pending_source_chunk),
{
    law_next_height_follows_the_blocks_that_left(
        state.next_emit_height->0,
        blocks.len(),
        state.to_height,
    );
}

/// Scheduling, deciding and leaving keep the range, the workers and the byte
/// limit of a stream, and leave it sound.
pub proof fn law_prepare_steps_keep_the_request(
    state: BlockPrepareStreamState,
    after: BlockPrepareStreamState,
    schedule: PendingBlockPrepareSchedule,
    blocks: Seq<QueuedPreparedBlock>,
    schedule_blocked: bool,
    deadline_elapsed: bool,
    step: BlockPrepareStep,
)
    requires
        state.schedules(after, schedule) || state.leaves(after, blocks) || state.decides(
            after,
            schedule_blocked,
            deadline_elapsed,
            step,
        ),
    ensures
        after.well_formed(),
        after.to_height == state.to_height,
        after.block_prepare_concurrency == state.block_prepare_concurrency,
        after.block_prepare_watermark.limit_bytes == state.block_prepare_watermark.limit_bytes,
        after.source_exhausted == state.source_exhausted,
{
    if state.schedules(after, schedule) {
        let waiting = waiting_blocks(state.pending_source_chunk);
        let capacity = choose|capacity: nat|
            (waiting.len() > 0 ==> capacity >= waiting[0].raw_block_bytes@.len())
                && #[trigger] state.schedules_with(after, schedule, capacity);
        assert(state.schedules_with(after, schedule, capacity));
    }
}

/// Scheduling keeps what is coalescing and what is completed, and takes from the
/// cache only what makes room for the block.
pub proof fn law_scheduling_takes_room_from_the_cache(
    state: BlockPrepareStreamState,
    after: BlockPrepareStreamState,
    schedule: PendingBlockPrepareSchedule,
    raw_block_capacity: nat,
)
    requires
        state.schedules_with(after, schedule, raw_block_capacity),
    ensures
        after.is_coalescing == state.is_coalescing,
        after.completed_block_prepare_resident_bytes
            == state.completed_block_prepare_resident_bytes,
        schedule is Idle ==> after.recent_outputs@ == state.recent_outputs@
            && after.block_prepare_watermark@ == state.block_prepare_watermark@
            && after.in_flight_block_prepares == state.in_flight_block_prepares && waiting_blocks(
            after.pending_source_chunk,
        ) == waiting_blocks(state.pending_source_chunk),
        !(schedule is Idle) ==> {
            let bytes = peak_estimate(raw_block_capacity as int) as u64;
            let (rest, free) = make_room(
                state.recent_outputs@,
                state.block_prepare_watermark@,
                bytes,
            );
            &&& after.recent_outputs@ == rest
            &&& schedule is Scheduled <==> free.grants(bytes)
            &&& schedule is Scheduled ==> after.block_prepare_watermark@ == free.reserved(bytes)
            &&& schedule is WatermarkBlocked ==> after.block_prepare_watermark@ == free
            &&& schedule matches PendingBlockPrepareSchedule::Scheduled(scheduled)
                ==> scheduled.ticket.estimated_peak_resident_bytes == bytes
                && after.pending_source_chunk is Some == (waiting_blocks(
                state.pending_source_chunk,
            ).len() > 1)
            &&& schedule is WatermarkBlocked ==> after.pending_source_chunk is Some
        },
{
}

/// A completed block is counted with its bytes; its reservation is resized, and
/// given back where the block is refused.
pub proof fn law_completed_block_is_kept_account_of(
    state: BlockPrepareStreamState,
    after: BlockPrepareStreamState,
    ticket: BlockPrepareTicket,
    prepared: PreparedCanonicalBlock,
    replay_envelope: CanonicalBlockReplayEnvelope,
    resident_bytes: u64,
    completed: Result<(), IngestError>,
)
    requires
        state.completes_with(
            after,
            ticket,
            prepared,
            replay_envelope,
            resident_bytes,
            completed,
        ),
    ensures
        ({
            let held = if ticket.estimated_peak_resident_bytes >= resident_bytes {
                ticket.estimated_peak_resident_bytes
            } else {
                resident_bytes
            };
            let resized = state.block_prepare_watermark@.resized(ticket.reservation.bytes, held);
            let beyond = ticket.height.0 > state.to_height.0;
            let twice = state.completed_block_prepares@.contains_key(ticket.height.0);
            &&& completed is Ok ==> after.block_prepare_watermark@ == resized
            &&& beyond && held >= 1 ==> after.block_prepare_watermark@ == resized.released(held)
            &&& beyond ==> after.completed_block_prepare_resident_bytes
                == state.completed_block_prepare_resident_bytes && after.next_emit_height
                == state.next_emit_height
            &&& !beyond && twice ==> after.block_prepare_watermark@ == resized.released(
                state.completed_block_prepares@[ticket.height.0].reservation.bytes,
            )
            &&& !beyond && state.completed_block_prepare_resident_bytes + resident_bytes
                <= u64::MAX ==> after.completed_block_prepare_resident_bytes
                == state.completed_block_prepare_resident_bytes + resident_bytes
            &&& beyond ==> completed is Err && is_mismatch(
                completed->Err_0,
                "prepared block completed outside the requested bulk-catchup range"@,
            )
            &&& !beyond && twice ==> completed is Err && is_mismatch(
                completed->Err_0,
                "prepared block completed twice during bulk catchup"@,
            )
        }),
{
}

/// A window that leaves is one of the size asked for; its blocks are no longer
/// among the completed, and nothing that is being prepared changes.
pub proof fn law_window_leaves_the_completed_blocks(
    state: BlockPrepareStreamState,
    after: BlockPrepareStreamState,
    blocks: Seq<QueuedPreparedBlock>,
)
    requires
        state.leaves(after, blocks),
    ensures
        is_window_size(
            state.ready(),
            state.block_prepare_concurrency as int,
            blocks.len() as int,
        ),
        after.completed_block_prepares@ == completed_after_leaving(
            state.completed_block_prepares@,
            state.next_emit_height,
            blocks.len(),
            state.to_height,
        ),
        after.completed_block_prepare_resident_bytes == bytes_after_leaving(
            state.completed_block_prepare_resident_bytes,
            blocks,
        ),
        after.block_prepare_watermark@ == state.block_prepare_watermark@,
        after.recent_outputs@ == state.recent_outputs@,
        after.pending_source_chunk is Some == state.pending_source_chunk is Some,
        state.ready() == contiguous(
            state.completed_block_prepares@,
            state.next_emit_height,
            state.to_height,
        ),
{
}

/// A sound stream has a worker, a sound cache and live reservations.
pub proof fn law_sound_prepare_stream_holds_live_reservations(
    state: BlockPrepareStreamState,
    height: u32,
)
    requires
        state.well_formed(),
    ensures
        state.block_prepare_concurrency >= 1,
        state.recent_outputs.well_formed(),
        state.completed_block_prepares@.contains_key(height)
            ==> !state.completed_block_prepares@[height].reservation.is_released,
{
}

} // verus!
