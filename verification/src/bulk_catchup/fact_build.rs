//! Concurrent fact building with one block leaving at a time.
//!
//! The leaner sibling of block preparation: blocks are derived concurrently,
//! leave in ascending height order, and give their bytes back as they leave.

use super::block_prepare::next_within;
use super::source_fetch::is_mismatch;
use super::watermark::{requested, ByteReservation, ByteWatermark};
use crate::artifact_builder::PreparedCanonicalBlock;
use crate::artifacts::SourceBlock;
use crate::batch::{clipped, transaction_blob_bytes, transaction_blob_total};
use crate::bounds::{capped, floored_difference, larger, usize_to_u64_saturating, NonZeroU64};
use crate::errors::{IngestError, SourceError};
use crate::ids::BlockHeight;
use std::collections::{BTreeMap, VecDeque};
use vstd::prelude::*;

verus! {

/// Bytes of a derived block's payloads, given the size of its encoded compact block.
pub open spec fn derived_bytes(
    derived: PreparedCanonicalBlock,
    compact_block_encoded_len: int,
) -> int {
    clipped(
        (match derived.facts.raw_block_bytes {
            Some(bytes) => bytes@.len() as int,
            None => 0,
        }) + compact_block_encoded_len + transaction_blob_total(derived.facts.transactions@),
    )
}

/// Measures a derived block's payloads, given the size of its encoded compact block.
pub fn derived_block_artifact_bytes(
    derived: &PreparedCanonicalBlock,
    compact_block_encoded_len: usize,
) -> (bytes: u64)
    ensures
        bytes == derived_bytes(*derived, compact_block_encoded_len as int),
{
    let block_blob_bytes: usize = match &derived.facts.raw_block_bytes {
        Some(bytes) => bytes.len(),
        None => 0,
    };
    usize_to_u64_saturating(
        block_blob_bytes.saturating_add(compact_block_encoded_len).saturating_add(
            transaction_blob_bytes(&derived.facts.transactions),
        ),
    )
}

/// What a build in flight holds of the stage.
#[derive(Debug)]
pub struct FactBuildTicket {
    pub height: BlockHeight,
    pub reservation: ByteReservation,
}

/// A derived block that waits for its turn.
#[derive(Debug)]
pub struct QueuedDerivedBlock {
    pub derived: PreparedCanonicalBlock,
    pub artifact_bytes: u64,
    pub reservation: ByteReservation,
}

/// What is to happen next for derived blocks to flow.
#[derive(Debug)]
pub enum FactBuildStep {
    /// The next block of the chain.
    Emit(PreparedCanonicalBlock),
    /// A block is to be derived, concurrently with those already in flight.
    Build { source_block: SourceBlock, ticket: FactBuildTicket },
    /// A source block or a build in flight is to be awaited.
    Await { accept_source: bool, await_build: bool },
    /// No block is left.
    Finished,
}

/// Builds in flight and derived blocks that wait for their turn.
#[derive(Debug)]
pub struct FactBuildStreamState {
    pub completed_fact_builds: BTreeMap<u32, QueuedDerivedBlock>,
    pub completed_fact_build_bytes: u64,
    pub pending_source_blocks: VecDeque<SourceBlock>,
    pub in_flight_fact_builds: usize,
    pub fact_build_concurrency: usize,
    pub fact_build_watermark: ByteWatermark,
    pub next_emit_height: Option<BlockHeight>,
    pub to_height: BlockHeight,
    pub source_exhausted: bool,
}

/// Bytes reserved for deriving a block.
pub open spec fn build_estimate(source_block: SourceBlock) -> u64 {
    larger(source_block.raw_block_bytes@.len() as int, 1) as u64
}

impl FactBuildStreamState {
    /// Whether the state is one the stage can be in.
    pub open spec fn well_formed(self) -> bool {
        &&& self.fact_build_concurrency >= 1
        &&& forall|height: u32| #[trigger]
            self.completed_fact_builds@.contains_key(height)
                ==> !self.completed_fact_builds@[height].reservation.is_released
    }

    /// Whether more source blocks may be taken in.
    pub open spec fn accepts_source(self) -> bool {
        &&& !self.source_exhausted
        &&& self.pending_source_blocks@.len() == 0
        &&& self.in_flight_fact_builds < self.fact_build_concurrency
        &&& self.completed_fact_builds@.len() < self.fact_build_concurrency
    }

    /// Block that leaves next, if it was derived already.
    pub open spec fn block_in_turn(self) -> Option<QueuedDerivedBlock> {
        match self.next_emit_height {
            Some(height) => if self.completed_fact_builds@.contains_key(height.0) {
                Some(self.completed_fact_builds@[height.0])
            } else {
                None
            },
            None => None,
        }
    }

    /// Whether the limits of the stage are those of another state.
    pub open spec fn serves_request_of(self, other: Self) -> bool {
        &&& self.fact_build_concurrency == other.fact_build_concurrency
        &&& self.to_height == other.to_height
        &&& self.fact_build_watermark.limit_bytes == other.fact_build_watermark.limit_bytes
    }

    /// Whether the derived blocks are those of another state.
    pub open spec fn holds_completed_of(self, other: Self) -> bool {
        &&& self.completed_fact_builds@ == other.completed_fact_builds@
        &&& self.completed_fact_build_bytes == other.completed_fact_build_bytes
        &&& self.next_emit_height == other.next_emit_height
    }

    /// Whether a build of a block can start.
    pub open spec fn can_build(self, source_block: SourceBlock) -> bool {
        &&& self.in_flight_fact_builds < self.fact_build_concurrency
        &&& self.fact_build_watermark@.grants(build_estimate(source_block))
    }

    /// Whether `after` is `self` with one more build in flight.
    pub open spec fn builds(
        self,
        after: Self,
        source_block: SourceBlock,
        ticket: FactBuildTicket,
    ) -> bool {
        &&& self.can_build(source_block)
        &&& ticket.height == source_block.height
        &&& ticket.reservation.bytes == requested(build_estimate(source_block))
        &&& !ticket.reservation.is_released
        &&& after.in_flight_fact_builds == self.in_flight_fact_builds + 1
        &&& after.fact_build_watermark@ == self.fact_build_watermark@.reserved(
            build_estimate(source_block),
        )
    }

    /// Starts without work in flight; at least one block is derived at a time.
    pub fn new(
        from_height: BlockHeight,
        to_height: BlockHeight,
        fact_build_concurrency: usize,
        fact_build_max_in_flight_artifact_bytes: NonZeroU64,
    ) -> (state: Self)
        ensures
            state.well_formed(),
            state.completed_fact_builds@ == Map::<u32, QueuedDerivedBlock>::empty(),
            state.completed_fact_build_bytes == 0,
            state.pending_source_blocks@.len() == 0,
            state.in_flight_fact_builds == 0,
            state.fact_build_concurrency == larger(fact_build_concurrency as int, 1),
            state.fact_build_watermark.limit_bytes == fact_build_max_in_flight_artifact_bytes,
            state.fact_build_watermark@.reserved_bytes == 0,
            state.fact_build_watermark@.reservations == 0,
            state.next_emit_height == Some(from_height),
            state.to_height == to_height,
            !state.source_exhausted,
    {
        FactBuildStreamState {
            completed_fact_builds: BTreeMap::new(),
            completed_fact_build_bytes: 0,
            pending_source_blocks: VecDeque::new(),
            in_flight_fact_builds: 0,
            fact_build_concurrency: if fact_build_concurrency >= 1 {
                fact_build_concurrency
            } else {
                1
            },
            fact_build_watermark: ByteWatermark::new(fact_build_max_in_flight_artifact_bytes),
            next_emit_height: Some(from_height),
            to_height,
            source_exhausted: false,
        }
    }

    /// Returns whether more source blocks may be taken in.
    pub fn can_schedule_fact_build(&self) -> (can: bool)
        ensures
            can == self.accepts_source(),
    {
        !self.source_exhausted && self.pending_source_blocks.len() == 0
            && self.in_flight_fact_builds < self.fact_build_concurrency
            && self.completed_fact_builds.len() < self.fact_build_concurrency
    }

    /// Tries to start the build of a block.
    pub fn schedule_fact_build(&mut self, source_block: &SourceBlock) -> (ticket: Option<
        FactBuildTicket,
    >)
        requires
            old(self).well_formed(),
        ensures
            final(self).well_formed(),
            final(self).serves_request_of(*old(self)),
            final(self).holds_completed_of(*old(self)),
            final(self).pending_source_blocks@ == old(self).pending_source_blocks@,
            final(self).source_exhausted == old(self).source_exhausted,
            match ticket {
                Some(ticket) => old(self).builds(*final(self), *source_block, ticket),
                None => !old(self).can_build(*source_block) && *final(self) == *old(self),
            },
    {
        if self.in_flight_fact_builds >= self.fact_build_concurrency {
            return None;
        }
        let length: usize = source_block.raw_block_bytes.len();
        let estimated_artifact_bytes: usize = if length >= 1 {
            length
        } else {
            1
        };
        match self.fact_build_watermark.try_reserve(
            usize_to_u64_saturating(estimated_artifact_bytes),
        ) {
            Some(reservation) => {
                self.in_flight_fact_builds = self.in_flight_fact_builds + 1;
                Some(FactBuildTicket { height: source_block.height, reservation })
            },
            None => None,
        }
    }

    /// Takes in a source block: its build starts, or it waits at the front.
    pub fn accept_source_block(&mut self, source_block: SourceBlock) -> (started: Option<
        (SourceBlock, FactBuildTicket),
    >)
        requires
            old(self).well_formed(),
        ensures
            final(self).well_formed(),
            final(self).serves_request_of(*old(self)),
            final(self).holds_completed_of(*old(self)),
            final(self).source_exhausted == old(self).source_exhausted,
            match started {
                Some((started, ticket)) => {
                    &&& started == source_block
                    &&& old(self).builds(*final(self), source_block, ticket)
                    &&& final(self).pending_source_blocks@ == old(self).pending_source_blocks@
                },
                None => {
                    &&& !old(self).can_build(source_block)
                    &&& final(self).pending_source_blocks@ == seq![source_block] + old(
                        self,
                    ).pending_source_blocks@
                    &&& final(self).in_flight_fact_builds == old(self).in_flight_fact_builds
                    &&& final(self).fact_build_watermark@ == old(self).fact_build_watermark@
                },
            },
    {
        let ghost pending = self.pending_source_blocks@;
        match self.schedule_fact_build(&source_block) {
            Some(ticket) => Some((source_block, ticket)),
            None => {
                let ghost waiting = source_block;
                self.pending_source_blocks.push_front(source_block);
                assert(self.pending_source_blocks@ =~= seq![waiting] + pending);
                None
            },
        }
    }

    /// Notes that no more source blocks come.
    pub fn accept_source_end(&mut self)
        requires
            old(self).well_formed(),
        ensures
            *final(self) == (FactBuildStreamState { source_exhausted: true, ..*old(self) }),
    {
        self.source_exhausted = true;
    }

    /// Ends one build in flight. A failed one gives its bytes back; a
    /// completed one holds the bytes of its payloads and waits for its turn.
    pub fn complete_fact_build(
        &mut self,
        ticket: FactBuildTicket,
        outcome: Result<(PreparedCanonicalBlock, usize), IngestError>,
    ) -> (completed: Result<(), IngestError>)
        requires
            old(self).well_formed(),
            old(self).in_flight_fact_builds > 0,
            !ticket.reservation.is_released,
        ensures
            final(self).well_formed(),
            final(self).serves_request_of(*old(self)),
            final(self).next_emit_height == old(self).next_emit_height,
            final(self).pending_source_blocks@ == old(self).pending_source_blocks@,
            final(self).in_flight_fact_builds == old(self).in_flight_fact_builds - 1,
            final(self).source_exhausted == old(self).source_exhausted,
            match outcome {
                Err(error) => {
                    &&& completed == Err::<(), IngestError>(error)
                    &&& final(self).holds_completed_of(*old(self))
                    &&& final(self).fact_build_watermark@ == old(
                        self,
                    ).fact_build_watermark@.released(ticket.reservation.bytes)
                },
                Ok((derived, compact_block_encoded_len)) => {
                    let bytes = derived_bytes(derived, compact_block_encoded_len as int) as u64;
                    let queued = QueuedDerivedBlock {
                        derived,
                        artifact_bytes: bytes,
                        reservation: ByteReservation {
                            bytes: requested(bytes) as u64,
                            is_released: false,
                        },
                    };
                    let free = old(self).fact_build_watermark@.resized(
                        ticket.reservation.bytes,
                        bytes,
                    );
                    if ticket.height.0 > old(self).to_height.0 {
                        &&& completed matches Err(error)
                        &&& is_mismatch(
                            error,
                            "derived block completed outside the requested bulk-catchup range"@,
                        )
                        &&& final(self).holds_completed_of(*old(self))
                        &&& final(self).fact_build_watermark@ == free.released(
                            queued.reservation.bytes,
                        )
                    } else {
                        &&& final(self).completed_fact_builds@ == old(
                            self,
                        ).completed_fact_builds@.insert(ticket.height.0, queued)
                        &&& final(self).completed_fact_build_bytes == capped(
                            old(self).completed_fact_build_bytes + bytes,
                            u64::MAX as int,
                        )
                        &&& if old(self).completed_fact_builds@.contains_key(ticket.height.0) {
                            &&& completed matches Err(error)
                            &&& is_mismatch(
                                error,
                                "derived block completed twice during bulk catchup"@,
                            )
                            &&& final(self).fact_build_watermark@ == free.released(
                                old(self).completed_fact_builds@[
                                    ticket.height.0
                                ].reservation.bytes,
                            )
                        } else {
                            completed is Ok && final(self).fact_build_watermark@ == free
                        }
                    }
                },
            },
    {
        let FactBuildTicket { height, reservation } = ticket;
        let mut reservation = reservation;
        self.in_flight_fact_builds = self.in_flight_fact_builds - 1;
        let (derived, compact_block_encoded_len) = match outcome {
            Ok(outcome) => outcome,
            Err(error) => {
                self.fact_build_watermark.release(&mut reservation);
                return Err(error);
            },
        };
        let artifact_bytes: u64 = derived_block_artifact_bytes(
            &derived,
            compact_block_encoded_len,
        );
        self.fact_build_watermark.resize(&mut reservation, artifact_bytes);
        if height.value() > self.to_height.value() {
            self.fact_build_watermark.release(&mut reservation);
            return Err(
                IngestError::Source(
                    SourceError::SourceProtocolMismatch {
                        cause: "derived block completed outside the requested bulk-catchup range",
                    },
                ),
            );
        }
        let ghost before = self.completed_fact_builds@;
        self.completed_fact_build_bytes =
        self.completed_fact_build_bytes.saturating_add(artifact_bytes);
        let queued = QueuedDerivedBlock { derived, artifact_bytes, reservation };
        assert(queued.reservation == (ByteReservation {
            bytes: requested(artifact_bytes) as u64,
            is_released: false,
        }));
        let replaced = self.completed_fact_builds.insert(height.value(), queued);
        assert forall|other: u32| #[trigger]
            self.completed_fact_builds@.contains_key(
                other,
            ) implies !self.completed_fact_builds@[other].reservation.is_released by {
            if other != height.0 {
                assert(before.contains_key(other));
            }
        }
        match replaced {
            Some(replaced) => {
                let mut replaced_reservation = replaced.reservation;
                self.fact_build_watermark.release(&mut replaced_reservation);
                Err(
                    IngestError::Source(
                        SourceError::SourceProtocolMismatch {
                            cause: "derived block completed twice during bulk catchup",
                        },
                    ),
                )
            },
            None => Ok(()),
        }
    }

    /// Decides what is to happen next: the block in turn leaves first, then a
    /// waiting source block is built, or more work is awaited.
    pub fn advance(&mut self) -> (step: FactBuildStep)
        requires
            old(self).well_formed(),
        ensures
            final(self).well_formed(),
            final(self).serves_request_of(*old(self)),
            final(self).source_exhausted == old(self).source_exhausted,
            match old(self).block_in_turn() {
                Some(queued) => {
                    let height = old(self).next_emit_height->0;
                    &&& step == FactBuildStep::Emit(queued.derived)
                    &&& final(self).completed_fact_builds@ == old(
                        self,
                    ).completed_fact_builds@.remove(height.0)
                    &&& final(self).next_emit_height == next_within(height, old(self).to_height)
                    &&& final(self).completed_fact_build_bytes == floored_difference(
                        old(self).completed_fact_build_bytes as int,
                        queued.artifact_bytes as int,
                    )
                    &&& final(self).fact_build_watermark@ == old(
                        self,
                    ).fact_build_watermark@.released(queued.reservation.bytes)
                    &&& final(self).pending_source_blocks@ == old(self).pending_source_blocks@
                    &&& final(self).in_flight_fact_builds == old(self).in_flight_fact_builds
                },
                None => {
                    let pending = old(self).pending_source_blocks@;
                    &&& final(self).holds_completed_of(*old(self))
                    &&& if pending.len() > 0 && old(self).can_build(pending[0]) {
                        &&& step matches FactBuildStep::Build { source_block, ticket }
                        &&& source_block == pending[0]
                        &&& old(self).builds(*final(self), source_block, ticket)
                        &&& final(self).pending_source_blocks@ == pending.drop_first()
                    } else {
                        &&& final(self).pending_source_blocks@ == pending
                        &&& final(self).in_flight_fact_builds == old(self).in_flight_fact_builds
                        &&& final(self).fact_build_watermark@ == old(self).fact_build_watermark@
                        &&& step == if !old(self).accepts_source() && old(
                            self,
                        ).in_flight_fact_builds == 0 {
                            FactBuildStep::Finished
                        } else {
                            FactBuildStep::Await {
                                accept_source: old(self).accepts_source(),
                                await_build: old(self).in_flight_fact_builds > 0,
                            }
                        }
                    }
                },
            },
    {
        let ghost before = *self;
        if let Some(next_emit_height) = self.next_emit_height {
            let ghost completed = self.completed_fact_builds@;
            if let Some(queued) = self.completed_fact_builds.remove(&next_emit_height.value()) {
                let QueuedDerivedBlock { derived, artifact_bytes, reservation } = queued;
                let mut reservation = reservation;
                self.next_emit_height =
                match next_emit_height.next() {
                    Some(height) => if height.value() <= self.to_height.value() {
                        Some(height)
                    } else {
                        None
                    },
                    None => None,
                };
                self.completed_fact_build_bytes =
                self.completed_fact_build_bytes.saturating_sub(artifact_bytes);
                self.fact_build_watermark.release(&mut reservation);
                assert forall|height: u32| #[trigger]
                    self.completed_fact_builds@.contains_key(
                        height,
                    ) implies !self.completed_fact_builds@[height].reservation.is_released by {
                    assert(completed.contains_key(height));
                }
                return FactBuildStep::Emit(derived);
            }
            assert(self.completed_fact_builds@ =~= completed);
        }
        let ghost pending = self.pending_source_blocks@;
        if let Some(source_block) = self.pending_source_blocks.pop_front() {
            assert(self.pending_source_blocks@ =~= pending.drop_first());
            match self.schedule_fact_build(&source_block) {
                Some(ticket) => {
                    return FactBuildStep::Build { source_block, ticket };
                },
                None => {
                    self.pending_source_blocks.push_front(source_block);
                    assert(self.pending_source_blocks@ =~= pending);
                },
            }
        }
        let accept_source = self.can_schedule_fact_build();
        if !accept_source && self.in_flight_fact_builds == 0 {
            return FactBuildStep::Finished;
        }
        FactBuildStep::Await { accept_source, await_build: self.in_flight_fact_builds > 0 }
    }
}

/// Derived blocks leave on ascending heights without a gap: after a block
/// left, the next one to leave stands right above it.
pub proof fn law_derived_blocks_leave_in_order(
    next_emit_height: BlockHeight,
    to_height: BlockHeight,
)
    ensures
        match next_within(next_emit_height, to_height) {
            Some(next) => next.0 == next_emit_height.0 + 1 && next.0 <= to_height.0,
            None => next_emit_height.0 >= to_height.0,
        },
{
}

/// A derived block weighs its raw bytes, its encoded compact block and the raw
/// bytes that its transactions kept.
pub proof fn law_derived_block_weighs_its_payloads(
    derived: PreparedCanonicalBlock,
    compact_block_encoded_len: int,
)
    ensures
        ({
            let blobs = transaction_blob_total(derived.facts.transactions@);
            let weight = match derived.facts.raw_block_bytes {
                Some(bytes) => bytes@.len() + compact_block_encoded_len + blobs,
                None => compact_block_encoded_len + blobs,
            };
            &&& weight <= usize::MAX ==> derived_bytes(derived, compact_block_encoded_len)
                == weight
            &&& weight > usize::MAX ==> derived_bytes(derived, compact_block_encoded_len)
                == usize::MAX
        }),
{
}

/// A source block is estimated at its raw length, and at one byte at least.
pub proof fn law_source_block_is_estimated_at_its_length(source_block: SourceBlock)
    requires
        source_block.raw_block_bytes@.len() <= u64::MAX,
    ensures
        build_estimate(source_block) >= 1,
        source_block.raw_block_bytes@.len() >= 1 ==> build_estimate(source_block)
            == source_block.raw_block_bytes@.len(),
{
}

/// A source block is accepted exactly where the source has not ended, none
/// waits, and there is room both in flight and among the completed.
pub proof fn law_source_is_accepted_while_there_is_room(state: FactBuildStreamState)
    ensures
        state.accepts_source() <==> {
            &&& !state.source_exhausted
            &&& state.pending_source_blocks@.len() == 0
            &&& state.in_flight_fact_builds < state.fact_build_concurrency
            &&& state.completed_fact_builds@.len() < state.fact_build_concurrency
        },
{
}

/// The block in turn is the completed one at the next height, and no other.
pub proof fn law_block_in_turn_is_the_next_one(state: FactBuildStreamState)
    ensures
        match state.block_in_turn() {
            Some(queued) => {
                &&& state.next_emit_height matches Some(height)
                &&& state.completed_fact_builds@.contains_key(height.0)
                &&& state.completed_fact_builds@[height.0] == queued
            },
            None => state.next_emit_height matches Some(height)
                ==> !state.completed_fact_builds@.contains_key(height.0),
        },
{
}

/// A build starts exactly where a worker is free and its bytes are granted; it
/// counts as one in flight, holds a reservation of its estimate, and is known
/// by the height of its block.
pub proof fn law_build_takes_a_worker_and_its_bytes(
    before: FactBuildStreamState,
    after: FactBuildStreamState,
    source_block: SourceBlock,
    ticket: FactBuildTicket,
)
    requires
        before.builds(after, source_block, ticket),
        source_block.raw_block_bytes@.len() <= u64::MAX,
    ensures
        before.in_flight_fact_builds < before.fact_build_concurrency,
        after.in_flight_fact_builds == before.in_flight_fact_builds + 1,
        ticket.height == source_block.height,
        !ticket.reservation.is_released,
        source_block.raw_block_bytes@.len() >= 1 ==> ticket.reservation.bytes
            == source_block.raw_block_bytes@.len(),
        source_block.raw_block_bytes@.len() == 0 ==> ticket.reservation.bytes == 1,
{
}

/// A stream that serves the same request keeps its bounds and its end.
pub proof fn law_stream_keeps_its_bounds(after: FactBuildStreamState, before: FactBuildStreamState)
    ensures
        after.serves_request_of(before) <==> {
            &&& after.fact_build_concurrency == before.fact_build_concurrency
            &&& after.to_height == before.to_height
            &&& after.fact_build_watermark.limit_bytes == before.fact_build_watermark.limit_bytes
        },
        after.holds_completed_of(before) <==> {
            &&& after.completed_fact_builds@ == before.completed_fact_builds@
            &&& after.completed_fact_build_bytes == before.completed_fact_build_bytes
            &&& after.next_emit_height == before.next_emit_height
        },
        before.well_formed() ==> before.fact_build_concurrency >= 1,
        before.well_formed() ==> forall|height: u32|
            before.completed_fact_builds@.contains_key(height) ==> !(
            #[trigger] before.completed_fact_builds@[height]).reservation.is_released,
{
}

/// A block can be built exactly where a worker is free and the watermark grants
/// its estimate.
pub proof fn law_build_needs_a_worker_and_its_bytes(
    state: FactBuildStreamState,
    source_block: SourceBlock,
)
    ensures
        state.can_build(source_block) <==> state.in_flight_fact_builds
            < state.fact_build_concurrency && state.fact_build_watermark@.grants(
            build_estimate(source_block),
        ),
{
}

/// A started build reserves its estimate.
pub proof fn law_started_build_reserves_its_estimate(
    before: FactBuildStreamState,
    after: FactBuildStreamState,
    source_block: SourceBlock,
    ticket: FactBuildTicket,
)
    requires
        before.builds(after, source_block, ticket),
        source_block.raw_block_bytes@.len() <= u64::MAX,
    ensures
        before.fact_build_watermark@.grants(build_estimate(source_block)),
        after.fact_build_watermark@ == before.fact_build_watermark@.reserved(
            build_estimate(source_block),
        ),
        after.fact_build_watermark@.reserved_bytes == before.fact_build_watermark@.reserved_bytes
            + ticket.reservation.bytes,
{
}

} // verus!
