//! Adaptive sizing of source-chain segments.

use crate::bounds::{capped, larger, nonzero_u32, NonZeroU32, NonZeroU64};
use crate::ids::{BlockHeight, Network};
use crate::text::same_text;
use std::collections::VecDeque;
use vstd::prelude::*;

verus! {

/// Density samples a sizer remembers.
pub const SOURCE_SEGMENT_DENSITY_SAMPLE_LIMIT: usize = 64;

/// Segments in a row that must succeed before the next one grows.
pub const SOURCE_SEGMENT_GROW_AFTER_SUCCESS_COUNT: u32 = 8;

/// Growth of a segment: five blocks for every four.
pub const SOURCE_SEGMENT_GROW_NUMERATOR: u32 = 5;

/// Growth of a segment: five blocks for every four.
pub const SOURCE_SEGMENT_GROW_DENOMINATOR: u32 = 4;

/// Identifier of one set of consensus rules.
#[derive(Clone, Copy, Debug, PartialEq, Eq, Structural)]
pub struct ConsensusBranchId(pub u32);

/// Height at which one set of consensus rules takes over.
#[derive(Debug, PartialEq, Eq)]
pub struct NetworkUpgradeActivation {
    pub branch_id: ConsensusBranchId,
    pub activation_height: BlockHeight,
    pub name: String,
}

/// Consensus upgrades of one network, in the order in which they take over.
#[derive(Debug, PartialEq, Eq)]
pub struct NetworkUpgradeActivations {
    pub network: Network,
    pub activations: Vec<NetworkUpgradeActivation>,
}

/// Rules of the last upgrade of a sequence that a height has reached, or the
/// genesis rules.
pub open spec fn branch_at(
    activations: Seq<NetworkUpgradeActivation>,
    height: BlockHeight,
) -> ConsensusBranchId
    decreases activations.len(),
{
    if activations.len() == 0 {
        ConsensusBranchId(0)
    } else if activations.last().activation_height.0 <= height.0 {
        activations.last().branch_id
    } else {
        branch_at(activations.drop_last(), height)
    }
}

/// Height at which the first upgrade of a name in a sequence takes over.
pub open spec fn activation_named(
    activations: Seq<NetworkUpgradeActivation>,
    name: Seq<char>,
) -> Option<BlockHeight>
    decreases activations.len(),
{
    if activations.len() == 0 {
        None
    } else if activations.first().name@ == name {
        Some(activations.first().activation_height)
    } else {
        activation_named(activations.drop_first(), name)
    }
}

impl NetworkUpgradeActivations {
    /// Returns a network without upgrades.
    pub fn empty(network: Network) -> (activations: Self)
        ensures
            activations.network == network,
            activations.activations@.len() == 0,
    {
        NetworkUpgradeActivations { network, activations: Vec::new() }
    }

    /// Height at which the first upgrade of a name takes over.
    pub open spec fn activation_by_name(self, name: Seq<char>) -> Option<BlockHeight> {
        activation_named(self.activations@, name)
    }

    /// Returns the height at which the first upgrade of a name takes over.
    pub fn activation_height_by_name(&self, name: &str) -> (height: Option<BlockHeight>)
        ensures
            height == self.activation_by_name(name@),
    {
        let mut i: usize = self.activations.len();
        let mut found: Option<BlockHeight> = None;
        assert(self.activations@.skip(i as int) =~= Seq::<NetworkUpgradeActivation>::empty());
        while i > 0
            invariant
                0 <= i <= self.activations@.len(),
                found == activation_named(self.activations@.skip(i as int), name@),
            decreases i,
        {
            i -= 1;
            let ghost rest = self.activations@.skip(i as int);
            assert(rest.drop_first() =~= self.activations@.skip(i + 1));
            if same_text(self.activations[i].name.as_str(), name) {
                found = Some(self.activations[i].activation_height);
            }
        }
        assert(self.activations@.skip(0) =~= self.activations@);
        found
    }

    /// Returns the consensus rules in force at a height.
    pub fn consensus_branch_id_at(&self, height: BlockHeight) -> (branch_id: ConsensusBranchId)
        ensures
            branch_id == branch_at(self.activations@, height),
    {
        let mut i: usize = self.activations.len();
        assert(self.activations@.take(i as int) =~= self.activations@);
        while i > 0
            invariant
                0 <= i <= self.activations@.len(),
                branch_at(self.activations@.take(i as int), height) == branch_at(
                    self.activations@,
                    height,
                ),
            decreases i,
        {
            i -= 1;
            assert(self.activations@.take(i + 1).drop_last() =~= self.activations@.take(i as int));
            if self.activations[i].activation_height.value() <= height.value() {
                return self.activations[i].branch_id;
            }
        }
        ConsensusBranchId(0)
    }
}

/// Measurements of one fetched segment.
#[derive(Clone, Copy, Debug, PartialEq, Eq, Structural)]
pub struct SourceChainSegmentStats {
    /// Bytes of the response bodies, or zero where they were not measured.
    pub response_payload_bytes: u64,
    /// Blocks the segment connected.
    pub connected_blocks: u32,
    /// Times the request was split because its response was too large.
    pub split_count: u32,
}

/// Response bytes that one remembered segment took.
#[derive(Clone, Copy, Debug, PartialEq, Eq, Structural)]
pub struct SourceSegmentDensitySample {
    pub response_payload_bytes: u64,
    pub connected_blocks: u32,
}

/// Response bytes per block, rounded up.
pub open spec fn density(response_payload_bytes: u64, connected_blocks: u32) -> int {
    capped(response_payload_bytes + connected_blocks - 1, u64::MAX as int) / (
    connected_blocks as int)
}

/// Densities of the remembered segments.
pub open spec fn densities(samples: Seq<SourceSegmentDensitySample>) -> Seq<int> {
    samples.map_values(
        |sample: SourceSegmentDensitySample|
            density(sample.response_payload_bytes, sample.connected_blocks),
    )
}

/// Number of amounts that are below a bound.
pub open spec fn count_below(amounts: Seq<int>, bound: int) -> int
    decreases amounts.len(),
{
    if amounts.len() == 0 {
        0
    } else {
        count_below(amounts.drop_last(), bound) + (if amounts.last() < bound {
            1int
        } else {
            0
        })
    }
}

/// Whether an amount stands at a position once the amounts are sorted.
pub open spec fn stands_at(amounts: Seq<int>, position: int, amount: int) -> bool {
    &&& amounts.contains(amount)
    &&& count_below(amounts, amount) <= position < count_below(amounts, amount + 1)
}

/// Position of the 95th percentile among some sorted amounts.
pub open spec fn percentile_position(count: int) -> int {
    (count * 95 + 99) / 100 - 1
}

/// State of a sizer.
#[verifier::ext_equal]
pub struct SizerState {
    pub max_blocks: int,
    pub target_response_payload_bytes: int,
    pub current_blocks: int,
    pub success_count: u32,
    pub overshoot_clear_success_count: u32,
    pub overshoot_bytes_per_block: Option<u64>,
    pub active_branch_id: ConsensusBranchId,
    pub samples: Seq<SourceSegmentDensitySample>,
}

/// 95th percentile of the remembered densities, if there are any.
pub open spec fn high_density(samples: Seq<SourceSegmentDensitySample>) -> Option<int> {
    if samples.len() == 0 {
        None
    } else {
        Some(
            choose|amount: int|
                #[trigger] stands_at(
                    densities(samples),
                    percentile_position(samples.len() as int),
                    amount,
                ),
        )
    }
}

impl SizerState {
    /// Whether the state is one a sizer can be in.
    pub open spec fn well_formed(self) -> bool {
        &&& 1 <= self.current_blocks <= self.max_blocks <= u32::MAX
        &&& 1 <= self.target_response_payload_bytes <= u64::MAX
        &&& self.success_count < SOURCE_SEGMENT_GROW_AFTER_SUCCESS_COUNT
        &&& self.overshoot_clear_success_count < SOURCE_SEGMENT_GROW_AFTER_SUCCESS_COUNT
        &&& self.overshoot_bytes_per_block matches Some(bytes) ==> bytes > 0
        &&& self.samples.len() <= SOURCE_SEGMENT_DENSITY_SAMPLE_LIMIT
        &&& forall|i: int|
            0 <= i < self.samples.len() ==> (#[trigger] self.samples[i]).connected_blocks > 0
                && self.samples[i].response_payload_bytes > 0
    }

    /// Response bytes a block is expected to take, if anything is known.
    pub open spec fn expected_density(self) -> Option<int> {
        match (high_density(self.samples), self.overshoot_bytes_per_block) {
            (Some(high), Some(overshoot)) => Some(larger(high, overshoot as int)),
            (Some(high), None) => Some(high),
            (None, Some(overshoot)) => Some(overshoot as int),
            (None, None) => None,
        }
    }

    /// Most blocks that stay within the response target, if anything is known.
    pub open spec fn density_bound(self) -> Option<int> {
        match self.expected_density() {
            Some(bytes_per_block) => Some(
                capped(
                    larger(self.target_response_payload_bytes / bytes_per_block, 1),
                    self.max_blocks,
                ),
            ),
            None => None,
        }
    }

    /// State with one more segment remembered.
    pub open spec fn with_sample(self, stats: SourceChainSegmentStats) -> Self {
        if stats.connected_blocks == 0 || stats.response_payload_bytes == 0 {
            self
        } else {
            let samples = self.samples.push(
                SourceSegmentDensitySample {
                    response_payload_bytes: stats.response_payload_bytes,
                    connected_blocks: stats.connected_blocks,
                },
            );
            SizerState {
                samples: if samples.len() > SOURCE_SEGMENT_DENSITY_SAMPLE_LIMIT {
                    samples.drop_first()
                } else {
                    samples
                },
                ..self
            }
        }
    }

    /// State with the overshoot memory brought up to date.
    pub open spec fn with_overshoot(self, stats: SourceChainSegmentStats) -> Self {
        if stats.split_count > 0 {
            if stats.connected_blocks == 0 || stats.response_payload_bytes == 0 {
                self
            } else {
                let seen = density(stats.response_payload_bytes, stats.connected_blocks);
                SizerState {
                    overshoot_bytes_per_block: Some(
                        match self.overshoot_bytes_per_block {
                            Some(current) => larger(current as int, seen) as u64,
                            None => seen as u64,
                        },
                    ),
                    overshoot_clear_success_count: 0,
                    ..self
                }
            }
        } else if stats.response_payload_bytes > self.target_response_payload_bytes {
            SizerState { overshoot_clear_success_count: 0, ..self }
        } else if self.overshoot_clear_success_count + 1
            >= SOURCE_SEGMENT_GROW_AFTER_SUCCESS_COUNT {
            SizerState {
                overshoot_bytes_per_block: None,
                overshoot_clear_success_count: 0,
                ..self
            }
        } else {
            SizerState {
                overshoot_clear_success_count: (self.overshoot_clear_success_count + 1) as u32,
                ..self
            }
        }
    }

    /// State with the segment size cut after a response was too large.
    pub open spec fn shrunk(self) -> Self {
        let halved = larger(self.current_blocks / 2, 1);
        SizerState {
            success_count: 0,
            overshoot_clear_success_count: 0,
            current_blocks: match self.density_bound() {
                Some(bound) => capped(halved, bound),
                None => halved,
            },
            ..self
        }
    }

    /// Segment size after it grew once.
    pub open spec fn grown_blocks(self) -> int {
        let grown = capped(
            self.current_blocks * SOURCE_SEGMENT_GROW_NUMERATOR,
            u32::MAX as int,
        ) / (SOURCE_SEGMENT_GROW_DENOMINATOR as int);
        capped(
            larger(grown, capped(self.current_blocks + 1, u32::MAX as int)),
            self.max_blocks,
        )
    }

    /// State with the segment size reconsidered after a response of acceptable size.
    pub open spec fn succeeded(self) -> Self {
        let bound = self.density_bound();
        if bound is Some && bound->0 < self.current_blocks {
            SizerState { success_count: 0, current_blocks: bound->0, ..self }
        } else if self.success_count + 1 < SOURCE_SEGMENT_GROW_AFTER_SUCCESS_COUNT {
            SizerState { success_count: (self.success_count + 1) as u32, ..self }
        } else {
            SizerState {
                success_count: 0,
                current_blocks: match bound {
                    Some(bound) => capped(self.grown_blocks(), bound),
                    None => self.grown_blocks(),
                },
                ..self
            }
        }
    }

    /// State after a segment was fetched.
    pub open spec fn recorded(self, stats: SourceChainSegmentStats) -> Self {
        let remembered = self.with_sample(stats).with_overshoot(stats);
        if stats.split_count > 0 {
            remembered.shrunk()
        } else {
            remembered.succeeded()
        }
    }

    /// State at a height under some consensus rules: a change of rules forgets
    /// what was measured under the earlier ones.
    pub open spec fn under_branch(self, branch_id: ConsensusBranchId) -> Self {
        if branch_id == self.active_branch_id {
            self
        } else {
            SizerState {
                active_branch_id: branch_id,
                current_blocks: self.max_blocks,
                success_count: 0,
                overshoot_clear_success_count: 0,
                overshoot_bytes_per_block: None,
                samples: Seq::empty(),
                ..self
            }
        }
    }
}

/// Chooses how many blocks the next source segment asks for.
#[derive(Debug)]
pub struct SourceSegmentSizer {
    pub max_blocks: NonZeroU32,
    pub target_response_payload_bytes: NonZeroU64,
    pub current_blocks: NonZeroU32,
    pub success_count: u32,
    pub overshoot_clear_success_count: u32,
    pub overshoot_bytes_per_block: Option<u64>,
    pub active_branch_id: ConsensusBranchId,
    pub activations: NetworkUpgradeActivations,
    pub density_samples: VecDeque<SourceSegmentDensitySample>,
}

impl View for SourceSegmentSizer {
    type V = SizerState;

    open spec fn view(&self) -> SizerState {
        SizerState {
            max_blocks: self.max_blocks@ as int,
            target_response_payload_bytes: self.target_response_payload_bytes@ as int,
            current_blocks: self.current_blocks@ as int,
            success_count: self.success_count,
            overshoot_clear_success_count: self.overshoot_clear_success_count,
            overshoot_bytes_per_block: self.overshoot_bytes_per_block,
            active_branch_id: self.active_branch_id,
            samples: self.density_samples@,
        }
    }
}

proof fn lemma_count_below_is_monotone(amounts: Seq<int>, low: int, high: int)
    requires
        low <= high,
    ensures
        0 <= count_below(amounts, low) <= count_below(amounts, high) <= amounts.len(),
    decreases amounts.len(),
{
    if amounts.len() > 0 {
        lemma_count_below_is_monotone(amounts.drop_last(), low, high);
    }
}

/// Some amount stands at every position of the sorted amounts.
pub proof fn lemma_some_amount_stands_at(amounts: Seq<int>, position: int) -> (amount: int)
    requires
        0 <= position < amounts.len(),
    ensures
        stands_at(amounts, position, amount),
    decreases amounts.len(),
{
    let rest = amounts.drop_last();
    let last = amounts.last();
    lemma_count_below_is_monotone(rest, last, last + 1);
    assert(amounts[amounts.len() - 1] == last);
    if position < count_below(rest, last) {
        lemma_count_below_is_monotone(rest, last, last);
        let amount = lemma_some_amount_stands_at(rest, position);
        if amount >= last {
            lemma_count_below_is_monotone(rest, last, amount);
        }
        let k = choose|k: int| 0 <= k < rest.len() && rest[k] == amount;
        assert(amounts[k] == amount);
        amount
    } else if position <= count_below(rest, last + 1) {
        last
    } else {
        let amount = lemma_some_amount_stands_at(rest, position - 1);
        if amount <= last {
            lemma_count_below_is_monotone(rest, amount + 1, last + 1);
        }
        let k = choose|k: int| 0 <= k < rest.len() && rest[k] == amount;
        assert(amounts[k] == amount);
        amount
    }
}

/// At most one amount stands at each position of the sorted amounts.
pub proof fn lemma_one_amount_stands_at(amounts: Seq<int>, position: int, left: int, right: int)
    requires
        stands_at(amounts, position, left),
        stands_at(amounts, position, right),
    ensures
        left == right,
{
    if left < right {
        lemma_count_below_is_monotone(amounts, left + 1, right);
    }
    if right < left {
        lemma_count_below_is_monotone(amounts, right + 1, left);
    }
}

proof fn lemma_density_is_positive(response_payload_bytes: u64, connected_blocks: u32)
    requires
        response_payload_bytes > 0,
        connected_blocks > 0,
    ensures
        0 < density(response_payload_bytes, connected_blocks) <= u64::MAX,
{
    let bytes = capped(response_payload_bytes + connected_blocks - 1, u64::MAX as int);
    let blocks = connected_blocks as int;
    assert(bytes >= blocks);
    assert(1 <= bytes / blocks <= bytes) by (nonlinear_arith)
        requires
            bytes >= blocks,
            blocks > 0,
    ;
}

proof fn lemma_high_density_is_positive(state: SizerState)
    requires
        state.well_formed(),
    ensures
        high_density(state.samples) matches Some(amount) ==> 0 < amount <= u64::MAX,
        state.expected_density() matches Some(amount) ==> 0 < amount <= u64::MAX,
        state.density_bound() matches Some(bound) ==> 1 <= bound <= state.max_blocks,
{
    if state.samples.len() > 0 {
        let position = percentile_position(state.samples.len() as int);
        let found = lemma_some_amount_stands_at(densities(state.samples), position);
        let amount = high_density(state.samples)->0;
        assert(stands_at(densities(state.samples), position, amount));
        let k = choose|k: int|
            0 <= k < densities(state.samples).len() && densities(state.samples)[k] == amount;
        lemma_density_is_positive(
            state.samples[k].response_payload_bytes,
            state.samples[k].connected_blocks,
        );
    }
}

/// Returns the response bytes per block of a measured segment, rounded up.
fn rounded_density(response_payload_bytes: u64, connected_blocks: u32) -> (bytes: u64)
    requires
        connected_blocks > 0,
    ensures
        bytes == density(response_payload_bytes, connected_blocks),
{
    let blocks: u64 = connected_blocks as u64;
    response_payload_bytes.saturating_add(blocks.saturating_sub(1)) / blocks
}

/// Returns the response bytes per block of a segment, where both were measured.
pub fn response_payload_bytes_per_block(stats: SourceChainSegmentStats) -> (bytes: Option<u64>)
    ensures
        match bytes {
            Some(bytes) => {
                &&& stats.connected_blocks > 0
                &&& stats.response_payload_bytes > 0
                &&& bytes == density(stats.response_payload_bytes, stats.connected_blocks)
            },
            None => stats.connected_blocks == 0 || stats.response_payload_bytes == 0,
        },
{
    if stats.connected_blocks == 0 || stats.response_payload_bytes == 0 {
        return None;
    }
    Some(rounded_density(stats.response_payload_bytes, stats.connected_blocks))
}

/// Counts the amounts below a bound, and those at most as large.
fn count_up_to(amounts: &Vec<u64>, bound: u64) -> (counts: (usize, usize))
    ensures
        counts.0 == count_below(amounts@.map_values(|amount: u64| amount as int), bound as int),
        counts.1 == count_below(amounts@.map_values(|amount: u64| amount as int), bound + 1),
{
    let ghost all = amounts@.map_values(|amount: u64| amount as int);
    let mut below: usize = 0;
    let mut up_to: usize = 0;
    let mut i: usize = 0;
    while i < amounts.len()
        invariant
            0 <= i <= amounts@.len(),
            all == amounts@.map_values(|amount: u64| amount as int),
            below <= up_to <= i,
            below == count_below(all.take(i as int), bound as int),
            up_to == count_below(all.take(i as int), bound + 1),
        decreases amounts@.len() - i,
    {
        assert(all.take(i + 1).drop_last() =~= all.take(i as int));
        assert(all.take(i + 1).last() == amounts@[i as int]);
        if amounts[i] < bound {
            below += 1;
        }
        if amounts[i] <= bound {
            up_to += 1;
        }
        i += 1;
    }
    assert(all.take(i as int) =~= all);
    (below, up_to)
}

impl SourceSegmentSizer {
    /// Returns a sizer that starts with the largest segments.
    pub fn new(
        max_blocks: NonZeroU32,
        target_response_payload_bytes: NonZeroU64,
        activations: NetworkUpgradeActivations,
        from_height: BlockHeight,
    ) -> (sizer: Self)
        ensures
            sizer@.well_formed(),
            sizer.activations == activations,
            sizer@ == (SizerState {
                max_blocks: max_blocks@ as int,
                target_response_payload_bytes: target_response_payload_bytes@ as int,
                current_blocks: max_blocks@ as int,
                success_count: 0,
                overshoot_clear_success_count: 0,
                overshoot_bytes_per_block: None,
                active_branch_id: branch_at(activations.activations@, from_height),
                samples: Seq::empty(),
            }),
    {
        let _bounds: (u32, u64) = (max_blocks.get(), target_response_payload_bytes.get());
        let active_branch_id = activations.consensus_branch_id_at(from_height);
        SourceSegmentSizer {
            max_blocks,
            target_response_payload_bytes,
            current_blocks: max_blocks,
            success_count: 0,
            overshoot_clear_success_count: 0,
            overshoot_bytes_per_block: None,
            active_branch_id,
            activations,
            density_samples: VecDeque::new(),
        }
    }

    /// Returns how many blocks the segment from a height on asks for, and
    /// nothing where no block is left.
    pub fn blocks_for_remaining_range(
        &mut self,
        next_height: BlockHeight,
        to_height: BlockHeight,
    ) -> (blocks: Option<NonZeroU32>)
        requires
            old(self)@.well_formed(),
        ensures
            final(self)@.well_formed(),
            final(self).activations == old(self).activations,
            match blocks {
                Some(blocks) => {
                    &&& next_height.0 <= to_height.0
                    &&& final(self)@ == old(self)@.under_branch(
                        branch_at(old(self).activations.activations@, next_height),
                    )
                    &&& blocks@ == capped(
                        capped(to_height.0 - next_height.0 + 1, u32::MAX as int),
                        final(self)@.current_blocks,
                    )
                },
                None => next_height.0 > to_height.0 && *final(self) == *old(self),
            },
    {
        if next_height.value() > to_height.value() {
            return None;
        }
        self.reset_after_network_upgrade_if_needed(next_height);
        let remaining_blocks: u32 = to_height.value().saturating_sub(
            next_height.value(),
        ).saturating_add(1);
        let current_blocks: u32 = self.current_blocks.get();
        if remaining_blocks <= current_blocks {
            NonZeroU32::new(remaining_blocks)
        } else {
            NonZeroU32::new(current_blocks)
        }
    }

    /// Takes the measurements of a fetched segment into account.
    pub fn record_segment(&mut self, stats: SourceChainSegmentStats)
        requires
            old(self)@.well_formed(),
        ensures
            final(self)@.well_formed(),
            final(self).activations == old(self).activations,
            final(self)@ == old(self)@.recorded(stats),
    {
        self.record_density_sample(stats);
        self.record_overshoot_memory(stats);
        if stats.split_count > 0 {
            self.shrink_after_overshoot();
        } else {
            self.reconsider_after_success();
        }
    }

    fn record_density_sample(&mut self, stats: SourceChainSegmentStats)
        requires
            old(self)@.well_formed(),
        ensures
            final(self)@.well_formed(),
            final(self).activations == old(self).activations,
            final(self)@ == old(self)@.with_sample(stats),
    {
        if stats.connected_blocks == 0 || stats.response_payload_bytes == 0 {
            return ;
        }
        self.density_samples.push_back(
            SourceSegmentDensitySample {
                response_payload_bytes: stats.response_payload_bytes,
                connected_blocks: stats.connected_blocks,
            },
        );
        if self.density_samples.len() > SOURCE_SEGMENT_DENSITY_SAMPLE_LIMIT {
            let ghost full = self.density_samples@;
            let _oldest = self.density_samples.pop_front();
            assert(self.density_samples@ =~= full.drop_first());
        }
    }

    fn shrink_after_overshoot(&mut self)
        requires
            old(self)@.well_formed(),
        ensures
            final(self)@.well_formed(),
            final(self).activations == old(self).activations,
            final(self)@ == old(self)@.shrunk(),
    {
        proof {
            lemma_high_density_is_positive(self@);
        }
        let density_blocks = self.blocks_allowed_by_density();
        self.success_count = 0;
        self.overshoot_clear_success_count = 0;
        let half: u32 = self.current_blocks.get() / 2;
        let halved: u32 = if half >= 1 {
            half
        } else {
            1
        };
        let next: u32 = match density_blocks {
            Some(blocks) => if halved <= blocks.get() {
                halved
            } else {
                blocks.get()
            },
            None => halved,
        };
        self.current_blocks = nonzero_u32(next);
    }

    fn reconsider_after_success(&mut self)
        requires
            old(self)@.well_formed(),
        ensures
            final(self)@.well_formed(),
            final(self).activations == old(self).activations,
            final(self)@ == old(self)@.succeeded(),
    {
        proof {
            lemma_high_density_is_positive(self@);
        }
        let density_blocks = self.blocks_allowed_by_density();
        let current_blocks: u32 = self.current_blocks.get();
        if let Some(blocks) = density_blocks {
            if blocks.get() < current_blocks {
                self.success_count = 0;
                self.current_blocks = blocks;
                return ;
            }
        }
        self.success_count = self.success_count.saturating_add(1);
        if self.success_count < SOURCE_SEGMENT_GROW_AFTER_SUCCESS_COUNT {
            return ;
        }
        self.success_count = 0;
        let scaled: u32 = match current_blocks.checked_mul(SOURCE_SEGMENT_GROW_NUMERATOR) {
            Some(scaled) => scaled,
            None => u32::MAX,
        };
        let stretched: u32 = scaled / SOURCE_SEGMENT_GROW_DENOMINATOR;
        let next_up: u32 = current_blocks.saturating_add(1);
        let grown: u32 = if stretched >= next_up {
            stretched
        } else {
            next_up
        };
        let max_blocks: u32 = self.max_blocks.get();
        let bounded: u32 = if grown <= max_blocks {
            grown
        } else {
            max_blocks
        };
        let next: u32 = match density_blocks {
            Some(blocks) => if bounded <= blocks.get() {
                bounded
            } else {
                blocks.get()
            },
            None => bounded,
        };
        self.current_blocks = nonzero_u32(next);
    }

    fn blocks_allowed_by_density(&self) -> (bound: Option<NonZeroU32>)
        requires
            self@.well_formed(),
        ensures
            match bound {
                Some(bound) => self@.density_bound() == Some(bound@ as int),
                None => self@.density_bound() is None,
            },
    {
        proof {
            lemma_high_density_is_positive(self@);
        }
        match self.estimated_response_payload_bytes_per_block() {
            None => None,
            Some(bytes_per_block) => {
                let quotient: u64 = self.target_response_payload_bytes.get() / bytes_per_block;
                let target_blocks: u64 = if quotient >= 1 {
                    quotient
                } else {
                    1
                };
                let max_blocks: u32 = self.max_blocks.get();
                let allowed: u32 = if target_blocks <= max_blocks as u64 {
                    target_blocks as u32
                } else {
                    max_blocks
                };
                Some(nonzero_u32(allowed))
            },
        }
    }

    fn estimated_response_payload_bytes_per_block(&self) -> (estimate: Option<u64>)
        requires
            self@.well_formed(),
        ensures
            match estimate {
                Some(estimate) => self@.expected_density() == Some(estimate as int),
                None => self@.expected_density() is None,
            },
    {
        match (self.p95_response_payload_bytes_per_block(), self.overshoot_bytes_per_block) {
            (Some(p95), Some(overshoot)) => if p95 >= overshoot {
                Some(p95)
            } else {
                Some(overshoot)
            },
            (Some(p95), None) => Some(p95),
            (None, Some(overshoot)) => Some(overshoot),
            (None, None) => None,
        }
    }

    fn p95_response_payload_bytes_per_block(&self) -> (p95: Option<u64>)
        requires
            self@.well_formed(),
        ensures
            match p95 {
                Some(p95) => high_density(self.density_samples@) == Some(p95 as int),
                None => high_density(self.density_samples@) is None,
            },
    {
        let count: usize = self.density_samples.len();
        let mut amounts: Vec<u64> = Vec::new();
        let mut i: usize = 0;
        while i < count
            invariant
                0 <= i <= count,
                count == self.density_samples@.len(),
                self@.well_formed(),
                amounts@.len() == i,
                forall|k: int|
                    0 <= k < i ==> #[trigger] amounts@[k] == densities(self.density_samples@)[k],
            decreases count - i,
        {
            let sample = self.density_samples[i];
            assert(self@.samples[i as int] == sample);
            amounts.push(rounded_density(sample.response_payload_bytes, sample.connected_blocks));
            i += 1;
        }
        if count == 0 {
            return None;
        }
        let ghost all = densities(self.density_samples@);
        assert(amounts@.map_values(|amount: u64| amount as int) =~= all);
        let position: usize = (count * 95 + 99) / 100 - 1;
        let mut k: usize = 0;
        while k < count
            invariant
                0 <= k <= count,
                count == amounts@.len(),
                count == self.density_samples@.len(),
                0 < count <= SOURCE_SEGMENT_DENSITY_SAMPLE_LIMIT,
                all == densities(self.density_samples@),
                all == amounts@.map_values(|amount: u64| amount as int),
                position == percentile_position(count as int),
                forall|j: int|
                    0 <= j < k ==> !stands_at(all, position as int, #[trigger] all[j]),
            decreases count - k,
        {
            let amount: u64 = amounts[k];
            let (below, up_to) = count_up_to(&amounts, amount);
            assert(all[k as int] == amount);
            if below <= position && position < up_to {
                proof {
                    assert(all.contains(amount as int));
                    assert(stands_at(all, position as int, amount as int));
                    let chosen = high_density(self.density_samples@)->0;
                    lemma_one_amount_stands_at(all, position as int, chosen, amount as int);
                }
                return Some(amount);
            }
            k += 1;
        }
        proof {
            let found = lemma_some_amount_stands_at(all, position as int);
            let j = choose|j: int| 0 <= j < all.len() && all[j] == found;
            assert(!stands_at(all, position as int, all[j]));
        }
        None
    }

    fn record_overshoot_memory(&mut self, stats: SourceChainSegmentStats)
        requires
            old(self)@.well_formed(),
        ensures
            final(self)@.well_formed(),
            final(self).activations == old(self).activations,
            final(self)@ == old(self)@.with_overshoot(stats),
    {
        if stats.split_count > 0 {
            if let Some(bytes_per_block) = response_payload_bytes_per_block(stats) {
                proof {
                    lemma_density_is_positive(
                        stats.response_payload_bytes,
                        stats.connected_blocks,
                    );
                }
                let remembered: u64 = match self.overshoot_bytes_per_block {
                    Some(current) => if current >= bytes_per_block {
                        current
                    } else {
                        bytes_per_block
                    },
                    None => bytes_per_block,
                };
                self.overshoot_bytes_per_block = Some(remembered);
                self.overshoot_clear_success_count = 0;
            }
            return ;
        }
        if stats.response_payload_bytes > self.target_response_payload_bytes.get() {
            self.overshoot_clear_success_count = 0;
            return ;
        }
        self.overshoot_clear_success_count =
        self.overshoot_clear_success_count.saturating_add(1);
        if self.overshoot_clear_success_count >= SOURCE_SEGMENT_GROW_AFTER_SUCCESS_COUNT {
            self.overshoot_bytes_per_block = None;
            self.overshoot_clear_success_count = 0;
        }
    }

    fn reset_after_network_upgrade_if_needed(&mut self, next_height: BlockHeight)
        requires
            old(self)@.well_formed(),
        ensures
            final(self)@.well_formed(),
            final(self).activations == old(self).activations,
            final(self)@ == old(self)@.under_branch(
                branch_at(old(self).activations.activations@, next_height),
            ),
    {
        let active_branch_id = self.activations.consensus_branch_id_at(next_height);
        if active_branch_id == self.active_branch_id {
            return ;
        }
        self.active_branch_id = active_branch_id;
        self.current_blocks = self.max_blocks;
        self.success_count = 0;
        self.overshoot_clear_success_count = 0;
        self.overshoot_bytes_per_block = None;
        self.density_samples.clear();
    }
}

/// A segment size never leaves the range from one block to the configured maximum.
pub proof fn law_segment_size_stays_in_range(state: SizerState, stats: SourceChainSegmentStats)
    requires
        state.well_formed(),
    ensures
        1 <= state.recorded(stats).current_blocks <= state.max_blocks,
{
    let sampled = state.with_sample(stats);
    assert(sampled.well_formed()) by {
        assert forall|i: int| 0 <= i < sampled.samples.len() implies (
        #[trigger] sampled.samples[i]).connected_blocks > 0
            && sampled.samples[i].response_payload_bytes > 0 by {
            if stats.connected_blocks > 0 && stats.response_payload_bytes > 0 {
                let pushed = state.samples.push(
                    SourceSegmentDensitySample {
                        response_payload_bytes: stats.response_payload_bytes,
                        connected_blocks: stats.connected_blocks,
                    },
                );
                let k = if pushed.len() > SOURCE_SEGMENT_DENSITY_SAMPLE_LIMIT {
                    i + 1
                } else {
                    i
                };
                assert(sampled.samples[i] == pushed[k]);
                if k < state.samples.len() {
                    assert(pushed[k] == state.samples[k]);
                }
            }
        }
    }
    if stats.connected_blocks > 0 && stats.response_payload_bytes > 0 {
        lemma_density_is_positive(stats.response_payload_bytes, stats.connected_blocks);
    }
    lemma_high_density_is_positive(sampled.with_overshoot(stats));
}

/// A response that had to be split at least halves the segment size, down to one block.
pub proof fn law_split_response_halves_the_segment(
    state: SizerState,
    stats: SourceChainSegmentStats,
)
    requires
        state.well_formed(),
        stats.split_count > 0,
    ensures
        state.recorded(stats).current_blocks <= larger(state.current_blocks / 2, 1),
{
}

/// Without a split the segment size grows by at most a quarter, or one block.
pub proof fn law_segment_grows_gradually(state: SizerState, stats: SourceChainSegmentStats)
    requires
        state.well_formed(),
        stats.split_count == 0,
    ensures
        state.recorded(stats).current_blocks <= larger(
            state.current_blocks * 5 / 4,
            state.current_blocks + 1,
        ),
{
}

/// The branch at a height is that of the last listed upgrade active there, and
/// the first branch of the chain where none is.
pub proof fn law_last_active_upgrade_names_the_branch(
    activations: Seq<NetworkUpgradeActivation>,
    height: BlockHeight,
)
    ensures
        ({
            let branch = branch_at(activations, height);
            ||| exists|a: int|
                {
                    &&& 0 <= a < activations.len()
                    &&& (#[trigger] activations[a]).activation_height.0 <= height.0
                    &&& activations[a].branch_id == branch
                    &&& forall|later: int|
                        a < later < activations.len() ==> (
                        #[trigger] activations[later]).activation_height.0 > height.0
                }
            ||| branch.0 == 0 && forall|a: int|
                0 <= a < activations.len() ==> (#[trigger] activations[a]).activation_height.0
                    > height.0
        }),
    decreases activations.len(),
{
    if activations.len() > 0 {
        let last = activations.len() - 1;
        assert(activations[last] == activations.last());
        if activations.last().activation_height.0 > height.0 {
            let rest = activations.drop_last();
            law_last_active_upgrade_names_the_branch(rest, height);
            let branch = branch_at(rest, height);
            if exists|a: int|
                {
                    &&& 0 <= a < rest.len()
                    &&& (#[trigger] rest[a]).activation_height.0 <= height.0
                    &&& rest[a].branch_id == branch
                    &&& forall|later: int|
                        a < later < rest.len() ==> (#[trigger] rest[later]).activation_height.0
                            > height.0
                } {
                let a = choose|a: int|
                    {
                        &&& 0 <= a < rest.len()
                        &&& (#[trigger] rest[a]).activation_height.0 <= height.0
                        &&& rest[a].branch_id == branch
                        &&& forall|later: int|
                            a < later < rest.len() ==> (
                            #[trigger] rest[later]).activation_height.0 > height.0
                    };
                assert(activations[a] == rest[a]);
                assert forall|later: int| a < later < activations.len() implies (
                #[trigger] activations[later]).activation_height.0 > height.0 by {
                    if later < last {
                        assert(rest[later] == activations[later]);
                    }
                }
            } else {
                assert forall|a: int| 0 <= a < activations.len() implies (
                #[trigger] activations[a]).activation_height.0 > height.0 by {
                    if a < last {
                        assert(rest[a] == activations[a]);
                    }
                }
            }
        }
    }
}

/// An upgrade is found by name as the first one listed under it.
pub proof fn law_first_upgrade_of_the_name_is_found(
    activations: Seq<NetworkUpgradeActivation>,
    name: Seq<char>,
)
    ensures
        match activation_named(activations, name) {
            Some(height) => exists|a: int|
                {
                    &&& 0 <= a < activations.len()
                    &&& (#[trigger] activations[a]).name@ == name
                    &&& activations[a].activation_height == height
                    &&& forall|earlier: int|
                        0 <= earlier < a ==> (#[trigger] activations[earlier]).name@ != name
                },
            None => forall|a: int|
                0 <= a < activations.len() ==> (#[trigger] activations[a]).name@ != name,
        },
    decreases activations.len(),
{
    if activations.len() > 0 {
        if activations.first().name@ == name {
            assert(activations[0] == activations.first());
        } else {
            let rest = activations.drop_first();
            law_first_upgrade_of_the_name_is_found(rest, name);
            match activation_named(rest, name) {
                Some(height) => {
                    let a = choose|a: int|
                        {
                            &&& 0 <= a < rest.len()
                            &&& (#[trigger] rest[a]).name@ == name
                            &&& rest[a].activation_height == height
                            &&& forall|earlier: int|
                                0 <= earlier < a ==> (#[trigger] rest[earlier]).name@ != name
                        };
                    assert(activations[a + 1] == rest[a]);
                    assert forall|earlier: int| 0 <= earlier < a + 1 implies (
                    #[trigger] activations[earlier]).name@ != name by {
                        if earlier > 0 {
                            assert(rest[earlier - 1] == activations[earlier]);
                        }
                    }
                },
                None => {
                    assert forall|a: int| 0 <= a < activations.len() implies (
                    #[trigger] activations[a]).name@ != name by {
                        if a > 0 {
                            assert(rest[a - 1] == activations[a]);
                        }
                    }
                },
            }
        }
    }
}

/// The density of a response is the least whole number of bytes per block that
/// covers it.
pub proof fn law_density_covers_the_response(response_payload_bytes: u64, connected_blocks: u32)
    requires
        connected_blocks > 0,
        response_payload_bytes + connected_blocks - 1 <= u64::MAX,
    ensures
        density(response_payload_bytes, connected_blocks) * connected_blocks
            >= response_payload_bytes,
        (density(response_payload_bytes, connected_blocks) - 1) * connected_blocks
            < response_payload_bytes || response_payload_bytes == 0,
{
    let bytes = response_payload_bytes as int;
    let blocks = connected_blocks as int;
    let per_block = (bytes + blocks - 1) / blocks;
    assert(per_block * blocks >= bytes && (per_block - 1) * blocks < bytes) by (nonlinear_arith)
        requires
            blocks > 0,
            per_block == (bytes + blocks - 1) / blocks,
    ;
}

/// Counting the amounts below a bound counts each of them once.
pub proof fn law_amounts_below_are_counted_one_by_one(amounts: Seq<int>, next: int, bound: int)
    ensures
        count_below(Seq::empty(), bound) == 0,
        next < bound ==> count_below(amounts.push(next), bound) == count_below(amounts, bound) + 1,
        next >= bound ==> count_below(amounts.push(next), bound) == count_below(amounts, bound),
{
    assert(amounts.push(next).drop_last() =~= amounts);
}

/// The densities of samples stand in the order of the samples.
pub proof fn law_densities_are_those_of_the_samples(
    samples: Seq<SourceSegmentDensitySample>,
    i: int,
)
    requires
        0 <= i < samples.len(),
    ensures
        densities(samples).len() == samples.len(),
        densities(samples)[i] == density(
            samples[i].response_payload_bytes,
            samples[i].connected_blocks,
        ),
{
}

/// The high density is that of a sample: at least 95 of 100 samples are not
/// above it, and fewer are below it.
pub proof fn law_high_density_covers_nearly_all_samples(
    samples: Seq<SourceSegmentDensitySample>,
)
    ensures
        samples.len() == 0 <==> high_density(samples) is None,
        high_density(samples) matches Some(high) ==> {
            let amounts = densities(samples);
            &&& amounts.contains(high)
            &&& 100 * count_below(amounts, high + 1) >= 95 * samples.len()
            &&& 100 * count_below(amounts, high) < 95 * samples.len()
        },
{
    if samples.len() > 0 {
        let amounts = densities(samples);
        let position = percentile_position(samples.len() as int);
        let amount = lemma_some_amount_stands_at(amounts, position);
        let high = high_density(samples)->0;
        assert(stands_at(amounts, position, high));
    }
}

/// The expected density is the higher one of what was sampled and what was
/// remembered of an overshoot.
pub proof fn law_expected_density_is_the_higher_one(state: SizerState)
    ensures
        ({
            let sampled = high_density(state.samples);
            let expected = state.expected_density();
            &&& expected is None <==> state.samples.len() == 0
                && state.overshoot_bytes_per_block is None
            &&& sampled matches Some(high) ==> expected is Some && expected->0 >= high
            &&& state.overshoot_bytes_per_block matches Some(overshoot) ==> expected is Some
                && expected->0 >= overshoot
            &&& expected matches Some(bytes) ==> sampled == Some(bytes) || (
            state.overshoot_bytes_per_block matches Some(overshoot) && overshoot == bytes)
        }),
{
}

/// The density bound is the most blocks whose expected response stays within
/// the target, but one at least and the configured maximum at most.
pub proof fn law_density_bound_fills_the_target(state: SizerState)
    requires
        state.well_formed(),
    ensures
        match (state.expected_density(), state.density_bound()) {
            (Some(bytes_per_block), Some(bound)) => bytes_per_block > 0 ==> {
                &&& 1 <= bound <= state.max_blocks
                &&& bound == 1 || bound * bytes_per_block <= state.target_response_payload_bytes
                &&& bound == state.max_blocks || (bound + 1) * bytes_per_block
                    > state.target_response_payload_bytes
            },
            (None, bound) => bound is None,
            (Some(_), None) => false,
        },
{
    if let Some(bytes_per_block) = state.expected_density() {
        if bytes_per_block > 0 {
            let target = state.target_response_payload_bytes;
            let whole = target / bytes_per_block;
            assert(whole * bytes_per_block <= target < (whole + 1) * bytes_per_block)
                by (nonlinear_arith)
                requires
                    bytes_per_block > 0,
                    whole == target / bytes_per_block,
            ;
            let bound = state.density_bound()->0;
            if bound <= whole {
                assert(bound * bytes_per_block <= whole * bytes_per_block) by (nonlinear_arith)
                    requires
                        bound <= whole,
                        bytes_per_block > 0,
                ;
            }
            if bound >= whole {
                assert((bound + 1) * bytes_per_block >= (whole + 1) * bytes_per_block)
                    by (nonlinear_arith)
                    requires
                        bound >= whole,
                        bytes_per_block > 0,
                ;
            }
        }
    }
}

/// A measured response is remembered as the newest sample; of more than 64
/// samples the oldest is forgotten. Nothing else changes.
pub proof fn law_newest_samples_are_remembered(state: SizerState, stats: SourceChainSegmentStats)
    requires
        state.samples.len() <= 64,
    ensures
        ({
            let after = state.with_sample(stats);
            let measured = stats.connected_blocks > 0 && stats.response_payload_bytes > 0;
            &&& !measured ==> after == state
            &&& measured ==> {
                &&& after.samples.last().response_payload_bytes == stats.response_payload_bytes
                &&& after.samples.last().connected_blocks == stats.connected_blocks
                &&& state.samples.len() < 64 ==> after.samples.drop_last() == state.samples
                &&& state.samples.len() == 64 ==> after.samples.drop_last()
                    == state.samples.drop_first()
                &&& after.samples.len() <= 64
            }
            &&& after.current_blocks == state.current_blocks
            &&& after.max_blocks == state.max_blocks
            &&& after.success_count == state.success_count
            &&& after.overshoot_bytes_per_block == state.overshoot_bytes_per_block
        }),
{
    let measured = stats.connected_blocks > 0 && stats.response_payload_bytes > 0;
    let after = state.with_sample(stats);
    if measured {
        if state.samples.len() < 64 {
            assert(after.samples.drop_last() =~= state.samples);
        } else {
            assert(after.samples.drop_last() =~= state.samples.drop_first());
        }
    }
}

/// A split response is remembered as an overshoot at its density, or a higher
/// one seen before; eight responses within the target in a row forget it, and
/// one beyond the target starts the count anew.
pub proof fn law_overshoot_is_remembered_until_eight_successes(
    state: SizerState,
    stats: SourceChainSegmentStats,
)
    requires
        state.overshoot_clear_success_count < 8,
    ensures
        ({
            let after = state.with_overshoot(stats);
            let seen = density(stats.response_payload_bytes, stats.connected_blocks);
            let measured = stats.connected_blocks > 0 && stats.response_payload_bytes > 0;
            let within = stats.response_payload_bytes <= state.target_response_payload_bytes;
            &&& stats.split_count > 0 && measured && 0 <= seen <= u64::MAX ==> {
                &&& after.overshoot_bytes_per_block matches Some(remembered)
                &&& remembered >= seen
                &&& state.overshoot_bytes_per_block matches Some(before) ==> remembered >= before
                &&& remembered == seen || state.overshoot_bytes_per_block == Some(remembered)
                &&& after.overshoot_clear_success_count == 0
            }
            &&& stats.split_count > 0 && !measured ==> after == state
            &&& stats.split_count == 0 && !within ==> {
                &&& after.overshoot_bytes_per_block == state.overshoot_bytes_per_block
                &&& after.overshoot_clear_success_count == 0
            }
            &&& stats.split_count == 0 && within && state.overshoot_clear_success_count < 7 ==> {
                &&& after.overshoot_bytes_per_block == state.overshoot_bytes_per_block
                &&& after.overshoot_clear_success_count == state.overshoot_clear_success_count + 1
            }
            &&& stats.split_count == 0 && within && state.overshoot_clear_success_count == 7 ==> {
                &&& after.overshoot_bytes_per_block is None
                &&& after.overshoot_clear_success_count == 0
            }
            &&& after.samples == state.samples
            &&& after.current_blocks == state.current_blocks
            &&& after.success_count == state.success_count
        }),
{
}

/// A segment shrinks to half its blocks, or to the density bound where that is
/// lower, and counts its successes anew.
pub proof fn law_shrunk_segment_is_halved(state: SizerState)
    requires
        state.well_formed(),
    ensures
        ({
            let after = state.shrunk();
            let halved = if state.current_blocks >= 2 {
                state.current_blocks / 2
            } else {
                1
            };
            &&& after.current_blocks <= halved
            &&& state.density_bound() matches Some(bound) ==> after.current_blocks <= bound
            &&& after.current_blocks == halved || state.density_bound() == Some(
                after.current_blocks,
            )
            &&& after.success_count == 0
            &&& after.overshoot_clear_success_count == 0
            &&& after.samples == state.samples
            &&& after.max_blocks == state.max_blocks
        }),
{
}

/// A segment grows by a quarter, by one block at least, and up to the maximum.
pub proof fn law_grown_segment_gains_a_quarter(state: SizerState)
    requires
        state.well_formed(),
        5 * state.current_blocks <= u32::MAX,
    ensures
        ({
            let quarter = 5 * state.current_blocks / 4;
            let grown = if quarter > state.current_blocks {
                quarter
            } else {
                state.current_blocks + 1
            };
            state.grown_blocks() == if grown <= state.max_blocks {
                grown
            } else {
                state.max_blocks
            }
        }),
{
}

/// A success lowers the segment to the density bound where that is lower; else
/// the eighth one in a row lets it grow, within that bound, and any other is
/// only counted.
pub proof fn law_eighth_success_lets_the_segment_grow(state: SizerState)
    requires
        state.well_formed(),
    ensures
        ({
            let after = state.succeeded();
            let bound = state.density_bound();
            let lower = bound is Some && bound->0 < state.current_blocks;
            &&& lower ==> Some(after.current_blocks) == bound && after.success_count == 0
            &&& !lower && state.success_count < 7 ==> after.current_blocks == state.current_blocks
                && after.success_count == state.success_count + 1
            &&& !lower && state.success_count == 7 ==> {
                &&& after.success_count == 0
                &&& bound is None ==> after.current_blocks == state.grown_blocks()
                &&& bound matches Some(bound) ==> after.current_blocks <= bound && (
                after.current_blocks == bound || after.current_blocks == state.grown_blocks())
                &&& after.current_blocks <= state.grown_blocks()
            }
            &&& after.samples == state.samples
            &&& after.overshoot_bytes_per_block == state.overshoot_bytes_per_block
            &&& after.max_blocks == state.max_blocks
        }),
{
}

/// A response is remembered first; then the segment shrinks where the response
/// was split, and is reconsidered as a success where it was not.
pub proof fn law_response_is_remembered_before_it_is_judged(
    state: SizerState,
    stats: SourceChainSegmentStats,
)
    ensures
        ({
            let remembered = state.with_sample(stats).with_overshoot(stats);
            &&& stats.split_count > 0 ==> state.recorded(stats) == remembered.shrunk()
            &&& stats.split_count == 0 ==> state.recorded(stats) == remembered.succeeded()
        }),
{
}

/// A new consensus branch starts over: the largest segment, no samples and no
/// overshoot. Under the same branch nothing changes.
pub proof fn law_new_branch_starts_over(state: SizerState, branch_id: ConsensusBranchId)
    ensures
        ({
            let after = state.under_branch(branch_id);
            &&& branch_id == state.active_branch_id ==> after == state
            &&& branch_id != state.active_branch_id ==> {
                &&& after.active_branch_id == branch_id
                &&& after.current_blocks == state.max_blocks
                &&& after.success_count == 0
                &&& after.overshoot_clear_success_count == 0
                &&& after.overshoot_bytes_per_block is None
                &&& after.samples.len() == 0
                &&& after.max_blocks == state.max_blocks
                &&& after.target_response_payload_bytes == state.target_response_payload_bytes
            }
        }),
{
}

/// The state of a sizer is what it holds, field by field.
pub proof fn law_sizer_is_seen_whole(sizer: SourceSegmentSizer)
    ensures
        sizer@.max_blocks == sizer.max_blocks@,
        sizer@.target_response_payload_bytes == sizer.target_response_payload_bytes@,
        sizer@.current_blocks == sizer.current_blocks@,
        sizer@.success_count == sizer.success_count,
        sizer@.overshoot_clear_success_count == sizer.overshoot_clear_success_count,
        sizer@.overshoot_bytes_per_block == sizer.overshoot_bytes_per_block,
        sizer@.active_branch_id == sizer.active_branch_id,
        sizer@.samples == sizer.density_samples@,
        sizer@.well_formed() ==> {
            &&& 1 <= sizer.current_blocks@ <= sizer.max_blocks@
            &&& sizer.success_count < 8
            &&& sizer.density_samples@.len() <= 64
        },
{
}

} // verus!
