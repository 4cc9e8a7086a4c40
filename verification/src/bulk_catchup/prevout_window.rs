//! Resolution of the outputs that a window of consecutive blocks spends.
//!
//! A spent output is looked up in the block itself, in the earlier blocks of
//! the window, among the recently created outputs, and last in the store.

use super::heap::{block_commit_preparation_resident_bytes, is_resident_with_prevouts};
use super::prevout_cache::{
    is_cache_entry_size, offered, transparent_output_cache_entry_bytes, CacheState,
    RecentTransparentOutputCache,
};
use super::watermark::{ByteReservation, ByteWatermark, WatermarkSnapshot};
use crate::artifact_builder::{
    current_schema_transparent_outputs, output_rows, PreparedCanonicalBlock,
};
use crate::artifacts::{
    views, CanonicalBlockFacts, CanonicalBlockReplayEnvelope, CanonicalTransactionFacts,
    TransparentInputFact, TransparentOutputArtifact, TransparentOutputRow,
};
use crate::batch::{clipped, total};
use crate::chain_ingest::rows_by_outpoint;
use crate::ids::TransparentOutPoint;
use crate::outpoint_map::{keys_of, strictly_rising, OutPointMap};
use vstd::prelude::*;

verus! {

/// A prepared block that waits for its turn.
#[derive(Debug)]
pub struct QueuedPreparedBlock {
    pub prepared: PreparedCanonicalBlock,
    pub replay_envelope: CanonicalBlockReplayEnvelope,
    pub resident_bytes: u64,
    pub reservation: ByteReservation,
}

/// A prepared block together with the outputs it spends.
#[derive(Debug)]
pub struct CanonicalBlockCommitPreparation {
    pub prepared: PreparedCanonicalBlock,
    pub replay_envelope: CanonicalBlockReplayEnvelope,
    pub prefetched_spent_transparent_outputs: Vec<TransparentOutputArtifact>,
    pub block_prepare_reservation: ByteReservation,
}

/// Where a spent output was found.
#[derive(Debug)]
pub enum PrevoutLookup {
    /// The block itself creates it.
    SameBlock,
    /// An earlier block of the window creates it.
    SameWindow(TransparentOutputArtifact),
    /// It was created recently.
    RecentCache(TransparentOutputArtifact),
    /// Only the store can know it.
    Cold,
}

/// Where a spent output was found, in mathematical form.
pub enum LookupRow {
    SameBlock,
    SameWindow(TransparentOutputRow),
    RecentCache(TransparentOutputRow),
    Cold,
}

impl View for PrevoutLookup {
    type V = LookupRow;

    open spec fn view(&self) -> LookupRow {
        match self {
            PrevoutLookup::SameBlock => LookupRow::SameBlock,
            PrevoutLookup::SameWindow(output) => LookupRow::SameWindow(output@),
            PrevoutLookup::RecentCache(output) => LookupRow::RecentCache(output@),
            PrevoutLookup::Cold => LookupRow::Cold,
        }
    }
}

/// Whether some input of a run of inputs spends an outpoint.
pub open spec fn inputs_spend(
    inputs: Seq<TransparentInputFact>,
    outpoint: TransparentOutPoint,
) -> bool {
    exists|i: int| 0 <= i < inputs.len() && (#[trigger] inputs[i]).spent_outpoint == outpoint
}

/// Whether some transaction of a run spends an outpoint of an earlier output.
pub open spec fn transactions_spend(
    transactions: Seq<CanonicalTransactionFacts>,
    outpoint: TransparentOutPoint,
) -> bool {
    &&& !outpoint.is_sentinel()
    &&& exists|i: int|
        0 <= i < transactions.len() && inputs_spend(
            (#[trigger] transactions[i]).transparent_inputs@,
            outpoint,
        )
}

/// Whether a list names the outputs that a block spends, each once, in order.
pub open spec fn lists_spends(
    outpoints: Seq<TransparentOutPoint>,
    facts: CanonicalBlockFacts,
) -> bool {
    &&& strictly_rising(outpoints)
    &&& forall|outpoint: TransparentOutPoint| #[trigger]
        outpoints.contains(outpoint) <==> transactions_spend(facts.transactions@, outpoint)
}

/// Lists the keys of a map in outpoint order.
fn keys_in_order<V>(map: &OutPointMap<V>) -> (keys: Vec<TransparentOutPoint>)
    requires
        map.well_formed(),
    ensures
        strictly_rising(keys@),
        forall|key: TransparentOutPoint| #[trigger] keys@.contains(key) <==> map@.contains_key(key),
{
    let count: usize = map.len();
    let mut keys: Vec<TransparentOutPoint> = Vec::new();
    let mut i: usize = 0;
    while i < count
        invariant
            0 <= i <= count,
            count == map.entries_in_order().len(),
            keys@ == keys_of(map.entries_in_order()).take(i as int),
        decreases count - i,
    {
        let entry = map.entry_at(i);
        keys.push(entry.0);
        assert(keys@ =~= keys_of(map.entries_in_order()).take(i + 1));
        i += 1;
    }
    proof {
        let entries = map.entries_in_order();
        assert(keys_of(entries).take(i as int) =~= keys_of(entries));
        assert forall|key: TransparentOutPoint| #[trigger] keys@.contains(key) <==> map@.contains_key(
            key,
        ) by {
            if keys@.contains(key) {
                let k = choose|k: int| 0 <= k < keys@.len() && keys@[k] == key;
                assert(entries[k].0 == key);
            }
            if map@.contains_key(key) {
                let k = choose|k: int| 0 <= k < entries.len() && (#[trigger] entries[k]).0 == key;
                assert(keys@[k] == key);
            }
        }
    }
    keys
}

/// Lists the outputs that a prepared block spends, each once, in order.
pub fn spent_outpoints_for_prepared_block(facts: &CanonicalBlockFacts) -> (spent: Vec<
    TransparentOutPoint,
>)
    ensures
        lists_spends(spent@, *facts),
{
    let mut spent: OutPointMap<()> = OutPointMap::new();
    let mut i: usize = 0;
    while i < facts.transactions.len()
        invariant
            0 <= i <= facts.transactions@.len(),
            spent.well_formed(),
            forall|outpoint: TransparentOutPoint| #[trigger]
                spent@.contains_key(outpoint) <==> transactions_spend(
                    facts.transactions@.take(i as int),
                    outpoint,
                ),
        decreases facts.transactions@.len() - i,
    {
        let transaction = &facts.transactions[i];
        let ghost before = spent@;
        let mut j: usize = 0;
        while j < transaction.transparent_inputs.len()
            invariant
                0 <= j <= transaction.transparent_inputs@.len(),
                spent.well_formed(),
                forall|outpoint: TransparentOutPoint| #[trigger]
                    spent@.contains_key(outpoint) <==> before.contains_key(outpoint) || (
                    !outpoint.is_sentinel() && inputs_spend(
                        transaction.transparent_inputs@.take(j as int),
                        outpoint,
                    )),
            decreases transaction.transparent_inputs@.len() - j,
        {
            let spent_outpoint = transaction.transparent_inputs[j].spent_outpoint;
            let ghost inputs = transaction.transparent_inputs@;
            let ghost so_far = spent@;
            if !spent_outpoint.is_coinbase_sentinel() {
                spent.insert(spent_outpoint, ());
            }
            assert forall|outpoint: TransparentOutPoint| #[trigger]
                spent@.contains_key(outpoint) <==> before.contains_key(outpoint) || (
                !outpoint.is_sentinel() && inputs_spend(inputs.take(j + 1), outpoint)) by {
                if inputs_spend(inputs.take(j as int), outpoint) {
                    let k = choose|k: int|
                        0 <= k < inputs.take(j as int).len() && (#[trigger] inputs.take(
                            j as int,
                        )[k]).spent_outpoint == outpoint;
                    assert(inputs.take(j + 1)[k].spent_outpoint == outpoint);
                }
                if inputs_spend(inputs.take(j + 1), outpoint) {
                    let k = choose|k: int|
                        0 <= k < inputs.take(j + 1).len() && (#[trigger] inputs.take(
                            j + 1,
                        )[k]).spent_outpoint == outpoint;
                    if k < j {
                        assert(inputs.take(j as int)[k].spent_outpoint == outpoint);
                    }
                }
                assert(inputs.take(j + 1)[j as int].spent_outpoint == spent_outpoint);
                assert(so_far.contains_key(outpoint) || outpoint == spent_outpoint
                    || !spent@.contains_key(outpoint));
            }
            j += 1;
        }
        proof {
            let all = facts.transactions@;
            assert(transaction.transparent_inputs@.take(j as int)
                =~= transaction.transparent_inputs@);
            assert forall|outpoint: TransparentOutPoint| #[trigger]
                spent@.contains_key(outpoint) <==> transactions_spend(
                    all.take(i + 1),
                    outpoint,
                ) by {
                assert(before.contains_key(outpoint) <==> transactions_spend(
                    all.take(i as int),
                    outpoint,
                ));
                if transactions_spend(all.take(i as int), outpoint) {
                    let k = choose|k: int|
                        0 <= k < all.take(i as int).len() && inputs_spend(
                            (#[trigger] all.take(i as int)[k]).transparent_inputs@,
                            outpoint,
                        );
                    assert(all.take(i + 1)[k] == all.take(i as int)[k]);
                }
                if transactions_spend(all.take(i + 1), outpoint) {
                    let k = choose|k: int|
                        0 <= k < all.take(i + 1).len() && inputs_spend(
                            (#[trigger] all.take(i + 1)[k]).transparent_inputs@,
                            outpoint,
                        );
                    if k < i {
                        assert(all.take(i as int)[k] == all.take(i + 1)[k]);
                    }
                }
                assert(all.take(i + 1)[i as int] == *transaction);
            }
        }
        i += 1;
    }
    assert(facts.transactions@.take(i as int) =~= facts.transactions@);
    let keys = keys_in_order(&spent);
    assert forall|outpoint: TransparentOutPoint| #[trigger]
        keys@.contains(outpoint) <==> transactions_spend(facts.transactions@, outpoint) by {
        assert(keys@.contains(outpoint) <==> spent@.contains_key(outpoint));
    }
    keys
}

/// Last output of a run under an outpoint, if any.
pub open spec fn created_last(
    rows: Seq<TransparentOutputRow>,
    outpoint: TransparentOutPoint,
) -> Option<TransparentOutputRow>
    decreases rows.len(),
{
    if rows.len() == 0 {
        None
    } else if rows.last().outpoint == outpoint {
        Some(rows.last())
    } else {
        created_last(rows.drop_last(), outpoint)
    }
}

/// Outputs that a block creates.
pub open spec fn created_by(facts: CanonicalBlockFacts) -> Seq<TransparentOutputRow> {
    output_rows(facts.block_header, facts.transactions@)
}

/// Last output of a run of blocks under an outpoint, if any.
pub open spec fn created_in_window(
    blocks: Seq<CanonicalBlockFacts>,
    outpoint: TransparentOutPoint,
) -> Option<TransparentOutputRow>
    decreases blocks.len(),
{
    if blocks.len() == 0 {
        None
    } else {
        match created_last(created_by(blocks.last()), outpoint) {
            Some(row) => Some(row),
            None => created_in_window(blocks.drop_last(), outpoint),
        }
    }
}

/// Where an output that a block spends is found, given the earlier blocks of
/// the window and the cache at that moment.
pub open spec fn looked_up(
    facts: CanonicalBlockFacts,
    earlier: Seq<CanonicalBlockFacts>,
    cache: CacheState,
    outpoint: TransparentOutPoint,
) -> LookupRow {
    if created_last(created_by(facts), outpoint) is Some {
        LookupRow::SameBlock
    } else if created_in_window(earlier, outpoint) is Some {
        LookupRow::SameWindow(created_in_window(earlier, outpoint)->0)
    } else if cache.entries.contains_key(outpoint) {
        LookupRow::RecentCache(cache.entries[outpoint].output@)
    } else {
        LookupRow::Cold
    }
}

/// Cache and watermark after some spent outputs of a block were looked up:
/// what is found in the cache leaves it.
pub open spec fn after_lookups(
    facts: CanonicalBlockFacts,
    earlier: Seq<CanonicalBlockFacts>,
    cache: CacheState,
    watermark: WatermarkSnapshot,
    spent: Seq<TransparentOutPoint>,
) -> (CacheState, WatermarkSnapshot)
    decreases spent.len(),
{
    if spent.len() == 0 {
        (cache, watermark)
    } else {
        let (left, free) = after_lookups(facts, earlier, cache, watermark, spent.drop_last());
        if looked_up(facts, earlier, left, spent.last()) is RecentCache {
            let position = left.order.index_of(spent.last());
            (left.without(position), free.released(left.reserved_at(position)))
        } else {
            (left, free)
        }
    }
}

/// Whether lookups are those of the outputs a block spends.
pub open spec fn are_lookups(
    lookups: Seq<LookupRow>,
    facts: CanonicalBlockFacts,
    earlier: Seq<CanonicalBlockFacts>,
    cache: CacheState,
    watermark: WatermarkSnapshot,
    spent: Seq<TransparentOutPoint>,
) -> bool {
    &&& lookups.len() == spent.len()
    &&& forall|i: int|
        0 <= i < spent.len() ==> #[trigger] lookups[i] == looked_up(
            facts,
            earlier,
            after_lookups(facts, earlier, cache, watermark, spent.take(i)).0,
            spent[i],
        )
}

/// One block of a window, with the outputs it creates and spends.
#[derive(Debug)]
pub struct WindowBlock {
    pub queued: QueuedPreparedBlock,
    pub created_outputs: Vec<TransparentOutputArtifact>,
    pub spent_outpoints: Vec<TransparentOutPoint>,
    pub lookups: Vec<PrevoutLookup>,
}

/// Facts of a run of window blocks.
pub open spec fn facts_of(blocks: Seq<WindowBlock>) -> Seq<CanonicalBlockFacts> {
    blocks.map_values(|block: WindowBlock| block.queued.prepared.facts)
}

/// Cache and watermark after the spent outputs of a run of blocks were looked up.
pub open spec fn after_blocks(
    blocks: Seq<WindowBlock>,
    cache: CacheState,
    watermark: WatermarkSnapshot,
) -> (CacheState, WatermarkSnapshot)
    decreases blocks.len(),
{
    if blocks.len() == 0 {
        (cache, watermark)
    } else {
        let (left, free) = after_blocks(blocks.drop_last(), cache, watermark);
        after_lookups(
            blocks.last().queued.prepared.facts,
            facts_of(blocks.drop_last()),
            left,
            free,
            blocks.last().spent_outpoints@,
        )
    }
}

/// Whether a block of a window names what it creates, what it spends, and
/// where that was found.
pub open spec fn is_looked_up(
    blocks: Seq<WindowBlock>,
    cache: CacheState,
    watermark: WatermarkSnapshot,
    index: int,
) -> bool {
    let block = blocks[index];
    let facts = block.queued.prepared.facts;
    let (left, free) = after_blocks(blocks.take(index), cache, watermark);
    &&& views(block.created_outputs@) == created_by(facts)
    &&& lists_spends(block.spent_outpoints@, facts)
    &&& are_lookups(
        views(block.lookups@),
        facts,
        facts_of(blocks.take(index)),
        left,
        free,
        block.spent_outpoints@,
    )
}

/// Whether a block spends an outpoint that the block itself or an earlier one
/// of the window creates.
pub open spec fn spends_within_window(block: WindowBlock, outpoint: TransparentOutPoint) -> bool {
    exists|i: int|
        0 <= i < block.spent_outpoints@.len() && #[trigger] block.spent_outpoints@[i] == outpoint
            && (block.lookups@[i] is SameBlock || block.lookups@[i] is SameWindow)
}

/// Whether a block spends an outpoint that only the store can know.
pub open spec fn spends_cold(block: WindowBlock, outpoint: TransparentOutPoint) -> bool {
    exists|i: int|
        0 <= i < block.spent_outpoints@.len() && #[trigger] block.spent_outpoints@[i] == outpoint
            && block.lookups@[i] is Cold
}

/// A window of blocks whose spent outputs were looked up everywhere but in the store.
#[derive(Debug)]
pub struct PrevoutWindow {
    pub blocks: Vec<WindowBlock>,
    pub created_outputs_spent: OutPointMap<()>,
    pub cold_outpoints: OutPointMap<()>,
}

impl PrevoutWindow {
    /// Whether the collected outpoints are those of the blocks.
    pub open spec fn well_formed(self) -> bool {
        &&& self.created_outputs_spent.well_formed()
        &&& self.cold_outpoints.well_formed()
        &&& forall|outpoint: TransparentOutPoint| #[trigger]
            self.created_outputs_spent@.contains_key(outpoint) <==> exists|b: int|
                0 <= b < self.blocks@.len() && spends_within_window(
                    #[trigger] self.blocks@[b],
                    outpoint,
                )
        &&& forall|outpoint: TransparentOutPoint| #[trigger]
            self.cold_outpoints@.contains_key(outpoint) <==> exists|b: int|
                0 <= b < self.blocks@.len() && spends_cold(#[trigger] self.blocks@[b], outpoint)
    }
}

/// Whether locations point at the last output of a run of blocks under each outpoint.
spec fn locates(
    locations: Map<TransparentOutPoint, (usize, usize)>,
    blocks: Seq<WindowBlock>,
) -> bool {
    forall|outpoint: TransparentOutPoint|
        {
            let row = created_in_window(facts_of(blocks), outpoint);
            let (b, k) = locations[outpoint];
            &&& #[trigger] locations.contains_key(outpoint) <==> row is Some
            &&& locations.contains_key(outpoint) ==> {
                &&& b < blocks.len()
                &&& k < blocks[b as int].created_outputs@.len()
                &&& blocks[b as int].created_outputs@[k as int]@ == row->0
            }
        }
}

fn outpoints_of(outputs: &Vec<TransparentOutputArtifact>) -> (outpoints: OutPointMap<()>)
    ensures
        outpoints.well_formed(),
        forall|outpoint: TransparentOutPoint| #[trigger]
            outpoints@.contains_key(outpoint) <==> created_last(views(outputs@), outpoint) is Some,
{
    let mut outpoints: OutPointMap<()> = OutPointMap::new();
    let ghost rows = views(outputs@);
    let mut i: usize = 0;
    while i < outputs.len()
        invariant
            0 <= i <= outputs@.len(),
            rows == views(outputs@),
            outpoints.well_formed(),
            forall|outpoint: TransparentOutPoint| #[trigger]
                outpoints@.contains_key(outpoint) <==> created_last(
                    rows.take(i as int),
                    outpoint,
                ) is Some,
        decreases outputs@.len() - i,
    {
        outpoints.insert(outputs[i].outpoint, ());
        assert(rows.take(i + 1).drop_last() =~= rows.take(i as int));
        assert(rows.take(i + 1).last() == outputs@[i as int]@);
        i += 1;
    }
    assert(rows.take(i as int) =~= rows);
    outpoints
}

/// Whether the location of one outpoint is that of the last output of a run,
/// or that known before.
spec fn locates_one(
    locations: Map<TransparentOutPoint, (usize, usize)>,
    before: Map<TransparentOutPoint, (usize, usize)>,
    created: Seq<TransparentOutputArtifact>,
    block: int,
    upto: int,
    outpoint: TransparentOutPoint,
) -> bool {
    let own = created_last(views(created).take(upto), outpoint);
    let (b, k) = locations[outpoint];
    &&& locations.contains_key(outpoint) <==> own is Some || before.contains_key(outpoint)
    &&& own is Some ==> b == block && k < created.len() && created[k as int]@ == own->0
    &&& own is None && before.contains_key(outpoint) ==> locations[outpoint] == before[outpoint]
}

/// Adds the outputs of the last block to the locations of the earlier ones.
fn locate_block(
    locations: &mut OutPointMap<(usize, usize)>,
    blocks: &Vec<WindowBlock>,
)
    requires
        old(locations).well_formed(),
        blocks@.len() > 0,
        locates(old(locations)@, blocks@.drop_last()),
        views(blocks@.last().created_outputs@) == created_by(
            blocks@.last().queued.prepared.facts,
        ),
    ensures
        final(locations).well_formed(),
        locates(final(locations)@, blocks@),
{
    let last: usize = blocks.len() - 1;
    let ghost before = locations@;
    let ghost earlier = blocks@.drop_last();
    let ghost rows = views(blocks@.last().created_outputs@);
    let count: usize = blocks[last].created_outputs.len();
    let mut i: usize = 0;
    assert(facts_of(blocks@).drop_last() =~= facts_of(earlier));
    while i < count
        invariant
            0 <= i <= count,
            last == blocks@.len() - 1,
            count == blocks@[last as int].created_outputs@.len(),
            rows == views(blocks@[last as int].created_outputs@),
            earlier == blocks@.drop_last(),
            locations.well_formed(),
            locates(before, earlier),
            forall|outpoint: TransparentOutPoint| #[trigger]
                locates_one(
                    locations@,
                    before,
                    blocks@[last as int].created_outputs@,
                    last as int,
                    i as int,
                    outpoint,
                ),
        decreases count - i,
    {
        let ghost so_far = locations@;
        locations.insert(blocks[last].created_outputs[i].outpoint, (last, i));
        assert(rows.take(i + 1).drop_last() =~= rows.take(i as int));
        assert(rows.take(i + 1).last() == blocks@[last as int].created_outputs@[i as int]@);
        assert forall|outpoint: TransparentOutPoint| #[trigger]
            locates_one(
                locations@,
                before,
                blocks@[last as int].created_outputs@,
                last as int,
                i + 1,
                outpoint,
            ) by {
            assert(locates_one(
                so_far,
                before,
                blocks@[last as int].created_outputs@,
                last as int,
                i as int,
                outpoint,
            ));
        }
        i += 1;
    }
    proof {
        assert(rows.take(i as int) =~= rows);
        assert forall|outpoint: TransparentOutPoint|
            {
                let row = created_in_window(facts_of(blocks@), outpoint);
                let (b, k) = locations@[outpoint];
                &&& #[trigger] locations@.contains_key(outpoint) <==> row is Some
                &&& locations@.contains_key(outpoint) ==> {
                    &&& b < blocks@.len()
                    &&& k < blocks@[b as int].created_outputs@.len()
                    &&& blocks@[b as int].created_outputs@[k as int]@ == row->0
                }
            } by {
            assert(locates_one(
                locations@,
                before,
                blocks@[last as int].created_outputs@,
                last as int,
                i as int,
                outpoint,
            ));
            assert(before.contains_key(outpoint) <==> created_in_window(
                facts_of(earlier),
                outpoint,
            ) is Some);
            if before.contains_key(outpoint) {
                let (b, k) = before[outpoint];
                assert(blocks@[b as int] == earlier[b as int]);
            }
        }
    }
}

/// Looks up the spent outputs of one block.
fn look_up_block(
    cache: &mut RecentTransparentOutputCache,
    watermark: &mut ByteWatermark,
    earlier: &Vec<WindowBlock>,
    locations: &OutPointMap<(usize, usize)>,
    facts: &CanonicalBlockFacts,
    created_outputs: &Vec<TransparentOutputArtifact>,
    spent_outpoints: &Vec<TransparentOutPoint>,
) -> (lookups: Vec<PrevoutLookup>)
    requires
        old(cache).well_formed(),
        locations.well_formed(),
        locates(locations@, earlier@),
        views(created_outputs@) == created_by(*facts),
    ensures
        final(cache).well_formed(),
        final(watermark).limit_bytes == old(watermark).limit_bytes,
        are_lookups(
            views(lookups@),
            *facts,
            facts_of(earlier@),
            old(cache)@,
            old(watermark)@,
            spent_outpoints@,
        ),
        (final(cache)@, final(watermark)@) == after_lookups(
            *facts,
            facts_of(earlier@),
            old(cache)@,
            old(watermark)@,
            spent_outpoints@,
        ),
{
    let same_block_outputs = outpoints_of(created_outputs);
    let ghost before = facts_of(earlier@);
    let mut lookups: Vec<PrevoutLookup> = Vec::new();
    let mut i: usize = 0;
    assert(spent_outpoints@.take(0) =~= Seq::empty());
    while i < spent_outpoints.len()
        invariant
            0 <= i <= spent_outpoints@.len(),
            cache.well_formed(),
            watermark.limit_bytes == old(watermark).limit_bytes,
            locations.well_formed(),
            locates(locations@, earlier@),
            before == facts_of(earlier@),
            views(created_outputs@) == created_by(*facts),
            same_block_outputs.well_formed(),
            forall|outpoint: TransparentOutPoint| #[trigger]
                same_block_outputs@.contains_key(outpoint) <==> created_last(
                    views(created_outputs@),
                    outpoint,
                ) is Some,
            lookups@.len() == i,
            forall|k: int|
                0 <= k < i ==> (#[trigger] lookups@[k])@ == looked_up(
                    *facts,
                    before,
                    after_lookups(
                        *facts,
                        before,
                        old(cache)@,
                        old(watermark)@,
                        spent_outpoints@.take(k),
                    ).0,
                    spent_outpoints@[k],
                ),
            (cache@, watermark@) == after_lookups(
                *facts,
                before,
                old(cache)@,
                old(watermark)@,
                spent_outpoints@.take(i as int),
            ),
        decreases spent_outpoints@.len() - i,
    {
        let spent_outpoint = spent_outpoints[i];
        assert(spent_outpoints@.take(i + 1).drop_last() =~= spent_outpoints@.take(i as int));
        assert(same_block_outputs@.contains_key(spent_outpoint) <==> created_last(
            views(created_outputs@),
            spent_outpoint,
        ) is Some);
        assert(locations@.contains_key(spent_outpoint) <==> created_in_window(
            before,
            spent_outpoint,
        ) is Some);
        let lookup = if same_block_outputs.contains_key(&spent_outpoint) {
            PrevoutLookup::SameBlock
        } else {
            match locations.get(&spent_outpoint) {
                Some(location) => {
                    let (producer_block_index, producer_output_index) = *location;
                    PrevoutLookup::SameWindow(
                        earlier[producer_block_index].created_outputs[producer_output_index].duplicate(),
                    )
                },
                None => match cache.take(watermark, &spent_outpoint) {
                    Some(output) => PrevoutLookup::RecentCache(output),
                    None => PrevoutLookup::Cold,
                },
            }
        };
        lookups.push(lookup);
        i += 1;
    }
    assert(spent_outpoints@.take(i as int) =~= spent_outpoints@);
    assert(views(lookups@).len() == spent_outpoints@.len());
    assert forall|k: int| 0 <= k < spent_outpoints@.len() implies #[trigger] views(lookups@)[k]
        == looked_up(
        *facts,
        before,
        after_lookups(
            *facts,
            before,
            old(cache)@,
            old(watermark)@,
            spent_outpoints@.take(k),
        ).0,
        spent_outpoints@[k],
    ) by {
        assert(views(lookups@)[k] == lookups@[k]@);
    }
    lookups
}

/// Collects the outpoints of one block that were found within the window, and
/// those that only the store can know.
fn collect_outpoints(
    created_outputs_spent: &mut OutPointMap<()>,
    cold_outpoints: &mut OutPointMap<()>,
    block: &WindowBlock,
)
    requires
        old(created_outputs_spent).well_formed(),
        old(cold_outpoints).well_formed(),
        block.lookups@.len() == block.spent_outpoints@.len(),
    ensures
        final(created_outputs_spent).well_formed(),
        final(cold_outpoints).well_formed(),
        forall|outpoint: TransparentOutPoint| #[trigger]
            final(created_outputs_spent)@.contains_key(outpoint) <==> old(
                created_outputs_spent,
            )@.contains_key(outpoint) || spends_within_window(*block, outpoint),
        forall|outpoint: TransparentOutPoint| #[trigger]
            final(cold_outpoints)@.contains_key(outpoint) <==> old(
                cold_outpoints,
            )@.contains_key(outpoint) || spends_cold(*block, outpoint),
{
    let ghost spent_before = created_outputs_spent@;
    let ghost cold_before = cold_outpoints@;
    let mut i: usize = 0;
    while i < block.spent_outpoints.len()
        invariant
            0 <= i <= block.spent_outpoints@.len(),
            block.lookups@.len() == block.spent_outpoints@.len(),
            created_outputs_spent.well_formed(),
            cold_outpoints.well_formed(),
            forall|outpoint: TransparentOutPoint| #[trigger]
                created_outputs_spent@.contains_key(outpoint) <==> spent_before.contains_key(
                    outpoint,
                ) || exists|k: int|
                    0 <= k < i && #[trigger] block.spent_outpoints@[k] == outpoint && (
                    block.lookups@[k] is SameBlock || block.lookups@[k] is SameWindow),
            forall|outpoint: TransparentOutPoint| #[trigger]
                cold_outpoints@.contains_key(outpoint) <==> cold_before.contains_key(outpoint)
                    || exists|k: int|
                    0 <= k < i && #[trigger] block.spent_outpoints@[k] == outpoint
                        && block.lookups@[k] is Cold,
        decreases block.spent_outpoints@.len() - i,
    {
        let ghost spent_so_far = created_outputs_spent@;
        let ghost cold_so_far = cold_outpoints@;
        let outpoint = block.spent_outpoints[i];
        match &block.lookups[i] {
            PrevoutLookup::SameBlock => {
                created_outputs_spent.insert(outpoint, ());
            },
            PrevoutLookup::SameWindow(_) => {
                created_outputs_spent.insert(outpoint, ());
            },
            PrevoutLookup::RecentCache(_) => {},
            PrevoutLookup::Cold => {
                cold_outpoints.insert(outpoint, ());
            },
        }
        assert(block.spent_outpoints@[i as int] == outpoint);
        assert forall|o: TransparentOutPoint| #[trigger]
            created_outputs_spent@.contains_key(o) <==> spent_before.contains_key(o) || exists|
                k: int,
            |
                0 <= k < i + 1 && #[trigger] block.spent_outpoints@[k] == o && (
                block.lookups@[k] is SameBlock || block.lookups@[k] is SameWindow) by {
            assert(spent_so_far.contains_key(o) || o == outpoint
                || !created_outputs_spent@.contains_key(o));
        }
        assert forall|o: TransparentOutPoint| #[trigger]
            cold_outpoints@.contains_key(o) <==> cold_before.contains_key(o) || exists|k: int|
                0 <= k < i + 1 && #[trigger] block.spent_outpoints@[k] == o
                    && block.lookups@[k] is Cold by {
            assert(cold_so_far.contains_key(o) || o == outpoint || !cold_outpoints@.contains_key(
                o,
            ));
        }
        i += 1;
    }
}

/// Looks up the spent outputs of a window of consecutive blocks everywhere but
/// in the store.
pub fn look_up_window(
    cache: &mut RecentTransparentOutputCache,
    watermark: &mut ByteWatermark,
    queued_blocks: Vec<QueuedPreparedBlock>,
) -> (window: PrevoutWindow)
    requires
        old(cache).well_formed(),
    ensures
        final(cache).well_formed(),
        final(watermark).limit_bytes == old(watermark).limit_bytes,
        window.well_formed(),
        window.blocks@.len() == queued_blocks@.len(),
        forall|b: int|
            0 <= b < queued_blocks@.len() ==> (#[trigger] window.blocks@[b]).queued
                == queued_blocks@[b],
        forall|b: int|
            0 <= b < queued_blocks@.len() ==> #[trigger] is_looked_up(
                window.blocks@,
                old(cache)@,
                old(watermark)@,
                b,
            ),
        (final(cache)@, final(watermark)@) == after_blocks(
            window.blocks@,
            old(cache)@,
            old(watermark)@,
        ),
{
    let ghost queued_in_order = queued_blocks@;
    let ghost cache_before = cache@;
    let ghost free_before = watermark@;
    let mut blocks: Vec<WindowBlock> = Vec::new();
    let mut locations: OutPointMap<(usize, usize)> = OutPointMap::new();
    let mut created_outputs_spent: OutPointMap<()> = OutPointMap::new();
    let mut cold_outpoints: OutPointMap<()> = OutPointMap::new();
    assert(facts_of(blocks@) =~= Seq::empty());
    for queued in it: queued_blocks
        invariant
            it.seq() == queued_in_order,
            cache_before == old(cache)@,
            free_before == old(watermark)@,
            cache.well_formed(),
            watermark.limit_bytes == old(watermark).limit_bytes,
            locations.well_formed(),
            locates(locations@, blocks@),
            blocks@.len() == it.index(),
            forall|b: int|
                0 <= b < blocks@.len() ==> (#[trigger] blocks@[b]).queued == queued_in_order[b],
            forall|b: int|
                0 <= b < blocks@.len() ==> #[trigger] is_looked_up(
                    blocks@,
                    cache_before,
                    free_before,
                    b,
                ),
            (cache@, watermark@) == after_blocks(blocks@, cache_before, free_before),
            created_outputs_spent.well_formed(),
            cold_outpoints.well_formed(),
            forall|outpoint: TransparentOutPoint| #[trigger]
                created_outputs_spent@.contains_key(outpoint) <==> exists|b: int|
                    0 <= b < blocks@.len() && spends_within_window(
                        #[trigger] blocks@[b],
                        outpoint,
                    ),
            forall|outpoint: TransparentOutPoint| #[trigger]
                cold_outpoints@.contains_key(outpoint) <==> exists|b: int|
                    0 <= b < blocks@.len() && spends_cold(#[trigger] blocks@[b], outpoint),
    {
        let ghost earlier = blocks@;
        let ghost spent_so_far = created_outputs_spent@;
        let ghost cold_so_far = cold_outpoints@;
        let created_outputs = current_schema_transparent_outputs(&queued.prepared.facts);
        let spent_outpoints = spent_outpoints_for_prepared_block(&queued.prepared.facts);
        let lookups = look_up_block(
            cache,
            watermark,
            &blocks,
            &locations,
            &queued.prepared.facts,
            &created_outputs,
            &spent_outpoints,
        );
        let block = WindowBlock { queued, created_outputs, spent_outpoints, lookups };
        collect_outpoints(&mut created_outputs_spent, &mut cold_outpoints, &block);
        let ghost added = block;
        blocks.push(block);
        assert(blocks@.drop_last() =~= earlier);
        locate_block(&mut locations, &blocks);
        proof {
            assert forall|b: int| 0 <= b < blocks@.len() implies #[trigger] is_looked_up(
                blocks@,
                cache_before,
                free_before,
                b,
            ) by {
                if b < earlier.len() {
                    assert(is_looked_up(earlier, cache_before, free_before, b));
                    assert(blocks@.take(b) =~= earlier.take(b));
                } else {
                    assert(blocks@.take(b) =~= earlier);
                }
            }
            assert forall|outpoint: TransparentOutPoint| #[trigger]
                created_outputs_spent@.contains_key(outpoint) <==> exists|b: int|
                    0 <= b < blocks@.len() && spends_within_window(
                        #[trigger] blocks@[b],
                        outpoint,
                    ) by {
                assert(spent_so_far.contains_key(outpoint) <==> exists|b: int|
                    0 <= b < earlier.len() && spends_within_window(
                        #[trigger] earlier[b],
                        outpoint,
                    ));
                if spent_so_far.contains_key(outpoint) {
                    let b = choose|b: int|
                        0 <= b < earlier.len() && spends_within_window(
                            #[trigger] earlier[b],
                            outpoint,
                        );
                    assert(blocks@[b] == earlier[b]);
                }
                if exists|b: int|
                    0 <= b < blocks@.len() && spends_within_window(
                        #[trigger] blocks@[b],
                        outpoint,
                    ) {
                    let b = choose|b: int|
                        0 <= b < blocks@.len() && spends_within_window(
                            #[trigger] blocks@[b],
                            outpoint,
                        );
                    if b < earlier.len() {
                        assert(earlier[b] == blocks@[b]);
                    }
                }
                assert(blocks@[earlier.len() as int] == added);
            }
            assert forall|outpoint: TransparentOutPoint| #[trigger]
                cold_outpoints@.contains_key(outpoint) <==> exists|b: int|
                    0 <= b < blocks@.len() && spends_cold(#[trigger] blocks@[b], outpoint) by {
                assert(cold_so_far.contains_key(outpoint) <==> exists|b: int|
                    0 <= b < earlier.len() && spends_cold(#[trigger] earlier[b], outpoint));
                if cold_so_far.contains_key(outpoint) {
                    let b = choose|b: int|
                        0 <= b < earlier.len() && spends_cold(#[trigger] earlier[b], outpoint);
                    assert(blocks@[b] == earlier[b]);
                }
                if exists|b: int|
                    0 <= b < blocks@.len() && spends_cold(#[trigger] blocks@[b], outpoint) {
                    let b = choose|b: int|
                        0 <= b < blocks@.len() && spends_cold(#[trigger] blocks@[b], outpoint);
                    if b < earlier.len() {
                        assert(earlier[b] == blocks@[b]);
                    }
                }
                assert(blocks@[earlier.len() as int] == added);
            }
        }
    }
    PrevoutWindow { blocks, created_outputs_spent, cold_outpoints }
}

/// Lists the outpoints of a window that only the store can know, each once, in order.
pub fn cold_outpoints_in_order(window: &PrevoutWindow) -> (outpoints: Vec<TransparentOutPoint>)
    requires
        window.well_formed(),
    ensures
        strictly_rising(outpoints@),
        forall|outpoint: TransparentOutPoint| #[trigger]
            outpoints@.contains(outpoint) <==> exists|b: int|
                0 <= b < window.blocks@.len() && spends_cold(
                    #[trigger] window.blocks@[b],
                    outpoint,
                ),
{
    let outpoints = keys_in_order(&window.cold_outpoints);
    assert forall|outpoint: TransparentOutPoint| #[trigger]
        outpoints@.contains(outpoint) <==> exists|b: int|
            0 <= b < window.blocks@.len() && spends_cold(#[trigger] window.blocks@[b], outpoint) by {
        assert(outpoints@.contains(outpoint) <==> window.cold_outpoints@.contains_key(outpoint));
    }
    outpoints
}

/// Output that one lookup gives a block, with what the store provided.
pub open spec fn found(
    lookup: LookupRow,
    outpoint: TransparentOutPoint,
    store: Map<TransparentOutPoint, TransparentOutputRow>,
) -> Option<TransparentOutputRow> {
    match lookup {
        LookupRow::SameBlock => None,
        LookupRow::SameWindow(row) => Some(row),
        LookupRow::RecentCache(row) => Some(row),
        LookupRow::Cold => if store.contains_key(outpoint) {
            Some(store[outpoint])
        } else {
            None
        },
    }
}

/// Outputs that a run of lookups gives a block, in the order of the outpoints.
pub open spec fn prefetched_rows(
    spent: Seq<TransparentOutPoint>,
    lookups: Seq<LookupRow>,
    store: Map<TransparentOutPoint, TransparentOutputRow>,
) -> Seq<TransparentOutputRow>
    decreases spent.len(),
{
    if spent.len() == 0 {
        Seq::empty()
    } else {
        let before = prefetched_rows(spent.drop_last(), lookups.drop_last(), store);
        match found(lookups.last(), spent.last(), store) {
            Some(row) => before.push(row),
            None => before,
        }
    }
}

/// Outputs of a run that no block of the window spends.
pub open spec fn unspent_outputs(
    outputs: Seq<TransparentOutputArtifact>,
    spent: Map<TransparentOutPoint, ()>,
) -> Seq<TransparentOutputArtifact>
    decreases outputs.len(),
{
    if outputs.len() == 0 {
        Seq::empty()
    } else {
        let before = unspent_outputs(outputs.drop_last(), spent);
        if spent.contains_key(outputs.last().outpoint) {
            before
        } else {
            before.push(outputs.last())
        }
    }
}

/// Outputs that a run of blocks creates and no block of the window spends.
pub open spec fn unspent_in_window(
    blocks: Seq<WindowBlock>,
    spent: Map<TransparentOutPoint, ()>,
) -> Seq<TransparentOutputArtifact>
    decreases blocks.len(),
{
    if blocks.len() == 0 {
        Seq::empty()
    } else {
        unspent_in_window(blocks.drop_last(), spent) + unspent_outputs(
            blocks.last().created_outputs@,
            spent,
        )
    }
}

/// Cache and watermark after outputs of some sizes were offered one after the other.
pub open spec fn after_offers(
    cache: CacheState,
    watermark: WatermarkSnapshot,
    outputs: Seq<TransparentOutputArtifact>,
    sizes: Seq<u64>,
) -> (CacheState, WatermarkSnapshot)
    decreases outputs.len(),
{
    if outputs.len() == 0 {
        (cache, watermark)
    } else {
        let (grown, taken) = after_offers(
            cache,
            watermark,
            outputs.drop_last(),
            sizes.drop_last(),
        );
        offered(grown, taken, outputs.last(), sizes.last())
    }
}

/// Whether sizes are those of cached outputs.
pub open spec fn are_cache_entry_sizes(
    sizes: Seq<u64>,
    outputs: Seq<TransparentOutputArtifact>,
) -> bool {
    &&& sizes.len() == outputs.len()
    &&& forall|i: int|
        0 <= i < sizes.len() ==> is_cache_entry_size(#[trigger] sizes[i], outputs[i])
}

/// Watermark after the reservations of some blocks were resized one after the other.
pub open spec fn after_resizes(
    watermark: WatermarkSnapshot,
    blocks: Seq<WindowBlock>,
    sizes: Seq<u64>,
) -> WatermarkSnapshot
    decreases blocks.len(),
{
    if blocks.len() == 0 {
        watermark
    } else {
        after_resizes(watermark, blocks.drop_last(), sizes.drop_last()).resized(
            blocks.last().queued.reservation.bytes,
            sizes.last(),
        )
    }
}

/// Whether a block left the window with the outputs it spends and a
/// reservation of the size it now has.
pub open spec fn is_resolved(
    resolved: CanonicalBlockCommitPreparation,
    block: WindowBlock,
    store: Map<TransparentOutPoint, TransparentOutputRow>,
    size: u64,
) -> bool {
    &&& resolved.prepared == block.queued.prepared
    &&& resolved.replay_envelope == block.queued.replay_envelope
    &&& views(resolved.prefetched_spent_transparent_outputs@) == prefetched_rows(
        block.spent_outpoints@,
        views(block.lookups@),
        store,
    )
    &&& is_resident_with_prevouts(
        size,
        block.queued.prepared,
        block.queued.replay_envelope.payload_bytes@.len() as usize,
        resolved.prefetched_spent_transparent_outputs@,
    )
    &&& resolved.block_prepare_reservation.bytes == super::watermark::requested(size)
    &&& !resolved.block_prepare_reservation.is_released
}

fn take_found_outputs(
    spent_outpoints: &Vec<TransparentOutPoint>,
    lookups: Vec<PrevoutLookup>,
    store_outputs: &OutPointMap<TransparentOutputArtifact>,
) -> (found_outputs: Vec<TransparentOutputArtifact>)
    requires
        lookups@.len() == spent_outpoints@.len(),
        store_outputs.well_formed(),
    ensures
        views(found_outputs@) == prefetched_rows(
            spent_outpoints@,
            views(lookups@),
            rows_by_outpoint(store_outputs@),
        ),
{
    let ghost all = views(lookups@);
    let ghost given = lookups@;
    let ghost store = rows_by_outpoint(store_outputs@);
    let mut found_outputs: Vec<TransparentOutputArtifact> = Vec::new();
    let count: usize = spent_outpoints.len();
    let mut i: usize = 0;
    assert(views(found_outputs@) =~= prefetched_rows(spent_outpoints@.take(0), all.take(0), store));
    for lookup in it: lookups
        invariant
            it.seq() == given,
            i == it.index(),
            count == given.len(),
            given.len() == spent_outpoints@.len(),
            all == views(given),
            store_outputs.well_formed(),
            store == rows_by_outpoint(store_outputs@),
            views(found_outputs@) == prefetched_rows(
                spent_outpoints@.take(i as int),
                all.take(i as int),
                store,
            ),
    {
        let ghost before = found_outputs@;
        let outpoint = spent_outpoints[i];
        proof {
            assert(spent_outpoints@.take(i + 1).drop_last() =~= spent_outpoints@.take(i as int));
            assert(all.take(i + 1).drop_last() =~= all.take(i as int));
            assert(all.take(i + 1).last() == lookup@);
            assert(store.contains_key(outpoint) == store_outputs@.contains_key(outpoint));
        }
        match lookup {
            PrevoutLookup::SameBlock => {},
            PrevoutLookup::SameWindow(output) => {
                found_outputs.push(output);
                assert(views(found_outputs@) =~= views(before).push(output@));
            },
            PrevoutLookup::RecentCache(output) => {
                found_outputs.push(output);
                assert(views(found_outputs@) =~= views(before).push(output@));
            },
            PrevoutLookup::Cold => {
                if let Some(output) = store_outputs.get(&outpoint) {
                    found_outputs.push(output.duplicate());
                    assert(views(found_outputs@) =~= views(before).push(store[outpoint]));
                }
            },
        }
        i += 1;
    }
    assert(spent_outpoints@.take(i as int) =~= spent_outpoints@);
    assert(all.take(i as int) =~= all);
    found_outputs
}

/// Offers the outputs of a block that no block of the window spends to the cache.
fn offer_unspent_outputs(
    cache: &mut RecentTransparentOutputCache,
    watermark: &mut ByteWatermark,
    outputs: Vec<TransparentOutputArtifact>,
    spent: &OutPointMap<()>,
) -> (offers: Ghost<Seq<u64>>)
    requires
        old(cache).well_formed(),
        spent.well_formed(),
    ensures
        final(cache).well_formed(),
        final(watermark).limit_bytes == old(watermark).limit_bytes,
        are_cache_entry_sizes(offers@, unspent_outputs(outputs@, spent@)),
        (final(cache)@, final(watermark)@) == after_offers(
            old(cache)@,
            old(watermark)@,
            unspent_outputs(outputs@, spent@),
            offers@,
        ),
{
    let ghost all = outputs@;
    let ghost mut sizes: Seq<u64> = Seq::empty();
    assert(all.take(0) =~= Seq::empty());
    for output in it: outputs
        invariant
            it.seq() == all,
            cache.well_formed(),
            watermark.limit_bytes == old(watermark).limit_bytes,
            spent.well_formed(),
            are_cache_entry_sizes(sizes, unspent_outputs(all.take(it.index() as int), spent@)),
            (cache@, watermark@) == after_offers(
                old(cache)@,
                old(watermark)@,
                unspent_outputs(all.take(it.index() as int), spent@),
                sizes,
            ),
    {
        let ghost k = it.index() as int;
        let ghost before = unspent_outputs(all.take(k), spent@);
        assert(all.take(k + 1).drop_last() =~= all.take(k));
        assert(all.take(k + 1).last() == output);
        if !spent.contains_key(&output.outpoint) {
            let resident_bytes: u64 = transparent_output_cache_entry_bytes(&output);
            let ghost sizes_before = sizes;
            proof {
                sizes = sizes.push(resident_bytes);
                assert(before.push(output).drop_last() =~= before);
                assert(sizes.drop_last() =~= sizes_before);
                assert forall|j: int| 0 <= j < sizes.len() implies is_cache_entry_size(
                    #[trigger] sizes[j],
                    before.push(output)[j],
                ) by {
                    if j < sizes_before.len() {
                        assert(is_cache_entry_size(sizes_before[j], before[j]));
                    }
                }
            }
            cache.insert(watermark, output, resident_bytes);
        }
    }
    assert(all.take(all.len() as int) =~= all);
    Ghost(sizes)
}

proof fn lemma_offers_compose(
    cache: CacheState,
    watermark: WatermarkSnapshot,
    first: Seq<TransparentOutputArtifact>,
    first_sizes: Seq<u64>,
    second: Seq<TransparentOutputArtifact>,
    second_sizes: Seq<u64>,
)
    requires
        first.len() == first_sizes.len(),
        second.len() == second_sizes.len(),
    ensures
        ({
            let (grown, taken) = after_offers(cache, watermark, first, first_sizes);
            after_offers(cache, watermark, first + second, first_sizes + second_sizes)
                == after_offers(grown, taken, second, second_sizes)
        }),
    decreases second.len(),
{
    if second.len() == 0 {
        assert(first + second =~= first);
        assert(first_sizes + second_sizes =~= first_sizes);
    } else {
        lemma_offers_compose(
            cache,
            watermark,
            first,
            first_sizes,
            second.drop_last(),
            second_sizes.drop_last(),
        );
        assert((first + second).drop_last() =~= first + second.drop_last());
        assert((first_sizes + second_sizes).drop_last() =~= first_sizes
            + second_sizes.drop_last());
    }
}

/// Whether a cache with its watermark and some preparations are what the
/// resolution of a window leaves, where its unspent outputs and its blocks were
/// measured to have some sizes.
pub open spec fn is_window_outcome(
    before: (CacheState, WatermarkSnapshot),
    after: (CacheState, WatermarkSnapshot),
    blocks: Seq<WindowBlock>,
    spent: Map<TransparentOutPoint, ()>,
    store: Map<TransparentOutPoint, TransparentOutputRow>,
    resolved: Seq<CanonicalBlockCommitPreparation>,
    offers: Seq<u64>,
    sizes: Seq<u64>,
) -> bool {
    let unspent = unspent_in_window(blocks, spent);
    let (grown, taken) = after_offers(before.0, before.1, unspent, offers);
    &&& are_cache_entry_sizes(offers, unspent)
    &&& sizes.len() == blocks.len()
    &&& resolved.len() == blocks.len()
    &&& after == (grown, after_resizes(taken, blocks, sizes))
    &&& forall|b: int|
        0 <= b < blocks.len() ==> is_resolved(
            #[trigger] resolved[b],
            blocks[b],
            store,
            sizes[b],
        )
}

/// Ends the resolution of a window with what the store provided: blocks leave
/// with the outputs they spend, outputs nobody of the window spends are kept
/// for later blocks, and reservations shrink to what the blocks now hold.
pub fn prepare_resolved_window(
    cache: &mut RecentTransparentOutputCache,
    watermark: &mut ByteWatermark,
    window: PrevoutWindow,
    store_outputs: &OutPointMap<TransparentOutputArtifact>,
) -> (resolved: Vec<CanonicalBlockCommitPreparation>)
    requires
        old(cache).well_formed(),
        window.created_outputs_spent.well_formed(),
        store_outputs.well_formed(),
        forall|b: int|
            0 <= b < window.blocks@.len() ==> {
                &&& !(#[trigger] window.blocks@[b]).queued.reservation.is_released
                &&& window.blocks@[b].lookups@.len() == window.blocks@[b].spent_outpoints@.len()
            },
    ensures
        final(cache).well_formed(),
        final(watermark).limit_bytes == old(watermark).limit_bytes,
        exists|offers: Seq<u64>, sizes: Seq<u64>| #[trigger]
            is_window_outcome(
                (old(cache)@, old(watermark)@),
                (final(cache)@, final(watermark)@),
                window.blocks@,
                window.created_outputs_spent@,
                rows_by_outpoint(store_outputs@),
                resolved@,
                offers,
                sizes,
            ),
{
    let ghost all = window.blocks@;
    let ghost spent = window.created_outputs_spent@;
    let ghost store = rows_by_outpoint(store_outputs@);
    let PrevoutWindow { blocks, created_outputs_spent, cold_outpoints: _ } = window;
    let mut waiting: Vec<CanonicalBlockCommitPreparation> = Vec::new();
    let ghost mut offers: Seq<u64> = Seq::empty();
    assert(all.take(0) =~= Seq::empty());
    for block in it: blocks
        invariant
            it.seq() == all,
            cache.well_formed(),
            watermark.limit_bytes == old(watermark).limit_bytes,
            created_outputs_spent.well_formed(),
            spent == created_outputs_spent@,
            store_outputs.well_formed(),
            store == rows_by_outpoint(store_outputs@),
            forall|b: int|
                0 <= b < all.len() ==> {
                    &&& !(#[trigger] all[b]).queued.reservation.is_released
                    &&& all[b].lookups@.len() == all[b].spent_outpoints@.len()
                },
            waiting@.len() == it.index(),
            forall|b: int|
                0 <= b < waiting@.len() ==> {
                    &&& (#[trigger] waiting@[b]).prepared == all[b].queued.prepared
                    &&& waiting@[b].replay_envelope == all[b].queued.replay_envelope
                    &&& waiting@[b].block_prepare_reservation == all[b].queued.reservation
                    &&& views(waiting@[b].prefetched_spent_transparent_outputs@)
                        == prefetched_rows(
                        all[b].spent_outpoints@,
                        views(all[b].lookups@),
                        store,
                    )
                },
            are_cache_entry_sizes(offers, unspent_in_window(all.take(it.index() as int), spent)),
            (cache@, watermark@) == after_offers(
                old(cache)@,
                old(watermark)@,
                unspent_in_window(all.take(it.index() as int), spent),
                offers,
            ),
    {
        let ghost k = it.index() as int;
        let ghost before = unspent_in_window(all.take(k), spent);
        assert(all.take(k + 1).drop_last() =~= all.take(k));
        assert(all.take(k + 1).last() == block);
        assert(all[k] == block);
        let ghost created = block.created_outputs@;
        let WindowBlock { queued, created_outputs, spent_outpoints, lookups } = block;
        let QueuedPreparedBlock { prepared, replay_envelope, resident_bytes: _, reservation } =
            queued;
        let prefetched_spent_transparent_outputs = take_found_outputs(
            &spent_outpoints,
            lookups,
            store_outputs,
        );
        waiting.push(
            CanonicalBlockCommitPreparation {
                prepared,
                replay_envelope,
                prefetched_spent_transparent_outputs,
                block_prepare_reservation: reservation,
            },
        );
        let ghost offers_before = offers;
        let Ghost(added) = offer_unspent_outputs(
            cache,
            watermark,
            created_outputs,
            &created_outputs_spent,
        );
        proof {
            let own = unspent_outputs(created, spent);
            lemma_offers_compose(old(cache)@, old(watermark)@, before, offers_before, own, added);
            offers = offers_before + added;
            assert forall|j: int| 0 <= j < offers.len() implies is_cache_entry_size(
                #[trigger] offers[j],
                (before + own)[j],
            ) by {
                if j < offers_before.len() {
                    assert(is_cache_entry_size(offers_before[j], before[j]));
                } else {
                    assert(is_cache_entry_size(
                        added[j - offers_before.len()],
                        own[j - offers_before.len()],
                    ));
                }
            }
        }
    }
    assert(all.take(all.len() as int) =~= all);
    let ghost taken = watermark@;
    let ghost kept = cache@;
    let ghost pending = waiting@;
    let mut resolved: Vec<CanonicalBlockCommitPreparation> = Vec::new();
    let ghost mut sizes: Seq<u64> = Seq::empty();
    for preparation in it: waiting
        invariant
            it.seq() == pending,
            cache@ == kept,
            cache.well_formed(),
            watermark.limit_bytes == old(watermark).limit_bytes,
            pending.len() == all.len(),
            forall|b: int|
                0 <= b < all.len() ==> {
                    &&& !(#[trigger] all[b]).queued.reservation.is_released
                    &&& all[b].lookups@.len() == all[b].spent_outpoints@.len()
                },
            forall|b: int|
                0 <= b < pending.len() ==> {
                    &&& (#[trigger] pending[b]).prepared == all[b].queued.prepared
                    &&& pending[b].replay_envelope == all[b].queued.replay_envelope
                    &&& pending[b].block_prepare_reservation == all[b].queued.reservation
                    &&& views(pending[b].prefetched_spent_transparent_outputs@)
                        == prefetched_rows(
                        all[b].spent_outpoints@,
                        views(all[b].lookups@),
                        store,
                    )
                },
            resolved@.len() == it.index(),
            sizes.len() == it.index(),
            watermark@ == after_resizes(taken, all.take(it.index() as int), sizes),
            forall|b: int|
                0 <= b < resolved@.len() ==> is_resolved(
                    #[trigger] resolved@[b],
                    all[b],
                    store,
                    sizes[b],
                ),
    {
        let ghost k = it.index() as int;
        assert(pending[k] == preparation);
        assert(all.take(k + 1).drop_last() =~= all.take(k));
        assert(!all[k].queued.reservation.is_released);
        let CanonicalBlockCommitPreparation {
            prepared,
            replay_envelope,
            prefetched_spent_transparent_outputs,
            block_prepare_reservation,
        } = preparation;
        let resident_bytes: u64 = block_commit_preparation_resident_bytes(
            &prepared,
            replay_envelope.payload_bytes.len(),
            &prefetched_spent_transparent_outputs,
        );
        let mut reservation = block_prepare_reservation;
        watermark.resize(&mut reservation, resident_bytes);
        let ghost sizes_before = sizes;
        let ghost resolved_before = resolved@;
        resolved.push(
            CanonicalBlockCommitPreparation {
                prepared,
                replay_envelope,
                prefetched_spent_transparent_outputs,
                block_prepare_reservation: reservation,
            },
        );
        proof {
            sizes = sizes.push(resident_bytes);
            assert(sizes.drop_last() =~= sizes_before);
            assert forall|b: int| 0 <= b < resolved@.len() implies is_resolved(
                #[trigger] resolved@[b],
                all[b],
                store,
                sizes[b],
            ) by {
                if b < k {
                    assert(resolved@[b] == resolved_before[b]);
                    assert(sizes[b] == sizes_before[b]);
                    assert(is_resolved(resolved_before[b], all[b], store, sizes_before[b]));
                }
            }
        }
    }
    proof {
        assert(all.take(all.len() as int) =~= all);
        assert(is_window_outcome(
            (old(cache)@, old(watermark)@),
            (cache@, watermark@),
            all,
            spent,
            store,
            resolved@,
            offers,
            sizes,
        ));
    }
    resolved
}

/// The outputs a block gets stand in outpoint order, each once, and only
/// those the block spends are among them.
pub proof fn law_prefetched_outputs_stand_in_order(
    spent: Seq<TransparentOutPoint>,
    lookups: Seq<LookupRow>,
    store: Map<TransparentOutPoint, TransparentOutputRow>,
)
    requires
        strictly_rising(spent),
        lookups.len() == spent.len(),
        forall|i: int|
            0 <= i < spent.len() ==> match found(#[trigger] lookups[i], spent[i], store) {
                Some(row) => row.outpoint == spent[i],
                None => true,
            },
    ensures
        ({
            let rows = prefetched_rows(spent, lookups, store);
            &&& strictly_rising(rows.map_values(|row: TransparentOutputRow| row.outpoint))
            &&& forall|i: int|
                0 <= i < rows.len() ==> spent.contains((#[trigger] rows[i]).outpoint)
        }),
    decreases spent.len(),
{
    let rows = prefetched_rows(spent, lookups, store);
    if spent.len() > 0 {
        let rest = spent.drop_last();
        assert forall|i: int| 0 <= i < rest.len() implies match found(
            #[trigger] lookups.drop_last()[i],
            rest[i],
            store,
        ) {
            Some(row) => row.outpoint == rest[i],
            None => true,
        } by {
            assert(lookups.drop_last()[i] == lookups[i]);
        }
        assert forall|i: int, j: int| 0 <= i < j < rest.len() implies crate::outpoint_map::outpoint_before(
            #[trigger] rest[i],
            #[trigger] rest[j],
        ) by {
            assert(crate::outpoint_map::outpoint_before(spent[i], spent[j]));
        }
        law_prefetched_outputs_stand_in_order(rest, lookups.drop_last(), store);
        let before = prefetched_rows(rest, lookups.drop_last(), store);
        let last = lookups.len() - 1;
        assert(lookups[last] == lookups.last());
        let outpoints = rows.map_values(|row: TransparentOutputRow| row.outpoint);
        let outpoints_before = before.map_values(|row: TransparentOutputRow| row.outpoint);
        assert forall|i: int| 0 <= i < rows.len() implies spent.contains(
            (#[trigger] rows[i]).outpoint,
        ) by {
            if i < before.len() {
                assert(rest.contains(before[i].outpoint));
                let k = choose|k: int| 0 <= k < rest.len() && rest[k] == before[i].outpoint;
                assert(spent[k] == rows[i].outpoint);
            } else {
                assert(spent[last] == rows[i].outpoint);
            }
        }
        assert forall|i: int, j: int|
            0 <= i < j < outpoints.len() implies crate::outpoint_map::outpoint_before(
            #[trigger] outpoints[i],
            #[trigger] outpoints[j],
        ) by {
            if j < before.len() {
                assert(crate::outpoint_map::outpoint_before(
                    outpoints_before[i],
                    outpoints_before[j],
                ));
            } else {
                assert(rest.contains(before[i].outpoint));
                let k = choose|k: int| 0 <= k < rest.len() && rest[k] == before[i].outpoint;
                assert(crate::outpoint_map::outpoint_before(spent[k], spent[last]));
            }
        }
    }
}

proof fn lemma_created_last_names_its_outpoint(
    rows: Seq<TransparentOutputRow>,
    outpoint: TransparentOutPoint,
)
    ensures
        created_last(rows, outpoint) matches Some(row) ==> row.outpoint == outpoint,
    decreases rows.len(),
{
    if rows.len() > 0 {
        lemma_created_last_names_its_outpoint(rows.drop_last(), outpoint);
    }
}

proof fn lemma_window_output_names_its_outpoint(
    blocks: Seq<CanonicalBlockFacts>,
    outpoint: TransparentOutPoint,
)
    ensures
        created_in_window(blocks, outpoint) matches Some(row) ==> row.outpoint == outpoint,
    decreases blocks.len(),
{
    if blocks.len() > 0 {
        lemma_created_last_names_its_outpoint(created_by(blocks.last()), outpoint);
        lemma_window_output_names_its_outpoint(blocks.drop_last(), outpoint);
    }
}

/// A lookup never gives a block another output than the one it asked for.
pub proof fn law_lookup_gives_the_output_asked_for(
    facts: CanonicalBlockFacts,
    earlier: Seq<CanonicalBlockFacts>,
    cache: CacheState,
    outpoint: TransparentOutPoint,
)
    requires
        cache.well_formed(),
    ensures
        match looked_up(facts, earlier, cache, outpoint) {
            LookupRow::SameWindow(row) => row.outpoint == outpoint,
            LookupRow::RecentCache(row) => row.outpoint == outpoint,
            _ => true,
        },
{
    lemma_window_output_names_its_outpoint(earlier, outpoint);
}

/// How often spent outputs were found in each place.
#[derive(Clone, Copy, Debug, PartialEq, Eq, Structural)]
pub struct PrevoutResolutionStats {
    pub same_block: usize,
    pub same_window: usize,
    pub recent_cache: usize,
    pub store_requested: usize,
    pub store_resolved: usize,
}

/// One for what is counted, zero for what is not.
pub open spec fn one_if(counted: bool) -> int {
    if counted {
        1
    } else {
        0
    }
}

/// Weight that counts what the block itself creates.
pub open spec fn weigh_same_block() -> spec_fn(PrevoutLookup) -> int {
    |lookup: PrevoutLookup| one_if(lookup is SameBlock)
}

/// Weight that counts what an earlier block of the window creates.
pub open spec fn weigh_same_window() -> spec_fn(PrevoutLookup) -> int {
    |lookup: PrevoutLookup| one_if(lookup is SameWindow)
}

/// Weight that counts what was created recently.
pub open spec fn weigh_recent_cache() -> spec_fn(PrevoutLookup) -> int {
    |lookup: PrevoutLookup| one_if(lookup is RecentCache)
}

/// Weight of all lookups of a run of blocks.
pub open spec fn lookup_total(
    blocks: Seq<WindowBlock>,
    weight: spec_fn(PrevoutLookup) -> int,
) -> int {
    total(blocks, |block: WindowBlock| total(block.lookups@, weight))
}

fn count_lookups(lookups: &Vec<PrevoutLookup>) -> (counts: (usize, usize, usize))
    ensures
        counts.0 == total(lookups@, weigh_same_block()),
        counts.1 == total(lookups@, weigh_same_window()),
        counts.2 == total(lookups@, weigh_recent_cache()),
{
    let mut same_block: usize = 0;
    let mut same_window: usize = 0;
    let mut recent_cache: usize = 0;
    let mut i: usize = 0;
    while i < lookups.len()
        invariant
            0 <= i <= lookups@.len(),
            same_block <= i,
            same_window <= i,
            recent_cache <= i,
            same_block == total(lookups@.take(i as int), weigh_same_block()),
            same_window == total(lookups@.take(i as int), weigh_same_window()),
            recent_cache == total(lookups@.take(i as int), weigh_recent_cache()),
        decreases lookups@.len() - i,
    {
        assert(lookups@.take(i + 1).drop_last() =~= lookups@.take(i as int));
        match &lookups[i] {
            PrevoutLookup::SameBlock => {
                same_block += 1;
            },
            PrevoutLookup::SameWindow(_) => {
                same_window += 1;
            },
            PrevoutLookup::RecentCache(_) => {
                recent_cache += 1;
            },
            PrevoutLookup::Cold => {},
        }
        i += 1;
    }
    assert(lookups@.take(i as int) =~= lookups@);
    (same_block, same_window, recent_cache)
}

/// Counts where the spent outputs of a window were found, given how many
/// outputs the store was asked for and how many it provided.
pub fn prevout_resolution_stats(
    window: &PrevoutWindow,
    store_requested: usize,
    store_resolved: usize,
) -> (stats: PrevoutResolutionStats)
    ensures
        stats.same_block == clipped(lookup_total(window.blocks@, weigh_same_block())),
        stats.same_window == clipped(lookup_total(window.blocks@, weigh_same_window())),
        stats.recent_cache == clipped(lookup_total(window.blocks@, weigh_recent_cache())),
        stats.store_requested == store_requested,
        stats.store_resolved == store_resolved,
{
    let mut stats = PrevoutResolutionStats {
        same_block: 0,
        same_window: 0,
        recent_cache: 0,
        store_requested,
        store_resolved,
    };
    let blocks = &window.blocks;
    let mut i: usize = 0;
    while i < blocks.len()
        invariant
            0 <= i <= blocks@.len(),
            stats.store_requested == store_requested,
            stats.store_resolved == store_resolved,
            stats.same_block == clipped(lookup_total(blocks@.take(i as int), weigh_same_block())),
            stats.same_window == clipped(
                lookup_total(blocks@.take(i as int), weigh_same_window()),
            ),
            stats.recent_cache == clipped(
                lookup_total(blocks@.take(i as int), weigh_recent_cache()),
            ),
            lookup_total(blocks@.take(i as int), weigh_same_block()) >= 0,
            lookup_total(blocks@.take(i as int), weigh_same_window()) >= 0,
            lookup_total(blocks@.take(i as int), weigh_recent_cache()) >= 0,
        decreases blocks@.len() - i,
    {
        assert(blocks@.take(i + 1).drop_last() =~= blocks@.take(i as int));
        let (same_block, same_window, recent_cache) = count_lookups(&blocks[i].lookups);
        stats.same_block = stats.same_block.saturating_add(same_block);
        stats.same_window = stats.same_window.saturating_add(same_window);
        stats.recent_cache = stats.recent_cache.saturating_add(recent_cache);
        i += 1;
    }
    assert(blocks@.take(i as int) =~= blocks@);
    stats
}

/// A block spends an outpoint exactly where an input of one of its transactions
/// names it, and it is not the null one of a coinbase.
pub proof fn law_block_spends_what_its_inputs_name(
    transactions: Seq<CanonicalTransactionFacts>,
    outpoint: TransparentOutPoint,
)
    ensures
        transactions_spend(transactions, outpoint) <==> {
            &&& !(outpoint.output_index == 0xffff_ffff && forall|b: int|
                0 <= b < 32 ==> outpoint.transaction_id.0@[b] == 0)
            &&& exists|t: int, i: int|
                0 <= t < transactions.len() && 0 <= i < transactions[t].transparent_inputs@.len()
                    && (#[trigger] transactions[t].transparent_inputs@[i]).spent_outpoint
                    == outpoint
        },
{
    if transactions_spend(transactions, outpoint) {
        let t = choose|t: int|
            0 <= t < transactions.len() && inputs_spend(
                (#[trigger] transactions[t]).transparent_inputs@,
                outpoint,
            );
        let inputs = transactions[t].transparent_inputs@;
        let i = choose|i: int|
            0 <= i < inputs.len() && (#[trigger] inputs[i]).spent_outpoint == outpoint;
        assert(transactions[t].transparent_inputs@[i].spent_outpoint == outpoint);
    }
    if exists|t: int, i: int|
        0 <= t < transactions.len() && 0 <= i < transactions[t].transparent_inputs@.len() && (
        #[trigger] transactions[t].transparent_inputs@[i]).spent_outpoint == outpoint {
        let (t, i) = choose|t: int, i: int|
            0 <= t < transactions.len() && 0 <= i < transactions[t].transparent_inputs@.len() && (
            #[trigger] transactions[t].transparent_inputs@[i]).spent_outpoint == outpoint;
        assert(inputs_spend(transactions[t].transparent_inputs@, outpoint));
    }
}

/// Listed spends are those of the block, each once and in rising order.
pub proof fn law_listed_spends_are_those_of_the_block(
    outpoints: Seq<TransparentOutPoint>,
    facts: CanonicalBlockFacts,
    outpoint: TransparentOutPoint,
)
    requires
        lists_spends(outpoints, facts),
    ensures
        outpoints.contains(outpoint) <==> transactions_spend(facts.transactions@, outpoint),
        forall|i: int, j: int|
            0 <= i < j < outpoints.len() ==> crate::outpoint_map::outpoint_before(
                #[trigger] outpoints[i],
                #[trigger] outpoints[j],
            ),
{
}

/// Of the rows that carry an outpoint the last one counts.
pub proof fn law_last_created_row_counts(
    rows: Seq<TransparentOutputRow>,
    outpoint: TransparentOutPoint,
)
    ensures
        match created_last(rows, outpoint) {
            Some(row) => exists|r: int|
                {
                    &&& 0 <= r < rows.len()
                    &&& #[trigger] rows[r] == row
                    &&& row.outpoint == outpoint
                    &&& forall|later: int|
                        r < later < rows.len() ==> (#[trigger] rows[later]).outpoint != outpoint
                },
            None => forall|r: int|
                0 <= r < rows.len() ==> (#[trigger] rows[r]).outpoint != outpoint,
        },
    decreases rows.len(),
{
    if rows.len() > 0 {
        let last = rows.len() - 1;
        assert(rows[last] == rows.last());
        if rows.last().outpoint != outpoint {
            let rest = rows.drop_last();
            law_last_created_row_counts(rest, outpoint);
            match created_last(rest, outpoint) {
                Some(row) => {
                    let r = choose|r: int|
                        {
                            &&& 0 <= r < rest.len()
                            &&& #[trigger] rest[r] == row
                            &&& row.outpoint == outpoint
                            &&& forall|later: int|
                                r < later < rest.len() ==> (#[trigger] rest[later]).outpoint
                                    != outpoint
                        };
                    assert(rows[r] == row);
                    assert forall|later: int| r < later < rows.len() implies (
                    #[trigger] rows[later]).outpoint != outpoint by {
                        if later < last {
                            assert(rest[later] == rows[later]);
                        }
                    }
                },
                None => {
                    assert forall|r: int| 0 <= r < rows.len() implies (
                    #[trigger] rows[r]).outpoint != outpoint by {
                        if r < last {
                            assert(rest[r] == rows[r]);
                        }
                    }
                },
            }
        }
    }
}

/// What a window creates under an outpoint is what its newest block creates
/// there, and else what the blocks before create.
pub proof fn law_newest_block_of_the_window_counts(
    blocks: Seq<CanonicalBlockFacts>,
    next: CanonicalBlockFacts,
    outpoint: TransparentOutPoint,
)
    ensures
        created_in_window(Seq::empty(), outpoint) is None,
        ({
            let own = created_last(
                output_rows(next.block_header, next.transactions@),
                outpoint,
            );
            &&& own is Some ==> created_in_window(blocks.push(next), outpoint) == own
            &&& own is None ==> created_in_window(blocks.push(next), outpoint)
                == created_in_window(blocks, outpoint)
        }),
{
    assert(blocks.push(next).drop_last() =~= blocks);
}

/// An outpoint is looked for in its own block, then in the window, then in the
/// cache; only one that none of them knows is left to the store.
pub proof fn law_nearest_creator_answers_first(
    facts: CanonicalBlockFacts,
    earlier: Seq<CanonicalBlockFacts>,
    cache: CacheState,
    outpoint: TransparentOutPoint,
)
    ensures
        ({
            let own = created_last(
                output_rows(facts.block_header, facts.transactions@),
                outpoint,
            );
            let windowed = created_in_window(earlier, outpoint);
            let lookup = looked_up(facts, earlier, cache, outpoint);
            &&& lookup is SameBlock <==> own is Some
            &&& own is None && windowed is Some ==> lookup == LookupRow::SameWindow(windowed->0)
            &&& own is None && windowed is None && cache.entries.contains_key(outpoint) ==> lookup
                == LookupRow::RecentCache(cache.entries[outpoint].output@)
            &&& lookup is Cold <==> own is None && windowed is None
                && !cache.entries.contains_key(outpoint)
        }),
{
}

/// A lookup that the cache answers takes the entry out of the cache and gives
/// its bytes back; any other leaves both as they were.
pub proof fn law_answered_entry_leaves_the_cache(
    facts: CanonicalBlockFacts,
    earlier: Seq<CanonicalBlockFacts>,
    cache: CacheState,
    watermark: WatermarkSnapshot,
    spent: Seq<TransparentOutPoint>,
    next: TransparentOutPoint,
)
    ensures
        after_lookups(facts, earlier, cache, watermark, Seq::empty()) == (cache, watermark),
        ({
            let (left, free) = after_lookups(facts, earlier, cache, watermark, spent);
            let after = after_lookups(facts, earlier, cache, watermark, spent.push(next));
            let position = left.order.index_of(next);
            if looked_up(facts, earlier, left, next) is RecentCache {
                &&& !after.0.entries.contains_key(left.order[position])
                &&& after.0.order == left.order.remove(position)
                &&& after.1 == free.released(left.entries[left.order[position]].reservation.bytes)
            } else {
                after == (left, free)
            }
        }),
{
    assert(spent.push(next).drop_last() =~= spent);
}

/// Each lookup of a block is made in the order of its spends, against the cache
/// as the lookups before have left it.
pub proof fn law_lookups_follow_the_spends(
    lookups: Seq<LookupRow>,
    facts: CanonicalBlockFacts,
    earlier: Seq<CanonicalBlockFacts>,
    cache: CacheState,
    watermark: WatermarkSnapshot,
    spent: Seq<TransparentOutPoint>,
    i: int,
)
    requires
        are_lookups(lookups, facts, earlier, cache, watermark, spent),
        0 <= i < spent.len(),
    ensures
        lookups.len() == spent.len(),
        lookups[i] == looked_up(
            facts,
            earlier,
            after_lookups(facts, earlier, cache, watermark, spent.take(i)).0,
            spent[i],
        ),
{
}

/// The facts of a window are those of its blocks, in order.
pub proof fn law_window_facts_are_those_of_its_blocks(blocks: Seq<WindowBlock>, i: int)
    requires
        0 <= i < blocks.len(),
    ensures
        facts_of(blocks).len() == blocks.len(),
        facts_of(blocks)[i] == blocks[i].queued.prepared.facts,
{
}

/// The next block of a window is looked up against the cache as the blocks
/// before have left it, with those blocks as its window.
pub proof fn law_blocks_are_looked_up_in_order(
    blocks: Seq<WindowBlock>,
    next: WindowBlock,
    cache: CacheState,
    watermark: WatermarkSnapshot,
)
    ensures
        after_blocks(Seq::empty(), cache, watermark) == (cache, watermark),
        ({
            let (left, free) = after_blocks(blocks, cache, watermark);
            after_blocks(blocks.push(next), cache, watermark) == after_lookups(
                next.queued.prepared.facts,
                facts_of(blocks),
                left,
                free,
                next.spent_outpoints@,
            )
        }),
{
    assert(blocks.push(next).drop_last() =~= blocks);
}

/// A looked-up block lists what it creates and what it spends, with one lookup
/// for each spend.
pub proof fn law_looked_up_block_lists_its_outputs_and_spends(
    blocks: Seq<WindowBlock>,
    cache: CacheState,
    watermark: WatermarkSnapshot,
    index: int,
)
    requires
        is_looked_up(blocks, cache, watermark, index),
    ensures
        ({
            let block = blocks[index];
            let facts = block.queued.prepared.facts;
            &&& views(block.created_outputs@) == output_rows(
                facts.block_header,
                facts.transactions@,
            )
            &&& lists_spends(block.spent_outpoints@, facts)
            &&& block.lookups@.len() == block.spent_outpoints@.len()
        }),
{
    assert(views(blocks[index].lookups@).len() == blocks[index].lookups@.len());
}

/// A lookup gives the row it found; a cold one gives the row of the store, and
/// one of the block itself none, since the block writes it anyway.
pub proof fn law_found_row_is_that_of_its_source(
    row: TransparentOutputRow,
    outpoint: TransparentOutPoint,
    store: Map<TransparentOutPoint, TransparentOutputRow>,
)
    ensures
        found(LookupRow::SameBlock, outpoint, store) is None,
        found(LookupRow::SameWindow(row), outpoint, store) == Some(row),
        found(LookupRow::RecentCache(row), outpoint, store) == Some(row),
        store.contains_key(outpoint) ==> found(LookupRow::Cold, outpoint, store) == Some(
            store[outpoint],
        ),
        !store.contains_key(outpoint) ==> found(LookupRow::Cold, outpoint, store) is None,
{
}

/// One more spend adds the row that its lookup found, and nothing where none
/// was found.
pub proof fn law_prefetched_rows_follow_the_spends(
    spent: Seq<TransparentOutPoint>,
    lookups: Seq<LookupRow>,
    next: TransparentOutPoint,
    lookup: LookupRow,
    store: Map<TransparentOutPoint, TransparentOutputRow>,
)
    ensures
        prefetched_rows(Seq::empty(), Seq::empty(), store).len() == 0,
        match found(lookup, next, store) {
            Some(row) => prefetched_rows(spent.push(next), lookups.push(lookup), store)
                == prefetched_rows(spent, lookups, store).push(row),
            None => prefetched_rows(spent.push(next), lookups.push(lookup), store)
                == prefetched_rows(spent, lookups, store),
        },
{
    assert(spent.push(next).drop_last() =~= spent);
    assert(lookups.push(lookup).drop_last() =~= lookups);
}

/// The unspent outputs of a window are those that it does not spend itself, in
/// the order in which they were created.
pub proof fn law_unspent_outputs_keep_their_order(
    outputs: Seq<TransparentOutputArtifact>,
    next: TransparentOutputArtifact,
    blocks: Seq<WindowBlock>,
    block: WindowBlock,
    spent: Map<TransparentOutPoint, ()>,
)
    ensures
        unspent_outputs(Seq::empty(), spent).len() == 0,
        spent.contains_key(next.outpoint) ==> unspent_outputs(outputs.push(next), spent)
            == unspent_outputs(outputs, spent),
        !spent.contains_key(next.outpoint) ==> unspent_outputs(outputs.push(next), spent)
            == unspent_outputs(outputs, spent).push(next),
        unspent_in_window(Seq::empty(), spent).len() == 0,
        unspent_in_window(blocks.push(block), spent) == unspent_in_window(blocks, spent)
            + unspent_outputs(block.created_outputs@, spent),
{
    assert(outputs.push(next).drop_last() =~= outputs);
    assert(blocks.push(block).drop_last() =~= blocks);
}

/// Outputs are offered to the cache one by one, each with its own size.
pub proof fn law_outputs_are_offered_one_by_one(
    cache: CacheState,
    watermark: WatermarkSnapshot,
    outputs: Seq<TransparentOutputArtifact>,
    sizes: Seq<u64>,
    next: TransparentOutputArtifact,
    size: u64,
)
    ensures
        after_offers(cache, watermark, Seq::empty(), Seq::empty()) == (cache, watermark),
        ({
            let (grown, taken) = after_offers(cache, watermark, outputs, sizes);
            after_offers(cache, watermark, outputs.push(next), sizes.push(size)) == offered(
                grown,
                taken,
                next,
                size,
            )
        }),
{
    assert(outputs.push(next).drop_last() =~= outputs);
    assert(sizes.push(size).drop_last() =~= sizes);
}

/// Reservations of a window are resized block by block, each from its own size
/// to its new one.
pub proof fn law_reservations_are_resized_block_by_block(
    watermark: WatermarkSnapshot,
    blocks: Seq<WindowBlock>,
    sizes: Seq<u64>,
    next: WindowBlock,
    size: u64,
)
    ensures
        after_resizes(watermark, Seq::empty(), Seq::empty()) == watermark,
        after_resizes(watermark, blocks.push(next), sizes.push(size)) == after_resizes(
            watermark,
            blocks,
            sizes,
        ).resized(next.queued.reservation.bytes, size),
{
    assert(blocks.push(next).drop_last() =~= blocks);
    assert(sizes.push(size).drop_last() =~= sizes);
}

/// A resolved block is the queued one with the rows that its lookups found, and
/// holds a live reservation of its size.
pub proof fn law_resolved_block_carries_its_prevouts(
    resolved: CanonicalBlockCommitPreparation,
    block: WindowBlock,
    store: Map<TransparentOutPoint, TransparentOutputRow>,
    size: u64,
)
    requires
        is_resolved(resolved, block, store, size),
    ensures
        resolved.prepared == block.queued.prepared,
        resolved.replay_envelope == block.queued.replay_envelope,
        views(resolved.prefetched_spent_transparent_outputs@) == prefetched_rows(
            block.spent_outpoints@,
            views(block.lookups@),
            store,
        ),
        size >= 1 ==> resolved.block_prepare_reservation.bytes == size,
        !resolved.block_prepare_reservation.is_released,
{
}

/// The outcome of a window has one resolved block per block, at its place, and
/// offers the cache every output that the window left unspent.
pub proof fn law_window_outcome_resolves_every_block(
    before: (CacheState, WatermarkSnapshot),
    after: (CacheState, WatermarkSnapshot),
    blocks: Seq<WindowBlock>,
    spent: Map<TransparentOutPoint, ()>,
    store: Map<TransparentOutPoint, TransparentOutputRow>,
    resolved: Seq<CanonicalBlockCommitPreparation>,
    offers: Seq<u64>,
    sizes: Seq<u64>,
    b: int,
)
    requires
        is_window_outcome(before, after, blocks, spent, store, resolved, offers, sizes),
        0 <= b < blocks.len(),
    ensures
        resolved.len() == blocks.len(),
        resolved[b].prepared == blocks[b].queued.prepared,
        resolved[b].replay_envelope == blocks[b].queued.replay_envelope,
        views(resolved[b].prefetched_spent_transparent_outputs@) == prefetched_rows(
            blocks[b].spent_outpoints@,
            views(blocks[b].lookups@),
            store,
        ),
        offers.len() == unspent_in_window(blocks, spent).len(),
        after.0 == after_offers(before.0, before.1, unspent_in_window(blocks, spent), offers).0,
{
    assert(is_resolved(resolved[b], blocks[b], store, sizes[b]));
}

/// A spend counts as one within the window, or as a cold one, by what its
/// lookup found.
pub proof fn law_spends_are_sorted_by_their_lookup(block: WindowBlock, i: int)
    requires
        0 <= i < block.spent_outpoints@.len(),
    ensures
        block.lookups@[i] is SameBlock || block.lookups@[i] is SameWindow
            ==> spends_within_window(block, block.spent_outpoints@[i]),
        block.lookups@[i] is Cold ==> spends_cold(block, block.spent_outpoints@[i]),
{
}

/// Each lookup is counted under what it found and under nothing else.
pub proof fn law_lookups_are_counted_by_kind(lookup: PrevoutLookup)
    ensures
        weigh_same_block()(lookup) == if lookup is SameBlock {
            1int
        } else {
            0
        },
        weigh_same_window()(lookup) == if lookup is SameWindow {
            1int
        } else {
            0
        },
        weigh_recent_cache()(lookup) == if lookup is RecentCache {
            1int
        } else {
            0
        },
{
}

/// The lookups of a window are counted block by block.
pub proof fn law_lookups_are_counted_block_by_block(
    blocks: Seq<WindowBlock>,
    next: WindowBlock,
    weight: spec_fn(PrevoutLookup) -> int,
)
    ensures
        lookup_total(Seq::empty(), weight) == 0,
        lookup_total(blocks.push(next), weight) == lookup_total(blocks, weight) + total(
            next.lookups@,
            weight,
        ),
{
    assert(blocks.push(next).drop_last() =~= blocks);
}

/// What is seen of a lookup is what it found.
pub proof fn law_lookup_is_seen_whole(lookup: PrevoutLookup)
    ensures
        lookup@ is SameBlock <==> lookup is SameBlock,
        lookup@ is Cold <==> lookup is Cold,
        lookup matches PrevoutLookup::SameWindow(output) ==> lookup@ == LookupRow::SameWindow(
            output@,
        ),
        lookup matches PrevoutLookup::RecentCache(output) ==> lookup@ == LookupRow::RecentCache(
            output@,
        ),
{
}

/// A sound window knows which of its outpoints it spends itself and which only
/// the store can know.
pub proof fn law_sound_window_sorts_its_spends(
    window: PrevoutWindow,
    outpoint: TransparentOutPoint,
)
    requires
        window.well_formed(),
    ensures
        window.created_outputs_spent.well_formed(),
        window.cold_outpoints.well_formed(),
        window.created_outputs_spent@.contains_key(outpoint) <==> exists|b: int, i: int|
            {
                &&& 0 <= b < window.blocks@.len()
                &&& 0 <= i < window.blocks@[b].spent_outpoints@.len()
                &&& #[trigger] window.blocks@[b].spent_outpoints@[i] == outpoint
                &&& window.blocks@[b].lookups@[i] is SameBlock
                    || window.blocks@[b].lookups@[i] is SameWindow
            },
        window.cold_outpoints@.contains_key(outpoint) <==> exists|b: int, i: int|
            {
                &&& 0 <= b < window.blocks@.len()
                &&& 0 <= i < window.blocks@[b].spent_outpoints@.len()
                &&& #[trigger] window.blocks@[b].spent_outpoints@[i] == outpoint
                &&& window.blocks@[b].lookups@[i] is Cold
            },
{
    if window.created_outputs_spent@.contains_key(outpoint) {
        let b = choose|b: int|
            0 <= b < window.blocks@.len() && spends_within_window(
                #[trigger] window.blocks@[b],
                outpoint,
            );
        let block = window.blocks@[b];
        let i = choose|i: int|
            0 <= i < block.spent_outpoints@.len() && #[trigger] block.spent_outpoints@[i]
                == outpoint && (block.lookups@[i] is SameBlock || block.lookups@[i] is SameWindow);
        assert(window.blocks@[b].spent_outpoints@[i] == outpoint);
    }
    if window.cold_outpoints@.contains_key(outpoint) {
        let b = choose|b: int|
            0 <= b < window.blocks@.len() && spends_cold(#[trigger] window.blocks@[b], outpoint);
        let block = window.blocks@[b];
        let i = choose|i: int|
            0 <= i < block.spent_outpoints@.len() && #[trigger] block.spent_outpoints@[i]
                == outpoint && block.lookups@[i] is Cold;
        assert(window.blocks@[b].spent_outpoints@[i] == outpoint);
    }
    if exists|b: int, i: int|
        {
            &&& 0 <= b < window.blocks@.len()
            &&& 0 <= i < window.blocks@[b].spent_outpoints@.len()
            &&& #[trigger] window.blocks@[b].spent_outpoints@[i] == outpoint
            &&& window.blocks@[b].lookups@[i] is SameBlock
                || window.blocks@[b].lookups@[i] is SameWindow
        } {
        let (b, i) = choose|b: int, i: int|
            {
                &&& 0 <= b < window.blocks@.len()
                &&& 0 <= i < window.blocks@[b].spent_outpoints@.len()
                &&& #[trigger] window.blocks@[b].spent_outpoints@[i] == outpoint
                &&& window.blocks@[b].lookups@[i] is SameBlock
                    || window.blocks@[b].lookups@[i] is SameWindow
            };
        assert(spends_within_window(window.blocks@[b], outpoint));
    }
    if exists|b: int, i: int|
        {
            &&& 0 <= b < window.blocks@.len()
            &&& 0 <= i < window.blocks@[b].spent_outpoints@.len()
            &&& #[trigger] window.blocks@[b].spent_outpoints@[i] == outpoint
            &&& window.blocks@[b].lookups@[i] is Cold
        } {
        let (b, i) = choose|b: int, i: int|
            {
                &&& 0 <= b < window.blocks@.len()
                &&& 0 <= i < window.blocks@[b].spent_outpoints@.len()
                &&& #[trigger] window.blocks@[b].spent_outpoints@[i] == outpoint
                &&& window.blocks@[b].lookups@[i] is Cold
            };
        assert(spends_cold(window.blocks@[b], outpoint));
    }
}

/// Resolving a window takes what its offers and its new sizes come to: every
/// offer is the size of its cache entry, and every block is sized once.
pub proof fn law_window_outcome_keeps_account_of_bytes(
    before: (CacheState, WatermarkSnapshot),
    after: (CacheState, WatermarkSnapshot),
    blocks: Seq<WindowBlock>,
    spent: Map<TransparentOutPoint, ()>,
    store: Map<TransparentOutPoint, TransparentOutputRow>,
    resolved: Seq<CanonicalBlockCommitPreparation>,
    offers: Seq<u64>,
    sizes: Seq<u64>,
    k: int,
)
    requires
        is_window_outcome(before, after, blocks, spent, store, resolved, offers, sizes),
    ensures
        sizes.len() == blocks.len(),
        ({
            let unspent = unspent_in_window(blocks, spent);
            &&& offers.len() == unspent.len()
            &&& 0 <= k < offers.len() ==> is_cache_entry_size(offers[k], unspent[k])
            &&& after.1 == after_resizes(
                after_offers(before.0, before.1, unspent, offers).1,
                blocks,
                sizes,
            )
        }),
        0 <= k < blocks.len() ==> is_resident_with_prevouts(
            sizes[k],
            blocks[k].queued.prepared,
            blocks[k].queued.replay_envelope.payload_bytes@.len() as usize,
            resolved[k].prefetched_spent_transparent_outputs@,
        ),
{
    if 0 <= k < blocks.len() {
        assert(is_resolved(resolved[k], blocks[k], store, sizes[k]));
    }
}

} // verus!
