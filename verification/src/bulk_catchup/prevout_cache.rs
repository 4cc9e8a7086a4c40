//! Recently created transparent outputs, kept for the blocks that spend them.
//!
//! Every entry holds a reservation of the stage's byte watermark; the oldest
//! entries give way where other work needs the bytes.

use super::heap::capacity_of;
use super::watermark::{requested, ByteReservation, ByteWatermark, WatermarkSnapshot};
use crate::artifacts::TransparentOutputArtifact;
use crate::batch::clipped;
use crate::bounds::{capped, floored_difference, usize_to_u64_saturating};
use crate::ids::TransparentOutPoint;
use crate::outpoint_map::OutPointMap;
use core::mem::size_of;
use std::collections::VecDeque;
use vstd::prelude::*;

verus! {

/// One cached output and the bytes it holds.
#[derive(Debug)]
pub struct CachedTransparentOutput {
    pub output: TransparentOutputArtifact,
    pub resident_bytes: u64,
    pub reservation: ByteReservation,
}

/// State of a cache: outpoints from oldest to newest, and what is kept under them.
#[verifier::ext_equal]
pub struct CacheState {
    pub order: Seq<TransparentOutPoint>,
    pub entries: Map<TransparentOutPoint, CachedTransparentOutput>,
    pub resident_bytes: u64,
}

impl CacheState {
    /// Whether every entry stands in the order once, under its own outpoint,
    /// with a reservation that was not given back.
    pub open spec fn well_formed(self) -> bool {
        &&& self.order.no_duplicates()
        &&& forall|outpoint: TransparentOutPoint|
            #[trigger] self.entries.contains_key(outpoint) <==> self.order.contains(outpoint)
        &&& forall|outpoint: TransparentOutPoint| #[trigger]
            self.entries.contains_key(outpoint) ==> {
                &&& self.entries[outpoint].output.outpoint == outpoint
                &&& !self.entries[outpoint].reservation.is_released
            }
    }

    /// State of a cache that keeps nothing.
    pub open spec fn nothing() -> Self {
        CacheState { order: Seq::empty(), entries: Map::empty(), resident_bytes: 0 }
    }

    /// State without the entry at a position of the order.
    pub open spec fn without(self, position: int) -> Self {
        let outpoint = self.order[position];
        CacheState {
            order: self.order.remove(position),
            entries: self.entries.remove(outpoint),
            resident_bytes: floored_difference(
                self.resident_bytes as int,
                self.entries[outpoint].resident_bytes as int,
            ) as u64,
        }
    }

    /// State with one more entry.
    pub open spec fn with(
        self,
        output: TransparentOutputArtifact,
        resident_bytes: u64,
        reservation: ByteReservation,
    ) -> Self {
        CacheState {
            order: self.order.push(output.outpoint),
            entries: self.entries.insert(
                output.outpoint,
                CachedTransparentOutput { output, resident_bytes, reservation },
            ),
            resident_bytes: capped(self.resident_bytes + resident_bytes, u64::MAX as int) as u64,
        }
    }

    /// Bytes reserved for the entry at a position of the order.
    pub open spec fn reserved_at(self, position: int) -> u64 {
        self.entries[self.order[position]].reservation.bytes
    }
}

/// What is left of a cache and a watermark once the oldest entries gave way,
/// as far as a request for some bytes needs it.
pub open spec fn make_room(
    cache: CacheState,
    watermark: WatermarkSnapshot,
    bytes: u64,
) -> (CacheState, WatermarkSnapshot)
    decreases cache.order.len(),
{
    if watermark.grants(bytes) || cache.order.len() == 0 {
        (cache, watermark)
    } else {
        make_room(cache.without(0), watermark.released(cache.reserved_at(0)), bytes)
    }
}

/// A cache and a watermark after an output of some size was offered.
pub open spec fn offered(
    cache: CacheState,
    watermark: WatermarkSnapshot,
    output: TransparentOutputArtifact,
    resident_bytes: u64,
) -> (CacheState, WatermarkSnapshot) {
    if cache.entries.contains_key(output.outpoint) {
        (cache, watermark)
    } else {
        let (rest, free) = make_room(cache, watermark, resident_bytes);
        if free.grants(resident_bytes) {
            (
                rest.with(
                    output,
                    resident_bytes,
                    ByteReservation {
                        bytes: requested(resident_bytes) as u64,
                        is_released: false,
                    },
                ),
                free.reserved(resident_bytes),
            )
        } else {
            (rest, free)
        }
    }
}

/// Recently created transparent outputs, oldest first.
#[derive(Debug)]
pub struct RecentTransparentOutputCache {
    pub outputs: OutPointMap<CachedTransparentOutput>,
    pub insertion_order: VecDeque<TransparentOutPoint>,
    pub resident_bytes: u64,
}

impl View for RecentTransparentOutputCache {
    type V = CacheState;

    open spec fn view(&self) -> CacheState {
        CacheState {
            order: self.insertion_order@,
            entries: self.outputs@,
            resident_bytes: self.resident_bytes,
        }
    }
}

proof fn lemma_without_is_well_formed(cache: CacheState, position: int)
    requires
        cache.well_formed(),
        0 <= position < cache.order.len(),
    ensures
        cache.without(position).well_formed(),
{
    let rest = cache.without(position);
    let gone = cache.order[position];
    assert forall|outpoint: TransparentOutPoint| #[trigger]
        rest.entries.contains_key(outpoint) <==> rest.order.contains(outpoint) by {
        if rest.order.contains(outpoint) {
            let k = choose|k: int| 0 <= k < rest.order.len() && rest.order[k] == outpoint;
            let j = if k < position {
                k
            } else {
                k + 1
            };
            assert(cache.order[j] == outpoint);
            assert(cache.entries.contains_key(outpoint));
        }
        if rest.entries.contains_key(outpoint) {
            assert(cache.entries.contains_key(outpoint));
            assert(cache.order.contains(outpoint));
            let j = choose|j: int| 0 <= j < cache.order.len() && cache.order[j] == outpoint;
            let k = if j < position {
                j
            } else {
                j - 1
            };
            assert(rest.order[k] == outpoint);
        }
    }
    assert forall|i: int, j: int|
        0 <= i < rest.order.len() && 0 <= j < rest.order.len() && i != j implies rest.order[i]
        != rest.order[j] by {
        let a = if i < position {
            i
        } else {
            i + 1
        };
        let b = if j < position {
            j
        } else {
            j + 1
        };
        assert(cache.order[a] != cache.order[b]);
    }
    assert forall|outpoint: TransparentOutPoint| #[trigger]
        rest.entries.contains_key(outpoint) implies {
        &&& rest.entries[outpoint].output.outpoint == outpoint
        &&& !rest.entries[outpoint].reservation.is_released
    } by {
        assert(cache.entries.contains_key(outpoint));
    }
}

proof fn lemma_with_is_well_formed(
    cache: CacheState,
    output: TransparentOutputArtifact,
    resident_bytes: u64,
    reservation: ByteReservation,
)
    requires
        cache.well_formed(),
        !cache.entries.contains_key(output.outpoint),
        !reservation.is_released,
    ensures
        cache.with(output, resident_bytes, reservation).well_formed(),
{
    let grown = cache.with(output, resident_bytes, reservation);
    assert(!cache.order.contains(output.outpoint));
    assert forall|outpoint: TransparentOutPoint| #[trigger]
        grown.entries.contains_key(outpoint) <==> grown.order.contains(outpoint) by {
        if grown.order.contains(outpoint) {
            let k = choose|k: int| 0 <= k < grown.order.len() && grown.order[k] == outpoint;
            if k < cache.order.len() {
                assert(cache.order[k] == outpoint);
                assert(cache.entries.contains_key(outpoint));
            }
        }
        if grown.entries.contains_key(outpoint) {
            if outpoint == output.outpoint {
                assert(grown.order[grown.order.len() - 1] == outpoint);
            } else {
                assert(cache.entries.contains_key(outpoint));
                let j = choose|j: int| 0 <= j < cache.order.len() && cache.order[j] == outpoint;
                assert(grown.order[j] == outpoint);
            }
        }
    }
    assert forall|outpoint: TransparentOutPoint| #[trigger]
        grown.entries.contains_key(outpoint) implies {
        &&& grown.entries[outpoint].output.outpoint == outpoint
        &&& !grown.entries[outpoint].reservation.is_released
    } by {
        if outpoint != output.outpoint {
            assert(cache.entries.contains_key(outpoint));
        }
    }
}

/// Bytes that one cached output holds, besides the room of its script.
pub open spec fn cache_entry_fixed_bytes() -> nat {
    vstd::layout::size_of::<TransparentOutputArtifact>() + vstd::layout::size_of::<
        TransparentOutPoint,
    >() + vstd::layout::size_of::<CachedTransparentOutput>() + vstd::layout::size_of::<u128>()
        + vstd::layout::size_of::<TransparentOutPoint>()
}

/// Whether some bytes are those one cached output holds.
pub open spec fn is_cache_entry_size(bytes: u64, output: TransparentOutputArtifact) -> bool {
    exists|capacity: nat|
        capacity >= output.script_pub_key@.len() && bytes == #[trigger] clipped(
            (cache_entry_fixed_bytes() + capacity) as int,
        )
}

/// Adds up the bytes one cached output holds, whose script has some room.
pub fn cache_entry_bytes(script_capacity: usize) -> (bytes: u64)
    ensures
        bytes == clipped((cache_entry_fixed_bytes() + script_capacity) as int),
{
    let structural_bytes: usize = size_of::<TransparentOutputArtifact>().saturating_add(
        size_of::<TransparentOutPoint>(),
    ).saturating_add(size_of::<CachedTransparentOutput>()).saturating_add(
        size_of::<u128>(),
    ).saturating_add(size_of::<TransparentOutPoint>());
    usize_to_u64_saturating(structural_bytes.saturating_add(script_capacity))
}

/// Measures the bytes one cached output holds.
pub fn transparent_output_cache_entry_bytes(output: &TransparentOutputArtifact) -> (bytes: u64)
    ensures
        is_cache_entry_size(bytes, *output),
{
    let capacity: usize = capacity_of(&output.script_pub_key);
    let ghost room = capacity as nat;
    let bytes: u64 = cache_entry_bytes(capacity);
    assert(bytes == clipped((cache_entry_fixed_bytes() + room) as int));
    bytes
}

impl RecentTransparentOutputCache {
    /// Returns a cache that keeps nothing.
    pub fn new() -> (cache: Self)
        ensures
            cache.well_formed(),
            cache@ == CacheState::nothing(),
    {
        let cache = RecentTransparentOutputCache {
            outputs: OutPointMap::new(),
            insertion_order: VecDeque::new(),
            resident_bytes: 0,
        };
        assert(cache@ =~= CacheState::nothing());
        cache
    }

    /// Whether the cache is in a state it can be in.
    pub open spec fn well_formed(self) -> bool {
        self.outputs.well_formed() && self@.well_formed()
    }

    /// Returns the output kept under an outpoint.
    pub fn get(&self, outpoint: &TransparentOutPoint) -> (output: Option<
        &TransparentOutputArtifact,
    >)
        requires
            self.well_formed(),
        ensures
            match output {
                Some(output) => self@.entries.contains_key(*outpoint) && *output
                    == self@.entries[*outpoint].output,
                None => !self@.entries.contains_key(*outpoint),
            },
    {
        match self.outputs.get(outpoint) {
            Some(cached) => Some(&cached.output),
            None => None,
        }
    }

    /// Takes the entry at a position of the order out and gives its bytes back.
    fn drop_at(&mut self, watermark: &mut ByteWatermark, position: usize) -> (output: Option<
        TransparentOutputArtifact,
    >)
        requires
            old(self).well_formed(),
            position < old(self)@.order.len(),
        ensures
            final(self).well_formed(),
            final(self)@ == old(self)@.without(position as int),
            output == Some(old(self)@.entries[old(self)@.order[position as int]].output),
            final(watermark).limit_bytes == old(watermark).limit_bytes,
            final(watermark)@ == old(watermark)@.released(old(self)@.reserved_at(position as int)),
    {
        let ghost before = self@;
        proof {
            lemma_without_is_well_formed(before, position as int);
            assert(before.order.contains(before.order[position as int]));
            assert(before.entries.contains_key(before.order[position as int]));
        }
        let outpoint = self.insertion_order[position];
        let _removed = self.insertion_order.remove(position);
        match self.outputs.remove(&outpoint) {
            Some(cached) => {
                let CachedTransparentOutput { output, resident_bytes, reservation } = cached;
                let mut reservation = reservation;
                self.resident_bytes = self.resident_bytes.saturating_sub(resident_bytes);
                watermark.release(&mut reservation);
                assert(self@ =~= before.without(position as int));
                Some(output)
            },
            None => None,
        }
    }

    /// Takes the output kept under an outpoint out and gives its bytes back.
    pub fn take(
        &mut self,
        watermark: &mut ByteWatermark,
        outpoint: &TransparentOutPoint,
    ) -> (output: Option<TransparentOutputArtifact>)
        requires
            old(self).well_formed(),
        ensures
            final(self).well_formed(),
            final(watermark).limit_bytes == old(watermark).limit_bytes,
            match output {
                Some(output) => {
                    let position = old(self)@.order.index_of(*outpoint);
                    &&& old(self)@.entries.contains_key(*outpoint)
                    &&& output == old(self)@.entries[*outpoint].output
                    &&& final(self)@ == old(self)@.without(position)
                    &&& final(watermark)@ == old(watermark)@.released(
                        old(self)@.reserved_at(position),
                    )
                },
                None => {
                    &&& !old(self)@.entries.contains_key(*outpoint)
                    &&& final(self)@ == old(self)@
                    &&& final(watermark)@ == old(watermark)@
                },
            },
    {
        let ghost before = self@;
        let count: usize = self.insertion_order.len();
        let mut position: usize = 0;
        while position < count
            invariant
                0 <= position <= count,
                count == before.order.len(),
                self@ == before,
                *self == *old(self),
                *watermark == *old(watermark),
                before.well_formed(),
                self.well_formed(),
                forall|k: int| 0 <= k < position ==> #[trigger] before.order[k] != *outpoint,
            decreases count - position,
        {
            if self.insertion_order[position].same_as(outpoint) {
                proof {
                    assert(before.order[position as int] == *outpoint);
                    assert(before.order.contains(*outpoint));
                    let at = before.order.index_of(*outpoint);
                    assert(before.order[at] == *outpoint);
                    assert(at == position);
                }
                return self.drop_at(watermark, position);
            }
            position += 1;
        }
        assert(!before.order.contains(*outpoint));
        None
    }

    /// Takes the oldest entry out, if there is one.
    pub fn evict_oldest(&mut self, watermark: &mut ByteWatermark) -> (evicted: bool)
        requires
            old(self).well_formed(),
        ensures
            final(self).well_formed(),
            final(watermark).limit_bytes == old(watermark).limit_bytes,
            evicted == (old(self)@.order.len() > 0),
            if evicted {
                &&& final(self)@ == old(self)@.without(0)
                &&& final(watermark)@ == old(watermark)@.released(old(self)@.reserved_at(0))
            } else {
                final(self)@ == old(self)@ && final(watermark)@ == old(watermark)@
            },
    {
        if self.insertion_order.len() == 0 {
            return false;
        }
        let _output = self.drop_at(watermark, 0);
        true
    }

    /// Reserves bytes of the watermark, at the expense of the oldest entries
    /// where that is needed.
    pub fn reserve(&mut self, watermark: &mut ByteWatermark, bytes: u64) -> (reservation: Option<
        ByteReservation,
    >)
        requires
            old(self).well_formed(),
        ensures
            final(self).well_formed(),
            final(watermark).limit_bytes == old(watermark).limit_bytes,
            ({
                let (rest, free) = make_room(old(self)@, old(watermark)@, bytes);
                &&& final(self)@ == rest
                &&& match reservation {
                    Some(reservation) => {
                        &&& free.grants(bytes)
                        &&& final(watermark)@ == free.reserved(bytes)
                        &&& reservation.bytes == requested(bytes)
                        &&& !reservation.is_released
                    },
                    None => !free.grants(bytes) && final(watermark)@ == free,
                }
            }),
    {
        let ghost target = make_room(self@, watermark@, bytes);
        loop
            invariant
                self.well_formed(),
                watermark.limit_bytes == old(watermark).limit_bytes,
                target == make_room(old(self)@, old(watermark)@, bytes),
                target == make_room(self@, watermark@, bytes),
            decreases self@.order.len(),
        {
            if let Some(reservation) = watermark.try_reserve(bytes) {
                return Some(reservation);
            }
            if !self.evict_oldest(watermark) {
                return None;
            }
        }
    }

    /// Keeps an output that holds some bytes, at the expense of the oldest
    /// entries; it is not kept where even an empty cache leaves no room.
    pub fn insert(
        &mut self,
        watermark: &mut ByteWatermark,
        output: TransparentOutputArtifact,
        resident_bytes: u64,
    )
        requires
            old(self).well_formed(),
        ensures
            final(self).well_formed(),
            final(watermark).limit_bytes == old(watermark).limit_bytes,
            (final(self)@, final(watermark)@) == offered(
                old(self)@,
                old(watermark)@,
                output,
                resident_bytes,
            ),
    {
        if self.outputs.contains_key(&output.outpoint) {
            return ;
        }
        let ghost before = self@;
        let ghost free_before = watermark@;
        let reservation = match self.reserve(watermark, resident_bytes) {
            Some(reservation) => reservation,
            None => {
                return ;
            },
        };
        let ghost rest = self@;
        proof {
            lemma_make_room_only_evicts(before, free_before, resident_bytes);
            lemma_with_is_well_formed(rest, output, resident_bytes, reservation);
        }
        let outpoint = output.outpoint;
        let ghost kept = output;
        let ghost held = reservation;
        self.resident_bytes = self.resident_bytes.saturating_add(resident_bytes);
        self.insertion_order.push_back(outpoint);
        self.outputs.insert(
            outpoint,
            CachedTransparentOutput { output, resident_bytes, reservation },
        );
        assert(self@ =~= rest.with(kept, resident_bytes, held));
    }
}

proof fn lemma_make_room_only_evicts(cache: CacheState, watermark: WatermarkSnapshot, bytes: u64)
    requires
        cache.well_formed(),
    ensures
        make_room(cache, watermark, bytes).0.well_formed(),
        forall|outpoint: TransparentOutPoint|
            make_room(cache, watermark, bytes).0.entries.contains_key(outpoint)
                ==> #[trigger] cache.entries.contains_key(outpoint),
    decreases cache.order.len(),
{
    if !watermark.grants(bytes) && cache.order.len() > 0 {
        lemma_without_is_well_formed(cache, 0);
        lemma_make_room_only_evicts(
            cache.without(0),
            watermark.released(cache.reserved_at(0)),
            bytes,
        );
        assert forall|outpoint: TransparentOutPoint|
            make_room(cache, watermark, bytes).0.entries.contains_key(
                outpoint,
            ) implies #[trigger] cache.entries.contains_key(outpoint) by {
            assert(cache.without(0).entries.contains_key(outpoint));
        }
    }
}

/// Bytes reserved for all entries of a cache.
pub open spec fn reserved_in_total(cache: CacheState) -> int
    decreases cache.order.len(),
{
    if cache.order.len() == 0 {
        0
    } else {
        cache.reserved_at(0) + reserved_in_total(cache.without(0))
    }
}

proof fn lemma_reserved_in_total_is_nonnegative(cache: CacheState)
    ensures
        reserved_in_total(cache) >= 0,
    decreases cache.order.len(),
{
    if cache.order.len() > 0 {
        lemma_reserved_in_total_is_nonnegative(cache.without(0));
    }
}

/// Making room gives back exactly the bytes of the entries that gave way, so
/// what all other work holds of the watermark stays untouched.
pub proof fn law_making_room_gives_back_evicted_bytes(
    cache: CacheState,
    watermark: WatermarkSnapshot,
    bytes: u64,
)
    requires
        watermark.reserved_bytes >= reserved_in_total(cache),
        watermark.reservations >= cache.order.len(),
    ensures
        ({
            let (rest, free) = make_room(cache, watermark, bytes);
            &&& free.reserved_bytes - reserved_in_total(rest) == watermark.reserved_bytes
                - reserved_in_total(cache)
            &&& free.reservations - rest.order.len() == watermark.reservations - cache.order.len()
            &&& free.limit_bytes == watermark.limit_bytes
        }),
    decreases cache.order.len(),
{
    if !watermark.grants(bytes) && cache.order.len() > 0 {
        lemma_reserved_in_total_is_nonnegative(cache.without(0));
        law_making_room_gives_back_evicted_bytes(
            cache.without(0),
            watermark.released(cache.reserved_at(0)),
            bytes,
        );
    }
}

/// A request that fits once the cache is empty is granted, whatever the cache holds.
pub proof fn law_cache_never_blocks_other_work(
    cache: CacheState,
    watermark: WatermarkSnapshot,
    bytes: u64,
)
    requires
        watermark.reserved_bytes >= reserved_in_total(cache),
        watermark.reservations >= cache.order.len(),
        watermark.reserved_bytes - reserved_in_total(cache) + requested(bytes)
            <= watermark.limit_bytes,
    ensures
        make_room(cache, watermark, bytes).1.grants(bytes),
    decreases cache.order.len(),
{
    if !watermark.grants(bytes) && cache.order.len() > 0 {
        lemma_reserved_in_total_is_nonnegative(cache.without(0));
        law_cache_never_blocks_other_work(
            cache.without(0),
            watermark.released(cache.reserved_at(0)),
            bytes,
        );
    }
}

/// An empty cache holds nothing.
pub proof fn law_fresh_cache_holds_nothing(outpoint: TransparentOutPoint)
    ensures
        CacheState::nothing().order.len() == 0,
        !CacheState::nothing().entries.contains_key(outpoint),
        CacheState::nothing().resident_bytes == 0,
{
}

/// Dropping an entry takes away that entry and its bytes; the others stay, and
/// in their order.
pub proof fn law_dropped_entry_leaves_the_others(
    cache: CacheState,
    position: int,
    other: TransparentOutPoint,
)
    requires
        cache.well_formed(),
        0 <= position < cache.order.len(),
    ensures
        ({
            let dropped = cache.order[position];
            let after = cache.without(position);
            &&& !after.entries.contains_key(dropped)
            &&& other != dropped ==> {
                &&& after.entries.contains_key(other) <==> cache.entries.contains_key(other)
                &&& after.entries[other] == cache.entries[other]
            }
            &&& after.order == cache.order.take(position) + cache.order.skip(position + 1)
            &&& cache.resident_bytes >= cache.entries[dropped].resident_bytes
                ==> after.resident_bytes == cache.resident_bytes
                - cache.entries[dropped].resident_bytes
        }),
{
    assert(cache.without(position).order =~= cache.order.take(position) + cache.order.skip(
        position + 1,
    ));
}

/// A new entry stands last, under its own outpoint, with its output, its bytes
/// and its reservation; the others stay.
pub proof fn law_new_entry_stands_last(
    cache: CacheState,
    output: TransparentOutputArtifact,
    resident_bytes: u64,
    reservation: ByteReservation,
    other: TransparentOutPoint,
)
    ensures
        ({
            let after = cache.with(output, resident_bytes, reservation);
            &&& after.order.last() == output.outpoint
            &&& after.order.drop_last() == cache.order
            &&& after.entries.contains_key(output.outpoint)
            &&& after.entries[output.outpoint].output == output
            &&& after.entries[output.outpoint].resident_bytes == resident_bytes
            &&& after.entries[output.outpoint].reservation == reservation
            &&& other != output.outpoint ==> {
                &&& after.entries.contains_key(other) <==> cache.entries.contains_key(other)
                &&& after.entries[other] == cache.entries[other]
            }
            &&& cache.resident_bytes + resident_bytes <= u64::MAX ==> after.resident_bytes
                == cache.resident_bytes + resident_bytes
        }),
{
    assert(cache.with(output, resident_bytes, reservation).order.drop_last() =~= cache.order);
}

/// Making room drops the oldest entries, and only as long as the bytes are not
/// granted: what is left is the end of the order, with its entries unchanged.
pub proof fn law_oldest_entries_make_room(
    cache: CacheState,
    watermark: WatermarkSnapshot,
    bytes: u64,
)
    requires
        cache.well_formed(),
    ensures
        ({
            let (rest, free) = make_room(cache, watermark, bytes);
            &&& rest.order.len() <= cache.order.len()
            &&& rest.order == cache.order.skip(cache.order.len() - rest.order.len())
            &&& forall|i: int|
                0 <= i < rest.order.len() ==> rest.entries[#[trigger] rest.order[i]]
                    == cache.entries[rest.order[i]]
            &&& free.grants(bytes) || rest.order.len() == 0
            &&& watermark.grants(bytes) ==> rest == cache && free == watermark
            &&& free.limit_bytes == watermark.limit_bytes
        }),
    decreases cache.order.len(),
{
    if watermark.grants(bytes) || cache.order.len() == 0 {
        assert(cache.order.skip(0) =~= cache.order);
    } else {
        let next = cache.without(0);
        let free = watermark.released(cache.reserved_at(0));
        assert(next.order =~= cache.order.skip(1));
        assert forall|outpoint: TransparentOutPoint| next.order.contains(
            outpoint,
        ) <==> #[trigger] next.entries.contains_key(outpoint) by {
            if next.order.contains(outpoint) {
                let k = choose|k: int| 0 <= k < next.order.len() && next.order[k] == outpoint;
                assert(cache.order[k + 1] == outpoint);
                assert(cache.order.contains(outpoint));
                assert(cache.entries.contains_key(outpoint));
            }
            if next.entries.contains_key(outpoint) {
                assert(cache.entries.contains_key(outpoint));
                assert(cache.order.contains(outpoint));
                let k = choose|k: int| 0 <= k < cache.order.len() && cache.order[k] == outpoint;
                assert(next.order[k - 1] == outpoint);
            }
        }
        assert(next.well_formed());
        law_oldest_entries_make_room(next, free, bytes);
        let rest = make_room(cache, watermark, bytes).0;
        let kept = rest.order.len() as int;
        assert(next.order.skip(next.order.len() - kept) =~= cache.order.skip(
            cache.order.len() - kept,
        ));
        assert forall|i: int| 0 <= i < rest.order.len() implies rest.entries[
            #[trigger] rest.order[i]
        ] == cache.entries[rest.order[i]] by {
            let at = next.order.len() - kept + i;
            assert(rest.order[i] == next.order[at]);
            assert(rest.order[i] == cache.order[at + 1]);
            assert(next.entries[next.order[at]] == cache.entries[cache.order[at + 1]]);
        }
    }
}

/// An output that is cached already is left as it is; a new one is cached last,
/// with a reservation of its bytes, where room could be made for it, and left
/// out where it could not.
pub proof fn law_offered_output_is_cached_where_it_fits(
    cache: CacheState,
    watermark: WatermarkSnapshot,
    output: TransparentOutputArtifact,
    resident_bytes: u64,
)
    requires
        resident_bytes >= 1,
    ensures
        ({
            let (after, taken) = offered(cache, watermark, output, resident_bytes);
            let (rest, free) = make_room(cache, watermark, resident_bytes);
            &&& cache.entries.contains_key(output.outpoint) ==> after == cache && taken
                == watermark
            &&& !cache.entries.contains_key(output.outpoint) && free.grants(resident_bytes) ==> {
                &&& after.order == rest.order.push(output.outpoint)
                &&& after.entries.contains_key(output.outpoint)
                &&& after.entries[output.outpoint].output == output
                &&& after.entries[output.outpoint].resident_bytes == resident_bytes
                &&& after.entries[output.outpoint].reservation.bytes == resident_bytes
                &&& !after.entries[output.outpoint].reservation.is_released
                &&& taken.reserved_bytes == free.reserved_bytes + resident_bytes
            }
            &&& !cache.entries.contains_key(output.outpoint) && !free.grants(resident_bytes)
                ==> after == rest && taken == free
        }),
{
}

/// The size of a cache entry counts its fixed parts and its script.
pub proof fn law_cache_entry_counts_its_script(bytes: u64, output: TransparentOutputArtifact)
    requires
        is_cache_entry_size(bytes, output),
    ensures
        bytes >= cache_entry_fixed_bytes() + output.script_pub_key@.len() || bytes == usize::MAX,
{
    let capacity = choose|capacity: nat|
        capacity >= output.script_pub_key@.len() && bytes == #[trigger] clipped(
            (cache_entry_fixed_bytes() + capacity) as int,
        );
    assert(bytes == clipped((cache_entry_fixed_bytes() + capacity) as int));
}

/// The state of a cache is what it holds; in a sound one every ordered outpoint
/// is cached, once, under its own output and with a live reservation.
pub proof fn law_cache_is_seen_whole(
    cache: RecentTransparentOutputCache,
    outpoint: TransparentOutPoint,
)
    ensures
        cache@.order == cache.insertion_order@,
        cache@.entries == cache.outputs@,
        cache@.resident_bytes == cache.resident_bytes,
        cache.well_formed() ==> {
            &&& cache@.order.no_duplicates()
            &&& cache@.order.contains(outpoint) <==> cache@.entries.contains_key(outpoint)
            &&& cache@.entries.contains_key(outpoint) ==> {
                &&& cache@.entries[outpoint].output.outpoint == outpoint
                &&& !cache@.entries[outpoint].reservation.is_released
            }
        },
{
}

} // verus!
