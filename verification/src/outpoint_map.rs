//! Ordered maps keyed by transparent outpoint.

use crate::bytes::{
    bytes_before, lemma_bytes_before_irreflexive, lemma_bytes_before_total,
    lemma_bytes_before_transitive, precedes,
};
use crate::ids::TransparentOutPoint;
use vstd::prelude::*;

verus! {

/// Order of outpoints: by transaction identifier bytes, then by output index.
pub open spec fn outpoint_before(left: TransparentOutPoint, right: TransparentOutPoint) -> bool {
    ||| bytes_before(left.transaction_id.0@, right.transaction_id.0@)
    ||| left.transaction_id == right.transaction_id && left.output_index < right.output_index
}

/// Returns whether `left` comes strictly before `right`.
pub fn outpoint_precedes(left: &TransparentOutPoint, right: &TransparentOutPoint) -> (before: bool)
    ensures
        before == outpoint_before(*left, *right),
{
    if left.transaction_id == right.transaction_id {
        proof {
            lemma_bytes_before_irreflexive(left.transaction_id.0@);
        }
        left.output_index < right.output_index
    } else {
        precedes(&left.transaction_id.0, &right.transaction_id.0)
    }
}

/// Outpoint order is irreflexive.
pub proof fn lemma_outpoint_before_irreflexive(outpoint: TransparentOutPoint)
    ensures
        !outpoint_before(outpoint, outpoint),
{
    lemma_bytes_before_irreflexive(outpoint.transaction_id.0@);
}

/// Outpoint order is transitive.
pub proof fn lemma_outpoint_before_transitive(
    a: TransparentOutPoint,
    b: TransparentOutPoint,
    c: TransparentOutPoint,
)
    requires
        outpoint_before(a, b),
        outpoint_before(b, c),
    ensures
        outpoint_before(a, c),
{
    if bytes_before(a.transaction_id.0@, b.transaction_id.0@) && bytes_before(
        b.transaction_id.0@,
        c.transaction_id.0@,
    ) {
        lemma_bytes_before_transitive(
            a.transaction_id.0@,
            b.transaction_id.0@,
            c.transaction_id.0@,
        );
    }
}

/// Two different outpoints are ordered one way or the other.
pub proof fn lemma_outpoint_before_total(a: TransparentOutPoint, b: TransparentOutPoint)
    requires
        a != b,
    ensures
        outpoint_before(a, b) || outpoint_before(b, a),
{
    if a.transaction_id != b.transaction_id {
        if a.transaction_id.0@ == b.transaction_id.0@ {
            assert(a.transaction_id.0 =~= b.transaction_id.0);
        }
        lemma_bytes_before_total(a.transaction_id.0@, b.transaction_id.0@);
    }
}

/// Whether outpoints rise strictly.
pub open spec fn strictly_rising(outpoints: Seq<TransparentOutPoint>) -> bool {
    forall|i: int, j: int|
        0 <= i < j < outpoints.len() ==> outpoint_before(
            #[trigger] outpoints[i],
            #[trigger] outpoints[j],
        )
}

/// Keys of a sequence of entries.
pub open spec fn keys_of<V>(entries: Seq<(TransparentOutPoint, V)>) -> Seq<TransparentOutPoint> {
    entries.map_values(|entry: (TransparentOutPoint, V)| entry.0)
}

/// Position at which a key stands in a sequence of entries, where it does.
pub open spec fn position_of<V>(
    entries: Seq<(TransparentOutPoint, V)>,
    key: TransparentOutPoint,
) -> int {
    choose|i: int| 0 <= i < entries.len() && (#[trigger] entries[i]).0 == key
}

/// The map that a sequence of entries with distinct keys spells.
pub open spec fn map_of<V>(entries: Seq<(TransparentOutPoint, V)>) -> Map<TransparentOutPoint, V> {
    Map::new(
        |key: TransparentOutPoint|
            exists|i: int| 0 <= i < entries.len() && (#[trigger] entries[i]).0 == key,
        |key: TransparentOutPoint| entries[position_of(entries, key)].1,
    )
}

proof fn lemma_map_of_entry<V>(entries: Seq<(TransparentOutPoint, V)>, i: int)
    requires
        strictly_rising(keys_of(entries)),
        0 <= i < entries.len(),
    ensures
        map_of(entries).contains_key(entries[i].0),
        map_of(entries)[entries[i].0] == entries[i].1,
{
    let key = entries[i].0;
    assert(entries[i].0 == key);
    let j = position_of(entries, key);
    assert(0 <= j < entries.len() && entries[j].0 == key);
    assert(keys_of(entries)[i] == key && keys_of(entries)[j] == key);
    if i != j {
        lemma_outpoint_before_irreflexive(key);
        if i < j {
            assert(outpoint_before(keys_of(entries)[i], keys_of(entries)[j]));
        } else {
            assert(outpoint_before(keys_of(entries)[j], keys_of(entries)[i]));
        }
    }
}

/// Map from outpoints to values, kept in outpoint order.
#[derive(Debug)]
pub struct OutPointMap<V> {
    entries: Vec<(TransparentOutPoint, V)>,
}

impl<V> OutPointMap<V> {
    /// Entries in outpoint order.
    pub closed spec fn entries_in_order(self) -> Seq<(TransparentOutPoint, V)> {
        self.entries@
    }

    /// The map itself.
    pub open spec fn view(self) -> Map<TransparentOutPoint, V> {
        map_of(self.entries_in_order())
    }

    /// Whether the entries stand in strict outpoint order.
    pub open spec fn well_formed(self) -> bool {
        strictly_rising(keys_of(self.entries_in_order()))
    }

    /// Returns an empty map.
    pub fn new() -> (map: Self)
        ensures
            map.well_formed(),
            map@ == Map::<TransparentOutPoint, V>::empty(),
            map.entries_in_order() == Seq::<(TransparentOutPoint, V)>::empty(),
    {
        let map = OutPointMap { entries: Vec::new() };
        assert(map@ =~= Map::<TransparentOutPoint, V>::empty());
        map
    }

    /// Returns how many entries the map holds.
    pub fn len(&self) -> (len: usize)
        ensures
            len == self.entries_in_order().len(),
    {
        self.entries.len()
    }

    /// Returns the key and value at one position of the order.
    pub fn entry_at(&self, position: usize) -> (entry: &(TransparentOutPoint, V))
        requires
            position < self.entries_in_order().len(),
        ensures
            *entry == self.entries_in_order()[position as int],
    {
        &self.entries[position]
    }

    /// Finds a key, or the position at which it would stand.
    fn find(&self, key: &TransparentOutPoint) -> (found: (bool, usize))
        requires
            self.well_formed(),
        ensures
            found.0 ==> found.1 < self.entries@.len() && self.entries@[found.1 as int].0 == *key,
            !found.0 ==> {
                &&& found.1 <= self.entries@.len()
                &&& forall|i: int|
                    0 <= i < found.1 ==> outpoint_before((#[trigger] self.entries@[i]).0, *key)
                &&& forall|i: int|
                    found.1 <= i < self.entries@.len() ==> outpoint_before(
                        *key,
                        (#[trigger] self.entries@[i]).0,
                    )
            },
    {
        let mut low: usize = 0;
        let mut high: usize = self.entries.len();
        while low < high
            invariant
                self.well_formed(),
                low <= high <= self.entries@.len(),
                forall|i: int|
                    0 <= i < low ==> outpoint_before((#[trigger] self.entries@[i]).0, *key),
                forall|i: int|
                    high <= i < self.entries@.len() ==> outpoint_before(
                        *key,
                        (#[trigger] self.entries@[i]).0,
                    ),
            decreases high - low,
        {
            let middle: usize = low + (high - low) / 2;
            let candidate = self.entries[middle].0;
            if candidate.same_as(key) {
                return (true, middle);
            }
            proof {
                let keys = keys_of(self.entries@);
                assert forall|i: int| 0 <= i < middle implies outpoint_before(
                    (#[trigger] self.entries@[i]).0,
                    candidate,
                ) by {
                    assert(outpoint_before(keys[i], keys[middle as int]));
                }
                assert forall|i: int| middle < i < self.entries@.len() implies outpoint_before(
                    candidate,
                    (#[trigger] self.entries@[i]).0,
                ) by {
                    assert(outpoint_before(keys[middle as int], keys[i]));
                }
            }
            if outpoint_precedes(&candidate, key) {
                proof {
                    assert forall|i: int| 0 <= i < middle + 1 implies outpoint_before(
                        (#[trigger] self.entries@[i]).0,
                        *key,
                    ) by {
                        if i < middle {
                            lemma_outpoint_before_transitive(self.entries@[i].0, candidate, *key);
                        }
                    }
                }
                low = middle + 1;
            } else {
                proof {
                    lemma_outpoint_before_total(candidate, *key);
                    assert forall|i: int| middle <= i < self.entries@.len() implies outpoint_before(
                        *key,
                        (#[trigger] self.entries@[i]).0,
                    ) by {
                        if i > middle {
                            lemma_outpoint_before_transitive(*key, candidate, self.entries@[i].0);
                        }
                    }
                }
                high = middle;
            }
        }
        (false, low)
    }

    proof fn lemma_absent(self, key: TransparentOutPoint, position: int)
        requires
            0 <= position <= self.entries@.len(),
            forall|i: int|
                0 <= i < position ==> outpoint_before((#[trigger] self.entries@[i]).0, key),
            forall|i: int|
                position <= i < self.entries@.len() ==> outpoint_before(
                    key,
                    (#[trigger] self.entries@[i]).0,
                ),
        ensures
            !self@.contains_key(key),
    {
        lemma_outpoint_before_irreflexive(key);
        if self@.contains_key(key) {
            let i = position_of(self.entries@, key);
            assert(self.entries@[i].0 == key);
        }
    }

    /// Looks a key up.
    pub fn get(&self, key: &TransparentOutPoint) -> (value: Option<&V>)
        requires
            self.well_formed(),
        ensures
            match value {
                Some(value) => self@.contains_key(*key) && *value == self@[*key],
                None => !self@.contains_key(*key),
            },
    {
        let (present, position) = self.find(key);
        if present {
            proof {
                lemma_map_of_entry(self.entries@, position as int);
            }
            Some(&self.entries[position].1)
        } else {
            proof {
                self.lemma_absent(*key, position as int);
            }
            None
        }
    }

    /// Returns whether a key is present.
    pub fn contains_key(&self, key: &TransparentOutPoint) -> (present: bool)
        requires
            self.well_formed(),
        ensures
            present == self@.contains_key(*key),
    {
        self.get(key).is_some()
    }

    proof fn lemma_inserted(
        entries: Seq<(TransparentOutPoint, V)>,
        key: TransparentOutPoint,
        value: V,
        position: int,
    )
        requires
            strictly_rising(keys_of(entries)),
            0 <= position <= entries.len(),
            forall|i: int| 0 <= i < position ==> outpoint_before((#[trigger] entries[i]).0, key),
            forall|i: int|
                position <= i < entries.len() ==> outpoint_before(key, (#[trigger] entries[i]).0),
        ensures
            strictly_rising(keys_of(entries.insert(position, (key, value)))),
            map_of(entries.insert(position, (key, value))) == map_of(entries).insert(key, value),
    {
        let grown = entries.insert(position, (key, value));
        let keys = keys_of(grown);
        assert forall|i: int, j: int| 0 <= i < j < keys.len() implies outpoint_before(
            #[trigger] keys[i],
            #[trigger] keys[j],
        ) by {
            let old_i = if i < position {
                i
            } else {
                i - 1
            };
            let old_j = if j < position {
                j
            } else {
                j - 1
            };
            if i == position {
                assert(grown[j] == entries[old_j]);
            } else if j == position {
                assert(grown[i] == entries[old_i]);
            } else {
                assert(grown[i] == entries[old_i]);
                assert(grown[j] == entries[old_j]);
                assert(outpoint_before(keys_of(entries)[old_i], keys_of(entries)[old_j]));
            }
        }
        assert forall|k: TransparentOutPoint|
            map_of(grown).contains_key(k) <==> #[trigger] map_of(entries).insert(
                key,
                value,
            ).contains_key(k) by {
            if map_of(grown).contains_key(k) {
                let i = position_of(grown, k);
                assert(grown[i].0 == k);
                if i < position {
                    assert(entries[i].0 == k);
                } else if i > position {
                    assert(entries[i - 1].0 == k);
                }
            }
            if k == key {
                assert(grown[position].0 == k);
            } else if map_of(entries).contains_key(k) {
                let i = position_of(entries, k);
                assert(entries[i].0 == k);
                if i < position {
                    assert(grown[i].0 == k);
                } else {
                    assert(grown[i + 1].0 == k);
                }
            }
        }
        assert forall|k: TransparentOutPoint| #[trigger] map_of(grown).contains_key(
            k,
        ) implies map_of(grown)[k] == map_of(entries).insert(key, value)[k] by {
            let i = position_of(grown, k);
            assert(grown[i].0 == k);
            lemma_map_of_entry(grown, i);
            if i == position {
            } else {
                let j = if i < position {
                    i
                } else {
                    i - 1
                };
                assert(grown[i] == entries[j]);
                lemma_map_of_entry(entries, j);
                lemma_outpoint_before_irreflexive(key);
            }
        }
        assert(map_of(grown) =~= map_of(entries).insert(key, value));
    }

    proof fn lemma_updated(
        entries: Seq<(TransparentOutPoint, V)>,
        key: TransparentOutPoint,
        value: V,
        position: int,
    )
        requires
            strictly_rising(keys_of(entries)),
            0 <= position < entries.len(),
            entries[position].0 == key,
        ensures
            strictly_rising(keys_of(entries.update(position, (key, value)))),
            map_of(entries.update(position, (key, value))) == map_of(entries).insert(key, value),
    {
        let changed = entries.update(position, (key, value));
        assert(keys_of(changed) =~= keys_of(entries));
        assert forall|k: TransparentOutPoint|
            map_of(changed).contains_key(k) <==> #[trigger] map_of(entries).insert(
                key,
                value,
            ).contains_key(k) by {
            if map_of(changed).contains_key(k) {
                let i = position_of(changed, k);
                assert(changed[i].0 == k);
                assert(entries[i].0 == k);
            }
            if k == key {
                assert(changed[position].0 == k);
            } else if map_of(entries).contains_key(k) {
                let i = position_of(entries, k);
                assert(entries[i].0 == k);
                assert(changed[i].0 == k);
            }
        }
        assert forall|k: TransparentOutPoint| #[trigger] map_of(changed).contains_key(
            k,
        ) implies map_of(changed)[k] == map_of(entries).insert(key, value)[k] by {
            let i = position_of(changed, k);
            assert(changed[i].0 == k);
            lemma_map_of_entry(changed, i);
            lemma_map_of_entry(entries, i);
            if i != position {
                assert(keys_of(entries)[i] == k && keys_of(entries)[position] == key);
                lemma_outpoint_before_irreflexive(key);
                if k == key {
                    if i < position {
                        assert(outpoint_before(keys_of(entries)[i], keys_of(entries)[position]));
                    } else {
                        assert(outpoint_before(keys_of(entries)[position], keys_of(entries)[i]));
                    }
                }
            }
        }
        assert(map_of(changed) =~= map_of(entries).insert(key, value));
    }

    /// Sets the value of a key, whether or not it was present.
    pub fn insert(&mut self, key: TransparentOutPoint, value: V)
        requires
            old(self).well_formed(),
        ensures
            final(self).well_formed(),
            final(self)@ == old(self)@.insert(key, value),
    {
        let (present, position) = self.find(&key);
        if present {
            proof {
                Self::lemma_updated(self.entries@, key, value, position as int);
            }
            self.entries.set(position, (key, value));
        } else {
            proof {
                Self::lemma_inserted(self.entries@, key, value, position as int);
            }
            self.entries.insert(position, (key, value));
        }
    }

    /// Sets the value of a key that is not present yet; leaves a present one alone.
    pub fn insert_if_absent(&mut self, key: TransparentOutPoint, value: V)
        requires
            old(self).well_formed(),
        ensures
            final(self).well_formed(),
            final(self)@ == if old(self)@.contains_key(key) {
                old(self)@
            } else {
                old(self)@.insert(key, value)
            },
    {
        let (present, position) = self.find(&key);
        if present {
            proof {
                lemma_map_of_entry(self.entries@, position as int);
            }
        } else {
            proof {
                self.lemma_absent(key, position as int);
                Self::lemma_inserted(self.entries@, key, value, position as int);
            }
            self.entries.insert(position, (key, value));
        }
    }

    /// Takes a key out and returns its value.
    pub fn remove(&mut self, key: &TransparentOutPoint) -> (removed: Option<V>)
        requires
            old(self).well_formed(),
        ensures
            final(self).well_formed(),
            final(self)@ == old(self)@.remove(*key),
            match removed {
                Some(value) => old(self)@.contains_key(*key) && value == old(self)@[*key],
                None => !old(self)@.contains_key(*key),
            },
            final(self).entries_in_order().len() + (if removed is Some {
                1int
            } else {
                0
            }) == old(self).entries_in_order().len(),
    {
        let (present, position) = self.find(key);
        if present {
            let ghost before = self.entries@;
            proof {
                lemma_map_of_entry(before, position as int);
            }
            let (_, value) = self.entries.remove(position);
            proof {
                Self::lemma_removed(before, *key, position as int);
            }
            Some(value)
        } else {
            proof {
                self.lemma_absent(*key, position as int);
                assert(self@ =~= self@.remove(*key));
            }
            None
        }
    }

    proof fn lemma_removed(
        entries: Seq<(TransparentOutPoint, V)>,
        key: TransparentOutPoint,
        position: int,
    )
        requires
            strictly_rising(keys_of(entries)),
            0 <= position < entries.len(),
            entries[position].0 == key,
        ensures
            strictly_rising(keys_of(entries.remove(position))),
            map_of(entries.remove(position)) == map_of(entries).remove(key),
    {
        let left = entries.remove(position);
        let keys = keys_of(left);
        assert forall|i: int, j: int| 0 <= i < j < keys.len() implies outpoint_before(
            #[trigger] keys[i],
            #[trigger] keys[j],
        ) by {
            let old_i = if i < position {
                i
            } else {
                i + 1
            };
            let old_j = if j < position {
                j
            } else {
                j + 1
            };
            assert(left[i] == entries[old_i]);
            assert(left[j] == entries[old_j]);
            assert(outpoint_before(keys_of(entries)[old_i], keys_of(entries)[old_j]));
        }
        lemma_outpoint_before_irreflexive(key);
        assert forall|k: TransparentOutPoint|
            map_of(left).contains_key(k) <==> #[trigger] map_of(entries).remove(
                key,
            ).contains_key(k) by {
            if map_of(left).contains_key(k) {
                let i = position_of(left, k);
                assert(left[i].0 == k);
                let j = if i < position {
                    i
                } else {
                    i + 1
                };
                assert(entries[j].0 == k);
                if j < position {
                    assert(outpoint_before(keys_of(entries)[j], keys_of(entries)[position]));
                } else {
                    assert(outpoint_before(keys_of(entries)[position], keys_of(entries)[j]));
                }
            }
            if k != key && map_of(entries).contains_key(k) {
                let i = position_of(entries, k);
                assert(entries[i].0 == k);
                if i < position {
                    assert(left[i].0 == k);
                } else {
                    assert(left[i - 1].0 == k);
                }
            }
        }
        assert forall|k: TransparentOutPoint| #[trigger] map_of(left).contains_key(
            k,
        ) implies map_of(left)[k] == map_of(entries).remove(key)[k] by {
            let i = position_of(left, k);
            assert(left[i].0 == k);
            lemma_map_of_entry(left, i);
            let j = if i < position {
                i
            } else {
                i + 1
            };
            assert(left[i] == entries[j]);
            lemma_map_of_entry(entries, j);
            assert(map_of(entries).remove(key).contains_key(k));
        }
        assert(map_of(left) =~= map_of(entries).remove(key));
    }
}

/// Outpoints stand in the byte order of their transactions, and those of one
/// transaction in the order of their indexes.
pub proof fn law_outpoints_stand_by_transaction_and_index(
    left: TransparentOutPoint,
    right: TransparentOutPoint,
)
    ensures
        left.transaction_id == right.transaction_id ==> (outpoint_before(left, right)
            <==> left.output_index < right.output_index),
        left.transaction_id != right.transaction_id ==> (outpoint_before(left, right)
            <==> bytes_before(left.transaction_id.0@, right.transaction_id.0@)),
{
    lemma_bytes_before_irreflexive(left.transaction_id.0@);
}

/// What an ordered map shows is what its entries say: each key stands once, with
/// its own value, and no other key is there.
pub proof fn law_map_shows_its_entries<V>(entries: Seq<(TransparentOutPoint, V)>, key: TransparentOutPoint)
    requires
        forall|i: int, j: int|
            0 <= i < j < entries.len() ==> outpoint_before(
                #[trigger] entries[i].0,
                #[trigger] entries[j].0,
            ),
    ensures
        strictly_rising(keys_of(entries)),
        map_of(entries).contains_key(key) <==> exists|i: int|
            0 <= i < entries.len() && (#[trigger] entries[i]).0 == key,
        forall|i: int|
            0 <= i < entries.len() ==> map_of(entries)[(#[trigger] entries[i]).0] == entries[i].1,
{
    let keys = keys_of(entries);
    assert forall|i: int, j: int| 0 <= i < j < keys.len() implies outpoint_before(
        #[trigger] keys[i],
        #[trigger] keys[j],
    ) by {
        assert(keys[i] == entries[i].0);
        assert(keys[j] == entries[j].0);
    }
    assert forall|i: int| 0 <= i < entries.len() implies map_of(entries)[(
    #[trigger] entries[i]).0] == entries[i].1 by {
        let at = position_of(entries, entries[i].0);
        assert(0 <= at < entries.len() && entries[at].0 == entries[i].0);
        lemma_outpoint_before_irreflexive(entries[i].0);
        if at < i {
            assert(outpoint_before(entries[at].0, entries[i].0));
        }
        if i < at {
            assert(outpoint_before(entries[i].0, entries[at].0));
        }
    }
}

} // verus!
