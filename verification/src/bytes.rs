//! Equality and lexicographic order of 32-byte identifiers.

use vstd::prelude::*;

verus! {

/// Lexicographic order of two byte strings of equal length.
pub open spec fn bytes_before(left: Seq<u8>, right: Seq<u8>) -> bool {
    exists|k: int| #[trigger] bytes_first_differ_at(left, right, k) && left[k] < right[k]
}

/// Whether `k` is the first position at which two byte strings disagree.
pub open spec fn bytes_first_differ_at(left: Seq<u8>, right: Seq<u8>, k: int) -> bool {
    &&& 0 <= k < left.len()
    &&& k < right.len()
    &&& left[k] != right[k]
    &&& forall|i: int| 0 <= i < k ==> left[i] == right[i]
}

/// Finds the first position at which two identifiers disagree.
pub fn first_difference(left: &[u8; 32], right: &[u8; 32]) -> (position: Option<usize>)
    ensures
        position is None <==> *left == *right,
        position matches Some(k) ==> bytes_first_differ_at(left@, right@, k as int),
{
    let mut k: usize = 0;
    while k < 32
        invariant
            0 <= k <= 32,
            forall|i: int| 0 <= i < k ==> left@[i] == right@[i],
        decreases 32 - k,
    {
        if left[k] != right[k] {
            return Some(k);
        }
        k += 1;
    }
    assert(*left =~= *right);
    None
}

/// Whether two identifiers hold the same bytes.
pub fn same_bytes(left: &[u8; 32], right: &[u8; 32]) -> (same: bool)
    ensures
        same == (*left == *right),
{
    first_difference(left, right).is_none()
}

/// Whether `left` comes strictly before `right` in byte order.
pub fn precedes(left: &[u8; 32], right: &[u8; 32]) -> (before: bool)
    ensures
        before == bytes_before(left@, right@),
{
    match first_difference(left, right) {
        None => {
            proof {
                assert(!bytes_before(left@, right@)) by {
                    if bytes_before(left@, right@) {
                        let k = choose|k: int| #[trigger]
                            bytes_first_differ_at(left@, right@, k) && left@[k] < right@[k];
                        assert(left@[k] != right@[k]);
                    }
                }
            }
            false
        },
        Some(k) => {
            proof {
                lemma_first_difference_decides(left@, right@, k as int);
            }
            left[k] < right[k]
        },
    }
}

/// The first differing byte alone decides the order.
pub proof fn lemma_first_difference_decides(left: Seq<u8>, right: Seq<u8>, k: int)
    requires
        bytes_first_differ_at(left, right, k),
    ensures
        bytes_before(left, right) <==> left[k] < right[k],
{
    if bytes_before(left, right) {
        let j = choose|j: int| #[trigger]
            bytes_first_differ_at(left, right, j) && left[j] < right[j];
        if j < k {
            assert(left[j] == right[j]);
        } else if k < j {
            assert(left[k] == right[k]);
        }
    }
}

/// Byte order is irreflexive.
pub proof fn lemma_bytes_before_irreflexive(bytes: Seq<u8>)
    ensures
        !bytes_before(bytes, bytes),
{
}

/// Byte order is transitive.
pub proof fn lemma_bytes_before_transitive(a: Seq<u8>, b: Seq<u8>, c: Seq<u8>)
    requires
        a.len() == b.len(),
        b.len() == c.len(),
        bytes_before(a, b),
        bytes_before(b, c),
    ensures
        bytes_before(a, c),
{
    let j = choose|j: int| #[trigger] bytes_first_differ_at(a, b, j) && a[j] < b[j];
    let k = choose|k: int| #[trigger] bytes_first_differ_at(b, c, k) && b[k] < c[k];
    let m = if j <= k {
        j
    } else {
        k
    };
    assert forall|i: int| 0 <= i < m implies a[i] == c[i] by {
        assert(a[i] == b[i]);
        assert(b[i] == c[i]);
    }
    if j < k {
        assert(b[j] == c[j]);
    } else if k < j {
        assert(a[k] == b[k]);
    }
    assert(bytes_first_differ_at(a, c, m));
}

/// Two different identifiers of one length are ordered one way or the other.
pub proof fn lemma_bytes_before_total(a: Seq<u8>, b: Seq<u8>)
    requires
        a.len() == b.len(),
        a != b,
    ensures
        bytes_before(a, b) || bytes_before(b, a),
{
    lemma_some_first_difference(a, b, 0);
    let k = choose|k: int| bytes_first_differ_at(a, b, k);
    assert(bytes_first_differ_at(b, a, k));
}

proof fn lemma_some_first_difference(a: Seq<u8>, b: Seq<u8>, from: int)
    requires
        a.len() == b.len(),
        a != b,
        0 <= from <= a.len(),
        forall|i: int| 0 <= i < from ==> a[i] == b[i],
    ensures
        exists|k: int| bytes_first_differ_at(a, b, k),
    decreases a.len() - from,
{
    if from == a.len() {
        assert(a =~= b);
    } else if a[from] != b[from] {
        assert(bytes_first_differ_at(a, b, from));
    } else {
        lemma_some_first_difference(a, b, from + 1);
    }
}

/// Returns whether two byte strings hold the same bytes.
pub fn same_byte_strings(left: &Vec<u8>, right: &Vec<u8>) -> (same: bool)
    ensures
        same == (left@ == right@),
{
    if left.len() != right.len() {
        return false;
    }
    let mut i: usize = 0;
    while i < left.len()
        invariant
            0 <= i <= left@.len(),
            left@.len() == right@.len(),
            forall|k: int| 0 <= k < i ==> left@[k] == right@[k],
        decreases left@.len() - i,
    {
        if left[i] != right[i] {
            return false;
        }
        i += 1;
    }
    assert(left@ =~= right@);
    true
}

/// Reads a byte string of exactly 32 bytes.
pub fn fixed_bytes(bytes: &Vec<u8>) -> (fixed: Option<[u8; 32]>)
    ensures
        fixed is Some <==> bytes@.len() == 32,
        fixed matches Some(array) ==> array@ == bytes@,
{
    if bytes.len() != 32 {
        return None;
    }
    let mut array: [u8; 32] = [0;32];
    let mut i: usize = 0;
    while i < 32
        invariant
            0 <= i <= 32,
            bytes@.len() == 32,
            forall|k: int| 0 <= k < i ==> array@[k] == bytes@[k],
        decreases 32 - i,
    {
        array[i] = bytes[i];
        i += 1;
    }
    assert(array@ =~= bytes@);
    Some(array)
}

/// The first byte that differs decides which bytes come first: the smaller one
/// does.
pub proof fn law_first_smaller_byte_comes_first(left: Seq<u8>, right: Seq<u8>, k: int)
    requires
        0 <= k < left.len(),
        k < right.len(),
        forall|i: int| 0 <= i < k ==> left[i] == right[i],
        left[k] < right[k],
    ensures
        bytes_before(left, right),
        !bytes_before(right, left),
{
    assert(bytes_first_differ_at(left, right, k));
    assert(bytes_first_differ_at(right, left, k));
    lemma_first_difference_decides(right, left, k);
}

} // verus!
