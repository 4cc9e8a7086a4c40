//! Nonzero bounds and saturating width conversions.

use vstd::prelude::*;

verus! {

/// A `u32` that is never zero.
#[derive(Clone, Copy, Debug, PartialEq, Eq)]
pub struct NonZeroU32 {
    amount: u32,
}

impl NonZeroU32 {
    #[verifier::type_invariant]
    spec fn is_nonzero(self) -> bool {
        self.amount > 0
    }

    /// The bound as a plain integer.
    pub closed spec fn view(self) -> u32 {
        self.amount
    }

    /// Accepts every amount but zero.
    pub fn new(amount: u32) -> (bound: Option<Self>)
        ensures
            bound is None <==> amount == 0,
            bound matches Some(b) ==> b@ == amount,
    {
        if amount == 0 {
            None
        } else {
            Some(NonZeroU32 { amount })
        }
    }

    /// Returns the bound as a plain integer.
    pub fn get(self) -> (amount: u32)
        ensures
            amount == self@,
            amount > 0,
    {
        proof {
            use_type_invariant(&self);
        }
        self.amount
    }
}

/// A `u64` that is never zero.
#[derive(Clone, Copy, Debug, PartialEq, Eq)]
pub struct NonZeroU64 {
    amount: u64,
}

impl NonZeroU64 {
    #[verifier::type_invariant]
    spec fn is_nonzero(self) -> bool {
        self.amount > 0
    }

    /// The bound as a plain integer.
    pub closed spec fn view(self) -> u64 {
        self.amount
    }

    /// Accepts every amount but zero.
    pub fn new(amount: u64) -> (bound: Option<Self>)
        ensures
            bound is None <==> amount == 0,
            bound matches Some(b) ==> b@ == amount,
    {
        if amount == 0 {
            None
        } else {
            Some(NonZeroU64 { amount })
        }
    }

    /// Returns the bound as a plain integer.
    pub fn get(self) -> (amount: u64)
        ensures
            amount == self@,
            amount > 0,
    {
        proof {
            use_type_invariant(&self);
        }
        self.amount
    }
}

/// The smaller of `amount` and `limit`.
pub open spec fn capped(amount: int, limit: int) -> int {
    if amount <= limit {
        amount
    } else {
        limit
    }
}

/// Sum that sticks at `limit`.
pub open spec fn capped_sum(left: int, right: int, limit: int) -> int {
    capped(left + right, limit)
}

/// Difference that sticks at zero.
pub open spec fn floored_difference(left: int, right: int) -> int {
    if left >= right {
        left - right
    } else {
        0
    }
}

/// The larger of the two amounts.
pub open spec fn larger(left: int, right: int) -> int {
    if left >= right {
        left
    } else {
        right
    }
}

/// Builds a nonzero bound, lifting zero to one.
pub fn nonzero_u32(amount: u32) -> (bound: NonZeroU32)
    ensures
        bound@ == larger(amount as int, 1),
{
    let lifted: u32 = if amount == 0 {
        1
    } else {
        amount
    };
    NonZeroU32 { amount: lifted }
}

/// Builds a nonzero bound, lifting zero to one.
pub fn nonzero_u64(amount: u64) -> (bound: NonZeroU64)
    ensures
        bound@ == larger(amount as int, 1),
{
    let lifted: u64 = if amount == 0 {
        1
    } else {
        amount
    };
    NonZeroU64 { amount: lifted }
}

/// Widens a `u32` bound to `usize`; every supported target has at least 32-bit pointers.
pub fn nonzero_u32_to_usize(amount: NonZeroU32) -> (converted: usize)
    ensures
        converted == amount@,
        converted > 0,
{
    amount.get() as usize
}

/// Narrows a `u64` bound to `usize`, sticking at `usize::MAX`.
pub fn nonzero_u64_to_usize(amount: NonZeroU64) -> (converted: usize)
    ensures
        converted == capped(amount@ as int, usize::MAX as int),
        converted > 0,
{
    u64_to_usize_saturating(amount.get())
}

/// Narrows a `u64` to `usize`, sticking at `usize::MAX`.
pub fn u64_to_usize_saturating(amount: u64) -> (converted: usize)
    ensures
        converted == capped(amount as int, usize::MAX as int),
{
    match usize::try_from(amount) {
        Ok(converted) => converted,
        Err(_) => usize::MAX,
    }
}

/// Narrows a `usize` to `u32`, sticking at `u32::MAX`.
pub fn usize_to_u32_saturating(amount: usize) -> (converted: u32)
    ensures
        converted == capped(amount as int, u32::MAX as int),
{
    match u32::try_from(amount) {
        Ok(converted) => converted,
        Err(_) => u32::MAX,
    }
}

/// Widens a `usize` to `u64`; no supported target has pointers wider than 64 bits.
pub fn usize_to_u64_saturating(amount: usize) -> (converted: u64)
    ensures
        converted == amount,
{
    amount as u64
}

/// Widens a `u32` to `usize`; every supported target has at least 32-bit pointers.
pub fn u32_to_usize(count: u32) -> (converted: usize)
    ensures
        converted == count,
{
    count as usize
}

/// A capped amount is the amount itself up to the limit, and the limit beyond.
pub proof fn law_cap_is_the_lesser(amount: int, limit: int)
    ensures
        capped(amount, limit) <= amount,
        capped(amount, limit) <= limit,
        capped(amount, limit) == amount || capped(amount, limit) == limit,
{
}

/// A capped sum is the sum itself where that is within the limit.
pub proof fn law_capped_sum_is_the_sum_within_the_limit(left: int, right: int, limit: int)
    ensures
        left + right <= limit ==> capped_sum(left, right, limit) == left + right,
        left + right > limit ==> capped_sum(left, right, limit) == limit,
{
}

/// A floored difference closes the gap from the right amount to the left one,
/// and is nothing where there is no gap.
pub proof fn law_floored_difference_closes_the_gap(left: int, right: int)
    ensures
        floored_difference(left, right) >= 0,
        right <= left ==> right + floored_difference(left, right) == left,
        right >= left ==> floored_difference(left, right) == 0,
{
}

/// The larger of two amounts is one of them and below neither.
pub proof fn law_larger_is_below_neither(left: int, right: int)
    ensures
        larger(left, right) >= left,
        larger(left, right) >= right,
        larger(left, right) == left || larger(left, right) == right,
{
}

} // verus!
