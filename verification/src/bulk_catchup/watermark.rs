//! Byte budgets shared by the in-flight work of one pipeline stage.

use crate::batch::total;
use crate::bounds::{capped, floored_difference, larger, NonZeroU64};
use vstd::prelude::*;

verus! {

/// Bytes and reservations one stage holds, against a limit.
///
/// Whoever shares a watermark between tasks serialises the calls on it; a
/// reservation is given back by [`ByteWatermark::release`].
#[derive(Debug)]
pub struct ByteWatermark {
    pub limit_bytes: NonZeroU64,
    pub reserved_bytes: u64,
    pub reservations: u32,
}

/// Bytes that one piece of in-flight work holds of a watermark.
#[derive(Debug, PartialEq, Eq)]
pub struct ByteReservation {
    pub bytes: u64,
    pub is_released: bool,
}

/// What a watermark holds at one moment.
#[derive(Clone, Copy, Debug, PartialEq, Eq, Structural)]
pub struct WatermarkSnapshot {
    pub reserved_bytes: u64,
    pub reservations: u32,
    pub limit_bytes: u64,
}

/// Bytes that a request for some bytes asks for: at least one.
pub open spec fn requested(bytes: u64) -> int {
    larger(bytes as int, 1)
}

impl WatermarkSnapshot {
    /// Whether a request for some bytes is granted.
    pub open spec fn grants(self, bytes: u64) -> bool {
        &&& self.reserved_bytes + requested(bytes) <= u64::MAX
        &&& self.reservations == 0 || self.reserved_bytes + requested(bytes) <= self.limit_bytes
    }

    /// State after a granted request.
    pub open spec fn reserved(self, bytes: u64) -> Self {
        WatermarkSnapshot {
            reserved_bytes: (self.reserved_bytes + requested(bytes)) as u64,
            reservations: capped(self.reservations + 1, u32::MAX as int) as u32,
            limit_bytes: self.limit_bytes,
        }
    }

    /// State after a reservation changed its size.
    pub open spec fn resized(self, current_bytes: u64, next_bytes: u64) -> Self {
        WatermarkSnapshot {
            reserved_bytes: capped(
                floored_difference(self.reserved_bytes as int, current_bytes as int) + requested(
                    next_bytes,
                ),
                u64::MAX as int,
            ) as u64,
            ..self
        }
    }

    /// State after a reservation was given back.
    pub open spec fn released(self, bytes: u64) -> Self {
        WatermarkSnapshot {
            reserved_bytes: floored_difference(self.reserved_bytes as int, bytes as int) as u64,
            reservations: floored_difference(self.reservations as int, 1) as u32,
            limit_bytes: self.limit_bytes,
        }
    }

    /// State and reservation after the reservation was given back, which
    /// counts once.
    pub open spec fn after_release(self, reservation: ByteReservation) -> (Self, ByteReservation) {
        (
            if reservation.is_released {
                self
            } else {
                self.released(reservation.bytes)
            },
            ByteReservation { bytes: reservation.bytes, is_released: true },
        )
    }

    /// State and reservation after the reservation was given back some times.
    pub open spec fn after_releases(
        self,
        reservation: ByteReservation,
        times: nat,
    ) -> (Self, ByteReservation)
        decreases times,
    {
        if times == 0 {
            (self, reservation)
        } else {
            let (state, given_back) = self.after_releases(reservation, (times - 1) as nat);
            state.after_release(given_back)
        }
    }

    /// Whether the state holds exactly the live reservations of some sizes.
    pub open spec fn accounts_for(self, live: Seq<u64>) -> bool {
        &&& self.reserved_bytes == total(live, |bytes: u64| bytes as int)
        &&& self.reservations == live.len()
    }
}

impl View for ByteWatermark {
    type V = WatermarkSnapshot;

    open spec fn view(&self) -> WatermarkSnapshot {
        WatermarkSnapshot {
            reserved_bytes: self.reserved_bytes,
            reservations: self.reservations,
            limit_bytes: self.limit_bytes@ as u64,
        }
    }
}

impl ByteWatermark {
    /// Returns a watermark that holds nothing.
    pub fn new(limit_bytes: NonZeroU64) -> (watermark: Self)
        ensures
            watermark.limit_bytes == limit_bytes,
            watermark@ == (WatermarkSnapshot {
                reserved_bytes: 0,
                reservations: 0,
                limit_bytes: limit_bytes@ as u64,
            }),
    {
        ByteWatermark { limit_bytes, reserved_bytes: 0, reservations: 0 }
    }

    /// Reserves bytes within the limit; the first reservation may exceed it.
    pub fn try_reserve(&mut self, bytes: u64) -> (reservation: Option<ByteReservation>)
        ensures
            final(self).limit_bytes == old(self).limit_bytes,
            match reservation {
                Some(reservation) => {
                    &&& old(self)@.grants(bytes)
                    &&& final(self)@ == old(self)@.reserved(bytes)
                    &&& reservation.bytes == requested(bytes)
                    &&& !reservation.is_released
                },
                None => !old(self)@.grants(bytes) && *final(self) == *old(self),
            },
    {
        let bytes: u64 = if bytes > 1 {
            bytes
        } else {
            1
        };
        let next_reserved_bytes: u64 = match self.reserved_bytes.checked_add(bytes) {
            Some(next_reserved_bytes) => next_reserved_bytes,
            None => {
                return None;
            },
        };
        let first_reservation = self.reservations == 0;
        if next_reserved_bytes > self.limit_bytes.get() && !first_reservation {
            return None;
        }
        self.reserved_bytes = next_reserved_bytes;
        self.reservations = self.reservations.saturating_add(1);
        Some(ByteReservation { bytes, is_released: false })
    }

    /// Returns what the watermark holds.
    pub fn snapshot(&self) -> (snapshot: WatermarkSnapshot)
        ensures
            snapshot == self@,
    {
        WatermarkSnapshot {
            reserved_bytes: self.reserved_bytes,
            reservations: self.reservations,
            limit_bytes: self.limit_bytes.get(),
        }
    }

    /// Changes the size of a reservation that was not given back yet.
    pub fn resize(&mut self, reservation: &mut ByteReservation, next_bytes: u64)
        ensures
            final(self).limit_bytes == old(self).limit_bytes,
            final(reservation).is_released == old(reservation).is_released,
            if old(reservation).is_released {
                *final(self) == *old(self) && *final(reservation) == *old(reservation)
            } else {
                &&& final(self)@ == old(self)@.resized(old(reservation).bytes, next_bytes)
                &&& final(reservation).bytes == requested(next_bytes)
            },
    {
        if reservation.is_released {
            return ;
        }
        let next_bytes: u64 = if next_bytes > 1 {
            next_bytes
        } else {
            1
        };
        self.reserved_bytes =
        self.reserved_bytes.saturating_sub(reservation.bytes).saturating_add(next_bytes);
        reservation.bytes = next_bytes;
    }

    /// Gives a reservation back, once.
    pub fn release(&mut self, reservation: &mut ByteReservation)
        ensures
            final(self).limit_bytes == old(self).limit_bytes,
            (final(self)@, *final(reservation)) == old(self)@.after_release(*old(reservation)),
    {
        if reservation.is_released {
            return ;
        }
        reservation.is_released = true;
        self.reserved_bytes = self.reserved_bytes.saturating_sub(reservation.bytes);
        self.reservations = self.reservations.saturating_sub(1);
    }
}

proof fn lemma_total_remove(live: Seq<u64>, i: int)
    requires
        0 <= i < live.len(),
    ensures
        total(live, |bytes: u64| bytes as int) == total(live.remove(i), |bytes: u64| bytes as int)
            + live[i],
        total(live.remove(i), |bytes: u64| bytes as int) >= 0,
    decreases live.len(),
{
    let weight = |bytes: u64| bytes as int;
    crate::batch::lemma_total_is_nonnegative(live.remove(i), weight);
    if i == live.len() - 1 {
        assert(live.remove(i) =~= live.drop_last());
    } else {
        lemma_total_remove(live.drop_last(), i);
        assert(live.remove(i).drop_last() =~= live.drop_last().remove(i));
        assert(live.remove(i).last() == live.last());
    }
}

/// A granted reservation joins the live ones, as long as their number can be counted.
pub proof fn law_granted_reservation_is_accounted_for(
    state: WatermarkSnapshot,
    live: Seq<u64>,
    bytes: u64,
)
    requires
        state.accounts_for(live),
        state.grants(bytes),
        live.len() < u32::MAX,
    ensures
        state.reserved(bytes).accounts_for(live.push(requested(bytes) as u64)),
{
    assert(live.push(requested(bytes) as u64).drop_last() =~= live);
}

/// Giving a live reservation back leaves exactly the other ones.
pub proof fn law_release_restores_the_other_reservations(
    state: WatermarkSnapshot,
    live: Seq<u64>,
    i: int,
)
    requires
        state.accounts_for(live),
        0 <= i < live.len(),
    ensures
        state.released(live[i]).accounts_for(live.remove(i)),
{
    lemma_total_remove(live, i);
}

/// A resized reservation counts with its new size, as long as the bytes can be counted.
pub proof fn law_resized_reservation_counts_with_its_new_size(
    state: WatermarkSnapshot,
    live: Seq<u64>,
    i: int,
    next_bytes: u64,
)
    requires
        state.accounts_for(live),
        0 <= i < live.len(),
        state.reserved_bytes - live[i] + requested(next_bytes) <= u64::MAX,
    ensures
        state.resized(live[i], next_bytes).accounts_for(
            live.update(i, requested(next_bytes) as u64),
        ),
{
    let changed = live.update(i, requested(next_bytes) as u64);
    lemma_total_remove(live, i);
    lemma_total_remove(changed, i);
    assert(changed.remove(i) =~= live.remove(i));
}

/// Reserving and giving back again changes nothing, as long as reservations can be counted.
pub proof fn law_release_undoes_reservation(state: WatermarkSnapshot, bytes: u64)
    requires
        state.grants(bytes),
        state.reservations < u32::MAX,
    ensures
        state.reserved(bytes).released(requested(bytes) as u64) == state,
{
}

/// A reservation that was granted and then given back leaves the state as it
/// was, however often it is given back, as long as reservations can be counted.
pub proof fn law_repeated_release_counts_once(state: WatermarkSnapshot, bytes: u64, times: nat)
    requires
        state.grants(bytes),
        state.reservations < u32::MAX,
        times > 0,
    ensures
        state.reserved(bytes).after_releases(
            (ByteReservation { bytes: requested(bytes) as u64, is_released: false }),
            times,
        ) == (
            state,
            (ByteReservation { bytes: requested(bytes) as u64, is_released: true }),
        ),
    decreases times,
{
    let held = ByteReservation { bytes: requested(bytes) as u64, is_released: false };
    if times == 1 {
        assert(state.reserved(bytes).after_releases(held, 0) == (state.reserved(bytes), held));
    } else {
        law_repeated_release_counts_once(state, bytes, (times - 1) as nat);
    }
}

/// No request takes a stage that holds other reservations beyond its limit.
pub proof fn law_only_a_first_reservation_exceeds_the_limit(
    state: WatermarkSnapshot,
    bytes: u64,
)
    requires
        state.grants(bytes),
        state.reserved(bytes).reserved_bytes > state.limit_bytes,
    ensures
        state.reservations == 0,
{
}

/// A reservation asks for its bytes, and for one byte at least.
pub proof fn law_reservation_asks_for_its_bytes(bytes: u64)
    ensures
        requested(bytes) >= 1,
        bytes >= 1 ==> requested(bytes) == bytes,
{
}

/// A reservation is granted exactly where the sum can be counted and is within
/// the limit; a first one is granted beyond the limit too.
pub proof fn law_reservation_is_granted_within_the_limit(state: WatermarkSnapshot, bytes: u64)
    requires
        bytes >= 1,
    ensures
        state.grants(bytes) <==> state.reserved_bytes + bytes <= 0xffff_ffff_ffff_ffff && (
        state.reservations == 0 || state.reserved_bytes + bytes <= state.limit_bytes),
{
}

/// Reserving adds the bytes and one reservation; releasing takes both back;
/// resizing replaces the bytes of one. None of them moves the limit.
pub proof fn law_reserved_bytes_are_kept_account_of(
    state: WatermarkSnapshot,
    bytes: u64,
    next_bytes: u64,
)
    requires
        bytes >= 1,
        next_bytes >= 1,
    ensures
        state.reserved_bytes + bytes <= u64::MAX ==> state.reserved(bytes).reserved_bytes
            == state.reserved_bytes + bytes,
        state.reservations < u32::MAX ==> state.reserved(bytes).reservations
            == state.reservations + 1,
        state.reserved(bytes).limit_bytes == state.limit_bytes,
        state.reserved_bytes >= bytes ==> state.released(bytes).reserved_bytes
            == state.reserved_bytes - bytes,
        state.reservations >= 1 ==> state.released(bytes).reservations == state.reservations - 1,
        state.released(bytes).limit_bytes == state.limit_bytes,
        state.reserved_bytes >= bytes && state.reserved_bytes - bytes + next_bytes <= u64::MAX
            ==> state.resized(bytes, next_bytes).reserved_bytes == state.reserved_bytes - bytes
            + next_bytes,
        state.resized(bytes, next_bytes).reservations == state.reservations,
        state.resized(bytes, next_bytes).limit_bytes == state.limit_bytes,
{
}

/// A reservation is given back once: releasing it marks it, and a marked one
/// changes nothing.
pub proof fn law_released_reservation_is_marked(
    state: WatermarkSnapshot,
    reservation: ByteReservation,
)
    ensures
        state.after_release(reservation).1.is_released,
        state.after_release(reservation).1.bytes == reservation.bytes,
        reservation.is_released ==> state.after_release(reservation).0 == state,
        !reservation.is_released ==> state.after_release(reservation).0 == state.released(
            reservation.bytes,
        ),
{
}

/// A snapshot shows what the watermark holds.
pub proof fn law_snapshot_shows_the_watermark(watermark: ByteWatermark)
    ensures
        watermark@.reserved_bytes == watermark.reserved_bytes,
        watermark@.reservations == watermark.reservations,
        watermark@.limit_bytes == watermark.limit_bytes@,
{
}

} // verus!
