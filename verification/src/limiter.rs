//! Reservation-based rate limiting for upstream calls. The limiter holds the
//! time of the next free call slot on a monotonic millisecond clock. Each
//! caller reserves the current slot and advances the reservation by the
//! cooldown, so concurrent callers always receive distinct slots at least a
//! cooldown apart; the caller then waits until its own slot's time before
//! sending. The lock around the limiter and the waiting itself live with the
//! caller; the reservation arithmetic here is what keeps slots separated.

use vstd::prelude::*;

verus! {

/// The reservation clock of the process-wide rate limiter.
pub struct RateLimiter {
    /// Time of the next free call slot, in monotonic milliseconds.
    next_slot: u64,
    /// Minimum interval between two slots, in milliseconds.
    cooldown: u64,
}

/// The slot that `count` reservations after start time `start` hand out.
pub open spec fn nth_slot(start: int, cooldown: int, count: int) -> int {
    start + count * cooldown
}

impl RateLimiter {
    /// The next free slot, in monotonic milliseconds.
    pub closed spec fn next_slot(&self) -> int {
        self.next_slot as int
    }

    /// The cooldown between slots, in milliseconds.
    pub closed spec fn cooldown(&self) -> int {
        self.cooldown as int
    }

    /// A fresh limiter: the first caller may call at `now`.
    pub fn new(now: u64, cooldown_ms: u64) -> (r: RateLimiter)
        ensures
            r.next_slot() == now as int,
            r.cooldown() == cooldown_ms as int,
    {
        RateLimiter { next_slot: now, cooldown: cooldown_ms }
    }

    /// Reserves the current slot and advances the reservation by one
    /// cooldown. Returns the caller's own slot time, or nothing when the
    /// clock would overflow (the limiter is then unchanged).
    pub fn reserve(&mut self) -> (r: Option<u64>)
        ensures
            (match r {
                Some(slot) => {
                    &&& slot as int == old(self).next_slot()
                    &&& final(self).next_slot() == old(self).next_slot() + old(self).cooldown()
                    &&& final(self).cooldown() == old(self).cooldown()
                },
                None => {
                    &&& *final(self) == *old(self)
                    &&& old(self).next_slot() + old(self).cooldown() > u64::MAX
                },
            }),
    {
        if self.next_slot <= u64::MAX - self.cooldown {
            let slot = self.next_slot;
            self.next_slot = slot + self.cooldown;
            Some(slot)
        } else {
            None
        }
    }
}

/// Law: successive reservations hand out slots that form an arithmetic
/// progression, so any two distinct slots lie at least one cooldown apart —
/// sorted outgoing call times separated by reservation are pairwise at least
/// the cooldown interval apart.
pub proof fn lemma_reserved_slots_spaced(start: int, cooldown: int, i: int, j: int)
    requires
        cooldown > 0,
        0 <= i < j,
    ensures
        nth_slot(start, cooldown, j) - nth_slot(start, cooldown, i) >= cooldown,
        nth_slot(start, cooldown, j) > nth_slot(start, cooldown, i),
{
    assert((j - i) * cooldown >= 1 * cooldown) by (nonlinear_arith)
        requires
            j - i >= 1,
            cooldown > 0,
    ;
    assert(nth_slot(start, cooldown, j) - nth_slot(start, cooldown, i) == (j - i) * cooldown) by (nonlinear_arith);
}

/// Law: one reservation moves the clock from slot `count` to slot
/// `count + 1` of the progression, so a sequence of `reserve` calls yields
/// exactly the slots of [`nth_slot`].
pub proof fn lemma_reserve_steps_progression(
    pre: RateLimiter,
    post: RateLimiter,
    slot: u64,
    start: int,
    count: int,
)
    requires
        pre.next_slot() == nth_slot(start, pre.cooldown(), count),
        slot as int == pre.next_slot(),
        post.next_slot() == pre.next_slot() + pre.cooldown(),
        post.cooldown() == pre.cooldown(),
    ensures
        slot as int == nth_slot(start, pre.cooldown(), count),
        post.next_slot() == nth_slot(start, post.cooldown(), count + 1),
{
    assert((count + 1) * pre.cooldown() == count * pre.cooldown() + pre.cooldown()) by (nonlinear_arith);
}

} // verus!
