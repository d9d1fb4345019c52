use magichawk::limiter::RateLimiter;
use magichawk::SCRYFALL_COOLDOWN_MS;

#[test]
fn reserved_slots_are_spaced_by_cooldown() {
    let mut limiter = RateLimiter::new(5000, SCRYFALL_COOLDOWN_MS);
    let mut slots: Vec<u64> = Vec::new();
    for _ in 0..20 {
        slots.push(limiter.reserve().unwrap());
    }
    let mut sorted = slots.clone();
    sorted.sort();
    assert_eq!(slots, sorted, "slots are handed out in increasing order");
    for pair in sorted.windows(2) {
        assert!(pair[1] - pair[0] >= SCRYFALL_COOLDOWN_MS);
    }
}

#[test]
fn first_slot_is_the_start_time() {
    let mut limiter = RateLimiter::new(777, 100);
    assert_eq!(limiter.reserve(), Some(777));
    assert_eq!(limiter.reserve(), Some(877));
}

#[test]
fn reserve_refuses_clock_overflow() {
    let mut limiter = RateLimiter::new(u64::MAX - 50, 100);
    assert_eq!(limiter.reserve(), None);
    // The limiter is unchanged, so the refusal is stable.
    assert_eq!(limiter.reserve(), None);
}
