use ratelimit::clock::count_after;
use ratelimit::Clock;
use ratelimit::FakeRelativeClock;
use ratelimit::MonotonicClock;
use ratelimit::Nanos;
use ratelimit::RangeError;
use ratelimit::Reference;
use std::time::Duration;
use std::time::Instant;

#[test]
fn simulated_clock_starts_at_zero_and_stands_still() {
    let clock = FakeRelativeClock::default();
    assert_eq!(clock.now(), Nanos::new(0));
    assert_eq!(clock.now(), Nanos::new(0));
}

#[test]
fn advances_add_up() {
    let clock = FakeRelativeClock::default();
    for _ in 0..10 {
        for _ in 0..1_000 {
            let before = clock.now();
            clock.advance(Duration::from_nanos(1));
            assert!(clock.now() > before);
        }
    }
    assert_eq!(clock.now(), Nanos::new(10_000));
}

#[test]
fn advance_by_exact_amounts() {
    let clock = FakeRelativeClock::default();
    clock.advance(Duration::from_millis(500));
    assert_eq!(clock.now(), Nanos::new(500_000_000));
    clock.advance(Duration::new(0, 0));
    assert_eq!(clock.now(), Nanos::new(500_000_000));
    clock.advance(Duration::from_secs(2));
    assert_eq!(clock.now(), Nanos::new(2_500_000_000));
}

#[test]
fn clones_share_one_count() {
    let clock = FakeRelativeClock::default();
    let other = clock.clone();
    clock.advance(Duration::from_nanos(7));
    other.advance(Duration::from_nanos(5));
    assert_eq!(clock.now(), Nanos::new(12));
    assert_eq!(other.now(), Nanos::new(12));
}

#[test]
fn count_holds_at_its_largest() {
    let clock = FakeRelativeClock::default();
    clock.advance(Duration::from_nanos(u64::MAX - 1));
    clock.advance(Duration::from_nanos(5));
    assert_eq!(clock.now(), Nanos::new(u64::MAX));
    clock.advance(Duration::from_nanos(1));
    assert_eq!(clock.now(), Nanos::new(u64::MAX));
}

#[test]
fn count_after_adds_and_saturates() {
    assert_eq!(count_after(0, 0), Some(0));
    assert_eq!(count_after(40, 2), Some(42));
    assert_eq!(count_after(u64::MAX - 2, 2), Some(u64::MAX));
    assert_eq!(count_after(u64::MAX - 2, 3), Some(u64::MAX));
    assert_eq!(count_after(u64::MAX, u64::MAX), Some(u64::MAX));
}

#[test]
fn try_advance_moves_the_clock() {
    let clock = FakeRelativeClock::default();
    assert_eq!(clock.try_advance(Duration::from_micros(3)), Ok(()));
    assert_eq!(clock.now(), Nanos::new(3_000));
}

#[test]
fn try_advance_turns_away_what_does_not_fit() {
    let clock = FakeRelativeClock::default();
    clock.advance(Duration::from_nanos(9));
    assert_eq!(clock.try_advance(Duration::MAX), Err(RangeError));
    let just_too_long = Duration::from_nanos(u64::MAX) + Duration::from_nanos(1);
    assert_eq!(clock.try_advance(just_too_long), Err(RangeError));
    assert_eq!(clock.now(), Nanos::new(9));
}

#[test]
fn monotonic_clock_does_not_run_backwards() {
    let clock = MonotonicClock;
    let first = clock.now();
    let second = clock.now();
    assert!(second >= first);
    assert_eq!(Reference::duration_since(&first, second), Nanos::new(0));
}

#[test]
fn instants_measure_between_each_other() {
    let earlier = Instant::now();
    let later = earlier + Duration::from_millis(250);
    assert_eq!(Reference::duration_since(&later, earlier), Nanos::new(250_000_000));
    assert_eq!(Reference::duration_since(&earlier, later), Nanos::new(0));
    assert_eq!(Reference::duration_since(&earlier, earlier), Nanos::new(0));
}

#[test]
fn instants_step_back_and_forth() {
    let start = Instant::now() + Duration::from_secs(5);
    let back = Reference::saturating_sub(&start, Nanos::new(2_000_000_000));
    assert_eq!(start.duration_since(back), Duration::from_secs(2));
    assert_eq!(back + Nanos::new(2_000_000_000), start);
    assert_eq!(Reference::saturating_sub(&start, Nanos::new(0)), start);
}

fn earliest_instant() -> Instant {
    let mut first = Instant::now();
    let mut secs = 1u64 << 63;
    while secs > 0 {
        while let Some(earlier) = first.checked_sub(Duration::from_secs(secs)) {
            first = earlier;
        }
        secs /= 2;
    }
    let mut nanos = 1u64 << 30;
    while nanos > 0 {
        while let Some(earlier) = first.checked_sub(Duration::from_nanos(nanos)) {
            first = earlier;
        }
        nanos /= 2;
    }
    assert_eq!(first.checked_sub(Duration::from_nanos(1)), None);
    first
}

#[test]
fn instant_that_cannot_step_back_stays() {
    let first = earliest_instant();
    assert_eq!(Reference::saturating_sub(&first, Nanos::new(1)), first);
    assert_eq!(Reference::saturating_sub(&first, Nanos::new(u64::MAX)), first);
    assert_eq!(Reference::saturating_sub(&first, Nanos::new(0)), first);
}

#[test]
fn step_back_stops_at_the_earliest_instant() {
    let first = earliest_instant();
    let just_above = first + Duration::from_nanos(5);
    assert_eq!(Reference::saturating_sub(&just_above, Nanos::new(10)), first);
    assert_eq!(Reference::saturating_sub(&just_above, Nanos::new(6)), first);
    assert_eq!(Reference::saturating_sub(&just_above, Nanos::new(u64::MAX)), first);
    assert_eq!(Reference::saturating_sub(&just_above, Nanos::new(5)), first);
    assert_eq!(
        Reference::saturating_sub(&just_above, Nanos::new(4)),
        first + Duration::from_nanos(1)
    );
    assert_eq!(Reference::saturating_sub(&just_above, Nanos::new(0)), just_above);
}

#[test]
fn step_back_stops_at_the_earliest_instant_from_far_above() {
    let first = earliest_instant();
    for above in [1u64, 2, 3, 1_000_000_007, 1 << 40, (1 << 63) - 1, 1 << 63, u64::MAX - 1] {
        let start = first + Duration::from_nanos(above);
        assert_eq!(Reference::saturating_sub(&start, Nanos::new(u64::MAX)), first);
        assert_eq!(Reference::saturating_sub(&start, Nanos::new(above)), first);
        assert_eq!(
            Reference::saturating_sub(&start, Nanos::new(above - 1)),
            first + Duration::from_nanos(1)
        );
    }
    let at_the_edge = first + Duration::from_nanos(u64::MAX);
    assert_eq!(Reference::saturating_sub(&at_the_edge, Nanos::new(u64::MAX)), first);
}

#[test]
fn default_clocks_do_not_share_a_count() {
    let one = FakeRelativeClock::default();
    let other = FakeRelativeClock::default();
    one.advance(Duration::from_nanos(3));
    assert_eq!(one.now(), Nanos::new(3));
    assert_eq!(other.now(), Nanos::new(0));
}

#[test]
fn lead_too_long_for_a_span_is_held_at_the_longest() {
    let earlier = Instant::now();
    let later = earlier + Duration::from_nanos(u64::MAX) + Duration::from_nanos(1);
    assert_eq!(Reference::duration_since(&later, earlier), Nanos::new(u64::MAX));
    let fits = earlier + Duration::from_nanos(u64::MAX);
    assert_eq!(Reference::duration_since(&fits, earlier), Nanos::new(u64::MAX));
    let short = earlier + Duration::from_nanos(u64::MAX - 1);
    assert_eq!(Reference::duration_since(&short, earlier), Nanos::new(u64::MAX - 1));
}
