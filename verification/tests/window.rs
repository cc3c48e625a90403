use ratelimit::FakeRelativeClock;
use ratelimit::Nanos;
use ratelimit::RateLimiter;
use ratelimit::State;
use std::time::Duration;

fn counter(length: u64, allowed: u64, start: u64) -> State<FakeRelativeClock> {
    State::starting_at(Nanos::new(length), allowed, FakeRelativeClock::default(), Nanos::new(start))
}

#[test]
fn burst_admits_exactly_the_capacity() {
    for capacity in 1..=20u64 {
        let mut state = counter(1_000, capacity, 0);
        for i in 0..capacity {
            assert!(state.acquire_at(Nanos::new(i % 1_000)));
        }
        assert!(!state.acquire_at(Nanos::new(999)));
    }
}

#[test]
fn zero_capacity_always_rejects() {
    let mut state = counter(100, 0, 0);
    for now in [0u64, 1, 99, 100, 101, 1_000, u64::MAX] {
        assert!(!state.acquire_at(Nanos::new(now)));
    }
}

#[test]
fn request_at_the_boundary_starts_a_new_window() {
    let mut state = counter(100, 1, 50);
    assert!(state.acquire_at(Nanos::new(50)));
    assert!(!state.acquire_at(Nanos::new(149)));
    assert!(state.acquire_at(Nanos::new(150)));
    assert!(!state.acquire_at(Nanos::new(249)));
    assert!(state.acquire_at(Nanos::new(250)));
}

#[test]
fn request_before_the_boundary_stays_rejected() {
    let mut state = counter(100, 2, 0);
    assert!(state.acquire_at(Nanos::new(0)));
    assert!(state.acquire_at(Nanos::new(0)));
    for now in 0..100u64 {
        assert!(!state.acquire_at(Nanos::new(now)));
    }
    assert!(state.acquire_at(Nanos::new(100)));
}

#[test]
fn window_starts_at_the_request_that_found_it_over() {
    let mut state = counter(100, 1, 0);
    assert!(state.acquire_at(Nanos::new(0)));
    assert!(state.acquire_at(Nanos::new(170)));
    assert!(!state.acquire_at(Nanos::new(200)));
    assert!(!state.acquire_at(Nanos::new(269)));
    assert!(state.acquire_at(Nanos::new(270)));
}

#[test]
fn boundary_burst_admits_twice_the_capacity() {
    let mut state = counter(100, 3, 0);
    let mut admitted = 0;
    for now in [97u64, 98, 99, 99, 100, 100, 101, 102] {
        if state.acquire_at(Nanos::new(now)) {
            admitted += 1;
        }
    }
    assert_eq!(admitted, 6);
}

#[test]
fn instant_before_the_start_counts_as_no_time_passed() {
    let mut state = counter(100, 1, 500);
    assert!(state.acquire_at(Nanos::new(10)));
    assert!(!state.acquire_at(Nanos::new(0)));
    assert!(!state.acquire_at(Nanos::new(599)));
    assert!(state.acquire_at(Nanos::new(600)));
}

#[test]
fn window_without_length_is_always_new() {
    let mut state = counter(0, 1, 0);
    for _ in 0..5 {
        assert!(state.acquire_at(Nanos::new(0)));
    }
}

#[test]
fn scenario_two_per_hundred_milliseconds() {
    let clock = FakeRelativeClock::default();
    let mut state = State::new(Nanos::new(100_000_000), 2, clock.clone());
    assert!(state.acquire());
    assert!(state.acquire());
    assert!(!state.acquire());
    clock.advance(Duration::from_millis(101));
    assert!(state.acquire());
}

#[test]
fn scenario_three_per_second() {
    let clock = FakeRelativeClock::default();
    let mut state = State::new(Nanos::new(1_000_000_000), 3, clock.clone());
    assert!(state.acquire());
    assert!(state.acquire());
    assert!(state.acquire());
    assert!(!state.acquire());
    clock.advance(Duration::from_millis(500));
    assert!(!state.acquire());
    clock.advance(Duration::from_millis(500));
    assert!(state.acquire());
    assert!(state.acquire());
    assert!(state.acquire());
    assert!(!state.acquire());
}

#[test]
fn counter_made_late_starts_its_window_late() {
    let clock = FakeRelativeClock::default();
    clock.advance(Duration::from_nanos(40));
    let mut state = State::new(Nanos::new(100), 1, clock.clone());
    assert!(state.acquire());
    clock.advance(Duration::from_nanos(99));
    assert!(!state.acquire());
    clock.advance(Duration::from_nanos(1));
    assert!(state.acquire());
}

fn limiter() -> RateLimiter<FakeRelativeClock> {
    RateLimiter::new(counter(1_000, 1, 0))
}

#[test]
fn keys_do_not_share_quota() {
    let mut limiter = limiter();
    limiter.insert_key("small", counter(1_000, 1, 0));
    limiter.insert_key("large", counter(1_000, 3, 0));
    assert!(limiter.acquire_by_key_at("small", Nanos::new(1)));
    for now in 2..50u64 {
        assert!(!limiter.acquire_by_key_at("small", Nanos::new(now)));
    }
    assert!(limiter.acquire_by_key_at("large", Nanos::new(50)));
    assert!(limiter.acquire_by_key_at("large", Nanos::new(51)));
    assert!(limiter.acquire_by_key_at("large", Nanos::new(52)));
    assert!(!limiter.acquire_by_key_at("large", Nanos::new(53)));
    assert!(limiter.acquire_at(Nanos::new(54)));
    assert!(!limiter.acquire_at(Nanos::new(55)));
}

#[test]
fn unknown_key_is_rejected_and_changes_nothing() {
    let mut limiter = limiter();
    limiter.insert_key("known", counter(1_000, 2, 0));
    for now in [0u64, 999, 1_000, 5_000] {
        assert!(!limiter.acquire_by_key_at("unknown", Nanos::new(now)));
        assert!(!limiter.acquire_by_key("unknown"));
        assert!(!limiter.acquire_by_key_at("", Nanos::new(now)));
    }
    assert!(limiter.acquire_by_key_at("known", Nanos::new(1)));
    assert!(limiter.acquire_by_key_at("known", Nanos::new(1)));
    assert!(!limiter.acquire_by_key_at("known", Nanos::new(1)));
    assert!(limiter.acquire_at(Nanos::new(1)));
}

#[test]
fn later_insert_replaces_the_counter() {
    let mut limiter = limiter();
    limiter.insert_key("key", counter(1_000, 1, 0));
    limiter.insert_key("other", counter(1_000, 1, 0));
    assert!(limiter.acquire_by_key_at("key", Nanos::new(0)));
    assert!(!limiter.acquire_by_key_at("key", Nanos::new(0)));
    limiter.insert_key("key", counter(1_000, 2, 0));
    assert!(limiter.acquire_by_key_at("key", Nanos::new(0)));
    assert!(limiter.acquire_by_key_at("key", Nanos::new(0)));
    assert!(!limiter.acquire_by_key_at("key", Nanos::new(0)));
    assert!(limiter.acquire_by_key_at("other", Nanos::new(0)));
    assert!(!limiter.acquire_by_key_at("other", Nanos::new(0)));
}

#[test]
fn many_keys_keep_their_own_counters() {
    let mut limiter = limiter();
    for i in 0..100u64 {
        limiter.insert_key(&format!("key-{i}"), counter(1_000, i % 4, 0));
    }
    for i in 0..100u64 {
        let key = format!("key-{i}");
        for _ in 0..(i % 4) {
            assert!(limiter.acquire_by_key_at(&key, Nanos::new(5)));
        }
        assert!(!limiter.acquire_by_key_at(&key, Nanos::new(5)));
    }
}

#[test]
fn keyed_counters_follow_their_clock() {
    let clock = FakeRelativeClock::default();
    let mut limiter = RateLimiter::new(State::new(Nanos::new(10), 1, clock.clone()));
    limiter.insert_key("key", State::new(Nanos::new(20), 1, clock.clone()));
    assert!(limiter.acquire());
    assert!(limiter.acquire_by_key("key"));
    clock.advance(Duration::from_nanos(10));
    assert!(limiter.acquire());
    assert!(!limiter.acquire_by_key("key"));
    clock.advance(Duration::from_nanos(10));
    assert!(limiter.acquire());
    assert!(limiter.acquire_by_key("key"));
}
