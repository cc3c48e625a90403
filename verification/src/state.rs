//! The counter of one quota.

use crate::clock::Clock;
use crate::clock::MonotonicClock;
use crate::clock::Reference;
use crate::nanos::Nanos;
use crate::window::Window;
use vstd::prelude::*;

verus! {

/// A fixed-window counter bound to a clock: it admits up to a fixed number
/// of requests in each window of a fixed length, and begins a new window
/// with the first request that arrives once the current one is over.
#[derive(Debug)]
pub struct State<C: Clock> {
    last_update: C::Instant,
    acquired: u64,
    duration_nano: Nanos,
    allowed: u64,
    clock: C,
}

impl<C: Clock> View for State<C> {
    type V = Window<C::Instant>;

    closed spec fn view(&self) -> Window<C::Instant> {
        Window {
            start: self.last_update,
            consumed: self.acquired as nat,
            length: self.duration_nano@,
            capacity: self.allowed as nat,
        }
    }
}

impl<C: Clock> State<C> {
    /// A counter never holds more admissions than its window allows.
    #[verifier::type_invariant]
    pub open spec fn within_capacity(&self) -> bool {
        self@.wf()
    }

    /// The clock that this counter reads.
    pub closed spec fn clock(&self) -> C {
        self.clock
    }

    /// A counter that admits `allowed` requests in every window of length
    /// `duration`, read off `clock`. Its first window begins at the instant
    /// that `clock` reports now, and nothing is spent.
    pub fn new(duration: Nanos, allowed: u64, clock: C) -> (state: Self)
        ensures
            state@.consumed == 0,
            state@.length == duration@,
            state@.capacity == allowed,
            state@.wf(),
            state.clock() == clock,
    {
        let now = clock.now();
        State::starting_at(duration, allowed, clock, now)
    }

    /// A counter that admits `allowed` requests in every window of length
    /// `duration`, read off `clock`. Its first window begins at `now`, and
    /// nothing is spent.
    pub fn starting_at(duration: Nanos, allowed: u64, clock: C, now: C::Instant) -> (state: Self)
        ensures
            state@ == (Window {
                start: now,
                consumed: 0,
                length: duration@,
                capacity: allowed as nat,
            }),
            state@.wf(),
            state.clock() == clock,
    {
        State { last_update: now, acquired: 0, duration_nano: duration, allowed, clock }
    }

    /// Counts one request that arrives at `now`, and says whether it is
    /// admitted.
    pub fn acquire_at(&mut self, now: C::Instant) -> (admitted: bool)
        ensures
            admitted == old(self)@.admits(now),
            final(self)@ == old(self)@.after(now),
            final(self).clock() == old(self).clock(),
            final(self)@.wf(),
            old(self)@.capacity == 0 ==> !admitted,
    {
        proof {
            use_type_invariant(&*self);
        }
        let elapsed = now.duration_since(self.last_update);
        if elapsed >= self.duration_nano {
            self.last_update = now;
            self.acquired = 0;
        }
        if self.acquired < self.allowed {
            self.acquired += 1;
            true
        } else {
            false
        }
    }

    /// Counts one request that arrives now, by this counter's clock, and
    /// says whether it is admitted.
    pub fn acquire(&mut self) -> (admitted: bool)
        ensures
            exists|now: C::Instant|
                admitted == old(self)@.admits(now) && final(self)@ == #[trigger] old(self)@.after(
                    now,
                ),
            final(self).clock() == old(self).clock(),
            final(self)@.wf(),
            final(self)@.length == old(self)@.length,
            final(self)@.capacity == old(self)@.capacity,
            old(self)@.capacity == 0 ==> !admitted,
    {
        let now = self.clock.now();
        self.acquire_at(now)
    }
}

impl State<MonotonicClock> {
    /// A counter on the monotonic clock that admits `max_burst` requests in
    /// every second.
    pub fn per_second(max_burst: u64) -> (state: Self)
        ensures
            state@.consumed == 0,
            state@.length == 1_000_000_000,
            state@.capacity == max_burst,
            state@.wf(),
    {
        State::new(Nanos::new(1_000_000_000), max_burst, MonotonicClock)
    }
}

} // verus!
