//! The fixed window as a mathematical object.
//!
//! A [`Window`] is what a counter knows: when its window began, how much of
//! the quota is spent, how long a window lasts and how much it allows. One
//! request at one instant takes a window to the next ([`Window::after`]) and
//! is admitted or not ([`Window::admits`]). The counters of this crate are
//! specified by these two functions.

use crate::clock::Reference;
use crate::nanos::Nanos;
use vstd::prelude::*;

verus! {

/// The state of one quota: the instant at which the current window began,
/// the requests admitted in it so far, the length of a window in
/// nanoseconds, and the number of requests that one window admits.
pub struct Window<I> {
    pub start: I,
    pub consumed: nat,
    pub length: nat,
    pub capacity: nat,
}

impl<I: Reference> Window<I> {
    /// No window holds more admissions than it allows.
    pub open spec fn wf(self) -> bool {
        self.consumed <= self.capacity
    }

    /// Whether the window that began at `self.start` is over at `now`. A
    /// request that arrives exactly one window length after the start finds
    /// the window over.
    pub open spec fn expired_at(self, now: I) -> bool {
        now.elapsed_since(self.start) >= self.length
    }

    /// The window in which a request at `now` is counted: a fresh one that
    /// begins at `now` if the current one is over, else the current one.
    pub open spec fn rolled(self, now: I) -> Self {
        if self.expired_at(now) {
            Window { start: now, consumed: 0, length: self.length, capacity: self.capacity }
        } else {
            self
        }
    }

    /// Whether a request at `now` is admitted.
    pub open spec fn admits(self, now: I) -> bool {
        self.rolled(now).consumed < self.capacity
    }

    /// The state that a request at `now` leaves behind: the window rolled
    /// over if it was due, and one more admission counted if the request was
    /// admitted.
    pub open spec fn after(self, now: I) -> Self {
        let current = self.rolled(now);
        if current.consumed < current.capacity {
            Window {
                start: current.start,
                consumed: current.consumed + 1,
                length: current.length,
                capacity: current.capacity,
            }
        } else {
            current
        }
    }

    /// The state after one request at each instant of `times`, in order.
    pub open spec fn after_all(self, times: Seq<I>) -> Self
        decreases times.len(),
    {
        if times.len() == 0 {
            self
        } else {
            self.after_all(times.drop_last()).after(times.last())
        }
    }

    /// Whether the request at `times[i]` is admitted, when one request is
    /// made at each instant of `times`, in order.
    pub open spec fn admits_nth(self, times: Seq<I>, i: int) -> bool
        recommends
            0 <= i < times.len(),
    {
        self.after_all(times.take(i)).admits(times[i])
    }
}

impl<I: Reference> Window<I> {
    /// A request changes neither the length of the window nor what it
    /// allows, leaves the window's start where it was or moves it to the
    /// instant of the request, and keeps a well-formed window well formed.
    pub proof fn lemma_after_keeps_limits(self, now: I)
        ensures
            self.after(now).length == self.length,
            self.after(now).capacity == self.capacity,
            self.after(now).start == self.start || self.after(now).start == now,
            self.wf() ==> self.after(now).wf(),
            self.admits(now) <==> self.after(now).consumed == self.rolled(now).consumed + 1,
    {
    }

    /// However many requests are made, the length of the window and what
    /// it allows stay as they are, and a well-formed window stays well
    /// formed.
    pub proof fn lemma_after_all_keeps_limits(self, times: Seq<I>)
        ensures
            self.after_all(times).length == self.length,
            self.after_all(times).capacity == self.capacity,
            self.wf() ==> self.after_all(times).wf(),
        decreases times.len(),
    {
        if times.len() > 0 {
            self.lemma_after_all_keeps_limits(times.drop_last());
            self.after_all(times.drop_last()).lemma_after_keeps_limits(times.last());
        }
    }

    /// Requests that all arrive before the window is over, and that the
    /// window still has room for, are all counted in it: the window stays
    /// where it began and holds one admission more for each.
    pub proof fn lemma_requests_within_window(self, times: Seq<I>)
        requires
            self.consumed + times.len() <= self.capacity,
            forall|i: int| 0 <= i < times.len() ==> !self.expired_at(#[trigger] times[i]),
        ensures
            self.after_all(times) == (Window {
                start: self.start,
                consumed: self.consumed + times.len(),
                length: self.length,
                capacity: self.capacity,
            }),
        decreases times.len(),
    {
        if times.len() > 0 {
            let earlier = times.drop_last();
            self.lemma_requests_within_window(earlier);
        }
    }

    /// A burst within one window: of requests that all arrive before the
    /// window is over, as many are admitted as the window has room left for,
    /// and the one after them is turned away. For a window with nothing
    /// spent, that is every request up to the capacity and not one more.
    pub proof fn lemma_burst_admits_up_to_capacity(self, times: Seq<I>)
        requires
            self.wf(),
            times.len() == self.capacity - self.consumed + 1,
            forall|i: int| 0 <= i < times.len() ==> !self.expired_at(#[trigger] times[i]),
        ensures
            forall|i: int| 0 <= i < self.capacity - self.consumed ==> self.admits_nth(times, i),
            !self.admits_nth(times, self.capacity - self.consumed),
    {
        assert forall|i: int| 0 <= i <= self.capacity - self.consumed implies (self.admits_nth(
            times,
            i,
        ) <==> i < self.capacity - self.consumed) by {
            let seen = times.take(i);
            self.lemma_requests_within_window(seen);
        }
    }

    /// A window that allows nothing admits nothing: not at any instant, and
    /// not after any number of requests.
    pub proof fn lemma_zero_capacity_never_admits(self, times: Seq<I>, i: int)
        requires
            self.capacity == 0,
            0 <= i < times.len(),
        ensures
            !self.admits_nth(times, i),
            !self.admits(times[i]),
    {
        self.lemma_after_all_keeps_limits(times.take(i));
    }

    /// The first request that arrives once the window is over is admitted,
    /// however much of the old window was spent, provided that a window
    /// allows anything at all. It begins a new window at its own instant
    /// and is the only admission in it.
    pub proof fn lemma_expired_window_admits(self, now: I)
        requires
            self.expired_at(now),
            self.capacity >= 1,
        ensures
            self.admits(now),
            self.after(now) == (Window {
                start: now,
                consumed: 1,
                length: self.length,
                capacity: self.capacity,
            }),
    {
    }

    /// A new window has the full quota again: when the first of a run of
    /// requests finds the window over, and the others arrive before the
    /// window that it begins is over, then as many requests as a window
    /// allows are admitted, and the one after them is turned away.
    pub proof fn lemma_reset_restores_quota(self, times: Seq<I>)
        requires
            self.capacity >= 1,
            times.len() == self.capacity + 1,
            self.expired_at(times[0]),
            forall|i: int|
                1 <= i < times.len() ==> (#[trigger] times[i]).elapsed_since(times[0])
                    < self.length,
        ensures
            forall|i: int| 0 <= i < self.capacity ==> self.admits_nth(times, i),
            !self.admits_nth(times, self.capacity as int),
    {
        let first = times[0];
        let fresh = self.after(first);
        let rest = times.skip(1);
        self.lemma_expired_window_admits(first);
        fresh.lemma_burst_admits_up_to_capacity(rest);
        assert forall|i: int| 1 <= i <= self.capacity implies (self.admits_nth(times, i) <==> i
            < self.capacity) by {
            self.lemma_after_all_shifts(first, rest.take(i - 1));
            assert(seq![first] + rest.take(i - 1) =~= times.take(i));
            assert(fresh.admits_nth(rest, i - 1) == self.admits_nth(times, i));
        }
    }

    /// Making a request at `first` and then one at each instant of `rest`
    /// is making one at each instant of `first` followed by `rest`.
    pub proof fn lemma_after_all_shifts(self, first: I, rest: Seq<I>)
        ensures
            self.after_all(seq![first] + rest) == self.after(first).after_all(rest),
        decreases rest.len(),
    {
        let all = seq![first] + rest;
        if rest.len() == 0 {
            assert(self.after_all(all.drop_last()) == self);
        } else {
            assert(all.drop_last() =~= seq![first] + rest.drop_last());
            self.lemma_after_all_shifts(first, rest.drop_last());
        }
    }

    /// A request that arrives before the window is over leaves the window
    /// where it began. If the quota is spent, the request is turned away and
    /// changes nothing at all.
    pub proof fn lemma_early_request_keeps_window(self, now: I)
        requires
            !self.expired_at(now),
        ensures
            self.after(now).start == self.start,
            self.after(now).consumed >= self.consumed,
            self.consumed >= self.capacity ==> !self.admits(now) && self.after(now) == self,
    {
    }
}

/// What a keyed limiter knows: the window of the quota that has no key, and
/// the window of each key that has been registered.
pub struct Registry<I> {
    pub base: Window<I>,
    pub keyed: Map<Seq<char>, Window<I>>,
}

impl<I: Reference> Registry<I> {
    /// Every window in the registry is well formed.
    pub open spec fn wf(self) -> bool {
        &&& self.base.wf()
        &&& forall|key: Seq<char>| #[trigger] self.keyed.contains_key(key) ==> self.keyed[key].wf()
    }

    /// The registry with `window` registered under `key`, in place of
    /// whatever `key` named before.
    pub open spec fn with_key(self, key: Seq<char>, window: Window<I>) -> Self {
        Registry { base: self.base, keyed: self.keyed.insert(key, window) }
    }

    /// Whether a request at `now` that names no key is admitted.
    pub open spec fn admits_base(self, now: I) -> bool {
        self.base.admits(now)
    }

    /// The registry after a request at `now` that names no key.
    pub open spec fn after_base(self, now: I) -> Self {
        Registry { base: self.base.after(now), keyed: self.keyed }
    }

    /// Whether a request for `key` at `now` is admitted: never for a key that
    /// is not registered, else as that key's window decides.
    pub open spec fn admits_key(self, key: Seq<char>, now: I) -> bool {
        self.keyed.contains_key(key) && self.keyed[key].admits(now)
    }

    /// The registry after a request for `key` at `now`: unchanged for a key
    /// that is not registered, else with that key's window moved on and
    /// every other window as it was.
    pub open spec fn after_key(self, key: Seq<char>, now: I) -> Self {
        if self.keyed.contains_key(key) {
            Registry { base: self.base, keyed: self.keyed.insert(key, self.keyed[key].after(now)) }
        } else {
            self
        }
    }
}

impl<I: Reference> Registry<I> {
    /// The registry after one request for `key` at each instant of `times`,
    /// in order.
    pub open spec fn after_key_all(self, key: Seq<char>, times: Seq<I>) -> Self
        decreases times.len(),
    {
        if times.len() == 0 {
            self
        } else {
            self.after_key_all(key, times.drop_last()).after_key(key, times.last())
        }
    }

    /// Keys are independent: whatever is requested for one key, and however
    /// often, every other key keeps its window, and so its answer to any
    /// request. The window of the requests without a key stays as it is,
    /// and no key comes or goes.
    pub proof fn lemma_keys_independent(
        self,
        key: Seq<char>,
        times: Seq<I>,
        other: Seq<char>,
        at: I,
    )
        requires
            other != key,
        ensures
            self.after_key_all(key, times).keyed.contains_key(other) == self.keyed.contains_key(
                other,
            ),
            self.after_key_all(key, times).keyed[other] == self.keyed[other],
            self.after_key_all(key, times).admits_key(other, at) == self.admits_key(other, at),
            self.after_key_all(key, times).base == self.base,
            self.after_key_all(key, times).keyed.contains_key(key) == self.keyed.contains_key(key),
        decreases times.len(),
    {
        if times.len() > 0 {
            self.lemma_keys_independent(key, times.drop_last(), other, at);
        }
    }

    /// A request for a key that is not registered is turned away and leaves
    /// every window as it was, however often it is made.
    pub proof fn lemma_unknown_key_changes_nothing(self, key: Seq<char>, times: Seq<I>, at: I)
        requires
            !self.keyed.contains_key(key),
        ensures
            !self.admits_key(key, at),
            self.after_key(key, at) == self,
            self.after_key_all(key, times) == self,
        decreases times.len(),
    {
        if times.len() > 0 {
            self.lemma_unknown_key_changes_nothing(key, times.drop_last(), at);
        }
    }

    /// Requests keep a well-formed registry well formed.
    pub proof fn lemma_requests_keep_wf(self, key: Seq<char>, now: I)
        requires
            self.wf(),
        ensures
            self.after_base(now).wf(),
            self.after_key(key, now).wf(),
    {
        self.base.lemma_after_keeps_limits(now);
        if self.keyed.contains_key(key) {
            self.keyed[key].lemma_after_keeps_limits(now);
        }
    }
}

impl Window<Nanos> {
    /// On a clock that counts nanoseconds, the window is over exactly when
    /// the clock has moved on from the window's start by the window's
    /// length or more.
    pub proof fn lemma_simulated_expiry(self, now: Nanos)
        ensures
            self.expired_at(now) <==> (now@ >= self.start@ + self.length || self.length == 0),
    {
    }

    /// On a clock that counts nanoseconds and does not run backwards, the
    /// start of the window never moves back. The same holds on any such
    /// clock if a window has a length.
    pub proof fn lemma_start_never_moves_back(self, now: Nanos)
        requires
            now@ >= self.start@ || self.length > 0,
        ensures
            self.after(now).start@ >= self.start@,
    {
    }
}

} // verus!
