//! Quotas by key.

use crate::clock::Clock;
use crate::state::State;
use crate::window::Registry;
use crate::window::Window;
use vstd::hash_map::StringHashMap;
use vstd::prelude::*;

verus! {

/// A set of independent counters: one for each registered key, and one for
/// requests that name no key. A key has to be registered before requests
/// for it are admitted.
pub struct RateLimiter<C: Clock> {
    /// Where in `states` the counter of each registered key stands.
    slots: StringHashMap<usize>,
    /// The counters of the registered keys, each under exactly one key.
    states: Vec<State<C>>,
    base_state: State<C>,
}

impl<C: Clock> View for RateLimiter<C> {
    type V = Registry<C::Instant>;

    closed spec fn view(&self) -> Registry<C::Instant> {
        Registry {
            base: self.base_state@,
            keyed: Map::new(
                |key: Seq<char>| self.slots@.contains_key(key),
                |key: Seq<char>| self.states@[self.slots@[key] as int]@,
            ),
        }
    }
}

impl<C: Clock> RateLimiter<C> {
    /// Every registered key has a counter, no two keys share one, and no
    /// counter has admitted more than its window allows. Each limiter that
    /// this module builds is made so and stays so.
    pub closed spec fn wf(&self) -> bool {
        &&& forall|key: Seq<char>| #[trigger]
            self.slots@.contains_key(key) ==> self.slots@[key] < self.states@.len()
        &&& forall|one: Seq<char>, other: Seq<char>|
            self.slots@.contains_key(one) && self.slots@.contains_key(other) && one != other
                ==> #[trigger] self.slots@[one] != #[trigger] self.slots@[other]
        &&& self.base_state@.wf()
        &&& forall|slot: int|
            0 <= slot < self.states@.len() ==> (#[trigger] self.states@[slot])@.wf()
    }

    /// The clock of the counter for requests that name no key.
    pub closed spec fn base_clock(&self) -> C {
        self.base_state.clock()
    }

    /// The clock of the counter that is registered under `key`.
    pub closed spec fn key_clock(&self, key: Seq<char>) -> C
        recommends
            self@.keyed.contains_key(key),
    {
        self.states@[self.slots@[key] as int].clock()
    }

    /// Whether `self` reads the clocks that `before` read: the same for the
    /// requests that name no key, and the same for every key of `before`
    /// but `except`.
    pub open spec fn keeps_clocks(&self, before: &Self, except: Option<Seq<char>>) -> bool {
        &&& self.base_clock() == before.base_clock()
        &&& forall|key: Seq<char>|
            before@.keyed.contains_key(key) && except != Some(key) ==> self.key_clock(key)
                == #[trigger] before.key_clock(key)
    }

    /// In a well-formed limiter no window, keyed or not, holds more
    /// admissions than it allows.
    pub proof fn lemma_windows_within_capacity(&self)
        requires
            self.wf(),
        ensures
            self@.wf(),
    {
    }

    /// A limiter with `base_state` for the requests that name no key, and no
    /// key registered.
    pub fn new(base_state: State<C>) -> (limiter: Self)
        ensures
            limiter.wf(),
            limiter@.base == base_state@,
            limiter@.keyed == Map::<Seq<char>, Window<C::Instant>>::empty(),
            limiter.base_clock() == base_state.clock(),
    {
        proof {
            use_type_invariant(&base_state);
        }
        RateLimiter { slots: StringHashMap::new(), states: Vec::new(), base_state }
    }

    /// Registers `state` as the counter of `key`. A counter that `key` had
    /// before is dropped; no other counter is touched.
    pub fn insert_key(&mut self, key: &str, state: State<C>)
        requires
            old(self).wf(),
        ensures
            final(self).wf(),
            final(self)@ == old(self)@.with_key(key@, state@),
            final(self).key_clock(key@) == state.clock(),
            final(self).keeps_clocks(old(self), Some(key@)),
    {
        proof {
            use_type_invariant(&state);
        }
        let found = match self.slots.get(key) {
            Some(slot) => Some(*slot),
            None => None,
        };
        match found {
            Some(slot) => {
                self.states[slot] = state;
            },
            None => {
                let slot = self.states.len();
                self.states.push(state);
                self.slots.insert(key.to_owned(), slot);
            },
        }
        assert(final(self)@.keyed =~= old(self)@.keyed.insert(key@, state@));
    }

    /// Counts one request that names no key and arrives at `now`, and says
    /// whether it is admitted.
    pub fn acquire_at(&mut self, now: C::Instant) -> (admitted: bool)
        requires
            old(self).wf(),
        ensures
            final(self).wf(),
            final(self).keeps_clocks(old(self), None),
            admitted == old(self)@.admits_base(now),
            final(self)@ == old(self)@.after_base(now),
    {
        self.base_state.acquire_at(now)
    }

    /// Counts one request that names no key and arrives now, by the clock of
    /// the counter for such requests, and says whether it is admitted.
    pub fn acquire(&mut self) -> (admitted: bool)
        requires
            old(self).wf(),
        ensures
            final(self).wf(),
            final(self).keeps_clocks(old(self), None),
            exists|now: C::Instant|
                admitted == old(self)@.admits_base(now) && final(self)@ == #[trigger] old(
                    self,
                )@.after_base(now),
            final(self)@.keyed == old(self)@.keyed,
            old(self)@.base.capacity == 0 ==> !admitted,
    {
        let admitted = self.base_state.acquire();
        proof {
            let now = choose|now: C::Instant|
                admitted == old(self)@.base.admits(now) && final(self)@.base == #[trigger] old(
                    self,
                )@.base.after(now);
            assert(final(self)@ == old(self)@.after_base(now));
        }
        admitted
    }

    /// Counts one request for `key` that arrives at `now`, and says whether
    /// it is admitted. A key that is not registered is turned away, and
    /// nothing changes.
    pub fn acquire_by_key_at(&mut self, key: &str, now: C::Instant) -> (admitted: bool)
        requires
            old(self).wf(),
        ensures
            final(self).wf(),
            final(self).keeps_clocks(old(self), None),
            admitted == old(self)@.admits_key(key@, now),
            final(self)@ == old(self)@.after_key(key@, now),
            !old(self)@.keyed.contains_key(key@) ==> !admitted && final(self)@ == old(self)@,
            forall|other: Seq<char>|
                other != key@ ==> final(self)@.keyed.contains_key(other) == old(
                    self,
                )@.keyed.contains_key(other) && #[trigger] final(self)@.keyed[other] == old(
                    self,
                )@.keyed[other],
            final(self)@.base == old(self)@.base,
    {
        let found = match self.slots.get(key) {
            Some(slot) => Some(*slot),
            None => None,
        };
        match found {
            Some(slot) => {
                let admitted = self.states[slot].acquire_at(now);
                assert(final(self)@.keyed =~= old(self)@.keyed.insert(
                    key@,
                    old(self)@.keyed[key@].after(now),
                ));
                admitted
            },
            None => false,
        }
    }

    /// Counts one request for `key` that arrives now, by the clock of that
    /// key's counter, and says whether it is admitted. A key that is not
    /// registered is turned away, and nothing changes.
    pub fn acquire_by_key(&mut self, key: &str) -> (admitted: bool)
        requires
            old(self).wf(),
        ensures
            final(self).wf(),
            final(self).keeps_clocks(old(self), None),
            !old(self)@.keyed.contains_key(key@) ==> !admitted && final(self)@ == old(self)@,
            old(self)@.keyed.contains_key(key@) ==> exists|now: C::Instant|
                admitted == old(self)@.admits_key(key@, now) && final(self)@ == #[trigger] old(
                    self,
                )@.after_key(key@, now),
            forall|other: Seq<char>|
                other != key@ ==> final(self)@.keyed.contains_key(other) == old(
                    self,
                )@.keyed.contains_key(other) && #[trigger] final(self)@.keyed[other] == old(
                    self,
                )@.keyed[other],
            final(self)@.base == old(self)@.base,
    {
        let found = match self.slots.get(key) {
            Some(slot) => Some(*slot),
            None => None,
        };
        match found {
            Some(slot) => {
                let admitted = self.states[slot].acquire();
                proof {
                    let before = old(self)@.keyed[key@];
                    let now = choose|now: C::Instant|
                        admitted == before.admits(now) && final(self)@.keyed[key@]
                            == #[trigger] before.after(now);
                    assert(final(self)@.keyed =~= old(self)@.keyed.insert(key@, before.after(now)));
                    assert(final(self)@ == old(self)@.after_key(key@, now));
                }
                admitted
            },
            None => false,
        }
    }
}

} // verus!
