//! Instants and the clocks that hand them out.
//!
//! A limiter never reads the time itself: it asks a [`Clock`] for an instant
//! and measures against it through [`Reference`]. [`MonotonicClock`] reads
//! the operating system's monotonic clock. [`FakeRelativeClock`] is a counter
//! that moves only when told to, so that what a limiter does can be repeated
//! exactly.

use crate::nanos::duration_nanos;
use crate::nanos::max_nanos;
use crate::nanos::saturated;
use crate::nanos::Nanos;
use crate::nanos::RangeError;
use std::fmt::Debug;
use std::ops::Add;
use std::sync::atomic::AtomicU64;
use std::sync::atomic::Ordering;
use std::sync::Arc;
use std::time::Duration;
use std::time::Instant;
use vstd::prelude::*;
use vstd::std_specs::ops::AddSpecImpl;

verus! {

/// A point in time that can be measured against another of its own kind.
pub trait Reference:
    Sized + Add<Nanos, Output = Self> + PartialEq + Eq + Ord + Copy + Clone + Send + Sync + Debug
{
    /// The nanoseconds that lead from `earlier` to `self`: zero where
    /// `earlier` is not before `self`, and never more than a [`Nanos`] holds.
    spec fn elapsed_since(self, earlier: Self) -> nat;

    /// Whether `shifted` is where a step back from `self` by `duration`
    /// nanoseconds ends: at the instant that lies `duration` before `self`,
    /// or, where the instants of this kind do not reach back so far, at the
    /// earliest of them.
    spec fn steps_back_to(self, duration: nat, shifted: Self) -> bool;

    /// Measures the time from `earlier` to `self`.
    fn duration_since(&self, earlier: Self) -> (elapsed: Nanos)
        ensures
            elapsed@ == self.elapsed_since(earlier),
    ;

    /// Steps back from `self` by `duration`, and no further than the
    /// earliest instant.
    fn saturating_sub(&self, duration: Nanos) -> (shifted: Self)
        ensures
            self.steps_back_to(duration@, shifted),
    ;
}

/// A source of instants. What `now` returns is the clock's business alone:
/// nothing is promised of it.
pub trait Clock: Clone {
    type Instant: Reference;

    /// The current instant on this clock.
    fn now(&self) -> Self::Instant;
}

impl Reference for Nanos {
    open spec fn elapsed_since(self, earlier: Nanos) -> nat {
        if self@ >= earlier@ {
            (self@ - earlier@) as nat
        } else {
            0
        }
    }

    open spec fn steps_back_to(self, duration: nat, shifted: Nanos) -> bool {
        shifted == if self@ >= duration {
            Nanos::spec_new((self@ - duration) as u64)
        } else {
            Nanos::spec_new(0)
        }
    }

    fn duration_since(&self, earlier: Nanos) -> (elapsed: Nanos) {
        (*self).saturating_sub(earlier)
    }

    fn saturating_sub(&self, duration: Nanos) -> (shifted: Nanos) {
        let shifted = (*self).saturating_sub(duration);
        proof {
            shifted.lemma_model(shifted.as_u64());
        }
        shifted
    }
}

#[verifier::external_type_specification]
#[verifier::external_body]
pub struct ExInstant(Instant);

/// What `Instant::checked_duration_since` finds between two instants: the
/// nanoseconds from `earlier` to `later`, or nothing where `earlier` lies
/// after `later`.
pub uninterp spec fn instant_lead(later: Instant, earlier: Instant) -> Option<nat>;

/// What `Instant::checked_sub` finds `duration` nanoseconds before `from`:
/// that instant, or nothing where the clock's instants do not reach so far.
pub uninterp spec fn instant_before(from: Instant, duration: nat) -> Option<Instant>;

/// What `Instant::checked_add` finds `duration` nanoseconds after `from`:
/// that instant, or nothing where the clock's instants do not reach so far.
pub uninterp spec fn instant_after(from: Instant, duration: nat) -> Option<Instant>;

/// `Instant::now` reads the operating system's monotonic clock. Nothing is
/// claimed of the instant it returns.
#[verifier::external_body]
fn read_monotonic() -> Instant {
    Instant::now()
}

/// `Instant::checked_duration_since` measures from `earlier` to `later` and
/// reads nothing but the two instants.
pub assume_specification[ Instant::checked_duration_since ](
    later: &Instant,
    earlier: Instant,
) -> (lead: Option<Duration>)
    ensures
        lead is Some <==> instant_lead(*later, earlier) is Some,
        lead matches Some(d) ==> instant_lead(*later, earlier) == Some(duration_nanos(d)),
;

/// `Instant::checked_sub` steps back by a duration and reads nothing but the
/// instant and the duration's length. It returns the instant `from` less the
/// duration where the clock's instants reach back so far, and nothing where
/// they do not. Two things follow for every length of step, and are claimed
/// here. Where a step is too long, every longer one is too. And a step back
/// from the instant returned is the one step from `from` that is as long as
/// both together.
pub assume_specification[ Instant::checked_sub ](from: &Instant, duration: Duration) -> (shifted:
    Option<Instant>)
    ensures
        shifted == instant_before(*from, duration_nanos(duration)),
        shifted is None ==> forall|longer: nat|
            longer >= duration_nanos(duration) ==> (#[trigger] instant_before(*from, longer))
                is None,
        shifted matches Some(earlier) ==> forall|further: nat| #[trigger]
            instant_before(earlier, further) == instant_before(
                *from,
                duration_nanos(duration) + further,
            ),
;

/// Whether `instant` is the earliest that its clock has: no step back from
/// it, however short, leads to an instant.
pub open spec fn is_earliest(instant: Instant) -> bool {
    forall|step: nat| step > 0 ==> (#[trigger] instant_before(instant, step)) is None
}

/// Whether `earlier` is `from` itself or an instant that a step back from
/// `from` leads to.
pub open spec fn lies_back_from(earlier: Instant, from: Instant) -> bool {
    earlier == from || exists|step: nat| #[trigger] instant_before(from, step) == Some(earlier)
}

/// The earliest instant of the clock that `from` belongs to, found from an
/// instant that is within a [`Nanos`] of it: strides of half the length of
/// the one before are taken back from `from` wherever one can be taken, down
/// to a stride of one nanosecond.
fn earliest_below(from: Instant) -> (floor: Instant)
    requires
        forall|step: nat| step > max_nanos() ==> (#[trigger] instant_before(from, step)) is None,
    ensures
        is_earliest(floor),
        lies_back_from(floor, from),
{
    let mut reach: Instant = from;
    let mut stride: u64 = 0x8000_0000_0000_0000;
    let mut settled: bool = false;
    let ghost mut total: nat = 0;
    while !settled
        invariant
            stride >= 1,
            forall|step: nat|
                step >= (if settled {
                    1
                } else {
                    2 * stride as nat
                }) ==> (#[trigger] instant_before(reach, step)) is None,
            forall|step: nat| #[trigger]
                instant_before(reach, step) == instant_before(from, total + step),
            reach == from || instant_before(from, total) == Some(reach),
        decreases
                stride + (if settled {
                    0nat
                } else {
                    1nat
                }),
    {
        match reach.checked_sub(Duration::from_nanos(stride)) {
            Some(earlier) => {
                proof {
                    assert forall|step: nat| step >= stride implies (#[trigger] instant_before(
                        earlier,
                        step,
                    )) is None by {
                        assert(instant_before(reach, stride as nat + step) is None);
                    }
                    assert forall|step: nat| #[trigger]
                        instant_before(earlier, step) == instant_before(
                            from,
                            total + stride as nat + step,
                        ) by {
                        assert(instant_before(reach, stride as nat + step) == instant_before(
                            from,
                            total + (stride as nat + step),
                        ));
                    }
                    assert(instant_before(reach, stride as nat) == instant_before(
                        from,
                        total + stride as nat,
                    ));
                    total = total + stride as nat;
                }
                reach = earlier;
            },
            None => {},
        }
        if stride == 1 {
            settled = true;
        } else {
            stride = stride - stride / 2;
        }
    }
    reach
}

/// `Instant::checked_add` steps forward by a duration and reads nothing but
/// the instant and the duration's length.
pub assume_specification[ Instant::checked_add ](from: &Instant, duration: Duration) -> (shifted:
    Option<Instant>)
    ensures
        shifted == instant_after(*from, duration_nanos(duration)),
;

impl Reference for Instant {
    open spec fn elapsed_since(self, earlier: Instant) -> nat {
        match instant_lead(self, earlier) {
            Some(lead) => saturated(lead),
            None => 0,
        }
    }

    open spec fn steps_back_to(self, duration: nat, shifted: Instant) -> bool {
        match instant_before(self, duration) {
            Some(exact) => shifted == exact,
            None => is_earliest(shifted) && lies_back_from(shifted, self),
        }
    }

    /// A lead too long for a [`Nanos`] is measured as the longest span there
    /// is.
    fn duration_since(&self, earlier: Instant) -> (elapsed: Nanos) {
        match self.checked_duration_since(earlier) {
            Some(lead) => match Nanos::try_from(lead) {
                Ok(elapsed) => elapsed,
                Err(_) => Nanos::new(u64::MAX),
            },
            None => Nanos::new(0),
        }
    }

    /// Where the clock's instants do not reach back by `duration`, the
    /// earliest of them is returned.
    fn saturating_sub(&self, duration: Nanos) -> (shifted: Instant) {
        match self.checked_sub(Duration::from(duration)) {
            Some(shifted) => shifted,
            None => {
                proof {
                    duration.lemma_model(0);
                }
                earliest_below(*self)
            },
        }
    }
}

impl Add<Nanos> for Instant {
    type Output = Instant;

    /// The instant `other` after `self`. A step beyond the last instant of
    /// the clock is not accepted.
    fn add(self, other: Nanos) -> (shifted: Instant)
        ensures
            Some(shifted) == instant_after(self, other@),
    {
        match self.checked_add(Duration::from(other)) {
            Some(shifted) => shifted,
            None => self,
        }
    }
}

impl AddSpecImpl<Nanos> for Instant {
    open spec fn obeys_add_spec() -> bool {
        true
    }

    open spec fn add_req(self, other: Nanos) -> bool {
        instant_after(self, other@) is Some
    }

    open spec fn add_spec(self, other: Nanos) -> Instant {
        instant_after(self, other@)->Some_0
    }
}

/// The operating system's monotonic clock.
#[derive(Clone, Debug, Default)]
pub struct MonotonicClock;

impl Clock for MonotonicClock {
    type Instant = Instant;

    fn now(&self) -> Instant {
        read_monotonic()
    }
}

/// A simulated clock: a count of nanoseconds that starts at zero and moves
/// only through [`FakeRelativeClock::advance`]. Clones share the one count,
/// and may be advanced from several threads at once.
#[derive(Debug, Clone)]
pub struct FakeRelativeClock {
    now: Arc<AtomicU64>,
}

impl Default for FakeRelativeClock {
    /// A clock of its own, with nothing counted yet.
    fn default() -> (clock: FakeRelativeClock) {
        FakeRelativeClock { now: Arc::new(AtomicU64::new(0)) }
    }
}

/// `AtomicU64::fetch_update` with [`count_after`] as its update: it reads
/// the count, computes `count_after` of the reading and `by`, and stores the
/// result unless the count was changed in between, in which case it begins
/// again with the new reading. The count is shared between threads, so
/// nothing is claimed of what it held or holds.
#[verifier::external_body]
fn update_count(count: &AtomicU64, by: u64) {
    let _ = count.fetch_update(
        Ordering::AcqRel,
        Ordering::Acquire,
        |reading| count_after(reading, by),
    );
}

/// The count that follows `reading` when the clock is advanced by `by`
/// nanoseconds: their sum, held at the largest count where the sum lies
/// beyond it, so that the count never runs backwards. There is always such
/// a count, so an update is never given up.
pub fn count_after(reading: u64, by: u64) -> (next: Option<u64>)
    ensures
        next == Some(saturated(reading as nat + by as nat) as u64),
{
    Some(reading.saturating_add(by))
}

impl FakeRelativeClock {
    /// Moves the clock forward by `by`. A `by` longer than any [`Nanos`] is
    /// not accepted; [`FakeRelativeClock::try_advance`] turns it away
    /// instead.
    pub fn advance(&self, by: Duration)
        requires
            duration_nanos(by) <= max_nanos(),
    {
        let total: u128 = by.as_nanos();
        update_count(&self.now, total as u64);
    }

    /// Moves the clock forward by `by`, unless `by` is longer than any
    /// [`Nanos`]: then the clock is left alone and the error returned.
    pub fn try_advance(&self, by: Duration) -> (advanced: Result<(), RangeError>)
        ensures
            advanced is Ok <==> duration_nanos(by) <= max_nanos(),
    {
        match Nanos::try_from(by) {
            Ok(_) => {
                self.advance(by);
                Ok(())
            },
            Err(e) => Err(e),
        }
    }
}

impl Clock for FakeRelativeClock {
    type Instant = Nanos;

    fn now(&self) -> Nanos {
        Nanos::new(self.now.load(Ordering::Acquire))
    }
}

} // verus!
