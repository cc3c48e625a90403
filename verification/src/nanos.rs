//! Nanosecond-resolution durations.

use std::ops::Add;
use std::ops::Div;
use std::ops::Mul;
use std::time::Duration;
use vstd::prelude::*;
use vstd::std_specs::convert::FromSpecImpl;
use vstd::std_specs::convert::TryFromSpecImpl;
use vstd::std_specs::ops::AddSpecImpl;
use vstd::std_specs::ops::DivSpecImpl;
use vstd::std_specs::ops::MulSpecImpl;

verus! {

/// The total number of nanoseconds that a `Duration` holds: what
/// `Duration::as_nanos` returns for it.
pub uninterp spec fn duration_nanos(d: Duration) -> nat;

/// The `Duration` that `Duration::from_nanos` builds from `n`.
pub uninterp spec fn duration_from_nanos(n: u64) -> Duration;

/// `Duration::as_nanos` reports the total length of the duration in
/// nanoseconds; it reads nothing but its argument.
pub assume_specification[ Duration::as_nanos ](d: &Duration) -> (n: u128)
    ensures
        n == duration_nanos(*d),
;

/// `Duration::from_nanos` builds the duration that lasts exactly `nanos`
/// nanoseconds, so reading its length back gives `nanos` again.
pub assume_specification[ Duration::from_nanos ](nanos: u64) -> (d: Duration)
    ensures
        d == duration_from_nanos(nanos),
        duration_nanos(d) == nanos,
;

/// The largest number of nanoseconds that a [`Nanos`] can hold, a little
/// over 584 years.
pub open spec fn max_nanos() -> nat {
    u64::MAX as nat
}

/// `n`, or the largest representable span if `n` lies beyond it.
pub open spec fn saturated(n: nat) -> nat {
    if n <= max_nanos() {
        n
    } else {
        max_nanos()
    }
}

/// A duration is too long to be counted in 64 bits of nanoseconds.
#[derive(Clone, Copy, Debug, PartialEq, Eq, Structural)]
pub struct RangeError;

/// A span of time, counted in whole nanoseconds.
#[derive(Clone, Copy, Debug, PartialEq, Eq, Structural, Ord, Hash)]
pub struct Nanos(u64);

impl Default for Nanos {
    /// The empty span.
    fn default() -> (n: Nanos)
        ensures
            n@ == 0,
    {
        Nanos(0)
    }
}

impl View for Nanos {
    type V = nat;

    closed spec fn view(&self) -> nat {
        self.0 as nat
    }
}

impl Nanos {
    /// The span of `n` nanoseconds, for `n` within range.
    pub closed spec fn spec_new(n: u64) -> Nanos {
        Nanos(n)
    }

    /// The number of nanoseconds in `self`.
    pub closed spec fn spec_as_u64(self) -> u64 {
        self.0
    }

    /// A span is known by its length: `spec_new` and `spec_as_u64` undo each
    /// other, no span is longer than [`max_nanos`], and two spans of one
    /// length are the same span.
    pub proof fn lemma_model(self, n: u64)
        ensures
            self@ == self.spec_as_u64(),
            self@ <= max_nanos(),
            Nanos::spec_new(self.spec_as_u64()) == self,
            Nanos::spec_new(n)@ == n,
            Nanos::spec_new(n).spec_as_u64() == n,
            Nanos::spec_new(n) == self <==> n == self@,
    {
    }

    /// Returns the number of nanoseconds in `self`.
    #[verifier::when_used_as_spec(spec_as_u64)]
    pub fn as_u64(self) -> (n: u64)
        ensures
            n == self@,
            n == self.spec_as_u64(),
    {
        self.0
    }

    /// A span of `u` nanoseconds.
    #[verifier::when_used_as_spec(spec_new)]
    pub fn new(u: u64) -> (n: Nanos)
        ensures
            n@ == u,
            n == Nanos::spec_new(u),
    {
        Nanos(u)
    }

    /// The span by which `self` exceeds `rhs`, or the empty span if it does
    /// not.
    pub fn saturating_sub(self, rhs: Nanos) -> (d: Nanos)
        ensures
            d@ == if self@ >= rhs@ {
                self@ - rhs@
            } else {
                0
            },
    {
        if self.0 >= rhs.0 {
            Nanos(self.0 - rhs.0)
        } else {
            Nanos(0)
        }
    }
}

impl Add<Nanos> for Nanos {
    type Output = Nanos;

    /// The two spans laid end to end, held at the longest representable span
    /// where the sum lies beyond it.
    fn add(self, rhs: Nanos) -> (sum: Nanos)
        ensures
            sum@ == saturated(self@ + rhs@),
    {
        Nanos(self.0.saturating_add(rhs.0))
    }
}

impl AddSpecImpl<Nanos> for Nanos {
    open spec fn obeys_add_spec() -> bool {
        true
    }

    open spec fn add_req(self, rhs: Nanos) -> bool {
        true
    }

    closed spec fn add_spec(self, rhs: Nanos) -> Nanos {
        Nanos(saturated(self@ + rhs@) as u64)
    }
}

impl Mul<u64> for Nanos {
    type Output = Nanos;

    /// The span repeated `rhs` times, held at the longest representable span
    /// where the product lies beyond it.
    fn mul(self, rhs: u64) -> (product: Nanos)
        ensures
            product@ == saturated(self@ * rhs as nat),
    {
        match self.0.checked_mul(rhs) {
            Some(product) => Nanos(product),
            None => Nanos(u64::MAX),
        }
    }
}

impl MulSpecImpl<u64> for Nanos {
    open spec fn obeys_mul_spec() -> bool {
        true
    }

    open spec fn mul_req(self, rhs: u64) -> bool {
        true
    }

    closed spec fn mul_spec(self, rhs: u64) -> Nanos {
        Nanos(saturated(self@ * rhs as nat) as u64)
    }
}

impl Div<Nanos> for Nanos {
    type Output = u64;

    /// How many whole times `rhs` fits into `self`. An empty `rhs` has no
    /// ratio to anything and is not accepted.
    fn div(self, rhs: Nanos) -> (ratio: u64)
        ensures
            ratio == self@ / rhs@,
    {
        self.0 / rhs.0
    }
}

impl DivSpecImpl<Nanos> for Nanos {
    open spec fn obeys_div_spec() -> bool {
        true
    }

    open spec fn div_req(self, rhs: Nanos) -> bool {
        rhs@ != 0
    }

    closed spec fn div_spec(self, rhs: Nanos) -> u64 {
        self.0 / rhs.0
    }
}

impl From<u64> for Nanos {
    fn from(u: u64) -> (n: Nanos)
        ensures
            n@ == u,
    {
        Nanos(u)
    }
}

impl FromSpecImpl<u64> for Nanos {
    open spec fn obeys_from_spec() -> bool {
        true
    }

    open spec fn from_spec(u: u64) -> Nanos {
        Nanos::spec_new(u)
    }
}

impl From<Nanos> for u64 {
    fn from(n: Nanos) -> (u: u64)
        ensures
            u == n@,
    {
        n.0
    }
}

impl FromSpecImpl<Nanos> for u64 {
    open spec fn obeys_from_spec() -> bool {
        true
    }

    open spec fn from_spec(n: Nanos) -> u64 {
        n.spec_as_u64()
    }
}

impl From<Nanos> for Duration {
    fn from(n: Nanos) -> (d: Duration)
        ensures
            duration_nanos(d) == n@,
    {
        Duration::from_nanos(n.0)
    }
}

impl FromSpecImpl<Nanos> for Duration {
    open spec fn obeys_from_spec() -> bool {
        true
    }

    open spec fn from_spec(n: Nanos) -> Duration {
        duration_from_nanos(n.spec_as_u64())
    }
}

impl TryFrom<Duration> for Nanos {
    type Error = RangeError;

    /// The span as long as `duration`, unless `duration` is longer than any
    /// span can be.
    fn try_from(duration: Duration) -> (converted: Result<Nanos, RangeError>)
        ensures
            converted is Ok <==> duration_nanos(duration) <= max_nanos(),
            converted matches Ok(n) ==> n@ == duration_nanos(duration),
    {
        let total: u128 = duration.as_nanos();
        if total <= u64::MAX as u128 {
            Ok(Nanos(total as u64))
        } else {
            Err(RangeError)
        }
    }
}

impl TryFromSpecImpl<Duration> for Nanos {
    open spec fn obeys_try_from_spec() -> bool {
        true
    }

    closed spec fn try_from_spec(duration: Duration) -> Result<Nanos, RangeError> {
        if duration_nanos(duration) <= max_nanos() {
            Ok(Nanos(duration_nanos(duration) as u64))
        } else {
            Err(RangeError)
        }
    }
}

impl Add<Duration> for Nanos {
    type Output = Nanos;

    /// `self` lengthened by `other`, held at the longest representable span
    /// where the sum lies beyond it. An `other` that no span can hold is not
    /// accepted.
    fn add(self, other: Duration) -> (sum: Nanos)
        ensures
            sum@ == saturated(self@ + duration_nanos(other)),
    {
        let total: u128 = other.as_nanos();
        Nanos(self.0.saturating_add(total as u64))
    }
}

impl AddSpecImpl<Duration> for Nanos {
    open spec fn obeys_add_spec() -> bool {
        true
    }

    open spec fn add_req(self, other: Duration) -> bool {
        duration_nanos(other) <= max_nanos()
    }

    closed spec fn add_spec(self, other: Duration) -> Nanos {
        Nanos(saturated(self@ + duration_nanos(other)) as u64)
    }
}

} // verus!
