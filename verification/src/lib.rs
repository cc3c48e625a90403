//! A fixed-window rate limiter driven by an abstract clock.
//!
//! A [`State`] admits a fixed number of requests in each window of a fixed
//! length; a [`RateLimiter`] keeps one such counter for each registered key.
//! Time comes from a [`Clock`]: the operating system's monotonic clock, or a
//! simulated one that moves only when told to. What the counters do is
//! specified over the model in [`window`].

pub mod clock;
pub mod limiter;
pub mod nanos;
mod order;
pub mod state;
pub mod window;

pub use crate::clock::Clock;
pub use crate::clock::FakeRelativeClock;
pub use crate::clock::MonotonicClock;
pub use crate::clock::Reference;
pub use crate::limiter::RateLimiter;
pub use crate::nanos::Nanos;
pub use crate::nanos::RangeError;
pub use crate::state::State;
