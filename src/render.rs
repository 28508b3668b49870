//! Settings and frame counting of the rendering benchmark.

use vstd::prelude::*;

verus! {

#[verifier::external_type_specification]
#[verifier::external_body]
pub struct ExInstant(std::time::Instant);

/// Relies on `Instant::now`: the current instant of the monotonic clock.
pub assume_specification[ std::time::Instant::now ]() -> std::time::Instant;

/// Relies on `Instant::elapsed`: the time gone by since the instant.
pub assume_specification[ std::time::Instant::elapsed ](
    i: &std::time::Instant,
) -> std::time::Duration;

/// Settings of the rendering benchmark.
pub struct Config {
    /// Iterations of the kernel's inner loop.
    pub kernel_iterations: u32,
}

impl Default for Config {
    fn default() -> (r: Config)
        ensures
            r.kernel_iterations == 5,
    {
        Config { kernel_iterations: 5 }
    }
}

/// Counts frames since the instant it was started.
pub struct Fps {
    instant: std::time::Instant,
    counter: usize,
}

impl Fps {
    /// Frames counted so far.
    pub closed spec fn frames(&self) -> nat {
        self.counter as nat
    }

    /// Starts counting now, from zero frames.
    pub fn new() -> (r: Fps)
        ensures
            r.frames() == 0,
    {
        Fps { instant: std::time::Instant::now(), counter: 0 }
    }

    /// Counts one more frame; returns the time since the start and the
    /// frames counted, this one included.
    pub fn hint(&mut self) -> (r: (std::time::Duration, usize))
        requires
            old(self).frames() < usize::MAX,
        ensures
            final(self).frames() == old(self).frames() + 1,
            r.1 == final(self).frames(),
    {
        self.counter = self.counter + 1;
        (self.instant.elapsed(), self.counter)
    }
}

} // verus!
