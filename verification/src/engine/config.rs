//! Configuration.
use vstd::prelude::*;

verus! {

/// How the engine listens.
pub struct Config {
    /// How many samples are analysed at once. Powers of two are quickest, and
    /// sixteen thousand give (almost) decimal accuracy.
    pub buffer_size: usize,
    /// The least time between two analyses, in nanoseconds. Zero disables it.
    pub min_period: u128,
}

/// The sizes of the analysis buffer to choose from.
#[derive(Clone, Copy, Debug, PartialEq, Eq, Structural)]
pub enum BufferSize {
    XS,
    S,
    M,
    L,
    XL,
}

impl BufferSize {
    /// The size in samples.
    pub open spec fn spec_samples(self) -> usize {
        match self {
            BufferSize::XS => 1024,
            BufferSize::S => 2048,
            BufferSize::M => 4096,
            BufferSize::L => 8192,
            BufferSize::XL => 16384,
        }
    }

    /// The size in samples.
    pub fn samples(self) -> (r: usize)
        ensures
            r == self.spec_samples(),
    {
        match self {
            BufferSize::XS => 1024,
            BufferSize::S => 2048,
            BufferSize::M => 4096,
            BufferSize::L => 8192,
            BufferSize::XL => 16384,
        }
    }
}

/// A time of so many milliseconds, in nanoseconds.
pub open spec fn nanos_of(milliseconds: nat) -> nat {
    milliseconds * 1_000_000
}

/// A millisecond is a million nanoseconds, and times add up.
pub proof fn lemma_times_add_up(a: nat, b: nat)
    ensures
        nanos_of(0) == 0,
        nanos_of(1) == 1_000_000,
        nanos_of(a + b) == nanos_of(a) + nanos_of(b),
{
}

/// The smallest buffer holds 1024 samples, and each of the others twice as many
/// as the one before it.
pub proof fn lemma_sizes_double()
    ensures
        BufferSize::XS.spec_samples() == 1024,
        BufferSize::S.spec_samples() == 2 * BufferSize::XS.spec_samples(),
        BufferSize::M.spec_samples() == 2 * BufferSize::S.spec_samples(),
        BufferSize::L.spec_samples() == 2 * BufferSize::M.spec_samples(),
        BufferSize::XL.spec_samples() == 2 * BufferSize::L.spec_samples(),
{
}

impl Config {
    /// A configuration from a buffer size and a period in milliseconds.
    pub fn new(buffer_size: BufferSize, min_period_ms: u64) -> (r: Config)
        ensures
            r.buffer_size == buffer_size.spec_samples(),
            r.min_period == nanos_of(min_period_ms as nat),
    {
        Config {
            buffer_size: buffer_size.samples(),
            min_period: min_period_ms as u128 * 1_000_000u128,
        }
    }
}

} // verus!
