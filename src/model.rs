//! Mathematical model of the nibble histogram and of the chi-square decision.
use vstd::prelude::*;

verus! {

/// Number of histogram bins: one for each nibble value `0x0..=0xF`.
pub const NUM_BINS: usize = 16;

/// Minimum number of bytes that can be judged.
pub const MIN_LEN: usize = 16;

/// Maximum number of bytes that can be judged.
pub const MAX_LEN: usize = 32768;

/// Decision threshold on the normalized chi-square statistic (15 degrees of freedom).
/// A truly uniform source exceeds it with probability of about 1 in 83,000.
pub const THRESHOLD: u64 = 50;

/// Outcome of the randomness check.
#[derive(Debug, Clone, Copy, PartialEq, Eq, Structural)]
pub enum DuderoResult {
    /// Data appears random.
    LooksRandom,
    /// Data appears non-random (biased, fixed values, and the like).
    BadRandomness,
}

/// Reasons for which no verdict can be given.
#[derive(Debug, Clone, Copy, PartialEq, Eq, Structural)]
pub enum DuderoError {
    /// Fewer than `MIN_LEN` bytes: not enough statistical power.
    TooShort,
    /// More than `MAX_LEN` bytes: the bin counters could overflow.
    TooLong,
}

impl DuderoError {
    /// A human-readable description of the error.
    pub fn message(&self) -> (r: &'static str)
        ensures
            *self == DuderoError::TooShort ==> r@ == "Buffer too short (minimum 16 bytes)"@,
            *self == DuderoError::TooLong ==> r@ == "Buffer too long (maximum 32768 bytes)"@,
    {
        match self {
            DuderoError::TooShort => "Buffer too short (minimum 16 bytes)",
            DuderoError::TooLong => "Buffer too long (maximum 32768 bytes)",
        }
    }
}

/// The high nibble of a byte.
pub open spec fn high_nibble(b: u8) -> int {
    b as int / 16
}

/// The low nibble of a byte.
pub open spec fn low_nibble(b: u8) -> int {
    b as int % 16
}

/// How many of the two nibbles of `b` equal `v` (0, 1 or 2).
pub open spec fn nibble_hits(b: u8, v: int) -> int {
    (if high_nibble(b) == v { 1int } else { 0int }) + (if low_nibble(b) == v { 1int } else { 0int })
}

/// How many nibbles of `bytes`, high and low, equal `v`.
pub open spec fn nibble_count(bytes: Seq<u8>, v: int) -> int
    decreases bytes.len(),
{
    if bytes.len() == 0 {
        0
    } else {
        nibble_count(bytes.drop_last(), v) + nibble_hits(bytes.last(), v)
    }
}

/// The 16 bins `bins` after the nibbles of `bytes` have been counted into them.
pub open spec fn feed(bins: Seq<int>, bytes: Seq<u8>) -> Seq<int> {
    Seq::new(NUM_BINS as nat, |v: int| bins[v] + nibble_count(bytes, v))
}

/// The histogram of the nibbles of `bytes`, counted from empty bins.
pub open spec fn histogram(bytes: Seq<u8>) -> Seq<int> {
    feed(Seq::new(NUM_BINS as nat, |v: int| 0), bytes)
}

/// Sum of the first `n` bins.
pub open spec fn bin_sum(bins: Seq<int>, n: int) -> int
    decreases n,
{
    if n <= 0 {
        0
    } else {
        bin_sum(bins, n - 1) + bins[n - 1]
    }
}

/// Sum over the first `n` bins of the squared deviation from `expected`:
/// the numerator of the chi-square statistic.
pub open spec fn chi_square_sum(bins: Seq<int>, expected: int, n: int) -> int
    decreases n,
{
    if n <= 0 {
        0
    } else {
        chi_square_sum(bins, expected, n - 1) + (bins[n - 1] - expected) * (bins[n - 1] - expected)
    }
}

/// The verdict on bins holding `samples` nibbles in all, `samples >= 16`.
/// The statistic `chi_square_sum / expected` exceeds `THRESHOLD` exactly when
/// `chi_square_sum > THRESHOLD * expected`, since `expected > 0`.
pub open spec fn verdict(bins: Seq<int>, samples: int) -> DuderoResult {
    let expected = samples / NUM_BINS as int;
    if chi_square_sum(bins, expected, NUM_BINS as int) > THRESHOLD * expected {
        DuderoResult::BadRandomness
    } else {
        DuderoResult::LooksRandom
    }
}

/// What evaluating bins that hold `samples` nibbles yields: too short below
/// `MIN_LEN` bytes (`2 * MIN_LEN` nibbles), a verdict otherwise.
pub open spec fn evaluation(bins: Seq<int>, samples: int) -> Result<DuderoResult, DuderoError> {
    if samples < 2 * MIN_LEN {
        Err(DuderoError::TooShort)
    } else {
        Ok(verdict(bins, samples))
    }
}

/// What checking the whole buffer `bytes` yields.
pub open spec fn check_outcome(bytes: Seq<u8>) -> Result<DuderoResult, DuderoError> {
    if bytes.len() < MIN_LEN {
        Err(DuderoError::TooShort)
    } else if bytes.len() > MAX_LEN {
        Err(DuderoError::TooLong)
    } else {
        evaluation(histogram(bytes), 2 * bytes.len() as int)
    }
}

} // verus!
