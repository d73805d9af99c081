//! The streaming accumulator: a histogram of nibble values fed byte by byte.
use vstd::prelude::*;
use vstd::std_specs::iter::IteratorSpec;

use crate::lemmas::{
    lemma_add_many_push, lemma_bin_sum_feed, lemma_bin_sum_zero, lemma_feed_concat, lemma_feed_empty,
    lemma_feed_one,
};
use crate::model::{
    bin_sum, chi_square_sum, evaluation, feed, DuderoError, DuderoResult, MAX_LEN, MIN_LEN, NUM_BINS,
    THRESHOLD,
};

verus! {

/// The abstract state of an accumulator: its 16 bins and the number of
/// nibbles counted into them.
pub ghost struct Tally {
    pub bins: Seq<int>,
    pub samples: int,
}

impl Tally {
    /// The state of a fresh accumulator.
    pub open spec fn empty() -> Tally {
        Tally { bins: Seq::new(NUM_BINS as nat, |v: int| 0), samples: 0 }
    }

    /// The states that an accumulator can be in: 16 non-negative bins whose sum
    /// is the (even) number of nibbles, at most two for each of `MAX_LEN` bytes.
    pub open spec fn wf(self) -> bool {
        &&& self.bins.len() == NUM_BINS
        &&& 0 <= self.samples <= 2 * MAX_LEN
        &&& self.samples % 2 == 0
        &&& forall|v: int| 0 <= v < NUM_BINS ==> 0 <= #[trigger] self.bins[v] <= self.samples
        &&& bin_sum(self.bins, NUM_BINS as int) == self.samples
    }

    /// Number of bytes counted so far.
    pub open spec fn len(self) -> int {
        self.samples / 2
    }

    /// Number of bytes that can still be counted.
    pub open spec fn room(self) -> int {
        MAX_LEN - self.len()
    }

    /// The state after the nibbles of `bytes` have been counted.
    pub open spec fn absorb(self, bytes: Seq<u8>) -> Tally {
        Tally { bins: feed(self.bins, bytes), samples: self.samples + 2 * bytes.len() }
    }

    /// The state after the bytes of `bytes` have been counted in order until
    /// `MAX_LEN` bytes are counted; those beyond are left out.
    pub open spec fn add_many(self, bytes: Seq<u8>) -> Tally {
        let taken = if bytes.len() <= self.room() {
            bytes.len() as int
        } else {
            self.room()
        };
        self.absorb(bytes.take(taken))
    }

    /// The state after `bytes` have been added one by one, each addition
    /// refused (and the state kept) once `MAX_LEN` bytes are counted.
    pub open spec fn add_each(self, bytes: Seq<u8>) -> Tally
        decreases bytes.len(),
    {
        if bytes.len() == 0 {
            self
        } else {
            let before = self.add_each(bytes.drop_last());
            if before.samples >= 2 * MAX_LEN {
                before
            } else {
                before.absorb(seq![bytes.last()])
            }
        }
    }
}

/// Accumulator for the streaming form of the check.
///
/// The bins are 32-bit: `MAX_LEN` copies of one byte value put `2 * MAX_LEN`
/// nibbles, one more than `u16::MAX`, into a single bin.
#[derive(Debug, PartialEq, Eq)]
pub struct DuderoContext {
    /// Bin `v` counts the nibbles equal to `v`.
    hist: [u32; 16],
    /// Total number of nibbles counted, two per byte.
    hist_samples: usize,
}

impl View for DuderoContext {
    type V = Tally;

    closed spec fn view(&self) -> Tally {
        Tally { bins: self.hist@.map_values(|c: u32| c as int), samples: self.hist_samples as int }
    }
}

impl Clone for DuderoContext {
    fn clone(&self) -> (r: DuderoContext)
        ensures
            r@ == self@,
    {
        proof {
            use_type_invariant(self);
        }
        DuderoContext { hist: self.hist, hist_samples: self.hist_samples }
    }
}

impl Default for DuderoContext {
    fn default() -> (r: DuderoContext)
        ensures
            r@ == Tally::empty(),
    {
        DuderoContext::new()
    }
}

impl DuderoContext {
    #[verifier::type_invariant]
    closed spec fn inv(self) -> bool {
        self@.wf()
    }

    /// A context with 16 empty bins and no samples.
    pub fn new() -> (r: DuderoContext)
        ensures
            r@ == Tally::empty(),
            r@.wf(),
    {
        let hist = [0u32; 16];
        proof {
            assert(hist@.map_values(|c: u32| c as int) =~= Tally::empty().bins);
            lemma_bin_sum_zero(NUM_BINS as int);
        }
        let r = DuderoContext { hist, hist_samples: 0 };
        r
    }

    /// Counts the high and the low nibble of `sample`. Refused, with the state
    /// kept, once `MAX_LEN` bytes are counted.
    pub fn add(&mut self, sample: u8) -> (r: Result<(), DuderoError>)
        ensures
            final(self)@.wf(),
            bin_sum(final(self)@.bins, NUM_BINS as int) == 2 * final(self)@.len(),
            old(self)@.samples >= 2 * MAX_LEN ==> r == Err::<(), DuderoError>(DuderoError::TooLong)
                && final(self)@ == old(self)@,
            old(self)@.samples < 2 * MAX_LEN ==> r is Ok && final(self)@ == old(self)@.absorb(
                seq![sample],
            ),
    {
        proof {
            use_type_invariant(&*self);
        }
        if self.hist_samples >= MAX_LEN * 2 {
            return Err(DuderoError::TooLong);
        }
        let high = (sample >> 4) as usize;
        let low = (sample & 0x0F) as usize;
        proof {
            assert(sample >> 4 == sample / 16) by (bit_vector);
            assert(sample & 0x0F == sample % 16) by (bit_vector);
            assert(self@.bins[high as int] == self.hist@[high as int] as int);
            assert(self@.bins[low as int] == self.hist@[low as int] as int);
        }
        let mut hist = self.hist;
        hist[high] = hist[high] + 1;
        hist[low] = hist[low] + 1;
        let ghost before = self@;
        proof {
            lemma_feed_one(before.bins, sample);
            lemma_bin_sum_feed(before.bins, seq![sample]);
            assert(hist@.map_values(|c: u32| c as int) =~= before.absorb(seq![sample]).bins);
        }
        *self = DuderoContext { hist, hist_samples: self.hist_samples + 2 };
        Ok(())
    }

    /// Counts the nibbles of each byte that `bytes` yields, in order, and
    /// stops at the first byte that `add` refuses: the bytes before it stay
    /// counted, and the error is returned.
    pub fn add_bytes<I: Iterator<Item = u8>>(&mut self, bytes: I) -> (r: Result<(), DuderoError>)
        requires
            bytes.obeys_prophetic_iter_laws(),
            bytes.decrease() is Some,
        ensures
            final(self)@.wf(),
            final(self)@ == old(self)@.add_many(bytes.remaining()),
            r is Ok <==> bytes.remaining().len() <= old(self)@.room(),
            r is Err ==> r == Err::<(), DuderoError>(DuderoError::TooLong),
    {
        proof {
            use_type_invariant(&*self);
        }
        let ghost start = self@;
        let ghost all = bytes.remaining();
        let mut rest = bytes;
        let mut n: usize = 0;
        proof {
            lemma_feed_empty(start.bins);
            assert(all.take(0) =~= Seq::<u8>::empty());
        }
        loop
            invariant
                start.wf(),
                start == old(self)@,
                all == bytes.remaining(),
                rest.obeys_prophetic_iter_laws(),
                rest.decrease() is Some,
                0 <= n <= all.len(),
                rest.remaining() == all.skip(n as int),
                self@.wf(),
                n <= start.room(),
                self@ == start.absorb(all.take(n as int)),
            ensures
                self@ == start.absorb(all),
            decreases rest.decrease()->0,
        {
            let next = rest.next();
            match next {
                None => {
                    proof {
                        assert(all.take(n as int) =~= all);
                    }
                    break;
                },
                Some(byte) => {
                    proof {
                        assert(all[n as int] == byte);
                    }
                    let added = self.add(byte);
                    if added.is_err() {
                        proof {
                            assert(n == start.room());
                            assert(all.len() > start.room());
                        }
                        return added;
                    }
                    proof {
                        lemma_feed_concat(start.bins, all.take(n as int), seq![byte]);
                        assert(all.take(n as int) + seq![byte] =~= all.take(n + 1));
                        assert(rest.remaining() =~= all.skip(n + 1));
                    }
                    n = n + 1;
                },
            }
        }
        Ok(())
    }

    /// Counts each byte that `bytes` yields, in order, as `add` would: the
    /// whole stream is read, and the bytes that `add` refuses are left out.
    pub fn extend<I: Iterator<Item = u8>>(&mut self, bytes: I)
        requires
            bytes.obeys_prophetic_iter_laws(),
            bytes.decrease() is Some,
        ensures
            final(self)@.wf(),
            final(self)@ == old(self)@.add_many(bytes.remaining()),
    {
        proof {
            use_type_invariant(&*self);
        }
        let ghost start = self@;
        let ghost all = bytes.remaining();
        let mut rest = bytes;
        let ghost mut n: int = 0;
        proof {
            lemma_feed_empty(start.bins);
            assert(all.take(0) =~= Seq::<u8>::empty());
            assert(all.take(0).take(0) =~= Seq::<u8>::empty());
        }
        loop
            invariant
                start.wf(),
                start == old(self)@,
                all == bytes.remaining(),
                rest.obeys_prophetic_iter_laws(),
                rest.decrease() is Some,
                0 <= n <= all.len(),
                rest.remaining() == all.skip(n),
                self@.wf(),
                self@ == start.add_many(all.take(n)),
            ensures
                self@ == start.add_many(all),
            decreases rest.decrease()->0,
        {
            match rest.next() {
                None => {
                    proof {
                        assert(all.take(n) =~= all);
                    }
                    break;
                },
                Some(byte) => {
                    proof {
                        assert(all[n] == byte);
                        lemma_add_many_push(start, all.take(n), byte);
                        assert(all.take(n).push(byte) =~= all.take(n + 1));
                        assert(rest.remaining() =~= all.skip(n + 1));
                    }
                    let _ = self.add(byte);
                    proof {
                        n = n + 1;
                    }
                },
            }
        }
    }

    /// A context that has counted the bytes that `bytes` yields, as `extend`
    /// does on a new context.
    pub fn from_iter<I: Iterator<Item = u8>>(bytes: I) -> (r: DuderoContext)
        requires
            bytes.obeys_prophetic_iter_laws(),
            bytes.decrease() is Some,
        ensures
            r@.wf(),
            r@ == Tally::empty().add_many(bytes.remaining()),
    {
        let mut r = DuderoContext::new();
        r.extend(bytes);
        r
    }

    /// Number of bytes counted so far.
    pub fn len(&self) -> (r: usize)
        ensures
            r == self@.len(),
    {
        self.hist_samples / 2
    }

    /// Whether no byte has been counted yet.
    pub fn is_empty(&self) -> (r: bool)
        ensures
            r == (self@.samples == 0),
    {
        self.hist_samples == 0
    }

    /// The verdict on the bytes counted so far: too short below `MIN_LEN`
    /// bytes, otherwise whether the normalized chi-square statistic of the
    /// bins exceeds `THRESHOLD`. The state is only read.
    pub fn finish(&self) -> (r: Result<DuderoResult, DuderoError>)
        ensures
            r == evaluation(self@.bins, self@.samples),
            self@.samples < 2 * MIN_LEN ==> r == Err::<DuderoResult, DuderoError>(
                DuderoError::TooShort,
            ),
    {
        proof {
            use_type_invariant(self);
        }
        if self.hist_samples < 2 * MIN_LEN {
            return Err(DuderoError::TooShort);
        }
        let expected = self.hist_samples / NUM_BINS;
        let mut chi_squared: u64 = 0;
        let mut i: usize = 0;
        while i < NUM_BINS
            invariant
                self@.wf(),
                0 <= i <= NUM_BINS,
                expected == self@.samples / NUM_BINS as int,
                chi_squared == chi_square_sum(self@.bins, expected as int, i as int),
                chi_squared <= i * 0x1_0000_0000,
            decreases NUM_BINS - i,
        {
            let count = self.hist[i] as usize;
            assert(count == self@.bins[i as int]);
            let delta: u64 = if count > expected {
                (count - expected) as u64
            } else {
                (expected - count) as u64
            };
            proof {
                assert(delta <= 0x1_0000) by {
                    assert(count <= 2 * MAX_LEN);
                }
                assert(delta * delta <= 0x1_0000_0000) by (nonlinear_arith)
                    requires
                        delta <= 0x1_0000,
                ;
                let d = self@.bins[i as int] - expected;
                assert(d * d == delta * delta) by (nonlinear_arith)
                    requires
                        d == delta || d == -delta,
                ;
            }
            chi_squared = chi_squared + delta * delta;
            i = i + 1;
        }
        if chi_squared > THRESHOLD * expected as u64 {
            Ok(DuderoResult::BadRandomness)
        } else {
            Ok(DuderoResult::LooksRandom)
        }
    }

    /// Consumes the context and returns the verdict of `finish`.
    pub fn into_result(self) -> (r: Result<DuderoResult, DuderoError>)
        ensures
            r == evaluation(self@.bins, self@.samples),
    {
        self.finish()
    }
}

} // verus!
