//! The one-shot checks: a whole buffer, or a whole stream of bytes.
use vstd::prelude::*;
use vstd::std_specs::iter::IteratorSpec;

use crate::context::{DuderoContext, Tally};
use crate::lemmas::{lemma_add_many_push, lemma_feed_concat, lemma_feed_empty};
use crate::model::{check_outcome, histogram, DuderoError, DuderoResult, MAX_LEN, MIN_LEN};

verus! {

/// Checks whether `buf` "looks random": too short below `MIN_LEN` bytes, too
/// long above `MAX_LEN` bytes (both found before any counting), otherwise the
/// verdict of the chi-square test on the nibbles of `buf`.
///
/// A perfect entropy source fails this test with probability of about 1 in
/// 83,000; rejecting the buffers that fail lowers the source's entropy by a
/// negligible amount.
pub fn check_buffer(buf: &[u8]) -> (r: Result<DuderoResult, DuderoError>)
    ensures
        r == check_outcome(buf@),
        buf@.len() < MIN_LEN ==> r == Err::<DuderoResult, DuderoError>(DuderoError::TooShort),
        buf@.len() > MAX_LEN ==> r == Err::<DuderoResult, DuderoError>(DuderoError::TooLong),
{
    if buf.len() < MIN_LEN {
        return Err(DuderoError::TooShort);
    }
    if buf.len() > MAX_LEN {
        return Err(DuderoError::TooLong);
    }
    let mut ctx = DuderoContext::new();
    let ghost start = ctx@;
    proof {
        lemma_feed_empty(start.bins);
        assert(buf@.take(0) =~= Seq::<u8>::empty());
    }
    let mut i: usize = 0;
    while i < buf.len()
        invariant
            start == Tally::empty(),
            start.wf(),
            buf@.len() <= MAX_LEN,
            0 <= i <= buf@.len(),
            ctx@.wf(),
            ctx@ == start.absorb(buf@.take(i as int)),
        decreases buf@.len() - i,
    {
        let _ = ctx.add(buf[i]);
        proof {
            lemma_feed_concat(start.bins, buf@.take(i as int), seq![buf@[i as int]]);
            assert(buf@.take(i as int) + seq![buf@[i as int]] =~= buf@.take(i + 1));
        }
        i = i + 1;
    }
    proof {
        assert(buf@.take(i as int) =~= buf@);
        assert(ctx@.bins =~= histogram(buf@));
    }
    ctx.into_result()
}

/// Checks the bytes that `iter` yields as `check_buffer` checks a buffer; the
/// length bounds are tested once the whole stream has been read.
pub fn check_iter<I: Iterator<Item = u8>>(iter: I) -> (r: Result<DuderoResult, DuderoError>)
    requires
        iter.obeys_prophetic_iter_laws(),
        iter.decrease() is Some,
    ensures
        r == check_outcome(iter.remaining()),
{
    let mut ctx = DuderoContext::new();
    let ghost start = ctx@;
    let ghost all = iter.remaining();
    let mut rest = iter;
    let ghost mut n: int = 0;
    // Number of bytes read, counted up to `MAX_LEN + 1`.
    let mut seen: usize = 0;
    proof {
        lemma_feed_empty(start.bins);
        assert(all.take(0) =~= Seq::<u8>::empty());
        assert(all.take(0).take(0) =~= Seq::<u8>::empty());
    }
    loop
        invariant
            start == Tally::empty(),
            start.wf(),
            all == iter.remaining(),
            rest.obeys_prophetic_iter_laws(),
            rest.decrease() is Some,
            0 <= n <= all.len(),
            rest.remaining() == all.skip(n),
            seen == (if n <= MAX_LEN + 1 { n } else { MAX_LEN + 1 }),
            ctx@.wf(),
            ctx@ == start.add_many(all.take(n)),
        ensures
            n == all.len(),
            seen == (if n <= MAX_LEN + 1 { n } else { MAX_LEN + 1 }),
            ctx@ == start.add_many(all),
        decreases rest.decrease()->0,
    {
        match rest.next() {
            None => {
                proof {
                    assert(all.take(n) =~= all);
                }
                break;
            },
            Some(byte) => {
                proof {
                    assert(all[n] == byte);
                    lemma_add_many_push(start, all.take(n), byte);
                    assert(all.take(n).push(byte) =~= all.take(n + 1));
                    assert(rest.remaining() =~= all.skip(n + 1));
                }
                let _ = ctx.add(byte);
                if seen <= MAX_LEN {
                    seen = seen + 1;
                }
                proof {
                    n = n + 1;
                }
            },
        }
    }
    if seen < MIN_LEN {
        return Err(DuderoError::TooShort);
    }
    if seen > MAX_LEN {
        return Err(DuderoError::TooLong);
    }
    proof {
        assert(all.take(all.len() as int) =~= all);
        assert(ctx@.bins =~= histogram(all));
    }
    ctx.into_result()
}

} // verus!
