//! Laws relating the operations of the library.
use vstd::prelude::*;

use crate::context::{DuderoContext, Tally};
use crate::lemmas::{
    lemma_add_many_push, lemma_bin_sum_feed, lemma_bin_sum_zero, lemma_feed_concat, lemma_feed_empty,
};
use crate::model::{bin_sum, check_outcome, evaluation, MAX_LEN, MIN_LEN, NUM_BINS};

verus! {

/// Checking a buffer is deterministic: equal buffers get equal outcomes, and a
/// buffer of valid length always gets a verdict.
pub proof fn lemma_check_deterministic(a: Seq<u8>, b: Seq<u8>)
    requires
        a == b,
    ensures
        check_outcome(a) == check_outcome(b),
        MIN_LEN <= a.len() <= MAX_LEN ==> check_outcome(a) is Ok,
{
}

/// Finishing only reads the context: finishing twice an unmodified context
/// gives the same outcome, and so does finishing any context in the same state.
pub proof fn lemma_finish_repeatable(c: DuderoContext, d: DuderoContext)
    requires
        c@ == d@,
    ensures
        evaluation(c@.bins, c@.samples) == evaluation(d@.bins, d@.samples),
{
}

/// Adding bytes one at a time is what `add_many` states of the whole sequence.
pub proof fn lemma_add_each_is_add_many(t: Tally, s: Seq<u8>)
    requires
        t.wf(),
    ensures
        t.add_each(s) == t.add_many(s),
    decreases s.len(),
{
    if s.len() == 0 {
        lemma_feed_empty(t.bins);
        assert(s.take(0) =~= Seq::<u8>::empty());
        assert(t.add_many(s).bins =~= t.bins);
    } else {
        let init = s.drop_last();
        lemma_add_each_is_add_many(t, init);
        lemma_add_many_push(t, init, s.last());
        assert(init.push(s.last()) =~= s);
    }
}

/// Counting `a` in bulk and then `b` in bulk is counting `a + b` in bulk.
pub proof fn lemma_add_many_split(t: Tally, a: Seq<u8>, b: Seq<u8>)
    requires
        t.wf(),
    ensures
        t.add_many(a).add_many(b) == t.add_many(a + b),
{
    let room = t.room();
    if a.len() >= room {
        let full = t.add_many(a);
        assert(full.room() == 0);
        assert(b.take(0) =~= Seq::<u8>::empty());
        lemma_feed_empty(full.bins);
        assert(full.add_many(b).bins =~= full.bins);
        assert((a + b).take(room) =~= a.take(room));
    } else {
        assert(a.take(a.len() as int) =~= a);
        let k = if b.len() <= room - a.len() {
            b.len() as int
        } else {
            room - a.len()
        };
        lemma_feed_concat(t.bins, a, b.take(k));
        assert((a + b).take(a.len() + k) =~= a + b.take(k));
    }
}

/// Feeding a sequence byte by byte through `add` and feeding it in two bulk
/// pieces, split anywhere, through `add_bytes` leave the same state, and so
/// the same verdict.
pub proof fn lemma_add_matches_add_bytes(t: Tally, s: Seq<u8>, split: int)
    requires
        t.wf(),
        0 <= split <= s.len(),
    ensures
        t.add_each(s) == t.add_many(s.take(split)).add_many(s.skip(split)),
        evaluation(t.add_each(s).bins, t.add_each(s).samples) == evaluation(
            t.add_many(s.take(split)).add_many(s.skip(split)).bins,
            t.add_many(s.take(split)).add_many(s.skip(split)).samples,
        ),
{
    lemma_add_each_is_add_many(t, s);
    lemma_add_many_split(t, s.take(split), s.skip(split));
    assert(s.take(split) + s.skip(split) =~= s);
}

/// After any sequence of `add` calls on a new context, the 16 bins sum to
/// exactly twice the number of bytes counted.
pub proof fn lemma_bin_sum_after_adds(s: Seq<u8>)
    ensures
        bin_sum(Tally::empty().add_each(s).bins, NUM_BINS as int) == 2 * Tally::empty().add_each(
            s,
        ).len(),
{
    let t = Tally::empty();
    assert(t.wf()) by {
        lemma_bin_sum_zero(NUM_BINS as int);
    }
    lemma_add_each_is_add_many(t, s);
    let k = if s.len() <= t.room() {
        s.len() as int
    } else {
        t.room()
    };
    lemma_bin_sum_feed(t.bins, s.take(k));
}

} // verus!
