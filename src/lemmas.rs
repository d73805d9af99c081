//! Lemmas on nibble counts and bin sums.
use vstd::prelude::*;

use crate::context::Tally;
use crate::model::{MAX_LEN, bin_sum, feed, high_nibble, low_nibble, nibble_count, nibble_hits, NUM_BINS};

verus! {

/// Empty bins sum to zero.
pub proof fn lemma_bin_sum_zero(n: int)
    requires
        0 <= n <= NUM_BINS,
    ensures
        bin_sum(Seq::new(NUM_BINS as nat, |v: int| 0), n) == 0,
    decreases n,
{
    if n > 0 {
        lemma_bin_sum_zero(n - 1);
    }
}

/// Feeding no bytes leaves the bins as they are.
pub proof fn lemma_feed_empty(bins: Seq<int>)
    requires
        bins.len() == NUM_BINS,
    ensures
        feed(bins, Seq::<u8>::empty()) == bins,
{
    assert(feed(bins, Seq::<u8>::empty()) =~= bins);
}

/// Counting one byte adds its nibble hits to each bin.
pub proof fn lemma_feed_one(bins: Seq<int>, b: u8)
    ensures
        feed(bins, seq![b]) == Seq::new(NUM_BINS as nat, |v: int| bins[v] + nibble_hits(b, v)),
{
    assert(seq![b].drop_last() =~= Seq::<u8>::empty());
    assert forall|v: int| #[trigger] nibble_count(seq![b], v) == nibble_hits(b, v) by {
        assert(nibble_count(Seq::<u8>::empty(), v) == 0);
    }
    assert(feed(bins, seq![b]) =~= Seq::new(NUM_BINS as nat, |v: int| bins[v] + nibble_hits(b, v)));
}

/// Nibble counts add up over a concatenation.
pub proof fn lemma_count_concat(a: Seq<u8>, b: Seq<u8>, v: int)
    ensures
        nibble_count(a + b, v) == nibble_count(a, v) + nibble_count(b, v),
    decreases b.len(),
{
    if b.len() == 0 {
        assert(a + b =~= a);
    } else {
        assert((a + b).drop_last() =~= a + b.drop_last());
        assert((a + b).last() == b.last());
        lemma_count_concat(a, b.drop_last(), v);
    }
}

/// Feeding two pieces in turn is feeding their concatenation.
pub proof fn lemma_feed_concat(bins: Seq<int>, a: Seq<u8>, b: Seq<u8>)
    ensures
        feed(feed(bins, a), b) == feed(bins, a + b),
{
    assert forall|v: int| 0 <= v < NUM_BINS implies #[trigger] feed(feed(bins, a), b)[v] == feed(
        bins,
        a + b,
    )[v] by {
        lemma_count_concat(a, b, v);
    }
    assert(feed(feed(bins, a), b) =~= feed(bins, a + b));
}

/// The bin sum of a pointwise sum is the sum of the bin sums.
pub proof fn lemma_bin_sum_pointwise(a: Seq<int>, b: Seq<int>, c: Seq<int>, n: int)
    requires
        forall|i: int| 0 <= i < n ==> #[trigger] c[i] == a[i] + b[i],
    ensures
        bin_sum(c, n) == bin_sum(a, n) + bin_sum(b, n),
    decreases n,
{
    if n > 0 {
        lemma_bin_sum_pointwise(a, b, c, n - 1);
    }
}

/// Over the first `n` bins, the hits of one byte add up to the number of its
/// two nibbles that fall below `n`.
pub proof fn lemma_hits_total(b: u8, n: int)
    requires
        0 <= n <= NUM_BINS,
    ensures
        bin_sum(Seq::new(NUM_BINS as nat, |v: int| nibble_hits(b, v)), n) == (if high_nibble(b) < n {
            1int
        } else {
            0int
        }) + (if low_nibble(b) < n {
            1int
        } else {
            0int
        }),
    decreases n,
{
    if n > 0 {
        lemma_hits_total(b, n - 1);
    }
}

/// Every byte puts exactly two nibbles into the 16 bins.
pub proof fn lemma_count_total(bytes: Seq<u8>)
    ensures
        bin_sum(Seq::new(NUM_BINS as nat, |v: int| nibble_count(bytes, v)), NUM_BINS as int) == 2
            * bytes.len(),
    decreases bytes.len(),
{
    if bytes.len() > 0 {
        let rest = bytes.drop_last();
        let b = bytes.last();
        lemma_count_total(rest);
        lemma_hits_total(b, NUM_BINS as int);
        assert(high_nibble(b) < 16 && low_nibble(b) < 16);
        assert forall|v: int| 0 <= v < NUM_BINS implies #[trigger] nibble_count(bytes, v) == nibble_count(rest, v) + nibble_hits(b, v) by {}
        lemma_bin_sum_pointwise(
            Seq::new(NUM_BINS as nat, |v: int| nibble_count(rest, v)),
            Seq::new(NUM_BINS as nat, |v: int| nibble_hits(b, v)),
            Seq::new(NUM_BINS as nat, |v: int| nibble_count(bytes, v)),
            NUM_BINS as int,
        );
    } else {
        assert(Seq::new(NUM_BINS as nat, |v: int| nibble_count(bytes, v)) =~= Seq::new(
            NUM_BINS as nat,
            |v: int| 0,
        ));
        lemma_bin_sum_zero(NUM_BINS as int);
    }
}

/// Feeding `bytes` raises the sum of the 16 bins by two for each byte.
pub proof fn lemma_bin_sum_feed(bins: Seq<int>, bytes: Seq<u8>)
    ensures
        bin_sum(feed(bins, bytes), NUM_BINS as int) == bin_sum(bins, NUM_BINS as int) + 2
            * bytes.len(),
{
    lemma_count_total(bytes);
    lemma_bin_sum_pointwise(
        bins,
        Seq::new(NUM_BINS as nat, |v: int| nibble_count(bytes, v)),
        feed(bins, bytes),
        NUM_BINS as int,
    );
}

/// One more byte after `s`: adding it to the state that `add_many` left is
/// what `add_many` makes of `s` with that byte pushed.
pub proof fn lemma_add_many_push(t: Tally, s: Seq<u8>, b: u8)
    requires
        t.wf(),
    ensures
        t.add_many(s).samples == t.samples + 2 * (if s.len() <= t.room() {
            s.len() as int
        } else {
            t.room()
        }),
        t.add_many(s.push(b)) == (if t.add_many(s).samples >= 2 * MAX_LEN {
            t.add_many(s)
        } else {
            t.add_many(s).absorb(seq![b])
        }),
{
    if s.len() < t.room() {
        assert(s.take(s.len() as int) =~= s);
        assert(s.push(b).take(s.len() + 1int) =~= s.push(b));
        assert(s.push(b) =~= s + seq![b]);
        lemma_feed_concat(t.bins, s, seq![b]);
    } else {
        assert(s.push(b).take(t.room()) =~= s.take(t.room()));
    }
}

} // verus!
