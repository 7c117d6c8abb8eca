//! Sampling primitives.
//!
//! Three single-pass randomized primitives: uniform reservoir sampling,
//! weighted reservoir sampling, and weighted sampling with replacement.
//! Each is specified against a recursive model of the algorithm in which
//! every random draw appears as [`draw_of`] applied to the source's seed
//! and draw history, so the exact content of the destination after a run
//! is pinned down by the contract, and reproducibility under a fixed seed
//! is a theorem rather than a hope.

use vstd::prelude::*;

use crate::rng::{draw_of, SeededRng};

verus! {

/// State of the uniform reservoir after the first `m` source items have
/// been processed: the destination contents and the draw history.
///
/// The first `k = dst0.len()` items fill the destination directly; each
/// later item at zero-based position `i` draws `j` uniformly from
/// `[0, i]` and overwrites slot `j` when `j < k`.  An empty destination
/// asks for no draws at all.
pub open spec fn reservoir_model<T>(
    seed: u64,
    h0: Seq<int>,
    src: Seq<T>,
    dst0: Seq<T>,
    m: int,
) -> (Seq<T>, Seq<int>)
    decreases m,
{
    let k = dst0.len() as int;
    if m <= 0 || k == 0 {
        (dst0, h0)
    } else {
        let prev = reservoir_model(seed, h0, src, dst0, m - 1);
        if m <= k {
            (prev.0.update(m - 1, src[m - 1]), prev.1)
        } else {
            let j = draw_of(seed, prev.1, m);
            if 0 <= j < k {
                (prev.0.update(j, src[m - 1]), prev.1.push(m))
            } else {
                (prev.0, prev.1.push(m))
            }
        }
    }
}

/// Random sampling of `dst.len()` items without replacement, by the
/// classical single-pass reservoir algorithm.
///
/// Fills `dst` with a sample of `min(dst.len(), src.len())` elements of
/// `src` and returns that count; when the source is shorter than the
/// destination, the whole source is copied in order and the remaining
/// slots keep their old values.
pub fn reservoir_sampling<T: Copy>(rng: &mut SeededRng, src: &Vec<T>, dst: &mut Vec<T>) -> (n: usize)
    ensures
        final(dst)@.len() == old(dst)@.len(),
        src@.len() >= old(dst)@.len() ==> n == old(dst)@.len(),
        src@.len() < old(dst)@.len() ==> n == src@.len(),
        final(dst)@ == reservoir_model(
            old(rng).spec_seed(),
            old(rng).spec_history(),
            src@,
            old(dst)@,
            src@.len() as int,
        ).0,
        final(rng).spec_history() == reservoir_model(
            old(rng).spec_seed(),
            old(rng).spec_history(),
            src@,
            old(dst)@,
            src@.len() as int,
        ).1,
        final(rng).spec_seed() == old(rng).spec_seed(),
        forall|p: int| 0 <= p < n ==> src@.contains(#[trigger] final(dst)@[p]),
        src@.len() <= old(dst)@.len() ==> (forall|p: int|
            0 <= p < n ==> final(dst)@[p] == src@[p]),
        src@.len() <= old(dst)@.len() ==> (forall|p: int|
            n <= p < old(dst)@.len() ==> final(dst)@[p] == old(dst)@[p]),
{
    let ghost seed = rng.spec_seed();
    let ghost h0 = rng.spec_history();
    let ghost dst0 = dst@;
    let k = dst.len();
    if k == 0 {
        proof {
            lemma_reservoir_model_empty_dst(seed, h0, src@, dst0, src@.len() as int);
        }
        return 0;
    }

    let mut n: usize = 0;
    while n < k && n < src.len()
        invariant
            k == dst0.len(),
            k == dst@.len(),
            k > 0,
            n <= k,
            n <= src@.len(),
            rng.spec_seed() == seed,
            rng.spec_history() == h0,
            dst@ == reservoir_model(seed, h0, src@, dst0, n as int).0,
            reservoir_model(seed, h0, src@, dst0, n as int).1 == h0,
            forall|p: int| 0 <= p < n ==> dst@[p] == src@[p],
            forall|p: int| n <= p < k ==> dst@[p] == dst0[p],
        decreases k - n,
    {
        dst[n] = src[n];
        n += 1;
    }

    proof {
        assert forall|p: int| 0 <= p < n implies src@.contains(#[trigger] dst@[p]) by {
            assert(dst@[p] == src@[p]);
        }
    }

    if n < k {
        // The source ran out: every item is in the destination already.
        return n;
    }

    let mut i: usize = n;
    while i < src.len()
        invariant
            k == dst0.len(),
            k == dst@.len(),
            k > 0,
            n == k,
            k <= i <= src@.len(),
            rng.spec_seed() == seed,
            rng.spec_history() == reservoir_model(seed, h0, src@, dst0, i as int).1,
            dst@ == reservoir_model(seed, h0, src@, dst0, i as int).0,
            forall|p: int| 0 <= p < k ==> src@.contains(#[trigger] dst@[p]),
        decreases src@.len() - i,
    {
        let j = rng.gen_below((i + 1) as u64);
        if j < k as u64 {
            dst[j as usize] = src[i];
            proof {
                assert(src@.contains(src@[i as int]));
            }
        }
        i += 1;
    }
    n
}

/// Sum of the first `m` weights.
pub open spec fn weight_prefix_sum(ws: Seq<u64>, m: int) -> int
    decreases m,
{
    if m <= 0 {
        0
    } else {
        weight_prefix_sum(ws, m - 1) + ws[m - 1]
    }
}

/// Prefix sums of non-negative weights grow with the prefix.
proof fn lemma_weight_prefix_sum_monotonic(ws: Seq<u64>, m1: int, m2: int)
    requires
        0 <= m1 <= m2 <= ws.len(),
    ensures
        weight_prefix_sum(ws, m1) <= weight_prefix_sum(ws, m2),
    decreases m2 - m1,
{
    if m1 < m2 {
        lemma_weight_prefix_sum_monotonic(ws, m1, m2 - 1);
    }
}

/// State of the weighted reservoir after the first `m` weighted items
/// have been processed: the destination contents (indices into the weight
/// stream) and the draw history.
///
/// The first `k = dst0.len()` items take slots directly.  Each later item
/// at zero-based position `i` with weight `w` draws `j` uniformly from
/// `[0, s)`, where `s` is the weight sum up to and including the item;
/// when `j < w` the item wins the round and overwrites a uniformly chosen
/// slot.  While the running sum is zero no draw is made at all, the item
/// not yet being eligible to replace anything; an empty destination asks
/// for no draws either.
pub open spec fn weighted_reservoir_model(
    seed: u64,
    h0: Seq<int>,
    ws: Seq<u64>,
    dst0: Seq<usize>,
    m: int,
) -> (Seq<usize>, Seq<int>)
    decreases m,
{
    let k = dst0.len() as int;
    if m <= 0 || k == 0 {
        (dst0, h0)
    } else {
        let prev = weighted_reservoir_model(seed, h0, ws, dst0, m - 1);
        if m <= k {
            (prev.0.update(m - 1, (m - 1) as usize), prev.1)
        } else {
            let s = weight_prefix_sum(ws, m);
            if s == 0 {
                prev
            } else {
                let j = draw_of(seed, prev.1, s);
                if 0 <= j < ws[m - 1] {
                    let h1 = prev.1.push(s);
                    let slot = draw_of(seed, h1, k);
                    if 0 <= slot < k {
                        (prev.0.update(slot, (m - 1) as usize), h1.push(k))
                    } else {
                        (prev.0, h1.push(k))
                    }
                } else {
                    (prev.0, prev.1.push(s))
                }
            }
        }
    }
}

/// Random sampling of `dst.len()` stream positions without replacement,
/// with probability roughly proportional to weight, in a single pass.
///
/// Fills `dst` with indices into the weight stream and returns the number
/// of slots filled, which is `min(dst.len(), weights.len())`; when the
/// stream is shorter than the destination the indices `0..n` are stored
/// in order and the remaining slots keep their old values.  Every filled
/// slot holds a valid stream position.
pub fn reservoir_sampling_weighted(
    rng: &mut SeededRng,
    weights: &Vec<u64>,
    dst: &mut Vec<usize>,
) -> (n: usize)
    requires
        weight_prefix_sum(weights@, weights@.len() as int) <= u64::MAX,
    ensures
        final(dst)@.len() == old(dst)@.len(),
        weights@.len() >= old(dst)@.len() ==> n == old(dst)@.len(),
        weights@.len() < old(dst)@.len() ==> n == weights@.len(),
        final(dst)@ == weighted_reservoir_model(
            old(rng).spec_seed(),
            old(rng).spec_history(),
            weights@,
            old(dst)@,
            weights@.len() as int,
        ).0,
        final(rng).spec_history() == weighted_reservoir_model(
            old(rng).spec_seed(),
            old(rng).spec_history(),
            weights@,
            old(dst)@,
            weights@.len() as int,
        ).1,
        final(rng).spec_seed() == old(rng).spec_seed(),
        forall|p: int| 0 <= p < n ==> (#[trigger] final(dst)@[p]) < weights@.len(),
        weights@.len() <= old(dst)@.len() ==> (forall|p: int|
            0 <= p < n ==> #[trigger] final(dst)@[p] == p),
        weights@.len() <= old(dst)@.len() ==> (forall|p: int|
            n <= p < old(dst)@.len() ==> final(dst)@[p] == old(dst)@[p]),
{
    let ghost seed = rng.spec_seed();
    let ghost h0 = rng.spec_history();
    let ghost dst0 = dst@;
    let k = dst.len();
    if k == 0 {
        proof {
            lemma_weighted_reservoir_model_empty_dst(seed, h0, weights@, dst0, weights@.len() as int);
        }
        return 0;
    }

    let mut n: usize = 0;
    let mut w_sum: u64 = 0;
    while n < k && n < weights.len()
        invariant
            k == dst0.len(),
            k == dst@.len(),
            k > 0,
            n <= k,
            n <= weights@.len(),
            weight_prefix_sum(weights@, weights@.len() as int) <= u64::MAX,
            w_sum == weight_prefix_sum(weights@, n as int),
            rng.spec_seed() == seed,
            rng.spec_history() == h0,
            dst@ == weighted_reservoir_model(seed, h0, weights@, dst0, n as int).0,
            weighted_reservoir_model(seed, h0, weights@, dst0, n as int).1 == h0,
            forall|p: int| 0 <= p < n ==> #[trigger] dst@[p] == p,
            forall|p: int| n <= p < k ==> dst@[p] == dst0[p],
        decreases k - n,
    {
        proof {
            lemma_weight_prefix_sum_monotonic(weights@, n + 1, weights@.len() as int);
        }
        dst[n] = n;
        w_sum = w_sum + weights[n];
        n += 1;
    }

    proof {
        assert forall|p: int| 0 <= p < n implies (#[trigger] dst@[p]) < weights@.len() by {
            assert(dst@[p] == p);
        }
    }

    if n < k {
        // The stream ran out: every position is in the destination already.
        return n;
    }

    let mut i: usize = n;
    while i < weights.len()
        invariant
            k == dst0.len(),
            k == dst@.len(),
            k > 0,
            n == k,
            k <= i <= weights@.len(),
            weight_prefix_sum(weights@, weights@.len() as int) <= u64::MAX,
            w_sum == weight_prefix_sum(weights@, i as int),
            rng.spec_seed() == seed,
            rng.spec_history() == weighted_reservoir_model(seed, h0, weights@, dst0, i as int).1,
            dst@ == weighted_reservoir_model(seed, h0, weights@, dst0, i as int).0,
            forall|p: int| 0 <= p < k ==> (#[trigger] dst@[p]) < weights@.len(),
        decreases weights@.len() - i,
    {
        proof {
            lemma_weight_prefix_sum_monotonic(weights@, i + 1, weights@.len() as int);
        }
        let w = weights[i];
        w_sum = w_sum + w;
        if w_sum > 0 {
            let j = rng.gen_below(w_sum);
            if j < w {
                let slot = rng.gen_below(k as u64);
                dst[slot as usize] = i;
            }
        }
        i += 1;
    }
    n
}

/// Why a replacement sample could not be drawn: the weight stream does
/// not describe a categorical distribution.
#[derive(Clone, Copy, Debug, PartialEq, Eq, Structural)]
pub enum WeightError {
    /// The weight stream was empty.
    NoWeights,
    /// The weight stream was non-empty but its total was zero.
    ZeroTotalWeight,
}

/// Every prefix sum of non-negative weights is non-negative.
proof fn lemma_weight_prefix_sum_nonneg(ws: Seq<u64>, m: int)
    ensures
        weight_prefix_sum(ws, m) >= 0,
    decreases m,
{
    if m > 0 {
        lemma_weight_prefix_sum_nonneg(ws, m - 1);
    }
}

/// Random sampling of `dst.len()` stream positions with replacement,
/// with probability proportional to weight.
///
/// Builds a categorical distribution over the weight stream and draws
/// one independent position per destination slot, so the same position
/// may repeat.  Fails, leaving the destination untouched, exactly when
/// the stream is empty or its total weight is zero; on success every
/// slot holds a stream position with nonzero weight.
pub fn replacement_sampling_weighted(
    rng: &mut SeededRng,
    weights: &Vec<u64>,
    dst: &mut Vec<usize>,
) -> (r: Result<(), WeightError>)
    requires
        weight_prefix_sum(weights@, weights@.len() as int) <= u64::MAX,
    ensures
        r is Ok <==> (weights@.len() > 0 && weight_prefix_sum(
            weights@,
            weights@.len() as int,
        ) > 0),
        weights@.len() == 0 ==> r == Err::<(), WeightError>(WeightError::NoWeights),
        (weights@.len() > 0 && weight_prefix_sum(weights@, weights@.len() as int) == 0) ==> r
            == Err::<(), WeightError>(WeightError::ZeroTotalWeight),
        r is Err ==> final(dst)@ == old(dst)@,
        final(dst)@.len() == old(dst)@.len(),
        r is Ok ==> forall|p: int|
            0 <= p < final(dst)@.len() ==> (#[trigger] final(dst)@[p]) < weights@.len()
                && weights@[final(dst)@[p] as int] > 0,
        // A well-formed weight stream is owed a full draw: every slot
        // then holds an index into the stream.
        (weights@.len() > 0 && weight_prefix_sum(weights@, weights@.len() as int) > 0) ==> (r
            is Ok && forall|p: int|
            0 <= p < final(dst)@.len() ==> (#[trigger] final(dst)@[p]) < weights@.len()),
        final(rng).spec_seed() == old(rng).spec_seed(),
{
    let ghost seed = rng.spec_seed();
    match crate::rng::weighted_index_new(weights) {
        Ok(dist) => {
            let m = dst.len();
            let mut p: usize = 0;
            while p < m
                invariant
                    m == dst@.len(),
                    p <= m,
                    crate::rng::wi_weights(dist) == weights@,
                    rng.spec_seed() == seed,
                    forall|q: int|
                        0 <= q < p ==> (#[trigger] dst@[q]) < weights@.len()
                            && weights@[dst@[q] as int] > 0,
                decreases m - p,
            {
                let idx = crate::rng::weighted_index_draw(rng, &dist);
                dst[p] = idx;
                p += 1;
            }
            Ok(())
        },
        Err(_) => {
            proof {
                lemma_weight_prefix_sum_nonneg(weights@, weights@.len() as int);
            }
            if weights.len() == 0 {
                Err(WeightError::NoWeights)
            } else {
                Err(WeightError::ZeroTotalWeight)
            }
        },
    }
}

/// With an empty destination the weighted reservoir leaves both the
/// destination and the draw history untouched, however long the stream.
proof fn lemma_weighted_reservoir_model_empty_dst(
    seed: u64,
    h0: Seq<int>,
    ws: Seq<u64>,
    dst0: Seq<usize>,
    m: int,
)
    requires
        dst0.len() == 0,
    ensures
        weighted_reservoir_model(seed, h0, ws, dst0, m) == (dst0, h0),
{
}

/// With an empty destination the reservoir leaves both the destination
/// and the draw history untouched, however long the source.
proof fn lemma_reservoir_model_empty_dst<T>(seed: u64, h0: Seq<int>, src: Seq<T>, dst0: Seq<T>, m: int)
    requires
        dst0.len() == 0,
    ensures
        reservoir_model(seed, h0, src, dst0, m) == (dst0, h0),
{
}

} // verus!
