//! A seeded random source.
//!
//! All randomness used by the sampling primitives flows through
//! [`SeededRng`], a wrapper around a small, fast pseudo-random generator
//! seeded from a caller-supplied value.  Because the generator is a pure
//! function of its seed, every draw is modelled in specifications by the
//! uninterpreted function [`draw_of`], applied to the seed and to the
//! history of bounds drawn so far.  This is what makes sampling runs
//! reproducible: two sources built from the same seed yield, draw for
//! draw, the same values.

use rand::Rng;
use rand::SeedableRng;
use vstd::prelude::*;

verus! {

#[verifier::external_type_specification]
#[verifier::external_body]
pub struct ExSmallRng(rand::rngs::SmallRng);

/// The value drawn by a seeded generator that was created from `seed`,
/// has already served the draws whose bounds are listed in `history`,
/// and is now asked for a value below `bound`.
pub uninterp spec fn draw_of(seed: u64, history: Seq<int>, bound: int) -> int;

/// A pseudo-random source created from an explicit seed.
///
/// The ghost fields record the seed and the bounds of all draws served so
/// far, so that specifications can speak of each draw as a deterministic
/// function of the two.
pub struct SeededRng {
    inner: rand::rngs::SmallRng,
    seed: Ghost<u64>,
    history: Ghost<Seq<int>>,
}

impl SeededRng {
    /// The seed this source was created from.
    pub closed spec fn spec_seed(&self) -> u64 {
        self.seed@
    }

    /// The bounds of all draws served so far, oldest first.
    pub closed spec fn spec_history(&self) -> Seq<int> {
        self.history@
    }

    /// Creates a fresh source from `seed`, with no draws served yet.
    pub fn new(seed: u64) -> (r: SeededRng)
        ensures
            r.spec_seed() == seed,
            r.spec_history() == Seq::<int>::empty(),
    {
        SeededRng {
            inner: small_rng_from_seed(seed),
            seed: Ghost(seed),
            history: Ghost(Seq::<int>::empty()),
        }
    }

    /// Draws a value uniformly below `bound`.
    ///
    /// Relies on rand's `Rng::gen_range` over a seeded `SmallRng`: the
    /// draw lies in `[0, bound)` and, the generator being a pure function
    /// of its seed, is determined by the seed together with the bounds of
    /// the draws served before it.
    #[verifier::external_body]
    pub(crate) fn gen_below(&mut self, bound: u64) -> (j: u64)
        requires
            bound > 0,
        ensures
            j < bound,
            j as int == draw_of(old(self).spec_seed(), old(self).spec_history(), bound as int),
            final(self).spec_seed() == old(self).spec_seed(),
            final(self).spec_history() == old(self).spec_history().push(bound as int),
    {
        self.inner.gen_range(0..bound)
    }
}

/// Relies on rand's `SeedableRng::seed_from_u64` to build the underlying
/// generator from the given seed.
#[verifier::external_body]
fn small_rng_from_seed(seed: u64) -> rand::rngs::SmallRng {
    rand::rngs::SmallRng::seed_from_u64(seed)
}

#[verifier::external_type_specification]
#[verifier::external_body]
pub struct ExWeightedError(rand::distributions::WeightedError);

/// A categorical distribution over a list of `u64` weights.
///
/// Verus cannot declare rand's `WeightedIndex` itself (its generic
/// parameter carries an outside trait bound), so the distribution is
/// held opaquely in this struct and reached only through the two
/// wrappers below.
#[verifier::external_body]
pub struct WeightDist {
    inner: rand::distributions::WeightedIndex<u64>,
}

/// The weights the distribution was built over.
pub uninterp spec fn wi_weights(d: WeightDist) -> Seq<u64>;

/// Relies on `WeightedIndex::new`: by its documentation and source it
/// returns `Ok` exactly when the weight list is non-empty and its total
/// is positive (a `u64` weight cannot be negative or invalid), and the
/// resulting distribution then draws over exactly those weights.  The
/// caller keeps the total within `u64`, where the construction cannot
/// overflow.
#[verifier::external_body]
pub(crate) fn weighted_index_new(weights: &Vec<u64>) -> (r: Result<
    WeightDist,
    rand::distributions::WeightedError,
>)
    requires
        crate::sampling::weight_prefix_sum(weights@, weights@.len() as int) <= u64::MAX,
    ensures
        r is Ok <==> (weights@.len() > 0 && crate::sampling::weight_prefix_sum(
            weights@,
            weights@.len() as int,
        ) > 0),
        r matches Ok(d) ==> wi_weights(d) == weights@,
{
    match rand::distributions::WeightedIndex::new(weights) {
        Ok(inner) => Ok(WeightDist { inner }),
        Err(e) => Err(e),
    }
}

/// Relies on `Distribution::<usize>::sample` for `WeightedIndex`: by its
/// source the drawn value is a position in the weight list, and a
/// position whose weight is zero is never drawn.
#[verifier::external_body]
pub(crate) fn weighted_index_draw(rng: &mut SeededRng, dist: &WeightDist) -> (idx: usize)
    ensures
        (idx as int) < wi_weights(*dist).len(),
        wi_weights(*dist)[idx as int] > 0,
        final(rng).spec_seed() == old(rng).spec_seed(),
{
    rand::distributions::Distribution::sample(&dist.inner, &mut rng.inner)
}

} // verus!
