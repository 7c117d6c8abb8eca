//! Evaluation data, sampled once from the full point set.
//!
//! Metric evaluation must not grow with the size of the data a model is
//! fitted to, so a fixed-size subset of the point set is drawn once, at
//! setup, with the uniform reservoir sampler over the column indices and
//! a fixed seed.  The selection is therefore reproducible: the chosen
//! columns are a function of the point set's width and of the requested
//! subset size alone, which [`lemma_from_sample_deterministic`] states.

use vstd::prelude::*;

use crate::rng::SeededRng;
use crate::sampling::{reservoir_model, reservoir_sampling};

verus! {

/// A dense matrix in column-major form: each entry of `cols` is one
/// observation.
///
/// A cell is an opaque 64-bit scalar; callers that work with real-valued
/// entries store their bit patterns and read them back unchanged, since
/// nothing here computes on cell values.
pub struct Matrix {
    /// Number of rows, the dimension of one observation.
    pub nrows: usize,
    /// The columns, each of length `nrows`.
    pub cols: Vec<Vec<u64>>,
}

impl Matrix {
    /// Every column has exactly `nrows` entries.
    pub open spec fn wf(&self) -> bool {
        forall|i: int| 0 <= i < self.cols@.len() ==> (#[trigger] self.cols@[i])@.len() == self.nrows
    }

    /// The number of observations.
    pub fn ncols(&self) -> (c: usize)
        ensures
            c == self.cols@.len(),
    {
        self.cols.len()
    }
}

/// The seed every evaluation subset is drawn with, so that the selection
/// is reproducible across runs.
pub open spec fn eval_seed() -> u64 {
    42
}

/// The column indices the evaluation subset takes from a point set with
/// `ncols` columns when at most `k` are requested: what the uniform
/// reservoir leaves behind after one pass over `0..ncols`.
pub open spec fn sample_indices(ncols: int, k: int) -> Seq<usize> {
    let iota = Seq::new(ncols as nat, |i: int| i as usize);
    let dst0 = Seq::new(k as nat, |i: int| 0usize);
    let picked = reservoir_model(eval_seed(), Seq::<int>::empty(), iota, dst0, ncols).0;
    picked.take(if ncols < k { ncols } else { k })
}

/// An owned, size-bounded subsample of a point set, with labels aligned
/// to its columns when ground truth was supplied.
pub struct EvalData {
    /// The sampled observations.
    pub points: Matrix,
    /// One label per sampled observation, if labels were supplied.
    pub labels: Option<Vec<usize>>,
}

/// The view of an optional borrowed label row.
pub open spec fn opt_labels_view(labels: Option<&Vec<usize>>) -> Option<Seq<usize>> {
    match labels {
        Some(l) => Some(l@),
        None => None,
    }
}

/// What `EvalData::from_sample` returns: the columns of `points` at the
/// reservoir-chosen indices, in the order the reservoir produced them,
/// and the labels at those same indices.
pub open spec fn from_sample_post(
    points: Matrix,
    labels: Option<Seq<usize>>,
    max_points: usize,
    r: EvalData,
) -> bool {
    let idx = sample_indices(points.cols@.len() as int, max_points as int);
    &&& r.points.nrows == points.nrows
    &&& r.points.cols@.len() == idx.len()
    &&& forall|p: int|
        0 <= p < idx.len() ==> (#[trigger] r.points.cols@[p])@ == points.cols@[idx[p] as int]@
    &&& match (labels, r.labels) {
        (Some(l), Some(rl)) => rl@.len() == idx.len() && (forall|p: int|
            0 <= p < idx.len() ==> #[trigger] rl@[p] == l[idx[p] as int]),
        (None, None) => true,
        _ => false,
    }
}

impl EvalData {
    /// Creates evaluation data by sampling at most `max_points` columns
    /// of `points`, uniformly, with the fixed evaluation seed.
    ///
    /// When `points` has no more than `max_points` columns the result is
    /// the full set.  The same inputs always select the same columns in
    /// the same order.
    pub fn from_sample(
        points: &Matrix,
        labels: Option<&Vec<usize>>,
        max_points: usize,
    ) -> (r: EvalData)
        requires
            points.wf(),
            labels matches Some(l) ==> l@.len() == points.cols@.len(),
        ensures
            r.points.wf(),
            from_sample_post(*points, opt_labels_view(labels), max_points, r),
    {
        let ncols = points.ncols();
        let ghost iota_s = Seq::new(ncols as nat, |i: int| i as usize);
        let ghost dst0_s = Seq::new(max_points as nat, |i: int| 0usize);

        let mut iota: Vec<usize> = Vec::new();
        let mut c: usize = 0;
        while c < ncols
            invariant
                c <= ncols,
                iota@.len() == c,
                forall|p: int| 0 <= p < c ==> #[trigger] iota@[p] == p,
            decreases ncols - c,
        {
            iota.push(c);
            c += 1;
        }
        proof {
            assert(iota@ =~= iota_s);
        }

        let mut indices: Vec<usize> = Vec::new();
        let mut z: usize = 0;
        while z < max_points
            invariant
                z <= max_points,
                indices@.len() == z,
                forall|p: int| 0 <= p < z ==> #[trigger] indices@[p] == 0,
            decreases max_points - z,
        {
            indices.push(0);
            z += 1;
        }
        proof {
            assert(indices@ =~= dst0_s);
        }

        let mut rng = SeededRng::new(42);
        let n = reservoir_sampling(&mut rng, &iota, &mut indices);

        proof {
            assert(sample_indices(ncols as int, max_points as int) =~= indices@.take(n as int));
            assert forall|p: int| 0 <= p < n implies (#[trigger] indices@[p]) < ncols by {
                assert(iota_s.contains(indices@[p]));
                let q = choose|q: int| 0 <= q < iota_s.len() && iota_s[q] == indices@[p];
                assert(indices@[p] == q as usize);
            }
        }

        let mut cols: Vec<Vec<u64>> = Vec::new();
        let mut p: usize = 0;
        while p < n
            invariant
                p <= n,
                n <= indices@.len(),
                points.wf(),
                forall|q: int| 0 <= q < n ==> (#[trigger] indices@[q]) < points.cols@.len(),
                cols@.len() == p,
                forall|q: int|
                    0 <= q < p ==> (#[trigger] cols@[q])@ == points.cols@[indices@[q] as int]@,
            decreases n - p,
        {
            let ci = indices[p];
            let col = points.cols[ci].clone();
            proof {
                assert(col@ =~= points.cols@[ci as int]@);
            }
            cols.push(col);
            p += 1;
        }

        let out_labels: Option<Vec<usize>> = match labels {
            Some(l) => {
                let mut lv: Vec<usize> = Vec::new();
                let mut p: usize = 0;
                while p < n
                    invariant
                        p <= n,
                        n <= indices@.len(),
                        l@.len() == points.cols@.len(),
                        forall|q: int| 0 <= q < n ==> (#[trigger] indices@[q]) < points.cols@.len(),
                        lv@.len() == p,
                        forall|q: int| 0 <= q < p ==> #[trigger] lv@[q] == l@[indices@[q] as int],
                    decreases n - p,
                {
                    lv.push(l[indices[p]]);
                    p += 1;
                }
                Some(lv)
            },
            None => None,
        };

        EvalData { points: Matrix { nrows: points.nrows, cols }, labels: out_labels }
    }
}

/// Building the evaluation subset is deterministic: two results built
/// from the same point set, the same labels and the same size bound hold
/// the same columns in the same order, and the same labels.
pub proof fn lemma_from_sample_deterministic(
    a: EvalData,
    b: EvalData,
    points: Matrix,
    labels: Option<Seq<usize>>,
    max_points: usize,
)
    requires
        from_sample_post(points, labels, max_points, a),
        from_sample_post(points, labels, max_points, b),
    ensures
        a.points.nrows == b.points.nrows,
        a.points.cols@.len() == b.points.cols@.len(),
        forall|p: int|
            0 <= p < a.points.cols@.len() ==> (#[trigger] a.points.cols@[p])@
                == (#[trigger] b.points.cols@[p])@,
        a.labels is Some <==> b.labels is Some,
        (a.labels is Some && b.labels is Some) ==> (a.labels->0)@ == (b.labels->0)@,
{
    if a.labels is Some && b.labels is Some {
        let la = a.labels->0;
        let lb = b.labels->0;
        assert(la@ =~= lb@);
    }
}

} // verus!
