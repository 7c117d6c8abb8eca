use mixturs::rng::SeededRng;
use mixturs::sampling::{
    replacement_sampling_weighted, reservoir_sampling, reservoir_sampling_weighted, WeightError,
};

#[test]
fn test_reservoir_sampling_weighted() {
    let mut rng = SeededRng::new(7);
    let mut dst = vec![0usize; 4];
    let src = vec![1u64, 2, 3, 4];
    assert_eq!(reservoir_sampling_weighted(&mut rng, &src, &mut dst), 4);
    dst.sort();
    assert_eq!(dst, vec![0, 1, 2, 3]);

    let src = vec![1u64, 2, 3];
    assert_eq!(reservoir_sampling_weighted(&mut rng, &src, &mut dst), 3);
    dst.sort();
    assert_eq!(dst, vec![0, 1, 2, 3]);
}

#[test]
fn reservoir_fixed_seed_reproducible() {
    let src = vec![1u32, 2, 3, 4, 5];
    let mut dst = vec![0u32; 3];
    let mut rng = SeededRng::new(99);
    let n = reservoir_sampling(&mut rng, &src, &mut dst);
    assert_eq!(n, 3);
    for x in dst.iter() {
        assert!(src.contains(x));
    }
    let mut sorted = dst.clone();
    sorted.sort();
    sorted.dedup();
    assert_eq!(sorted.len(), 3, "a reservoir of distinct items must not repeat any");

    let mut dst2 = vec![0u32; 3];
    let mut rng2 = SeededRng::new(99);
    let n2 = reservoir_sampling(&mut rng2, &src, &mut dst2);
    assert_eq!(n2, 3);
    assert_eq!(dst, dst2, "the same seed must reproduce the same sample");
}

#[test]
fn reservoir_short_source_returns_all() {
    let src = vec![7u32, 8];
    let mut dst = vec![0u32; 5];
    let mut rng = SeededRng::new(1);
    let n = reservoir_sampling(&mut rng, &src, &mut dst);
    assert_eq!(n, 2);
    assert_eq!(&dst[..2], &[7, 8]);
    assert_eq!(&dst[2..], &[0, 0, 0]);

    let weights = vec![5u64, 6];
    let mut wdst = vec![9usize; 4];
    let n = reservoir_sampling_weighted(&mut rng, &weights, &mut wdst);
    assert_eq!(n, 2);
    assert_eq!(&wdst[..2], &[0, 1]);
    assert_eq!(&wdst[2..], &[9, 9]);
}

#[test]
fn reservoir_zero_destination_is_valid() {
    let src = vec![1u32, 2, 3];
    let mut dst: Vec<u32> = Vec::new();
    let mut rng = SeededRng::new(3);
    assert_eq!(reservoir_sampling(&mut rng, &src, &mut dst), 0);

    let weights = vec![1u64, 2, 3];
    let mut wdst: Vec<usize> = Vec::new();
    assert_eq!(reservoir_sampling_weighted(&mut rng, &weights, &mut wdst), 0);
}

#[test]
fn reservoir_uniformity() {
    let src = vec![0usize, 1, 2, 3, 4];
    let mut counts = [0usize; 5];
    let runs = 2000u64;
    for seed in 0..runs {
        let mut rng = SeededRng::new(seed);
        let mut dst = vec![0usize; 2];
        let n = reservoir_sampling(&mut rng, &src, &mut dst);
        assert_eq!(n, 2);
        counts[dst[0]] += 1;
        counts[dst[1]] += 1;
    }
    // Each element is kept with probability 2/5: about 800 of 2000 runs.
    for (i, &c) in counts.iter().enumerate() {
        assert!(
            650 <= c && c <= 950,
            "element {} selected {} times, far from the expected 800",
            i,
            c
        );
    }
}

#[test]
fn weighted_reservoir_zero_weight_prefix_is_skipped() {
    // While the running weight sum is zero no draw is made; this must
    // not trap and must leave the filled slots alone.
    let weights = vec![0u64, 0, 0];
    let mut dst = vec![0usize; 2];
    let mut rng = SeededRng::new(11);
    let n = reservoir_sampling_weighted(&mut rng, &weights, &mut dst);
    assert_eq!(n, 2);
    assert_eq!(dst, vec![0, 1]);

    // Once the sum turns positive the new item competes again.
    let weights = vec![0u64, 0, 5];
    let mut dst = vec![0usize; 2];
    let mut rng = SeededRng::new(11);
    let n = reservoir_sampling_weighted(&mut rng, &weights, &mut dst);
    assert_eq!(n, 2);
    for &x in dst.iter() {
        assert!(x < 3);
    }
    assert!(dst.contains(&2), "an item holding all the weight must displace a slot");
}

#[test]
fn replacement_sampling_bounds_and_balance() {
    let weights = vec![1u64, 1];
    let mut dst = vec![0usize; 1000];
    let mut rng = SeededRng::new(5);
    assert_eq!(replacement_sampling_weighted(&mut rng, &weights, &mut dst), Ok(()));
    let mut zeros = 0usize;
    for &x in dst.iter() {
        assert!(x < 2, "every drawn index must lie within the weight stream");
        if x == 0 {
            zeros += 1;
        }
    }
    assert!(
        350 <= zeros && zeros <= 650,
        "with equal weights the class balance should be near 50/50, got {} zeros",
        zeros
    );
}

#[test]
fn replacement_sampling_rejects_degenerate_weights() {
    let mut rng = SeededRng::new(2);

    let empty: Vec<u64> = Vec::new();
    let mut dst = vec![4usize, 4, 4];
    assert_eq!(
        replacement_sampling_weighted(&mut rng, &empty, &mut dst),
        Err(WeightError::NoWeights)
    );
    assert_eq!(dst, vec![4, 4, 4], "a failed draw must leave the destination untouched");

    let zeros = vec![0u64, 0, 0];
    assert_eq!(
        replacement_sampling_weighted(&mut rng, &zeros, &mut dst),
        Err(WeightError::ZeroTotalWeight)
    );
    assert_eq!(dst, vec![4, 4, 4]);
}

#[test]
fn replacement_sampling_never_draws_zero_weight() {
    let weights = vec![0u64, 3];
    let mut dst = vec![0usize; 200];
    let mut rng = SeededRng::new(13);
    assert_eq!(replacement_sampling_weighted(&mut rng, &weights, &mut dst), Ok(()));
    for &x in dst.iter() {
        assert_eq!(x, 1, "an index with zero weight must never be drawn");
    }
}
