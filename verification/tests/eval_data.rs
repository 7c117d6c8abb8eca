use mixturs::eval::{EvalData, Matrix};

fn example_matrix(ncols: usize) -> Matrix {
    let mut cols = Vec::new();
    for c in 0..ncols {
        cols.push(vec![c as u64, c as u64 + 10]);
    }
    Matrix { nrows: 2, cols }
}

#[test]
fn build_eval_data_deterministic() {
    let m = example_matrix(6);
    let labels = vec![0usize, 1, 2, 3, 4, 5];

    let a = EvalData::from_sample(&m, Some(&labels), 3);
    let b = EvalData::from_sample(&m, Some(&labels), 3);

    assert_eq!(a.points.nrows, 2);
    assert_eq!(a.points.cols.len(), 3);
    assert_eq!(a.points.nrows, b.points.nrows);
    assert_eq!(a.points.cols, b.points.cols, "the same inputs must select the same columns");
    assert_eq!(a.labels, b.labels, "the same inputs must select the same labels");

    // Labels stay aligned with their columns: column c carries label c.
    let la = a.labels.as_ref().unwrap();
    assert_eq!(la.len(), 3);
    for (i, col) in a.points.cols.iter().enumerate() {
        assert_eq!(col[0] as usize, la[i]);
        assert!(la[i] < 6);
    }
}

#[test]
fn eval_data_is_full_set_when_source_is_small() {
    let m = example_matrix(4);
    let labels = vec![9usize, 8, 7, 6];

    let e = EvalData::from_sample(&m, Some(&labels), 10);
    assert_eq!(e.points.cols, m.cols, "a small point set is copied whole, in order");
    assert_eq!(e.labels.as_ref().unwrap(), &labels);

    let no_labels = EvalData::from_sample(&m, None, 10);
    assert!(no_labels.labels.is_none());
    assert_eq!(no_labels.points.cols, m.cols);
}
