use code_metrics::histogram::Histogram;

#[test]
fn hist_sum_and_average() {
    let mut h = Histogram::new();
    h.observe(3);
    h.observe(2);
    let snap = h.snapshot();
    assert_eq!(snap.sum, 5u128);
    assert_eq!(snap.count, 2usize);
    assert_eq!((snap.sum as f64) / (snap.count as f64), 2.5f64);
}

#[test]
fn hist_mode_of_repeated_values() {
    let mut h = Histogram::new();
    for v in [1u64, 1, 0, 0, 0, 0] {
        h.observe(v);
    }
    let snap = h.snapshot();
    assert_eq!(snap.sum, 2u128);
    assert_eq!(snap.count, 6usize);
    assert_eq!((snap.sum as f64) / (snap.count as f64), 0.3333333333333333f64);
    assert_eq!(snap.mode, Some(0));
}

#[test]
fn hist_empty_is_degenerate() {
    let h = Histogram::new();
    let snap = h.snapshot();
    assert_eq!(snap.sum, 0u128);
    assert_eq!(snap.count, 0usize);
    assert_eq!(snap.mode, None);
}

#[test]
fn hist_mode_tie_breaks_to_largest() {
    let mut h = Histogram::new();
    h.observe(3);
    h.observe(2);
    let snap = h.snapshot();
    assert_eq!(snap.mode, Some(3));
}

#[test]
fn merge_is_order_independent() {
    let mut a = Histogram::new();
    a.observe(3);
    a.observe(2);
    let mut b = Histogram::new();
    b.observe(2);
    b.observe(7);

    let ab = a.merge(&b).snapshot();
    let ba = b.merge(&a).snapshot();
    assert_eq!(ab.sum, ba.sum);
    assert_eq!(ab.count, ba.count);
    assert_eq!(ab.mode, ba.mode);
    assert_eq!(ab.sum, 14u128);
    assert_eq!(ab.mode, Some(2));
}

#[test]
fn merge_identity() {
    let empty = Histogram::new();
    let mut x = Histogram::new();
    x.observe(5);
    x.observe(9);

    let left = empty.merge(&x).snapshot();
    let right = x.merge(&empty).snapshot();
    let plain = x.snapshot();
    assert_eq!(left.sum, plain.sum);
    assert_eq!(left.count, plain.count);
    assert_eq!(left.mode, plain.mode);
    assert_eq!(right.sum, plain.sum);
    assert_eq!(right.count, plain.count);
    assert_eq!(right.mode, plain.mode);

    let both_empty = empty.merge(&Histogram::new()).snapshot();
    assert_eq!(both_empty.sum, 0u128);
    assert_eq!(both_empty.count, 0usize);
    assert_eq!(both_empty.mode, None);
}

#[test]
fn merge_grouping_is_irrelevant() {
    let mut a = Histogram::new();
    a.observe(1);
    let mut b = Histogram::new();
    b.observe(2);
    b.observe(2);
    let mut c = Histogram::new();
    c.observe(3);

    let left = a.merge(&b).merge(&c).snapshot();
    let right = a.merge(&b.merge(&c)).snapshot();
    assert_eq!(left.sum, right.sum);
    assert_eq!(left.count, right.count);
    assert_eq!(left.mode, right.mode);
    assert_eq!(left.sum, 8u128);
    assert_eq!(left.count, 4usize);
    assert_eq!(left.mode, Some(2));
}
