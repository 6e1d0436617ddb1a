use yuri::ops::{Dot, Sum};
use yuri::Vector;

#[test]
fn sum_matches_fold() {
    let empty: [i64; 0] = [];
    assert_eq!(Vector::<0>::from(empty).sum(), 0);
    assert_eq!(Vector::<1>::from([41]).sum(), 41);
    let a = [5, -3, 17, 0, 9];
    assert_eq!(
        Vector::<5>::from(a).sum(),
        a.iter().fold(0i64, |acc, x| acc + x)
    );
    let mut big = [0i64; 200];
    let mut i: i64 = 0;
    for slot in big.iter_mut() {
        *slot = 3 * i - 100;
        i += 1;
    }
    assert_eq!(
        Vector::<200>::from(big).sum(),
        big.iter().fold(0i64, |acc, x| acc + x)
    );
}

#[test]
fn sum_wraps_like_the_scalar_type() {
    let v = Vector::<2>::from([i64::MAX, 1]);
    assert_eq!(v.sum(), i64::MAX.wrapping_add(1));
}

#[test]
fn dot_product_matches_scalar() {
    let a = [2, 3, -4];
    let b = [5, -6, 7];
    assert_eq!(
        Vector::<3>::from(a).dot(Vector::<3>::from(b)),
        2 * 5 + 3 * (-6) + (-4) * 7
    );
    let empty: [i64; 0] = [];
    assert_eq!(Vector::<0>::from(empty).dot(Vector::<0>::from(empty)), 0);
    let mut x = [0i64; 70];
    let mut y = [0i64; 70];
    let mut expected: i64 = 0;
    for i in 0..70i64 {
        x[i as usize] = i - 35;
        y[i as usize] = 2 * i + 1;
        expected += (i - 35) * (2 * i + 1);
    }
    assert_eq!(Vector::<70>::from(x).dot(Vector::<70>::from(y)), expected);
}

#[test]
fn concrete_multi_chunk_sum_scenario() {
    assert_eq!(Vector::<999>::from([2; 999]).sum(), 1998);
}

#[test]
fn pad_lanes_never_leak() {
    // One unaligned dimension per width boundary: the final chunk has
    // pad lanes, and neither arithmetic nor reads may surface them.
    pad_probe::<3>();
    pad_probe::<5>();
    pad_probe::<9>();
    pad_probe::<17>();
    pad_probe::<33>();
    pad_probe::<65>();
}

fn pad_probe<const D: usize>() {
    let mut a = [0i64; D];
    let mut b = [0i64; D];
    for i in 0..D {
        a[i] = i as i64 + 1;
        b[i] = 2 * i as i64 + 1;
    }
    let added = Vector::<D>::from(a).add(Vector::<D>::from(b));
    let divided = Vector::<D>::from(a).div(Vector::<D>::from(b));
    let mut expected_sum: i64 = 0;
    for i in 0..D {
        assert_eq!(added.index(i).unwrap(), a[i] + b[i]);
        assert_eq!(divided.index(i).unwrap(), a[i] / b[i]);
        expected_sum += a[i];
    }
    assert_eq!(Vector::<D>::from(a).sum(), expected_sum);
    assert_eq!(Vector::<D>::from(a).unpack(), a.to_vec());
}
