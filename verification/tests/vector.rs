use yuri::ops::Sum;
use yuri::{Vector, VectorError};

#[test]
fn test() {
    let a = Vector::<5>::from([1, 2, 3, 4, 5]);
    let b = Vector::<5>::from([3, 2, 1, 0, 1]);
    assert_eq!(a.index(4), Ok(5));
    assert_eq!(a.add(b).unpack(), vec![4, 4, 4, 4, 6]);
}

#[test]
fn round_trip_various_dimensions() {
    let empty: [i64; 0] = [];
    assert_eq!(Vector::<0>::from(empty).unpack(), Vec::<i64>::new());
    assert_eq!(Vector::<1>::from([7]).unpack(), vec![7]);
    assert_eq!(Vector::<3>::from([-1, 0, 1]).unpack(), vec![-1, 0, 1]);
    assert_eq!(
        Vector::<5>::from([1, 2, 3, 4, 5]).unpack(),
        vec![1, 2, 3, 4, 5]
    );
    let mut big = [0i64; 999];
    let mut i: i64 = 0;
    for slot in big.iter_mut() {
        *slot = i * i - 400 * i;
        i += 1;
    }
    assert_eq!(Vector::<999>::from(big).unpack(), big.to_vec());
}

#[test]
fn elementwise_add_matches_scalar() {
    let a = [5, -3, 17, 0, 9];
    let b = [2, 8, -6, 11, 1];
    let v = Vector::<5>::from(a).add(Vector::<5>::from(b));
    for i in 0..5 {
        assert_eq!(v.index(i).unwrap(), a[i] + b[i]);
    }
}

#[test]
fn elementwise_sub_matches_scalar() {
    let a = [5, -3, 17, 0, 9];
    let b = [2, 8, -6, 11, 1];
    let v = Vector::<5>::from(a).sub(Vector::<5>::from(b));
    for i in 0..5 {
        assert_eq!(v.index(i).unwrap(), a[i] - b[i]);
    }
}

#[test]
fn elementwise_mul_matches_scalar() {
    let a = [5, -3, 17, 0, 9];
    let b = [2, 8, -6, 11, 1];
    let v = Vector::<5>::from(a).mul(Vector::<5>::from(b));
    for i in 0..5 {
        assert_eq!(v.index(i).unwrap(), a[i] * b[i]);
    }
}

#[test]
fn elementwise_div_matches_scalar() {
    let a = [5, -3, 17, 0, 9];
    let b = [2, 8, -6, 11, 1];
    let v = Vector::<5>::from(a).div(Vector::<5>::from(b));
    for i in 0..5 {
        assert_eq!(v.index(i).unwrap(), a[i] / b[i]);
    }
}

#[test]
fn div_truncates_toward_zero() {
    let a = [-7, 7, -7, 7];
    let b = [2, -2, -2, 2];
    let v = Vector::<4>::from(a).div(Vector::<4>::from(b));
    assert_eq!(v.unpack(), vec![-3, -3, 3, 3]);
}

#[test]
fn assign_variants_match_scalar() {
    let a = [5, -3, 17, 0, 9];
    let b = [2, 8, -6, 11, 1];
    let mut v = Vector::<5>::from(a);
    v.add_assign(Vector::<5>::from(b));
    for i in 0..5 {
        assert_eq!(v.index(i).unwrap(), a[i] + b[i]);
    }
    let mut v = Vector::<5>::from(a);
    v.sub_assign(Vector::<5>::from(b));
    for i in 0..5 {
        assert_eq!(v.index(i).unwrap(), a[i] - b[i]);
    }
    let mut v = Vector::<5>::from(a);
    v.mul_assign(Vector::<5>::from(b));
    for i in 0..5 {
        assert_eq!(v.index(i).unwrap(), a[i] * b[i]);
    }
    let mut v = Vector::<5>::from(a);
    v.div_assign(Vector::<5>::from(b));
    for i in 0..5 {
        assert_eq!(v.index(i).unwrap(), a[i] / b[i]);
    }
}

#[test]
fn add_wraps_like_the_scalar_type() {
    let v = Vector::<2>::from([i64::MAX, i64::MIN]).add(Vector::<2>::from([1, -1]));
    assert_eq!(v.unpack(), vec![i64::MIN, i64::MAX]);
}

#[test]
fn index_out_of_range_fails() {
    let empty: [i64; 0] = [];
    let v0 = Vector::<0>::from(empty);
    assert_eq!(v0.index(0), Err(VectorError::IndexOutOfRange));
    let v1 = Vector::<1>::from([4]);
    assert_eq!(v1.index(1), Err(VectorError::IndexOutOfRange));
    assert_eq!(v1.index(100), Err(VectorError::IndexOutOfRange));
    let v3 = Vector::<3>::from([1, 2, 3]);
    assert_eq!(v3.index(3), Err(VectorError::IndexOutOfRange));
    assert_eq!(v3.index(4), Err(VectorError::IndexOutOfRange));
    let v65 = Vector::<65>::from([6; 65]);
    assert_eq!(v65.index(65), Err(VectorError::IndexOutOfRange));
    assert_eq!(v65.index(usize::MAX), Err(VectorError::IndexOutOfRange));
}

#[test]
fn default_is_all_zeroes() {
    let v = Vector::<7>::default();
    assert_eq!(v.unpack(), vec![0; 7]);
    assert_eq!(v.sum(), 0);
}

#[test]
fn concrete_add_scenario() {
    let v = Vector::<3>::from([2, 2, 2]).add(Vector::<3>::from([2, 2, 2]));
    assert_eq!(v.unpack(), Vector::<3>::from([4, 4, 4]).unpack());
}
