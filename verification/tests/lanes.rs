use yuri::{len, mpow2};

#[test]
fn lane_width_rounds_up_to_a_power_of_two() {
    assert_eq!(mpow2::<0>(), 1);
    assert_eq!(mpow2::<1>(), 1);
    assert_eq!(mpow2::<2>(), 2);
    assert_eq!(mpow2::<3>(), 4);
    assert_eq!(mpow2::<5>(), 8);
    assert_eq!(mpow2::<8>(), 8);
    assert_eq!(mpow2::<9>(), 16);
    assert_eq!(mpow2::<17>(), 32);
    assert_eq!(mpow2::<33>(), 64);
    assert_eq!(mpow2::<63>(), 64);
    assert_eq!(mpow2::<64>(), 64);
    assert_eq!(mpow2::<65>(), 64);
    assert_eq!(mpow2::<999>(), 64);
}

#[test]
fn chunk_count_covers_the_dimension() {
    // The empty dimension keeps a single all-pad register.
    assert_eq!(len::<0>(), 1);
    assert_eq!(len::<1>(), 1);
    assert_eq!(len::<3>(), 1);
    assert_eq!(len::<64>(), 1);
    assert_eq!(len::<65>(), 2);
    assert_eq!(len::<128>(), 2);
    assert_eq!(len::<129>(), 3);
    assert_eq!(len::<999>(), 16);
}
