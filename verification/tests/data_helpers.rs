//! Frame-shaping behaviour on concrete values.  Magnitudes are fixed-point:
//! the value 1.0 is `FIXED_ONE`, so 0.5 is `FIXED_ONE / 2` and so on.

use visualizers::data_helpers::{
    expand_by_clone, map_multiply, scale, scale_to_maximum, shrink_by_averaging, FIXED_ONE,
};

const ONE: u64 = FIXED_ONE;

fn fixed(values: &[u64]) -> Vec<u64> {
    values.iter().map(|v| v * ONE).collect()
}

#[test]
fn test_shrink_by_averaging_1() {
    let mut data = fixed(&[0, 1, 2, 3, 4, 5, 6, 7, 8]);
    shrink_by_averaging(&mut data, 3);
    assert_eq!(data.as_slice(), &[ONE, 4 * ONE, 7 * ONE]);
}

#[test]
fn test_shrink_by_averaging_2() {
    let mut data = fixed(&[0, 1, 2, 3, 4, 5, 6, 7, 8, 9, 10]);
    shrink_by_averaging(&mut data, 3);
    assert_eq!(data.as_slice(), &[3 * ONE / 2, 5 * ONE, 17 * ONE / 2]);
}

#[test]
fn test_shrink_by_averaging_3() {
    let mut data = fixed(&[0, 1, 2, 3, 4, 5, 6, 7, 8, 9, 10]);
    shrink_by_averaging(&mut data, 2);
    assert_eq!(data.as_slice(), &[5 * ONE / 2, 8 * ONE]);
}

#[test]
fn test_shrink_by_averaging_4() {
    let mut data = fixed(&[0, 1, 2, 3, 4, 5, 6, 7]);
    shrink_by_averaging(&mut data, 2);
    assert_eq!(data.as_slice(), &[3 * ONE / 2, 11 * ONE / 2]);
}

#[test]
fn test_shrink_by_averaging_5() {
    let mut data: Vec<u64> = (0..256).map(|f| f * ONE).collect();
    shrink_by_averaging(&mut data, 30);
    assert_eq!(data[data.len() - 1], 251 * ONE);
}

#[test]
fn test_expand_by_clone_1() {
    let mut data = fixed(&[0, 1, 2]);
    data = expand_by_clone(&mut data, 5);
    assert_eq!(data.as_slice(), &[0, 0, ONE, ONE, 2 * ONE]);
}

#[test]
fn test_expand_by_clone_2() {
    let mut data = fixed(&[0, 1, 2]);
    data = expand_by_clone(&mut data, 6);
    assert_eq!(data.as_slice(), &[0, 0, ONE, ONE, 2 * ONE, 2 * ONE]);
}

#[test]
fn test_scale_1() {
    let mut data = fixed(&[0, 1, 2]);
    scale(&mut data);
    assert_eq!(data.as_slice(), &[0, ONE / 2, ONE]);
}

#[test]
fn test_scale_2() {
    let mut data = fixed(&[2, 2, 2]);
    scale(&mut data);
    assert_eq!(data.as_slice(), &[ONE, ONE, ONE]);
}

#[test]
fn test_scale_3() {
    let mut data = fixed(&[0, 0, 0]);
    scale(&mut data);
    assert_eq!(data.as_slice(), &[0, 0, 0]);
}

#[test]
fn test_map_multiply() {
    let mut data = fixed(&[1, 2, 3]);
    map_multiply(&mut data, 2 * ONE);
    assert_eq!(data.as_slice(), &[2 * ONE, 4 * ONE, 6 * ONE]);
}

#[test]
fn shrink_keeps_target_length_and_covers_input() {
    // Shrinking always returns exactly n cells, for every divisibility.
    for len in 1..40u64 {
        for n in 1..=len {
            let mut data: Vec<u64> = (0..len).map(|v| v * ONE).collect();
            shrink_by_averaging(&mut data, n as usize);
            assert_eq!(data.len(), n as usize);
        }
    }
}

#[test]
fn shrink_at_equal_length_is_identity() {
    let mut data = fixed(&[5, 6, 7]);
    shrink_by_averaging(&mut data, 3);
    assert_eq!(data.as_slice(), &[5 * ONE, 6 * ONE, 7 * ONE]);
}

#[test]
fn shrink_twice_with_same_target_is_idempotent() {
    let mut once = fixed(&[0, 1, 2, 3, 4, 5, 6, 7, 8, 9, 10]);
    shrink_by_averaging(&mut once, 4);
    let mut twice = once.clone();
    shrink_by_averaging(&mut twice, 4);
    assert_eq!(once, twice);
}

#[test]
fn expand_distributes_extras_evenly() {
    let mut data = fixed(&[1, 2, 3]);
    let out = expand_by_clone(&mut data, 7);
    // floor(7 / 3) = 2 copies each; 7 mod 3 = 1 extra at gap 3, so cell 0.
    assert_eq!(
        out.as_slice(),
        &[ONE, ONE, ONE, 2 * ONE, 2 * ONE, 3 * ONE, 3 * ONE]
    );
    // The input itself is left unchanged.
    assert_eq!(data.as_slice(), &[ONE, 2 * ONE, 3 * ONE]);
}

#[test]
fn expand_always_reaches_target_length() {
    for len in 1..20u64 {
        for n in (len + 1)..60 {
            let mut data: Vec<u64> = (0..len).map(|v| v * ONE).collect();
            let out = expand_by_clone(&mut data, n as usize);
            assert_eq!(out.len(), n as usize);
        }
    }
}

#[test]
fn scale_twice_is_idempotent() {
    let mut once = fixed(&[3, 1, 4, 1, 5]);
    scale(&mut once);
    let mut twice = once.clone();
    scale(&mut twice);
    assert_eq!(once, twice);
}

#[test]
fn scale_to_maximum_zero_is_noop() {
    let mut data = fixed(&[1, 2, 3]);
    scale_to_maximum(&mut data, 0);
    assert_eq!(data.as_slice(), &[ONE, 2 * ONE, 3 * ONE]);
}

#[test]
fn scale_to_maximum_divides_exactly() {
    let mut data = fixed(&[1, 2, 4]);
    scale_to_maximum(&mut data, 4 * ONE);
    assert_eq!(data.as_slice(), &[ONE / 4, ONE / 2, ONE]);
}
