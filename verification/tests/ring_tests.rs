use worker_lib::ring::{copy_from_ring, copy_to_ring};

#[test]
fn copy_from_ring_without_wrap() {
    let buffer = [1u8, 2, 3, 4, 5, 6, 7, 8];
    let mut output = [0xAAu8; 5];
    copy_from_ring(&mut output, &buffer, 2, 3);
    assert_eq!(output, [3, 4, 5, 0xAA, 0xAA]);
}

#[test]
fn copy_from_ring_wraps_to_the_beginning() {
    let buffer = [1u8, 2, 3, 4];
    let mut output = [0u8; 4];
    copy_from_ring(&mut output, &buffer, 3, 3);
    assert_eq!(output, [4, 1, 2, 0]);
}

#[test]
fn copy_from_ring_whole_ring_from_the_middle() {
    let buffer = [10u8, 20, 30, 40];
    let mut output = [0u8; 4];
    copy_from_ring(&mut output, &buffer, 2, 4);
    assert_eq!(output, [30, 40, 10, 20]);
}

#[test]
fn copy_from_ring_nothing() {
    let buffer = [1u8, 2];
    let mut output = [9u8; 2];
    copy_from_ring(&mut output, &buffer, 1, 0);
    assert_eq!(output, [9, 9]);
}

#[test]
fn copy_to_ring_without_wrap() {
    let mut buffer = [0u8; 6];
    copy_to_ring(&mut buffer, 1, &[7, 8, 9]);
    assert_eq!(buffer, [0, 7, 8, 9, 0, 0]);
}

#[test]
fn copy_to_ring_wraps_to_the_beginning() {
    let mut buffer = [0u8; 4];
    copy_to_ring(&mut buffer, 3, &[9, 8, 7]);
    assert_eq!(buffer, [8, 7, 0, 9]);
}

#[test]
fn copy_to_ring_longer_than_the_ring_overwrites_its_own_start() {
    // One byte goes to the last slot, the other four to the whole ring from
    // the beginning, so the last slot ends with the last byte.
    let mut buffer = [0u8; 4];
    copy_to_ring(&mut buffer, 3, &[1, 2, 3, 4, 5]);
    assert_eq!(buffer, [2, 3, 4, 5]);
}

#[test]
fn copy_to_ring_at_the_end_goes_to_the_beginning() {
    let mut buffer = [0u8; 3];
    copy_to_ring(&mut buffer, 3, &[5, 6]);
    assert_eq!(buffer, [5, 6, 0]);
}

#[test]
fn copy_to_then_from_ring_round_trip() {
    let mut buffer = [0u8; 5];
    copy_to_ring(&mut buffer, 4, &[1, 2, 3, 4]);
    let mut output = [0u8; 4];
    copy_from_ring(&mut output, &buffer, 4, 4);
    assert_eq!(output, [1, 2, 3, 4]);
}
