use thumbmatch::hash::{count_ones, PerceptualHash};

fn h(bytes: &[u8]) -> PerceptualHash {
    PerceptualHash { bytes: bytes.to_vec() }
}

#[test]
fn count_ones_of_bytes() {
    assert_eq!(count_ones(0), 0);
    assert_eq!(count_ones(0b1011_0001), 4);
    assert_eq!(count_ones(0xFF), 8);
}

#[test]
fn distance_counts_differing_bits() {
    let a = h(&[0b0000_1111, 0xFF]);
    let b = h(&[0b0000_0000, 0x0F]);
    assert_eq!(a.distance(&b), 8);
}

#[test]
fn distance_is_symmetric_and_zero_on_self() {
    let a = h(&[1, 2, 3, 4, 5, 6, 7, 8]);
    let b = h(&[8, 7, 6, 5, 4, 3, 2, 1]);
    assert_eq!(a.distance(&b), b.distance(&a));
    assert_eq!(a.distance(&a), 0);
    assert_eq!(b.distance(&b), 0);
}

#[test]
fn distance_over_common_length() {
    let a = h(&[0xFF]);
    let b = h(&[0x00, 0xFF, 0xFF]);
    assert_eq!(a.distance(&b), 8);
    assert_eq!(h(&[]).distance(&b), 0);
}
