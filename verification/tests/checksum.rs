use vectornav::checksum::compute_checksum;

/// The checksum is a pure function of the bytes: equal inputs give equal
/// outputs, on fresh copies and across calls.
#[test]
fn checksum_deterministic() {
    let data: Vec<u8> = (0u8..200).collect();
    let copy = data.clone();
    let a = compute_checksum(&data, 0, data.len());
    let b = compute_checksum(&copy, 0, copy.len());
    let c = compute_checksum(&data, 0, data.len());
    assert_eq!(a, b);
    assert_eq!(a, c);
}

/// Flipping any single bit of any byte in range changes the checksum.
#[test]
fn checksum_changes_on_single_bit_flip() {
    let data: Vec<u8> = (0u8..50).map(|i| i.wrapping_mul(37).wrapping_add(11)).collect();
    let base = compute_checksum(&data, 0, data.len());
    for pos in 0..data.len() {
        for bit in 0..8 {
            let mut changed = data.clone();
            changed[pos] ^= 1u8 << bit;
            let flipped = compute_checksum(&changed, 0, changed.len());
            assert_ne!(base, flipped, "collision at byte {} bit {}", pos, bit);
        }
    }
}

/// An empty range has checksum zero, and the range bounds are honoured.
#[test]
fn checksum_range() {
    let data: Vec<u8> = vec![1, 2, 3, 4, 5];
    assert_eq!(compute_checksum(&data, 2, 2), 0);
    // the leading byte is outside the range, so changing it changes nothing
    let mut changed = data.clone();
    changed[0] = 0xFF;
    assert_eq!(
        compute_checksum(&data, 1, data.len()),
        compute_checksum(&changed, 1, changed.len())
    );
}
