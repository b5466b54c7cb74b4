//! The device's 16-bit checksum.
//!
//! The algorithm is a byte-swap-then-mix variant related to, but not the same
//! as, CRC-16/CCITT. It must match the producing device bit for bit, so it is
//! kept exactly as the device computes it: for each byte, swap the two bytes
//! of the running accumulator, fold the input byte into the low byte, then
//! apply three self-xor mixing steps. On the wire the final value is sent big
//! endian, high byte first.

use vstd::prelude::*;

verus! {

/// One step of the running checksum: byte-swap the accumulator, xor the next
/// input byte into the low byte, then mix with three shifted self-xors. All
/// operations are on 16 bits with the usual truncation.
pub open spec fn crc_step(crc: u16, b: u8) -> u16 {
    let swapped = (crc >> 8) | (crc << 8);
    let folded = swapped ^ (b as u16);
    let mix1 = folded ^ ((folded & 0xFF) >> 4);
    let mix2 = mix1 ^ (mix1 << 12);
    mix2 ^ ((mix2 & 0x00FF) << 5)
}

/// Checksum of a byte sequence: `crc_step` folded over the bytes in order,
/// starting from a zero accumulator.
pub open spec fn crc_of(bytes: Seq<u8>) -> u16
    decreases bytes.len(),
{
    if bytes.len() == 0 {
        0
    } else {
        crc_step(crc_of(bytes.drop_last()), bytes.last())
    }
}

/// Computes the checksum of `bytes[from..to]`.
pub fn compute_checksum(bytes: &[u8], from: usize, to: usize) -> (r: u16)
    requires
        from <= to <= bytes@.len(),
    ensures
        r == crc_of(bytes@.subrange(from as int, to as int)),
{
    let mut crc: u16 = 0;
    let mut i: usize = from;
    while i < to
        invariant
            from <= i <= to <= bytes@.len(),
            crc == crc_of(bytes@.subrange(from as int, i as int)),
        decreases to - i,
    {
        let b = bytes[i];
        crc = (crc >> 8) | (crc << 8);
        crc = crc ^ (b as u16);
        crc = crc ^ ((crc & 0xFF) >> 4);
        crc = crc ^ (crc << 12);
        crc = crc ^ ((crc & 0x00FF) << 5);
        i = i + 1;
        proof {
            let done = bytes@.subrange(from as int, i as int);
            assert(done.drop_last() =~= bytes@.subrange(from as int, i - 1));
            assert(done.last() == bytes@[i - 1]);
        }
    }
    proof {
        assert(bytes@.subrange(from as int, i as int) =~= bytes@.subrange(
            from as int,
            to as int,
        ));
    }
    crc
}

/// For a fixed accumulator, a step with a different input byte gives a
/// different result: every mixing stage is invertible.
pub proof fn lemma_crc_step_byte_injective(crc: u16, b1: u8, b2: u8)
    by (bit_vector)
    requires
        b1 != b2,
    ensures
        crc_step(crc, b1) != crc_step(crc, b2),
{
}

/// For a fixed input byte, a step from a different accumulator gives a
/// different result.
pub proof fn lemma_crc_step_acc_injective(c1: u16, c2: u16, b: u8)
    by (bit_vector)
    requires
        c1 != c2,
    ensures
        crc_step(c1, b) != crc_step(c2, b),
{
}

/// Changing any single byte of the input changes the checksum: the step
/// function is injective in both arguments, so a difference introduced at any
/// position survives to the final accumulator.
pub proof fn lemma_crc_single_byte_change(s1: Seq<u8>, s2: Seq<u8>, k: int)
    requires
        s1.len() == s2.len(),
        0 <= k < s1.len(),
        s1[k] != s2[k],
        forall|i: int| 0 <= i < s1.len() && i != k ==> s1[i] == s2[i],
    ensures
        crc_of(s1) != crc_of(s2),
    decreases s1.len(),
{
    if k == s1.len() - 1 {
        assert(s1.drop_last() =~= s2.drop_last());
        lemma_crc_step_byte_injective(crc_of(s1.drop_last()), s1.last(), s2.last());
    } else {
        lemma_crc_single_byte_change(s1.drop_last(), s2.drop_last(), k);
        lemma_crc_step_acc_injective(crc_of(s1.drop_last()), crc_of(s2.drop_last()), s1.last());
    }
}

} // verus!
