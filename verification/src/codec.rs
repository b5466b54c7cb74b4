//! The fixed-layout telemetry record of the supported configuration.
//!
//! The 144-byte payload packs the record's fields back to back, without
//! padding, in the device's native little-endian byte order. The channels
//! that the device defines as floating point are carried here as their raw
//! IEEE-754 bit patterns, in unsigned integers of the same width: the codec's
//! business is the binary layout alone, and the numeric interpretation of a
//! channel is left to the caller, who can convert a pattern with the standard
//! `from_bits`/`to_bits` conversions.

use vstd::prelude::*;

verus! {

/// The 16-bit value stored little endian at offset `i`.
pub open spec fn le16_at(s: Seq<u8>, i: int) -> u16 {
    (s[i] as u16) | ((s[i + 1] as u16) << 8)
}

/// The 32-bit value stored little endian at offset `i`.
pub open spec fn le32_at(s: Seq<u8>, i: int) -> u32 {
    (s[i] as u32) | ((s[i + 1] as u32) << 8) | ((s[i + 2] as u32) << 16) | ((s[i + 3] as u32)
        << 24)
}

/// The 64-bit value stored little endian at offset `i`.
pub open spec fn le64_at(s: Seq<u8>, i: int) -> u64 {
    (s[i] as u64) | ((s[i + 1] as u64) << 8) | ((s[i + 2] as u64) << 16) | ((s[i + 3] as u64)
        << 24) | ((s[i + 4] as u64) << 32) | ((s[i + 5] as u64) << 40) | ((s[i + 6] as u64) << 48)
        | ((s[i + 7] as u64) << 56)
}

/// The two little-endian bytes of a 16-bit value.
pub open spec fn le16_bytes(x: u16) -> Seq<u8> {
    seq![x as u8, (x >> 8) as u8]
}

/// The four little-endian bytes of a 32-bit value.
pub open spec fn le32_bytes(x: u32) -> Seq<u8> {
    seq![x as u8, (x >> 8) as u8, (x >> 16) as u8, (x >> 24) as u8]
}

/// The eight little-endian bytes of a 64-bit value.
pub open spec fn le64_bytes(x: u64) -> Seq<u8> {
    seq![
        x as u8,
        (x >> 8) as u8,
        (x >> 16) as u8,
        (x >> 24) as u8,
        (x >> 32) as u8,
        (x >> 40) as u8,
        (x >> 48) as u8,
        (x >> 56) as u8,
    ]
}

/// Reading back the two little-endian bytes of a value gives the value.
pub proof fn lemma_le16_read(s: Seq<u8>, o: int, x: u16)
    requires
        0 <= o,
        o + 2 <= s.len(),
        s.subrange(o, o + 2) == le16_bytes(x),
    ensures
        le16_at(s, o) == x,
{
    let b0 = s[o];
    let b1 = s[o + 1];
    assert(b0 == s.subrange(o, o + 2)[0]);
    assert(b1 == s.subrange(o, o + 2)[1]);
    assert(((b0 as u16) | ((b1 as u16) << 8)) == x) by (bit_vector)
        requires
            b0 == x as u8,
            b1 == (x >> 8) as u8,
    ;
}

/// Reading back the four little-endian bytes of a value gives the value.
pub proof fn lemma_le32_read(s: Seq<u8>, o: int, x: u32)
    requires
        0 <= o,
        o + 4 <= s.len(),
        s.subrange(o, o + 4) == le32_bytes(x),
    ensures
        le32_at(s, o) == x,
{
    let b0 = s[o];
    let b1 = s[o + 1];
    let b2 = s[o + 2];
    let b3 = s[o + 3];
    assert(b0 == s.subrange(o, o + 4)[0]);
    assert(b1 == s.subrange(o, o + 4)[1]);
    assert(b2 == s.subrange(o, o + 4)[2]);
    assert(b3 == s.subrange(o, o + 4)[3]);
    assert(((b0 as u32) | ((b1 as u32) << 8) | ((b2 as u32) << 16) | ((b3 as u32) << 24)) == x)
        by (bit_vector)
        requires
            b0 == x as u8,
            b1 == (x >> 8) as u8,
            b2 == (x >> 16) as u8,
            b3 == (x >> 24) as u8,
    ;
}

/// Reading back the eight little-endian bytes of a value gives the value.
pub proof fn lemma_le64_read(s: Seq<u8>, o: int, x: u64)
    requires
        0 <= o,
        o + 8 <= s.len(),
        s.subrange(o, o + 8) == le64_bytes(x),
    ensures
        le64_at(s, o) == x,
{
    let b0 = s[o];
    let b1 = s[o + 1];
    let b2 = s[o + 2];
    let b3 = s[o + 3];
    let b4 = s[o + 4];
    let b5 = s[o + 5];
    let b6 = s[o + 6];
    let b7 = s[o + 7];
    assert(b0 == s.subrange(o, o + 8)[0]);
    assert(b1 == s.subrange(o, o + 8)[1]);
    assert(b2 == s.subrange(o, o + 8)[2]);
    assert(b3 == s.subrange(o, o + 8)[3]);
    assert(b4 == s.subrange(o, o + 8)[4]);
    assert(b5 == s.subrange(o, o + 8)[5]);
    assert(b6 == s.subrange(o, o + 8)[6]);
    assert(b7 == s.subrange(o, o + 8)[7]);
    assert(((b0 as u64) | ((b1 as u64) << 8) | ((b2 as u64) << 16) | ((b3 as u64) << 24) | ((
    b4 as u64) << 32) | ((b5 as u64) << 40) | ((b6 as u64) << 48) | ((b7 as u64) << 56)) == x)
        by (bit_vector)
        requires
            b0 == x as u8,
            b1 == (x >> 8) as u8,
            b2 == (x >> 16) as u8,
            b3 == (x >> 24) as u8,
            b4 == (x >> 32) as u8,
            b5 == (x >> 40) as u8,
            b6 == (x >> 48) as u8,
            b7 == (x >> 56) as u8,
    ;
}

/// Error of the payload codec.
#[derive(Clone, Copy, PartialEq, Eq, Structural, Debug)]
pub enum CodecError {
    /// The byte range does not have the supported configuration's length.
    LengthMismatch,
}

/// The telemetry record of the single supported output configuration.
///
/// Fields appear in wire order; the `_0`/`_1`/`_2` suffixes are the three
/// components of a triple. Integer-valued channels are plain integers; the
/// float-valued channels hold raw IEEE-754 bit patterns of the same width.
#[derive(Clone, Copy, PartialEq, Eq, Structural, Debug)]
pub struct VectornavData {
    /// Time since startup, nanoseconds.
    pub timestamp: u64,
    /// Yaw, pitch, roll: three 32-bit float patterns.
    pub ypr_0: u32,
    pub ypr_1: u32,
    pub ypr_2: u32,
    /// Angular rates: three 32-bit float patterns.
    pub angular_rates_0: u32,
    pub angular_rates_1: u32,
    pub angular_rates_2: u32,
    /// Position: three 64-bit float patterns.
    pub position_0: u64,
    pub position_1: u64,
    pub position_2: u64,
    /// Velocity: three 32-bit float patterns.
    pub velocity_0: u32,
    pub velocity_1: u32,
    pub velocity_2: u32,
    /// Acceleration: three 32-bit float patterns.
    pub accel_0: u32,
    pub accel_1: u32,
    pub accel_2: u32,
    /// GPS time of week.
    pub tow: u64,
    /// Number of satellites used.
    pub num_sats: u8,
    /// GPS fix type.
    pub fix: u8,
    /// Position uncertainty: three 32-bit float patterns.
    pub pos_u_0: u32,
    pub pos_u_1: u32,
    pub pos_u_2: u32,
    /// Velocity uncertainty: a 32-bit float pattern.
    pub vel_u: u32,
    /// Linear acceleration: three 32-bit float patterns.
    pub lin_accel_0: u32,
    pub lin_accel_1: u32,
    pub lin_accel_2: u32,
    /// Attitude uncertainty: three 32-bit float patterns.
    pub ypr_u_0: u32,
    pub ypr_u_1: u32,
    pub ypr_u_2: u32,
    /// INS status word.
    pub ins_status: u16,
    /// Body-frame velocity: three 32-bit float patterns.
    pub vel_body_0: u32,
    pub vel_body_1: u32,
    pub vel_body_2: u32,
}

/// The record stored in a 144-byte payload.
#[verifier::opaque]
pub open spec fn decode_spec(p: Seq<u8>) -> VectornavData {
    VectornavData {
        timestamp: le64_at(p, 0),
        ypr_0: le32_at(p, 8),
        ypr_1: le32_at(p, 12),
        ypr_2: le32_at(p, 16),
        angular_rates_0: le32_at(p, 20),
        angular_rates_1: le32_at(p, 24),
        angular_rates_2: le32_at(p, 28),
        position_0: le64_at(p, 32),
        position_1: le64_at(p, 40),
        position_2: le64_at(p, 48),
        velocity_0: le32_at(p, 56),
        velocity_1: le32_at(p, 60),
        velocity_2: le32_at(p, 64),
        accel_0: le32_at(p, 68),
        accel_1: le32_at(p, 72),
        accel_2: le32_at(p, 76),
        tow: le64_at(p, 80),
        num_sats: p[88],
        fix: p[89],
        pos_u_0: le32_at(p, 90),
        pos_u_1: le32_at(p, 94),
        pos_u_2: le32_at(p, 98),
        vel_u: le32_at(p, 102),
        lin_accel_0: le32_at(p, 106),
        lin_accel_1: le32_at(p, 110),
        lin_accel_2: le32_at(p, 114),
        ypr_u_0: le32_at(p, 118),
        ypr_u_1: le32_at(p, 122),
        ypr_u_2: le32_at(p, 126),
        ins_status: le16_at(p, 130),
        vel_body_0: le32_at(p, 132),
        vel_body_1: le32_at(p, 136),
        vel_body_2: le32_at(p, 140),
    }
}

/// The 144 payload bytes of a record, fields back to back, little endian.
pub open spec fn encode_spec(d: VectornavData) -> Seq<u8> {
    le64_bytes(d.timestamp)
        + le32_bytes(d.ypr_0)
        + le32_bytes(d.ypr_1)
        + le32_bytes(d.ypr_2)
        + le32_bytes(d.angular_rates_0)
        + le32_bytes(d.angular_rates_1)
        + le32_bytes(d.angular_rates_2)
        + le64_bytes(d.position_0)
        + le64_bytes(d.position_1)
        + le64_bytes(d.position_2)
        + le32_bytes(d.velocity_0)
        + le32_bytes(d.velocity_1)
        + le32_bytes(d.velocity_2)
        + le32_bytes(d.accel_0)
        + le32_bytes(d.accel_1)
        + le32_bytes(d.accel_2)
        + le64_bytes(d.tow)
        + seq![d.num_sats]
        + seq![d.fix]
        + le32_bytes(d.pos_u_0)
        + le32_bytes(d.pos_u_1)
        + le32_bytes(d.pos_u_2)
        + le32_bytes(d.vel_u)
        + le32_bytes(d.lin_accel_0)
        + le32_bytes(d.lin_accel_1)
        + le32_bytes(d.lin_accel_2)
        + le32_bytes(d.ypr_u_0)
        + le32_bytes(d.ypr_u_1)
        + le32_bytes(d.ypr_u_2)
        + le16_bytes(d.ins_status)
        + le32_bytes(d.vel_body_0)
        + le32_bytes(d.vel_body_1)
        + le32_bytes(d.vel_body_2)
}

/// The encoding is 144 bytes long.
proof fn lemma_encode_len(d: VectornavData)
    ensures
        encode_spec(d).len() == 144,
{
}

/// Reads back one stretch of the encoded fields.
#[verifier::rlimit(100)]
proof fn lemma_encode_fields_1(d: VectornavData)
    ensures
        le64_at(encode_spec(d), 0) == d.timestamp,
        le32_at(encode_spec(d), 8) == d.ypr_0,
        le32_at(encode_spec(d), 12) == d.ypr_1,
        le32_at(encode_spec(d), 16) == d.ypr_2,
        le32_at(encode_spec(d), 20) == d.angular_rates_0,
        le32_at(encode_spec(d), 24) == d.angular_rates_1,
        le32_at(encode_spec(d), 28) == d.angular_rates_2,
{
    let e = encode_spec(d);
    lemma_encode_len(d);
    assert(e.subrange(0, 8) =~= le64_bytes(d.timestamp));
    lemma_le64_read(e, 0, d.timestamp);
    assert(e.subrange(8, 12) =~= le32_bytes(d.ypr_0));
    lemma_le32_read(e, 8, d.ypr_0);
    assert(e.subrange(12, 16) =~= le32_bytes(d.ypr_1));
    lemma_le32_read(e, 12, d.ypr_1);
    assert(e.subrange(16, 20) =~= le32_bytes(d.ypr_2));
    lemma_le32_read(e, 16, d.ypr_2);
    assert(e.subrange(20, 24) =~= le32_bytes(d.angular_rates_0));
    lemma_le32_read(e, 20, d.angular_rates_0);
    assert(e.subrange(24, 28) =~= le32_bytes(d.angular_rates_1));
    lemma_le32_read(e, 24, d.angular_rates_1);
    assert(e.subrange(28, 32) =~= le32_bytes(d.angular_rates_2));
    lemma_le32_read(e, 28, d.angular_rates_2);
}

/// Reads back one stretch of the encoded fields.
#[verifier::rlimit(100)]
proof fn lemma_encode_fields_2(d: VectornavData)
    ensures
        le64_at(encode_spec(d), 32) == d.position_0,
        le64_at(encode_spec(d), 40) == d.position_1,
        le64_at(encode_spec(d), 48) == d.position_2,
        le32_at(encode_spec(d), 56) == d.velocity_0,
        le32_at(encode_spec(d), 60) == d.velocity_1,
        le32_at(encode_spec(d), 64) == d.velocity_2,
        le32_at(encode_spec(d), 68) == d.accel_0,
        le32_at(encode_spec(d), 72) == d.accel_1,
        le32_at(encode_spec(d), 76) == d.accel_2,
{
    let e = encode_spec(d);
    lemma_encode_len(d);
    assert(e.subrange(32, 40) =~= le64_bytes(d.position_0));
    lemma_le64_read(e, 32, d.position_0);
    assert(e.subrange(40, 48) =~= le64_bytes(d.position_1));
    lemma_le64_read(e, 40, d.position_1);
    assert(e.subrange(48, 56) =~= le64_bytes(d.position_2));
    lemma_le64_read(e, 48, d.position_2);
    assert(e.subrange(56, 60) =~= le32_bytes(d.velocity_0));
    lemma_le32_read(e, 56, d.velocity_0);
    assert(e.subrange(60, 64) =~= le32_bytes(d.velocity_1));
    lemma_le32_read(e, 60, d.velocity_1);
    assert(e.subrange(64, 68) =~= le32_bytes(d.velocity_2));
    lemma_le32_read(e, 64, d.velocity_2);
    assert(e.subrange(68, 72) =~= le32_bytes(d.accel_0));
    lemma_le32_read(e, 68, d.accel_0);
    assert(e.subrange(72, 76) =~= le32_bytes(d.accel_1));
    lemma_le32_read(e, 72, d.accel_1);
    assert(e.subrange(76, 80) =~= le32_bytes(d.accel_2));
    lemma_le32_read(e, 76, d.accel_2);
}

/// Reads back one stretch of the encoded fields.
#[verifier::rlimit(100)]
proof fn lemma_encode_fields_3(d: VectornavData)
    ensures
        le64_at(encode_spec(d), 80) == d.tow,
        encode_spec(d)[88] == d.num_sats,
        encode_spec(d)[89] == d.fix,
        le32_at(encode_spec(d), 90) == d.pos_u_0,
        le32_at(encode_spec(d), 94) == d.pos_u_1,
        le32_at(encode_spec(d), 98) == d.pos_u_2,
        le32_at(encode_spec(d), 102) == d.vel_u,
        le32_at(encode_spec(d), 106) == d.lin_accel_0,
{
    let e = encode_spec(d);
    lemma_encode_len(d);
    assert(e.subrange(80, 88) =~= le64_bytes(d.tow));
    lemma_le64_read(e, 80, d.tow);
    assert(e[88] == d.num_sats);
    assert(e[89] == d.fix);
    assert(e.subrange(90, 94) =~= le32_bytes(d.pos_u_0));
    lemma_le32_read(e, 90, d.pos_u_0);
    assert(e.subrange(94, 98) =~= le32_bytes(d.pos_u_1));
    lemma_le32_read(e, 94, d.pos_u_1);
    assert(e.subrange(98, 102) =~= le32_bytes(d.pos_u_2));
    lemma_le32_read(e, 98, d.pos_u_2);
    assert(e.subrange(102, 106) =~= le32_bytes(d.vel_u));
    lemma_le32_read(e, 102, d.vel_u);
    assert(e.subrange(106, 110) =~= le32_bytes(d.lin_accel_0));
    lemma_le32_read(e, 106, d.lin_accel_0);
}

/// Reads back one stretch of the encoded fields.
#[verifier::rlimit(100)]
proof fn lemma_encode_fields_4(d: VectornavData)
    ensures
        le32_at(encode_spec(d), 110) == d.lin_accel_1,
        le32_at(encode_spec(d), 114) == d.lin_accel_2,
        le32_at(encode_spec(d), 118) == d.ypr_u_0,
        le32_at(encode_spec(d), 122) == d.ypr_u_1,
        le32_at(encode_spec(d), 126) == d.ypr_u_2,
        le16_at(encode_spec(d), 130) == d.ins_status,
        le32_at(encode_spec(d), 132) == d.vel_body_0,
        le32_at(encode_spec(d), 136) == d.vel_body_1,
        le32_at(encode_spec(d), 140) == d.vel_body_2,
{
    let e = encode_spec(d);
    lemma_encode_len(d);
    assert(e.subrange(110, 114) =~= le32_bytes(d.lin_accel_1));
    lemma_le32_read(e, 110, d.lin_accel_1);
    assert(e.subrange(114, 118) =~= le32_bytes(d.lin_accel_2));
    lemma_le32_read(e, 114, d.lin_accel_2);
    assert(e.subrange(118, 122) =~= le32_bytes(d.ypr_u_0));
    lemma_le32_read(e, 118, d.ypr_u_0);
    assert(e.subrange(122, 126) =~= le32_bytes(d.ypr_u_1));
    lemma_le32_read(e, 122, d.ypr_u_1);
    assert(e.subrange(126, 130) =~= le32_bytes(d.ypr_u_2));
    lemma_le32_read(e, 126, d.ypr_u_2);
    assert(e.subrange(130, 132) =~= le16_bytes(d.ins_status));
    lemma_le16_read(e, 130, d.ins_status);
    assert(e.subrange(132, 136) =~= le32_bytes(d.vel_body_0));
    lemma_le32_read(e, 132, d.vel_body_0);
    assert(e.subrange(136, 140) =~= le32_bytes(d.vel_body_1));
    lemma_le32_read(e, 136, d.vel_body_1);
    assert(e.subrange(140, 144) =~= le32_bytes(d.vel_body_2));
    lemma_le32_read(e, 140, d.vel_body_2);
}

/// Round trip: decoding the encoding of any representable record gives the
/// record back.
pub proof fn lemma_codec_round_trip(d: VectornavData)
    ensures
        encode_spec(d).len() == 144,
        decode_spec(encode_spec(d)) == d,
{
    reveal(decode_spec);
    lemma_encode_len(d);
    lemma_encode_fields_1(d);
    lemma_encode_fields_2(d);
    lemma_encode_fields_3(d);
    lemma_encode_fields_4(d);
}

/// Reads the 16-bit value stored little endian at `i`.
fn read_u16_le(p: &[u8], i: usize) -> (r: u16)
    requires
        i + 2 <= p@.len(),
    ensures
        r == le16_at(p@, i as int),
{
    (p[i] as u16) | ((p[i + 1] as u16) << 8)
}

/// Reads the 32-bit value stored little endian at `i`.
fn read_u32_le(p: &[u8], i: usize) -> (r: u32)
    requires
        i + 4 <= p@.len(),
    ensures
        r == le32_at(p@, i as int),
{
    (p[i] as u32) | ((p[i + 1] as u32) << 8) | ((p[i + 2] as u32) << 16) | ((p[i + 3] as u32)
        << 24)
}

/// Reads the 64-bit value stored little endian at `i`.
fn read_u64_le(p: &[u8], i: usize) -> (r: u64)
    requires
        i + 8 <= p@.len(),
    ensures
        r == le64_at(p@, i as int),
{
    (p[i] as u64) | ((p[i + 1] as u64) << 8) | ((p[i + 2] as u64) << 16) | ((p[i + 3] as u64)
        << 24) | ((p[i + 4] as u64) << 32) | ((p[i + 5] as u64) << 40) | ((p[i + 6] as u64) << 48)
        | ((p[i + 7] as u64) << 56)
}

/// Appends the two little-endian bytes of `x`.
fn push_u16_le(out: &mut Vec<u8>, x: u16)
    ensures
        final(out)@ == old(out)@ + le16_bytes(x),
{
    out.push(x as u8);
    out.push((x >> 8) as u8);
    proof {
        assert(out@ =~= old(out)@ + le16_bytes(x));
    }
}

/// Appends the four little-endian bytes of `x`.
fn push_u32_le(out: &mut Vec<u8>, x: u32)
    ensures
        final(out)@ == old(out)@ + le32_bytes(x),
{
    out.push(x as u8);
    out.push((x >> 8) as u8);
    out.push((x >> 16) as u8);
    out.push((x >> 24) as u8);
    proof {
        assert(out@ =~= old(out)@ + le32_bytes(x));
    }
}

/// Appends the eight little-endian bytes of `x`.
fn push_u64_le(out: &mut Vec<u8>, x: u64)
    ensures
        final(out)@ == old(out)@ + le64_bytes(x),
{
    out.push(x as u8);
    out.push((x >> 8) as u8);
    out.push((x >> 16) as u8);
    out.push((x >> 24) as u8);
    out.push((x >> 32) as u8);
    out.push((x >> 40) as u8);
    out.push((x >> 48) as u8);
    out.push((x >> 56) as u8);
    proof {
        assert(out@ =~= old(out)@ + le64_bytes(x));
    }
}

/// The reference sample record used for constructed outgoing frames. The
/// float-valued channels hold the bit patterns of small whole numbers.
pub open spec fn sample_record() -> VectornavData {
    VectornavData {
        timestamp: 100_000,
        ypr_0: 0xC040_0000,
        ypr_1: 0xC000_0000,
        ypr_2: 0xBF80_0000,
        angular_rates_0: 0x3F80_0000,
        angular_rates_1: 0x4000_0000,
        angular_rates_2: 0x4040_0000,
        position_0: 0x4010_0000_0000_0000,
        position_1: 0x4014_0000_0000_0000,
        position_2: 0x4018_0000_0000_0000,
        velocity_0: 0x40E0_0000,
        velocity_1: 0x4100_0000,
        velocity_2: 0x4110_0000,
        accel_0: 0x4120_0000,
        accel_1: 0x4130_0000,
        accel_2: 0x4140_0000,
        tow: 12_345_678,
        num_sats: 42,
        fix: 1,
        pos_u_0: 0x4150_0000,
        pos_u_1: 0x4160_0000,
        pos_u_2: 0x4170_0000,
        vel_u: 0x4180_0000,
        lin_accel_0: 0x4188_0000,
        lin_accel_1: 0x4190_0000,
        lin_accel_2: 0x4198_0000,
        ypr_u_0: 0x41A0_0000,
        ypr_u_1: 0x41A8_0000,
        ypr_u_2: 0x41B0_0000,
        ins_status: 6969,
        vel_body_0: 0x41B8_0000,
        vel_body_1: 0x41C0_0000,
        vel_body_2: 0x41C8_0000,
    }
}

/// The all-zero record.
pub open spec fn zero_record() -> VectornavData {
    VectornavData {
        timestamp: 0,
        ypr_0: 0,
        ypr_1: 0,
        ypr_2: 0,
        angular_rates_0: 0,
        angular_rates_1: 0,
        angular_rates_2: 0,
        position_0: 0,
        position_1: 0,
        position_2: 0,
        velocity_0: 0,
        velocity_1: 0,
        velocity_2: 0,
        accel_0: 0,
        accel_1: 0,
        accel_2: 0,
        tow: 0,
        num_sats: 0,
        fix: 0,
        pos_u_0: 0,
        pos_u_1: 0,
        pos_u_2: 0,
        vel_u: 0,
        lin_accel_0: 0,
        lin_accel_1: 0,
        lin_accel_2: 0,
        ypr_u_0: 0,
        ypr_u_1: 0,
        ypr_u_2: 0,
        ins_status: 0,
        vel_body_0: 0,
        vel_body_1: 0,
        vel_body_2: 0,
    }
}

impl VectornavData {
    /// The reference sample record.
    pub fn new() -> (r: VectornavData)
        ensures
            r == sample_record(),
    {
        VectornavData {
            timestamp: 100_000,
            ypr_0: 0xC040_0000,
            ypr_1: 0xC000_0000,
            ypr_2: 0xBF80_0000,
            angular_rates_0: 0x3F80_0000,
            angular_rates_1: 0x4000_0000,
            angular_rates_2: 0x4040_0000,
            position_0: 0x4010_0000_0000_0000,
            position_1: 0x4014_0000_0000_0000,
            position_2: 0x4018_0000_0000_0000,
            velocity_0: 0x40E0_0000,
            velocity_1: 0x4100_0000,
            velocity_2: 0x4110_0000,
            accel_0: 0x4120_0000,
            accel_1: 0x4130_0000,
            accel_2: 0x4140_0000,
            tow: 12_345_678,
            num_sats: 42,
            fix: 1,
            pos_u_0: 0x4150_0000,
            pos_u_1: 0x4160_0000,
            pos_u_2: 0x4170_0000,
            vel_u: 0x4180_0000,
            lin_accel_0: 0x4188_0000,
            lin_accel_1: 0x4190_0000,
            lin_accel_2: 0x4198_0000,
            ypr_u_0: 0x41A0_0000,
            ypr_u_1: 0x41A8_0000,
            ypr_u_2: 0x41B0_0000,
            ins_status: 6969,
            vel_body_0: 0x41B8_0000,
            vel_body_1: 0x41C0_0000,
            vel_body_2: 0x41C8_0000,
        }
    }

    /// The all-zero record.
    pub fn clean() -> (r: VectornavData)
        ensures
            r == zero_record(),
    {
        VectornavData {
            timestamp: 0,
            ypr_0: 0,
            ypr_1: 0,
            ypr_2: 0,
            angular_rates_0: 0,
            angular_rates_1: 0,
            angular_rates_2: 0,
            position_0: 0,
            position_1: 0,
            position_2: 0,
            velocity_0: 0,
            velocity_1: 0,
            velocity_2: 0,
            accel_0: 0,
            accel_1: 0,
            accel_2: 0,
            tow: 0,
            num_sats: 0,
            fix: 0,
            pos_u_0: 0,
            pos_u_1: 0,
            pos_u_2: 0,
            vel_u: 0,
            lin_accel_0: 0,
            lin_accel_1: 0,
            lin_accel_2: 0,
            ypr_u_0: 0,
            ypr_u_1: 0,
            ypr_u_2: 0,
            ins_status: 0,
            vel_body_0: 0,
            vel_body_1: 0,
            vel_body_2: 0,
        }
    }

    /// Decodes a payload known to have the supported length.
    pub fn decode_payload(p: &[u8]) -> (d: VectornavData)
        requires
            p@.len() == 144,
        ensures
            d == decode_spec(p@),
    {
        proof {
            reveal(decode_spec);
        }
        VectornavData {
            timestamp: read_u64_le(p, 0),
            ypr_0: read_u32_le(p, 8),
            ypr_1: read_u32_le(p, 12),
            ypr_2: read_u32_le(p, 16),
            angular_rates_0: read_u32_le(p, 20),
            angular_rates_1: read_u32_le(p, 24),
            angular_rates_2: read_u32_le(p, 28),
            position_0: read_u64_le(p, 32),
            position_1: read_u64_le(p, 40),
            position_2: read_u64_le(p, 48),
            velocity_0: read_u32_le(p, 56),
            velocity_1: read_u32_le(p, 60),
            velocity_2: read_u32_le(p, 64),
            accel_0: read_u32_le(p, 68),
            accel_1: read_u32_le(p, 72),
            accel_2: read_u32_le(p, 76),
            tow: read_u64_le(p, 80),
            num_sats: p[88],
            fix: p[89],
            pos_u_0: read_u32_le(p, 90),
            pos_u_1: read_u32_le(p, 94),
            pos_u_2: read_u32_le(p, 98),
            vel_u: read_u32_le(p, 102),
            lin_accel_0: read_u32_le(p, 106),
            lin_accel_1: read_u32_le(p, 110),
            lin_accel_2: read_u32_le(p, 114),
            ypr_u_0: read_u32_le(p, 118),
            ypr_u_1: read_u32_le(p, 122),
            ypr_u_2: read_u32_le(p, 126),
            ins_status: read_u16_le(p, 130),
            vel_body_0: read_u32_le(p, 132),
            vel_body_1: read_u32_le(p, 136),
            vel_body_2: read_u32_le(p, 140),
        }
    }

    /// Decodes a payload byte range into a record. Succeeds exactly when the
    /// range has the supported configuration's 144-byte length.
    pub fn decode(p: &[u8]) -> (r: Result<VectornavData, CodecError>)
        ensures
            p@.len() == 144 ==> r == Ok::<VectornavData, CodecError>(decode_spec(p@)),
            p@.len() != 144 ==> r == Err::<VectornavData, CodecError>(CodecError::LengthMismatch),
    {
        if p.len() != 144 {
            Err(CodecError::LengthMismatch)
        } else {
            Ok(Self::decode_payload(p))
        }
    }

    /// Decodes the record out of a complete frame buffer of the supported
    /// configuration, whose payload sits after the 10-byte header. Succeeds
    /// exactly when the buffer holds at least header and payload.
    pub fn from_slice(slice: &[u8]) -> (r: Result<VectornavData, CodecError>)
        ensures
            slice@.len() >= 154 ==> r == Ok::<VectornavData, CodecError>(
                decode_spec(slice@.subrange(10, 154)),
            ),
            slice@.len() < 154 ==> r == Err::<VectornavData, CodecError>(
                CodecError::LengthMismatch,
            ),
    {
        if slice.len() < 154 {
            return Err(CodecError::LengthMismatch);
        }
        let mut payload: Vec<u8> = Vec::new();
        let mut i: usize = 10;
        while i < 154
            invariant
                10 <= i <= 154 <= slice@.len(),
                payload@ == slice@.subrange(10, i as int),
            decreases 154 - i,
    {
            payload.push(slice[i]);
            i = i + 1;
            proof {
                assert(payload@ =~= slice@.subrange(10, i as int));
            }
        }
        Ok(Self::decode_payload(payload.as_slice()))
    }

    /// Encodes the record into its 144 payload bytes.
    pub fn encode(&self) -> (r: Vec<u8>)
        ensures
            r@ == encode_spec(*self),
            r@.len() == 144,
    {
        let mut out: Vec<u8> = Vec::new();
        push_u64_le(&mut out, self.timestamp);
        proof {
            assert(out@ =~= le64_bytes(self.timestamp));
        }
        push_u32_le(&mut out, self.ypr_0);
        push_u32_le(&mut out, self.ypr_1);
        push_u32_le(&mut out, self.ypr_2);
        push_u32_le(&mut out, self.angular_rates_0);
        push_u32_le(&mut out, self.angular_rates_1);
        push_u32_le(&mut out, self.angular_rates_2);
        push_u64_le(&mut out, self.position_0);
        push_u64_le(&mut out, self.position_1);
        push_u64_le(&mut out, self.position_2);
        push_u32_le(&mut out, self.velocity_0);
        push_u32_le(&mut out, self.velocity_1);
        push_u32_le(&mut out, self.velocity_2);
        push_u32_le(&mut out, self.accel_0);
        push_u32_le(&mut out, self.accel_1);
        push_u32_le(&mut out, self.accel_2);
        push_u64_le(&mut out, self.tow);
        out.push(self.num_sats);
        out.push(self.fix);
        push_u32_le(&mut out, self.pos_u_0);
        push_u32_le(&mut out, self.pos_u_1);
        push_u32_le(&mut out, self.pos_u_2);
        push_u32_le(&mut out, self.vel_u);
        push_u32_le(&mut out, self.lin_accel_0);
        push_u32_le(&mut out, self.lin_accel_1);
        push_u32_le(&mut out, self.lin_accel_2);
        push_u32_le(&mut out, self.ypr_u_0);
        push_u32_le(&mut out, self.ypr_u_1);
        push_u32_le(&mut out, self.ypr_u_2);
        push_u16_le(&mut out, self.ins_status);
        push_u32_le(&mut out, self.vel_body_0);
        push_u32_le(&mut out, self.vel_body_1);
        push_u32_le(&mut out, self.vel_body_2);
        out
    }
}

} // verus!
