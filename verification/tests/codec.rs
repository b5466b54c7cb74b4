use vectornav::codec::CodecError;
use vectornav::codec::VectornavData;

/// Decoding the encoding of the sample record gives the record back.
#[test]
fn round_trip_sample_record() {
    let d = VectornavData::new();
    let bytes = d.encode();
    assert_eq!(bytes.len(), 144);
    let back = VectornavData::decode(&bytes).unwrap();
    assert_eq!(back, d);
}

/// Decoding the encoding of the all-zero record gives the record back.
#[test]
fn round_trip_clean_record() {
    let d = VectornavData::clean();
    let bytes = d.encode();
    assert_eq!(bytes.len(), 144);
    let back = VectornavData::decode(&bytes).unwrap();
    assert_eq!(back, d);
}

/// Every payload byte lands in exactly one field: decoding then re-encoding
/// a payload of 144 distinct bytes reproduces it byte for byte.
#[test]
fn round_trip_distinct_bytes() {
    let payload: Vec<u8> = (0u8..144).collect();
    let d = VectornavData::decode(&payload).unwrap();
    let back = d.encode();
    assert_eq!(back, payload);
}

/// The sample record's raw bit patterns are exactly the reference floats.
#[test]
fn sample_record_matches_float_bits() {
    let d = VectornavData::new();
    assert_eq!(d.timestamp, 100_000);
    assert_eq!(d.ypr_0, (-3.0f32).to_bits());
    assert_eq!(d.ypr_1, (-2.0f32).to_bits());
    assert_eq!(d.ypr_2, (-1.0f32).to_bits());
    assert_eq!(d.angular_rates_0, 1.0f32.to_bits());
    assert_eq!(d.angular_rates_1, 2.0f32.to_bits());
    assert_eq!(d.angular_rates_2, 3.0f32.to_bits());
    assert_eq!(d.position_0, 4.0f64.to_bits());
    assert_eq!(d.position_1, 5.0f64.to_bits());
    assert_eq!(d.position_2, 6.0f64.to_bits());
    assert_eq!(d.velocity_0, 7.0f32.to_bits());
    assert_eq!(d.velocity_1, 8.0f32.to_bits());
    assert_eq!(d.velocity_2, 9.0f32.to_bits());
    assert_eq!(d.accel_0, 10.0f32.to_bits());
    assert_eq!(d.accel_1, 11.0f32.to_bits());
    assert_eq!(d.accel_2, 12.0f32.to_bits());
    assert_eq!(d.tow, 12_345_678);
    assert_eq!(d.num_sats, 42);
    assert_eq!(d.fix, 1);
    assert_eq!(d.pos_u_0, 13.0f32.to_bits());
    assert_eq!(d.pos_u_1, 14.0f32.to_bits());
    assert_eq!(d.pos_u_2, 15.0f32.to_bits());
    assert_eq!(d.vel_u, 16.0f32.to_bits());
    assert_eq!(d.lin_accel_0, 17.0f32.to_bits());
    assert_eq!(d.lin_accel_1, 18.0f32.to_bits());
    assert_eq!(d.lin_accel_2, 19.0f32.to_bits());
    assert_eq!(d.ypr_u_0, 20.0f32.to_bits());
    assert_eq!(d.ypr_u_1, 21.0f32.to_bits());
    assert_eq!(d.ypr_u_2, 22.0f32.to_bits());
    assert_eq!(d.ins_status, 6969);
    assert_eq!(d.vel_body_0, 23.0f32.to_bits());
    assert_eq!(d.vel_body_1, 24.0f32.to_bits());
    assert_eq!(d.vel_body_2, 25.0f32.to_bits());
}

/// The all-zero record has every channel zero and encodes to zero bytes.
#[test]
fn clean_record_is_zero() {
    let d = VectornavData::clean();
    assert_eq!(d.timestamp, 0);
    assert_eq!(d.ins_status, 0);
    assert_eq!(d.num_sats, 0);
    assert_eq!(d.encode(), vec![0u8; 144]);
}

/// The encoded layout places fields at their documented offsets, little
/// endian.
#[test]
fn encode_layout_offsets() {
    let mut d = VectornavData::clean();
    d.timestamp = 0x0102_0304_0506_0708;
    d.ins_status = 0xABCD;
    d.num_sats = 7;
    d.fix = 3;
    d.vel_body_2 = 0x1122_3344;
    let e = d.encode();
    assert_eq!(&e[0..8], &[0x08, 0x07, 0x06, 0x05, 0x04, 0x03, 0x02, 0x01]);
    assert_eq!(e[88], 7);
    assert_eq!(e[89], 3);
    assert_eq!(&e[130..132], &[0xCD, 0xAB]);
    assert_eq!(&e[140..144], &[0x44, 0x33, 0x22, 0x11]);
}

/// A payload of any length other than 144 is rejected.
#[test]
fn decode_wrong_length_is_error() {
    assert_eq!(VectornavData::decode(&[0u8; 10]), Err(CodecError::LengthMismatch));
    assert_eq!(VectornavData::decode(&[0u8; 0]), Err(CodecError::LengthMismatch));
    assert_eq!(VectornavData::decode(&[0u8; 143]), Err(CodecError::LengthMismatch));
    assert_eq!(VectornavData::decode(&[0u8; 145]), Err(CodecError::LengthMismatch));
    assert!(VectornavData::decode(&[0u8; 144]).is_ok());
}

/// `from_slice` reads the payload after the 10-byte reference header.
#[test]
fn from_slice_reads_after_header() {
    let d = VectornavData::new();
    let mut frame: Vec<u8> = vec![0xEE; 10];
    frame.extend_from_slice(&d.encode());
    frame.push(0x55);
    frame.push(0x66);
    let back = VectornavData::from_slice(&frame).unwrap();
    assert_eq!(back, d);
}

/// A buffer too short to hold header and payload is rejected.
#[test]
fn from_slice_short_buffer_is_error() {
    assert_eq!(VectornavData::from_slice(&[0u8; 153]), Err(CodecError::LengthMismatch));
    assert!(VectornavData::from_slice(&[0u8; 154]).is_ok());
}
