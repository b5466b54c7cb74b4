use vectornav::codec::VectornavData;
use vectornav::resolver::get_groups;
use vectornav::scanner::ParserState;
use vectornav::scanner::VNPacket;
use vectornav::VN_SYNC;

/// A complete, valid reference frame: header, sample payload, checksum.
fn reference_frame() -> Vec<u8> {
    let mut tx = VNPacket::new();
    tx.fill_header();
    tx.fill_data();
    tx.fill_crc();
    tx.buf
}

fn fresh_receiver() -> VNPacket {
    let mut rx = VNPacket::new();
    rx.vn_data = VectornavData::clean();
    rx
}

/// Scenario: feeding one valid frame produces one verified message and no
/// errors, and the decoded record is the one that was encoded.
#[test]
fn scenario_valid_frame() {
    let frame = reference_frame();
    assert_eq!(frame.len(), 156);
    assert_eq!(frame[0], VN_SYNC);
    let mut rx = fresh_receiver();
    rx.parse_data(&frame);
    assert!(rx.msg_available);
    assert_eq!(rx.counter, 1);
    assert_eq!(rx.chksm_err, 0);
    assert_eq!(rx.hdr_err, 0);
    assert_eq!(rx.calc_chk, rx.rec_chk);
    assert_eq!(rx.vn_data, VectornavData::new());
}

/// Scenario: one flipped payload bit with a stale checksum counts one
/// checksum error, no message, and leaves the record untouched.
#[test]
fn scenario_flipped_payload_bit() {
    let mut frame = reference_frame();
    frame[20] ^= 0x01; // inside the payload; checksum now stale
    let mut rx = fresh_receiver();
    rx.parse_data(&frame);
    assert!(!rx.msg_available);
    assert_eq!(rx.counter, 0);
    assert_eq!(rx.chksm_err, 1);
    assert_eq!(rx.hdr_err, 0);
    assert_ne!(rx.calc_chk, rx.rec_chk);
    assert_eq!(rx.vn_data, VectornavData::clean());
}

/// Scenario: leading non-sync bytes count one header error each and do not
/// disturb the frame that follows.
#[test]
fn scenario_junk_then_frame() {
    let junk: Vec<u8> = vec![0x17, 0x00, 0xFF, 0x39, 0x42, 0x80, 0x01, 0xAB, 0xCD, 0x7E];
    let mut bytes = junk.clone();
    bytes.extend_from_slice(&reference_frame());
    let mut rx = fresh_receiver();
    rx.parse_data(&bytes);
    assert_eq!(rx.hdr_err, 10);
    assert!(rx.msg_available);
    assert_eq!(rx.counter, 1);
    assert_eq!(rx.chksm_err, 0);
    assert_eq!(rx.vn_data, VectornavData::new());
}

/// Feeding a frame one byte at a time leaves the scanner exactly as feeding
/// it in one contiguous call.
#[test]
fn byte_granularity_invariance() {
    let mut bytes: Vec<u8> = vec![0x01, 0x02]; // two header errors first
    bytes.extend_from_slice(&reference_frame());
    let mut whole = fresh_receiver();
    whole.parse_data(&bytes);
    let mut piecewise = fresh_receiver();
    for &b in &bytes {
        piecewise.feed(b);
    }
    assert_eq!(whole.msg_available, piecewise.msg_available);
    assert_eq!(whole.counter, piecewise.counter);
    assert_eq!(whole.hdr_err, piecewise.hdr_err);
    assert_eq!(whole.chksm_err, piecewise.chksm_err);
    assert_eq!(whole.calc_chk, piecewise.calc_chk);
    assert_eq!(whole.rec_chk, piecewise.rec_chk);
    assert_eq!(whole.status, piecewise.status);
    assert_eq!(whole.buf, piecewise.buf);
    assert_eq!(whole.vn_data, piecewise.vn_data);
}

/// The completing byte of a valid frame yields the payload event; every
/// other byte yields none.
#[test]
fn feed_event_carries_payload() {
    let frame = reference_frame();
    let mut rx = fresh_receiver();
    for (i, &b) in frame.iter().enumerate() {
        let ev = rx.feed(b);
        if i + 1 == frame.len() {
            let ev = ev.expect("final byte completes the frame");
            assert_eq!(ev.payload, &frame[10..154]);
        } else {
            assert!(ev.is_none());
        }
    }
}

/// An empty group selector cannot carry the supported configuration: it is
/// a header error and scanning resumes.
#[test]
fn zero_selector_is_header_error() {
    let mut rx = fresh_receiver();
    rx.parse_data(&[VN_SYNC, 0x00]);
    assert_eq!(rx.hdr_err, 1);
    assert_eq!(rx.status, ParserState::AwaitingSync);
    rx.parse_data(&reference_frame());
    assert_eq!(rx.counter, 1);
    assert_eq!(rx.hdr_err, 1);
}

/// Group 6 is outside the width table: a selector naming it is a header
/// error once the header is complete.
#[test]
fn group_six_selector_is_header_error() {
    let mut rx = fresh_receiver();
    rx.parse_data(&[VN_SYNC, 0x40, 0x00, 0x01]);
    assert_eq!(rx.hdr_err, 1);
    assert_eq!(rx.status, ParserState::AwaitingSync);
}

/// A header that resolves to a length other than 144 is a header error.
#[test]
fn unsupported_length_is_header_error() {
    // group 1 with field 0 selected: resolves to 8 bytes, not 144
    let mut rx = fresh_receiver();
    rx.parse_data(&[VN_SYNC, 0x02, 0x00, 0x01]);
    assert_eq!(rx.hdr_err, 1);
    assert_eq!(rx.counter, 0);
    assert_eq!(rx.status, ParserState::AwaitingSync);
}

/// The header-error counter saturates instead of wrapping.
#[test]
fn header_error_counter_saturates() {
    let mut rx = fresh_receiver();
    rx.hdr_err = u32::MAX;
    rx.parse_data(&[0x00, 0x01]);
    assert_eq!(rx.hdr_err, u32::MAX);
}

/// Group decoding: no bits, all seven group bits, and the ignored top bit.
#[test]
fn get_groups_edges() {
    assert!(get_groups(0x00).is_empty());
    assert_eq!(get_groups(0xFF), vec![0, 1, 2, 3, 4, 5, 6]);
    assert!(get_groups(0x80).is_empty());
    assert_eq!(get_groups(0x39), vec![0, 3, 4, 5]);
}

/// Two frames back to back are both received.
#[test]
fn two_frames_back_to_back() {
    let frame = reference_frame();
    let mut bytes = frame.clone();
    bytes.extend_from_slice(&frame);
    let mut rx = fresh_receiver();
    rx.parse_data(&bytes);
    assert_eq!(rx.counter, 2);
    assert_eq!(rx.chksm_err, 0);
    assert_eq!(rx.hdr_err, 0);
}
