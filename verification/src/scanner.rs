//! The byte-at-a-time receive state machine.
//!
//! A [`VNPacket`] is fed raw bytes in the order received, with no alignment
//! requirement, and accumulates them into frames. A byte that cannot start or
//! continue a valid header counts as a header error and resynchronization
//! begins at the next byte; a complete frame whose trailing checksum does not
//! match counts as a checksum error and is discarded; a complete frame whose
//! checksum matches yields a [`FrameEvent`] with the payload bytes, decodes
//! the payload into the current record, and counts a received message.
//!
//! The whole transition is mirrored by the spec function [`scan_step`] over
//! the abstract state [`ScannerV`], so that laws about whole byte streams can
//! be stated and proved once, independently of the executable code.

use vstd::prelude::*;

use crate::VN_SYNC;
use crate::be16;
use crate::checksum::compute_checksum;
use crate::checksum::crc_of;
use crate::codec::VectornavData;
use crate::codec::decode_spec;
use crate::codec::sample_record;
use crate::resolver::get_groups;
use crate::resolver::get_payload_length;
use crate::resolver::group_indices;
use crate::resolver::lemma_group_indices_props;
use crate::resolver::resolved_len;
use crate::resolver::strictly_increasing;

verus! {

/// Receive state: what the next byte is expected to be part of.
#[derive(Clone, Copy, PartialEq, Eq, Structural, Debug)]
pub enum ParserState {
    /// Scanning for the sync byte; the buffer is empty.
    AwaitingSync,
    /// The sync byte is buffered; the next byte is the group selector.
    AwaitingGroupSelector,
    /// Collecting the per-group field selectors, two bytes per group.
    AwaitingFieldSelectors,
    /// Collecting the payload and the trailing two checksum bytes.
    AwaitingPayloadAndChecksum,
}

/// A completed, checksum-verified frame.
pub struct FrameEvent {
    /// The payload bytes of the frame, header and checksum stripped.
    pub payload: Vec<u8>,
}

/// `c + 1`, saturating at the largest 16-bit value.
pub open spec fn sat_inc_u16(c: u16) -> u16 {
    if c < u16::MAX {
        (c + 1) as u16
    } else {
        c
    }
}

/// `c + 1`, saturating at the largest 32-bit value.
pub open spec fn sat_inc_u32(c: u32) -> u32 {
    if c < u32::MAX {
        (c + 1) as u32
    } else {
        c
    }
}

/// The abstract state of a scanner: the receive state, the buffered bytes,
/// the counters, and the last decoded record.
#[verifier::ext_equal]
pub ghost struct ScannerV {
    /// Receive state.
    pub status: ParserState,
    /// The in-progress frame, starting with the sync byte.
    pub buf: Seq<u8>,
    /// Ascending group indices of the current frame's selector.
    pub groups: Seq<u8>,
    /// Field-selector bytes collected so far, two per group.
    pub group_bytes: Seq<u8>,
    /// Whether the last completed frame verified and produced a record.
    pub msg_available: bool,
    /// Checksum computed over the last completed frame.
    pub calc_chk: u16,
    /// Checksum received with the last completed frame.
    pub rec_chk: u16,
    /// Verified messages received; saturating.
    pub counter: u16,
    /// Header errors seen; saturating.
    pub hdr_err: u32,
    /// Checksum errors seen; saturating.
    pub chksm_err: u32,
    /// The record of the last verified frame.
    pub vn_data: VectornavData,
}

impl ScannerV {
    /// Header length of the current frame: sync, selector, and two
    /// field-selector bytes per selected group.
    pub open spec fn header_len(self) -> int {
        2 + 2 * self.groups.len() as int
    }

    /// Total length of the current frame: header, the supported 144-byte
    /// payload, and the two checksum bytes.
    pub open spec fn frame_len(self) -> int {
        self.header_len() + 146
    }

    /// The state after discarding any frame in progress.
    pub open spec fn reset(self) -> ScannerV {
        ScannerV {
            status: ParserState::AwaitingSync,
            buf: Seq::empty(),
            groups: Seq::empty(),
            group_bytes: Seq::empty(),
            ..self
        }
    }

    /// The state of a freshly constructed scanner.
    pub open spec fn init() -> ScannerV {
        ScannerV {
            status: ParserState::AwaitingSync,
            buf: Seq::empty(),
            groups: Seq::empty(),
            group_bytes: Seq::empty(),
            msg_available: false,
            calc_chk: 0,
            rec_chk: 0,
            counter: 0,
            hdr_err: 0,
            chksm_err: 0,
            vn_data: sample_record(),
        }
    }

    /// Well-formedness: the buffered data is consistent with the receive
    /// state.
    pub open spec fn inv(self) -> bool {
        match self.status {
            ParserState::AwaitingSync => self.buf.len() == 0 && self.groups.len() == 0
                && self.group_bytes.len() == 0,
            ParserState::AwaitingGroupSelector => self.buf =~= seq![VN_SYNC] && self.groups.len()
                == 0 && self.group_bytes.len() == 0,
            ParserState::AwaitingFieldSelectors => {
                &&& strictly_increasing(self.groups)
                &&& forall|i: int| 0 <= i < self.groups.len() ==> self.groups[i] < 7
                &&& 1 <= self.groups.len() <= 7
                &&& 2 <= self.buf.len() < self.header_len()
                &&& self.group_bytes =~= self.buf.skip(2)
            },
            ParserState::AwaitingPayloadAndChecksum => {
                &&& 1 <= self.groups.len() <= 6
                &&& self.header_len() <= self.buf.len() < self.frame_len()
                &&& self.group_bytes.len() == 0
            },
        }
    }
}

/// The abstract state after one more byte.
pub open spec fn scan_step(m: ScannerV, byte: u8) -> ScannerV {
    match m.status {
        ParserState::AwaitingSync => {
            if byte == VN_SYNC {
                ScannerV { status: ParserState::AwaitingGroupSelector, buf: m.buf.push(byte), ..m }
            } else {
                ScannerV { hdr_err: sat_inc_u32(m.hdr_err), ..m }
            }
        },
        ParserState::AwaitingGroupSelector => {
            let groups = group_indices(byte);
            if groups.len() == 0 {
                ScannerV { hdr_err: sat_inc_u32(m.hdr_err), ..m.reset() }
            } else {
                ScannerV {
                    status: ParserState::AwaitingFieldSelectors,
                    buf: m.buf.push(byte),
                    groups: groups,
                    ..m
                }
            }
        },
        ParserState::AwaitingFieldSelectors => {
            let buf2 = m.buf.push(byte);
            let gb2 = m.group_bytes.push(byte);
            if buf2.len() < m.header_len() {
                ScannerV { buf: buf2, group_bytes: gb2, ..m }
            } else if m.groups[m.groups.len() - 1] >= 6 {
                ScannerV { hdr_err: sat_inc_u32(m.hdr_err), ..m.reset() }
            } else if resolved_len(m.groups, gb2) != 144 {
                ScannerV { hdr_err: sat_inc_u32(m.hdr_err), ..m.reset() }
            } else {
                ScannerV {
                    status: ParserState::AwaitingPayloadAndChecksum,
                    buf: buf2,
                    group_bytes: Seq::empty(),
                    ..m
                }
            }
        },
        ParserState::AwaitingPayloadAndChecksum => {
            let buf2 = m.buf.push(byte);
            if buf2.len() < m.frame_len() {
                ScannerV { buf: buf2, ..m }
            } else {
                let total: int = m.frame_len();
                let rec = be16(buf2[total - 2], buf2[total - 1]);
                let calc = crc_of(buf2.subrange(1, total - 2));
                if calc == rec {
                    ScannerV {
                        msg_available: true,
                        counter: sat_inc_u16(m.counter),
                        calc_chk: calc,
                        rec_chk: rec,
                        vn_data: decode_spec(
                            buf2.subrange(m.header_len(), m.header_len() + 144),
                        ),
                        ..m.reset()
                    }
                } else {
                    ScannerV {
                        msg_available: false,
                        chksm_err: sat_inc_u32(m.chksm_err),
                        calc_chk: calc,
                        rec_chk: rec,
                        ..m.reset()
                    }
                }
            }
        },
    }
}

/// The event one more byte produces: the payload bytes of a frame that this
/// byte completes with a matching checksum, and nothing otherwise.
pub open spec fn scan_step_event(m: ScannerV, byte: u8) -> Option<Seq<u8>> {
    match m.status {
        ParserState::AwaitingPayloadAndChecksum => {
            let buf2 = m.buf.push(byte);
            if buf2.len() < m.frame_len() {
                None
            } else {
                let total: int = m.frame_len();
                let rec = be16(buf2[total - 2], buf2[total - 1]);
                let calc = crc_of(buf2.subrange(1, total - 2));
                if calc == rec {
                    Some(buf2.subrange(m.header_len(), m.header_len() + 144))
                } else {
                    None
                }
            }
        },
        _ => None,
    }
}

/// The abstract state after a whole sequence of bytes, first byte first.
pub open spec fn scan_seq(m: ScannerV, bytes: Seq<u8>) -> ScannerV
    decreases bytes.len(),
{
    if bytes.len() == 0 {
        m
    } else {
        scan_seq(scan_step(m, bytes[0]), bytes.skip(1))
    }
}

/// One byte is one step.
proof fn lemma_scan_seq_singleton(m: ScannerV, byte: u8)
    ensures
        scan_seq(m, seq![byte]) == scan_step(m, byte),
{
    let s = seq![byte];
    assert(s[0] == byte);
    assert(s.skip(1) =~= Seq::<u8>::empty());
    assert(scan_seq(scan_step(m, byte), Seq::<u8>::empty()) == scan_step(m, byte));
}

/// Byte-granularity invariance: scanning a stream in two pieces leaves the
/// scanner exactly as scanning it in one piece does, wherever the split
/// falls. Counter effects and the produced records therefore do not depend
/// on how the stream is chopped into reads.
#[verifier::rlimit(100)]
pub proof fn lemma_scan_seq_append(m: ScannerV, a: Seq<u8>, b: Seq<u8>)
    ensures
        scan_seq(m, a + b) == scan_seq(scan_seq(m, a), b),
    decreases a.len(),
{
    if a.len() == 0 {
        assert(a + b =~= b);
    } else {
        assert((a + b)[0] == a[0]);
        assert((a + b).skip(1) =~= a.skip(1) + b);
        lemma_scan_seq_append(scan_step(m, a[0]), a.skip(1), b);
        assert(scan_seq(m, a + b) == scan_seq(scan_step(m, a[0]), a.skip(1) + b));
        assert(scan_seq(m, a) == scan_seq(scan_step(m, a[0]), a.skip(1)));
    }
}

/// Resynchronization: while scanning for sync, a run of bytes none of which
/// is the sync byte changes nothing but the header-error counter, which
/// grows by exactly the length of the run.
pub proof fn lemma_resync(m: ScannerV, junk: Seq<u8>)
    requires
        m.status == ParserState::AwaitingSync,
        forall|i: int| 0 <= i < junk.len() ==> junk[i] != VN_SYNC,
        m.hdr_err + junk.len() <= u32::MAX,
    ensures
        scan_seq(m, junk) == (ScannerV { hdr_err: (m.hdr_err + junk.len()) as u32, ..m }),
    decreases junk.len(),
{
    if junk.len() == 0 {
        assert(scan_seq(m, junk) =~= (ScannerV { hdr_err: (m.hdr_err + junk.len()) as u32, ..m }));
    } else {
        let m1 = scan_step(m, junk[0]);
        assert(m1 == (ScannerV { hdr_err: (m.hdr_err + 1) as u32, ..m }));
        lemma_resync(m1, junk.skip(1));
        assert(scan_seq(m, junk) =~= (ScannerV { hdr_err: (m.hdr_err + junk.len()) as u32, ..m }));
    }
}

/// Resynchronization leaves later parsing unaffected: bytes that follow a
/// run of non-sync bytes are parsed exactly as they would have been without
/// the run, except that the header-error counter has grown by the run's
/// length.
pub proof fn lemma_resync_prefix(m: ScannerV, junk: Seq<u8>, rest: Seq<u8>)
    requires
        m.status == ParserState::AwaitingSync,
        forall|i: int| 0 <= i < junk.len() ==> junk[i] != VN_SYNC,
        m.hdr_err + junk.len() <= u32::MAX,
    ensures
        scan_seq(m, junk + rest) == scan_seq(
            ScannerV { hdr_err: (m.hdr_err + junk.len()) as u32, ..m },
            rest,
        ),
{
    lemma_scan_seq_append(m, junk, rest);
    lemma_resync(m, junk);
}

/// The receive state machine: buffered bytes, receive state, counters, and
/// the record of the last verified frame.
pub struct VNPacket {
    /// Whether the last completed frame verified and produced a record.
    pub msg_available: bool,
    /// Checksum errors seen; saturating.
    pub chksm_err: u32,
    /// Header errors seen; saturating.
    pub hdr_err: u32,
    /// Receive state.
    pub status: ParserState,
    /// Checksum computed over the last completed frame.
    pub calc_chk: u16,
    /// Checksum received with the last completed frame.
    pub rec_chk: u16,
    /// Verified messages received; saturating.
    pub counter: u16,
    /// The record of the last verified frame.
    pub vn_data: VectornavData,
    /// The in-progress frame, starting with the sync byte.
    pub buf: Vec<u8>,
    /// Ascending group indices of the current frame's selector.
    pub groups: Vec<u8>,
    /// Field-selector bytes collected so far, two per group.
    pub group_bytes: Vec<u8>,
}

impl View for VNPacket {
    type V = ScannerV;

    open spec fn view(&self) -> ScannerV {
        ScannerV {
            status: self.status,
            buf: self.buf@,
            groups: self.groups@,
            group_bytes: self.group_bytes@,
            msg_available: self.msg_available,
            calc_chk: self.calc_chk,
            rec_chk: self.rec_chk,
            counter: self.counter,
            hdr_err: self.hdr_err,
            chksm_err: self.chksm_err,
            vn_data: self.vn_data,
        }
    }
}

impl VNPacket {
    /// A fresh scanner: scanning for sync, all counters zero, and the
    /// reference sample record as the initial outgoing data.
    pub fn new() -> (p: VNPacket)
        ensures
            p@ == ScannerV::init(),
            p@.inv(),
    {
        let p = VNPacket {
            msg_available: false,
            chksm_err: 0,
            hdr_err: 0,
            status: ParserState::AwaitingSync,
            calc_chk: 0,
            rec_chk: 0,
            counter: 0,
            vn_data: VectornavData::new(),
            buf: Vec::new(),
            groups: Vec::new(),
            group_bytes: Vec::new(),
        };
        proof {
            assert(p@ =~= ScannerV::init());
        }
        p
    }

    /// Discards any frame in progress and resumes scanning for sync.
    fn reset_to_sync(&mut self)
        ensures
            final(self)@ == old(self)@.reset(),
    {
        self.status = ParserState::AwaitingSync;
        self.buf.clear();
        self.groups.clear();
        self.group_bytes.clear();
        proof {
            assert(self@ =~= old(self)@.reset());
        }
    }

    /// Appends the reference header: sync, the supported group selector, and
    /// its four field-selector words, big endian.
    pub fn fill_header(&mut self)
        ensures
            final(self)@ == (ScannerV {
                buf: old(self)@.buf + seq![
                    crate::VN_SYNC,
                    crate::VN_OUTPUT_GROUP,
                    (crate::VN_GROUP_FIELD_1 >> 8) as u8,
                    crate::VN_GROUP_FIELD_1 as u8,
                    (crate::VN_GROUP_FIELD_2 >> 8) as u8,
                    crate::VN_GROUP_FIELD_2 as u8,
                    (crate::VN_GROUP_FIELD_3 >> 8) as u8,
                    crate::VN_GROUP_FIELD_3 as u8,
                    (crate::VN_GROUP_FIELD_4 >> 8) as u8,
                    crate::VN_GROUP_FIELD_4 as u8,
                ],
                ..old(self)@
            }),
    {
        self.buf.push(crate::VN_SYNC);
        self.buf.push(crate::VN_OUTPUT_GROUP);
        self.buf.push((crate::VN_GROUP_FIELD_1 >> 8) as u8);
        self.buf.push(crate::VN_GROUP_FIELD_1 as u8);
        self.buf.push((crate::VN_GROUP_FIELD_2 >> 8) as u8);
        self.buf.push(crate::VN_GROUP_FIELD_2 as u8);
        self.buf.push((crate::VN_GROUP_FIELD_3 >> 8) as u8);
        self.buf.push(crate::VN_GROUP_FIELD_3 as u8);
        self.buf.push((crate::VN_GROUP_FIELD_4 >> 8) as u8);
        self.buf.push(crate::VN_GROUP_FIELD_4 as u8);
        proof {
            assert(self@ =~= (ScannerV {
                buf: old(self)@.buf + seq![
                    crate::VN_SYNC,
                    crate::VN_OUTPUT_GROUP,
                    (crate::VN_GROUP_FIELD_1 >> 8) as u8,
                    crate::VN_GROUP_FIELD_1 as u8,
                    (crate::VN_GROUP_FIELD_2 >> 8) as u8,
                    crate::VN_GROUP_FIELD_2 as u8,
                    (crate::VN_GROUP_FIELD_3 >> 8) as u8,
                    crate::VN_GROUP_FIELD_3 as u8,
                    (crate::VN_GROUP_FIELD_4 >> 8) as u8,
                    crate::VN_GROUP_FIELD_4 as u8,
                ],
                ..old(self)@
            }));
        }
    }

    /// Appends the 144 payload bytes of the current record.
    pub fn fill_data(&mut self)
        ensures
            final(self)@ == (ScannerV {
                buf: old(self)@.buf + crate::codec::encode_spec(old(self)@.vn_data),
                ..old(self)@
            }),
    {
        let mut bytes = self.vn_data.encode();
        self.buf.append(&mut bytes);
        proof {
            assert(self@ =~= (ScannerV {
                buf: old(self)@.buf + crate::codec::encode_spec(old(self)@.vn_data),
                ..old(self)@
            }));
        }
    }

    /// The checksum of the buffered frame, computed over every buffered byte
    /// except the leading sync byte, returned as its big-endian byte pair.
    pub fn calculate_crc(&self) -> (r: (u8, u8))
        ensures
            self.buf@.len() > 0 ==> be16(r.0, r.1) == crc_of(self.buf@.skip(1)),
            self.buf@.len() > 0 ==> r.0 == (crc_of(self.buf@.skip(1)) >> 8) as u8 && r.1 == crc_of(
                self.buf@.skip(1),
            ) as u8,
            self.buf@.len() == 0 ==> r == (0u8, 0u8),
    {
        if self.buf.len() == 0 {
            (0, 0)
        } else {
            let crc = compute_checksum(self.buf.as_slice(), 1, self.buf.len());
            proof {
                assert(self.buf@.subrange(1, self.buf@.len() as int) =~= self.buf@.skip(1));
                let c = crc_of(self.buf@.skip(1));
                assert((((c >> 8) as u8 as u16) << 8) | ((c as u8) as u16) == c) by (bit_vector);
            }
            ((crc >> 8) as u8, crc as u8)
        }
    }

    /// Computes the checksum of the buffered frame, records it, and appends
    /// it to the buffer, high byte first.
    pub fn fill_crc(&mut self)
        requires
            old(self)@.buf.len() > 0,
        ensures
            final(self)@ == (ScannerV {
                buf: old(self)@.buf + seq![
                    (crc_of(old(self)@.buf.skip(1)) >> 8) as u8,
                    crc_of(old(self)@.buf.skip(1)) as u8,
                ],
                calc_chk: crc_of(old(self)@.buf.skip(1)),
                ..old(self)@
            }),
    {
        let (crc0, crc1) = self.calculate_crc();
        self.calc_chk = ((crc0 as u16) << 8) | (crc1 as u16);
        self.buf.push(crc0);
        self.buf.push(crc1);
        proof {
            assert(self@ =~= (ScannerV {
                buf: old(self)@.buf + seq![
                    (crc_of(old(self)@.buf.skip(1)) >> 8) as u8,
                    crc_of(old(self)@.buf.skip(1)) as u8,
                ],
                calc_chk: crc_of(old(self)@.buf.skip(1)),
                ..old(self)@
            }));
        }
    }

    /// Feeds one received byte into the state machine. Returns the completed
    /// frame's payload when this byte completes a frame whose checksum
    /// matches, and nothing otherwise; the new state is exactly
    /// [`scan_step`] of the old.
    pub fn feed(&mut self, byte: u8) -> (ev: Option<FrameEvent>)
        requires
            old(self)@.inv(),
        ensures
            final(self)@.inv(),
            final(self)@ == scan_step(old(self)@, byte),
            match ev {
                Some(e) => scan_step_event(old(self)@, byte) == Some(e.payload@),
                None => scan_step_event(old(self)@, byte) is None,
            },
    {
        match self.status {
            ParserState::AwaitingSync => {
                if byte == crate::VN_SYNC {
                    self.buf.push(byte);
                    self.status = ParserState::AwaitingGroupSelector;
                } else {
                    if self.hdr_err < u32::MAX {
                        self.hdr_err = self.hdr_err + 1;
                    }
                }
                proof {
                    assert(self@ =~= scan_step(old(self)@, byte));
                }
                None
            },
            ParserState::AwaitingGroupSelector => {
                self.buf.push(byte);
                let groups = get_groups(byte);
                proof {
                    lemma_group_indices_props(byte);
                }
                if groups.len() == 0 {
                    self.reset_to_sync();
                    if self.hdr_err < u32::MAX {
                        self.hdr_err = self.hdr_err + 1;
                    }
                } else {
                    self.groups = groups;
                    self.status = ParserState::AwaitingFieldSelectors;
                }
                proof {
                    assert(self@ =~= scan_step(old(self)@, byte));
                }
                None
            },
            ParserState::AwaitingFieldSelectors => {
                self.buf.push(byte);
                self.group_bytes.push(byte);
                let header_len: usize = 2 + 2 * self.groups.len();
                if self.buf.len() < header_len {
                    proof {
                        assert(self@ =~= scan_step(old(self)@, byte));
                    }
                    None
                } else {
                    let last = self.groups[self.groups.len() - 1];
                    if last >= 6 {
                        self.reset_to_sync();
                        if self.hdr_err < u32::MAX {
                            self.hdr_err = self.hdr_err + 1;
                        }
                        proof {
                            assert(self@ =~= scan_step(old(self)@, byte));
                        }
                        None
                    } else {
                        proof {
                            let g = self.groups@;
                            assert forall|i: int| 0 <= i < g.len() implies g[i] < 6 by {
                                if i < g.len() - 1 {
                                    assert(g[i] < g[g.len() - 1]);
                                }
                            }
                        }
                        let plen = get_payload_length(&self.groups, &self.group_bytes);
                        if plen != 144 {
                            self.reset_to_sync();
                            if self.hdr_err < u32::MAX {
                                self.hdr_err = self.hdr_err + 1;
                            }
                            proof {
                                assert(self@ =~= scan_step(old(self)@, byte));
                            }
                            None
                        } else {
                            self.group_bytes.clear();
                            self.status = ParserState::AwaitingPayloadAndChecksum;
                            proof {
                                if self.groups@.len() > 6 {
                                    crate::resolver::lemma_strictly_increasing_lower(
                                        self.groups@,
                                        6,
                                    );
                                }
                                assert(self@ =~= scan_step(old(self)@, byte));
                            }
                            None
                        }
                    }
                }
            },
            ParserState::AwaitingPayloadAndChecksum => {
                self.buf.push(byte);
                let header_len: usize = 2 + 2 * self.groups.len();
                let total: usize = header_len + 146;
                if self.buf.len() < total {
                    proof {
                        assert(self@ =~= scan_step(old(self)@, byte));
                    }
                    None
                } else {
                    let rec_hi = self.buf[total - 2];
                    let rec_lo = self.buf[total - 1];
                    let rec = ((rec_hi as u16) << 8) | (rec_lo as u16);
                    let calc = compute_checksum(self.buf.as_slice(), 1, total - 2);
                    self.rec_chk = rec;
                    self.calc_chk = calc;
                    if calc == rec {
                        let mut payload: Vec<u8> = Vec::new();
                        let mut i: usize = header_len;
                        while i < header_len + 144
                            invariant
                                header_len <= 14,
                                header_len <= i <= header_len + 144,
                                header_len + 146 <= self.buf@.len(),
                                payload@ == self.buf@.subrange(header_len as int, i as int),
                            decreases header_len + 144 - i,
                        {
                            payload.push(self.buf[i]);
                            i = i + 1;
                            proof {
                                assert(payload@ =~= self.buf@.subrange(
                                    header_len as int,
                                    i as int,
                                ));
                            }
                        }
                        let record = VectornavData::decode_payload(payload.as_slice());
                        self.vn_data = record;
                        self.msg_available = true;
                        if self.counter < u16::MAX {
                            self.counter = self.counter + 1;
                        }
                        self.reset_to_sync();
                        proof {
                            assert(self@ =~= scan_step(old(self)@, byte));
                        }
                        Some(FrameEvent { payload })
                    } else {
                        self.msg_available = false;
                        if self.chksm_err < u32::MAX {
                            self.chksm_err = self.chksm_err + 1;
                        }
                        self.reset_to_sync();
                        proof {
                            assert(self@ =~= scan_step(old(self)@, byte));
                        }
                        None
                    }
                }
            },
        }
    }

    /// Feeds a run of received bytes, first byte first: exactly a fold of
    /// [`scan_step`] over the run. Completed frames update the record and
    /// the counters; the per-byte events are available through [`Self::feed`].
    #[verifier::rlimit(100)]
    pub fn parse_data(&mut self, data: &[u8])
        requires
            old(self)@.inv(),
        ensures
            final(self)@.inv(),
            final(self)@ == scan_seq(old(self)@, data@),
    {
        let n = data.len();
        proof {
            assert(data@.take(0) =~= Seq::<u8>::empty());
        }
        for i in 0..n
            invariant
                n == data@.len(),
                self@.inv(),
                self@ == scan_seq(old(self)@, data@.take(i as int)),
        {
            let b = data[i];
            self.feed(b);
            proof {
                assert(data@.take(i + 1) =~= data@.take(i as int) + seq![b]);
                lemma_scan_seq_append(old(self)@, data@.take(i as int), seq![b]);
                lemma_scan_seq_singleton(scan_seq(old(self)@, data@.take(i as int)), b);
            }
        }
        proof {
            assert(data@.take(n as int) =~= data@);
        }
    }
}

} // verus!

