//! The Reject PDU: a 52-byte header that a target sends in place of the
//! expected response.
use vstd::prelude::*;

use crate::common::{
    ahs_len_of, be24, be32_at, be_bytes, data_and_digest, data_len_of, data_of, digest_after,
    bytes_to_vec, lemma_be32_round_trip, padded_data_len, padded_len, pdu_len, pdu_len_of, read_be_u32,
    write_be_u32,
};
use crate::error::PduError;
use crate::opcode::{bhs_opcode_byte, bhs_opcode_of, lemma_bhs_opcode_round_trip, BhsOpcode};
use crate::pdu::{BasicHeaderSegment, FromBytes};

verus! {

/// Fixed header length of a Reject PDU.
pub const REJECT_HEADER_LEN: usize = 52;

/// Why the target rejected a PDU.
#[derive(Clone, Copy, Debug, PartialEq, Eq, Structural)]
pub enum RejectReason {
    DataDigestError,
    SnackReject,
    ProtocolError,
    CommandNotSupported,
    ImmediateCommandReject,
    TaskInProgress,
    InvalidDataAck,
    InvalidPduField,
    LongOperationReject,
    NegotiationReset,
    WaitingForLogout,
}

/// The wire code of each reason.
pub open spec fn reason_code(r: RejectReason) -> u8 {
    match r {
        RejectReason::DataDigestError => 0x02,
        RejectReason::SnackReject => 0x03,
        RejectReason::ProtocolError => 0x04,
        RejectReason::CommandNotSupported => 0x05,
        RejectReason::ImmediateCommandReject => 0x06,
        RejectReason::TaskInProgress => 0x07,
        RejectReason::InvalidDataAck => 0x08,
        RejectReason::InvalidPduField => 0x09,
        RejectReason::LongOperationReject => 0x0a,
        RejectReason::NegotiationReset => 0x0b,
        RejectReason::WaitingForLogout => 0x0c,
    }
}

/// The reason with wire code `c`, if any.
pub open spec fn reason_of_code(c: u8) -> Option<RejectReason> {
    match c {
        0x02 => Some(RejectReason::DataDigestError),
        0x03 => Some(RejectReason::SnackReject),
        0x04 => Some(RejectReason::ProtocolError),
        0x05 => Some(RejectReason::CommandNotSupported),
        0x06 => Some(RejectReason::ImmediateCommandReject),
        0x07 => Some(RejectReason::TaskInProgress),
        0x08 => Some(RejectReason::InvalidDataAck),
        0x09 => Some(RejectReason::InvalidPduField),
        0x0a => Some(RejectReason::LongOperationReject),
        0x0b => Some(RejectReason::NegotiationReset),
        0x0c => Some(RejectReason::WaitingForLogout),
        _ => None,
    }
}

impl RejectReason {
    /// The wire code of this reason.
    pub fn code(&self) -> (r: u8)
        ensures
            r == reason_code(*self),
    {
        match self {
            RejectReason::DataDigestError => 0x02,
            RejectReason::SnackReject => 0x03,
            RejectReason::ProtocolError => 0x04,
            RejectReason::CommandNotSupported => 0x05,
            RejectReason::ImmediateCommandReject => 0x06,
            RejectReason::TaskInProgress => 0x07,
            RejectReason::InvalidDataAck => 0x08,
            RejectReason::InvalidPduField => 0x09,
            RejectReason::LongOperationReject => 0x0a,
            RejectReason::NegotiationReset => 0x0b,
            RejectReason::WaitingForLogout => 0x0c,
        }
    }

    /// The reason with wire code `c`; `Malformed` for an unknown code.
    pub fn from_code(c: u8) -> (r: Result<RejectReason, PduError>)
        ensures
            match r {
                Ok(reason) => reason_of_code(c) == Some(reason),
                Err(e) => reason_of_code(c) is None && e == PduError::Malformed,
            },
    {
        match c {
            0x02 => Ok(RejectReason::DataDigestError),
            0x03 => Ok(RejectReason::SnackReject),
            0x04 => Ok(RejectReason::ProtocolError),
            0x05 => Ok(RejectReason::CommandNotSupported),
            0x06 => Ok(RejectReason::ImmediateCommandReject),
            0x07 => Ok(RejectReason::TaskInProgress),
            0x08 => Ok(RejectReason::InvalidDataAck),
            0x09 => Ok(RejectReason::InvalidPduField),
            0x0a => Ok(RejectReason::LongOperationReject),
            0x0b => Ok(RejectReason::NegotiationReset),
            0x0c => Ok(RejectReason::WaitingForLogout),
            _ => Err(PduError::Malformed),
        }
    }
}

/// Basic Header Segment of a Reject PDU.
#[derive(Clone, Copy, Debug, PartialEq, Eq)]
pub struct RejectPdu {
    /// Always the Reject opcode on the wire.
    pub opcode: BhsOpcode,
    pub reserved1: u8,
    pub reason: RejectReason,
    pub reserved2: u8,
    pub total_ahs_length: u8,
    pub data_segment_length: [u8; 3],
    pub reserved3: [u8; 8],
    /// Always all ones on the wire.
    pub itt: u32,
    pub reserved4: [u8; 4],
    pub stat_sn: u32,
    pub exp_cmd_sn: u32,
    pub max_cmd_sn: u32,
    pub data_sn_or_r2_sn: u32,
    pub reserved5: [u8; 8],
    pub header_diggest: u32,
}

/// Whether `b` starts with a Reject header whose enumerated fields decode.
pub open spec fn reject_header_ok(b: Seq<u8>) -> bool {
    &&& b.len() >= REJECT_HEADER_LEN
    &&& bhs_opcode_of(b[0]) is Some
    &&& reason_of_code(b[2]) is Some
}

/// Whether `b` holds a whole Reject PDU: a header that decodes, followed by
/// its AHS and padded data segment.
pub open spec fn reject_pdu_ok(b: Seq<u8>) -> bool {
    reject_header_ok(b) && b.len() >= pdu_len_of(REJECT_HEADER_LEN as nat, b)
}

impl RejectPdu {
    /// The 52 header bytes of this value, fields in wire order.
    pub open spec fn spec_bhs(&self) -> Seq<u8> {
        seq![
            bhs_opcode_byte(self.opcode),
            self.reserved1,
            reason_code(self.reason),
            self.reserved2,
            self.total_ahs_length,
        ] + self.data_segment_length@ + self.reserved3@ + be_bytes(self.itt)
            + self.reserved4@ + be_bytes(self.stat_sn) + be_bytes(self.exp_cmd_sn) + be_bytes(
            self.max_cmd_sn,
        ) + be_bytes(self.data_sn_or_r2_sn) + self.reserved5@ + be_bytes(self.header_diggest)
    }

    /// Whether each field of `self` holds what the start of `b` encodes.
    pub open spec fn spec_fields_of(&self, b: Seq<u8>) -> bool {
        &&& bhs_opcode_of(b[0]) == Some(self.opcode)
        &&& self.reserved1 == b[1]
        &&& reason_of_code(b[2]) == Some(self.reason)
        &&& self.reserved2 == b[3]
        &&& self.total_ahs_length == b[4]
        &&& self.data_segment_length@ == b.subrange(5, 8)
        &&& self.reserved3@ == b.subrange(8, 16)
        &&& self.itt == be32_at(b, 16)
        &&& self.reserved4@ == b.subrange(20, 24)
        &&& self.stat_sn == be32_at(b, 24)
        &&& self.exp_cmd_sn == be32_at(b, 28)
        &&& self.max_cmd_sn == be32_at(b, 32)
        &&& self.data_sn_or_r2_sn == be32_at(b, 36)
        &&& self.reserved5@ == b.subrange(40, 48)
        &&& self.header_diggest == be32_at(b, 48)
    }

    fn decode_bhs(buf: &[u8]) -> (r: Result<Self, PduError>)
        requires
            buf@.len() >= REJECT_HEADER_LEN,
        ensures
            r is Ok <==> reject_header_ok(buf@),
            match r {
                Ok(h) => h.spec_fields_of(buf@),
                Err(e) => e == PduError::Malformed,
            },
    {
        let opcode = match BhsOpcode::from_byte(buf[0]) {
            Ok(o) => o,
            Err(e) => return Err(e),
        };
        let reason = match RejectReason::from_code(buf[2]) {
            Ok(r) => r,
            Err(e) => return Err(e),
        };
        let data_segment_length = [buf[5], buf[6], buf[7]];
        let reserved3 = [buf[8], buf[9], buf[10], buf[11], buf[12], buf[13], buf[14], buf[15]];
        let reserved4 = [buf[20], buf[21], buf[22], buf[23]];
        let reserved5 = [buf[40], buf[41], buf[42], buf[43], buf[44], buf[45], buf[46], buf[47]];
        let h = RejectPdu {
            opcode,
            reserved1: buf[1],
            reason,
            reserved2: buf[3],
            total_ahs_length: buf[4],
            data_segment_length,
            reserved3,
            itt: read_be_u32(buf, 16),
            reserved4,
            stat_sn: read_be_u32(buf, 24),
            exp_cmd_sn: read_be_u32(buf, 28),
            max_cmd_sn: read_be_u32(buf, 32),
            data_sn_or_r2_sn: read_be_u32(buf, 36),
            reserved5,
            header_diggest: read_be_u32(buf, 48),
        };
        assert(h.data_segment_length@ =~= buf@.subrange(5, 8));
        assert(h.reserved3@ =~= buf@.subrange(8, 16));
        assert(h.reserved4@ =~= buf@.subrange(20, 24));
        assert(h.reserved5@ =~= buf@.subrange(40, 48));
        Ok(h)
    }

    /// Parses the 52-byte header; `Malformed` where the opcode or the
    /// reason code is unknown.
    pub fn from_bhs_bytes(buf: &[u8; REJECT_HEADER_LEN]) -> (r: Result<Self, PduError>)
        ensures
            r is Ok <==> reject_header_ok(buf@),
            match r {
                Ok(h) => h.spec_fields_of(buf@),
                Err(e) => e == PduError::Malformed,
            },
    {
        Self::decode_bhs(buf.as_slice())
    }

    /// Serialises the 52-byte header in wire order, integers big-endian.
    pub fn to_bhs_bytes(&self) -> (r: [u8; REJECT_HEADER_LEN])
        ensures
            r@ == self.spec_bhs(),
    {
        let op = self.opcode.to_byte();
        let d = self.data_segment_length;
        let r3 = self.reserved3;
        let r4 = self.reserved4;
        let r5 = self.reserved5;
        let itt = write_be_u32(self.itt);
        let ss = write_be_u32(self.stat_sn);
        let ecs = write_be_u32(self.exp_cmd_sn);
        let mcs = write_be_u32(self.max_cmd_sn);
        let dsn = write_be_u32(self.data_sn_or_r2_sn);
        let hd = write_be_u32(self.header_diggest);
        let r = [
            op, self.reserved1, self.reason.code(), self.reserved2, self.total_ahs_length,
            d[0], d[1], d[2],
            r3[0], r3[1], r3[2], r3[3], r3[4], r3[5], r3[6], r3[7],
            itt[0], itt[1], itt[2], itt[3],
            r4[0], r4[1], r4[2], r4[3],
            ss[0], ss[1], ss[2], ss[3],
            ecs[0], ecs[1], ecs[2], ecs[3],
            mcs[0], mcs[1], mcs[2], mcs[3],
            dsn[0], dsn[1], dsn[2], dsn[3],
            r5[0], r5[1], r5[2], r5[3], r5[4], r5[5], r5[6], r5[7],
            hd[0], hd[1], hd[2], hd[3],
        ];
        assert(r@ =~= self.spec_bhs());
        r
    }
}

impl RejectPdu {
    /// Parses a whole Reject PDU: the header, then the data segment (padding
    /// consumed, not returned), then a trailing digest where four more bytes
    /// remain. `Malformed` where the header does not decode or the buffer
    /// ends before the padded data segment does.
    pub fn parse(buf: &[u8]) -> (r: Result<(Self, Vec<u8>, Option<u32>), PduError>)
        ensures
            r is Ok <==> reject_pdu_ok(buf@),
            match r {
                Ok((h, data, digest)) => {
                    &&& h.spec_fields_of(buf@)
                    &&& data@ == data_of(REJECT_HEADER_LEN as nat, buf@)
                    &&& digest == digest_after(
                        buf@,
                        pdu_len_of(REJECT_HEADER_LEN as nat, buf@) as int,
                    )
                },
                Err(e) => e == PduError::Malformed,
            },
    {
        if buf.len() < REJECT_HEADER_LEN {
            return Err(PduError::Malformed);
        }
        let header = match Self::decode_bhs(buf) {
            Ok(h) => h,
            Err(e) => return Err(e),
        };
        match data_and_digest(buf, REJECT_HEADER_LEN) {
            Ok((data, digest)) => Ok((header, data, digest)),
            Err(e) => Err(e),
        }
    }
}

impl BasicHeaderSegment for RejectPdu {
    open spec fn spec_bytes(&self) -> Seq<u8> {
        self.spec_bhs()
    }

    open spec fn spec_header_ok(b: Seq<u8>) -> bool {
        reject_header_ok(b)
    }

    open spec fn spec_decodes_from(&self, b: Seq<u8>) -> bool {
        self.spec_fields_of(b)
    }

    open spec fn spec_opcode(&self) -> BhsOpcode {
        self.opcode
    }

    open spec fn spec_ahs_words(&self) -> u8 {
        self.total_ahs_length
    }

    open spec fn spec_data_len(&self) -> nat {
        be24(self.data_segment_length@[0], self.data_segment_length@[1], self.data_segment_length@[2])
    }

    fn get_opcode(&self) -> (r: BhsOpcode) {
        self.opcode
    }

    fn ahs_length_bytes(&self) -> (r: usize) {
        (self.total_ahs_length as usize) * 4
    }

    fn data_length_bytes(&self) -> (r: usize) {
        padded_data_len(&self.data_segment_length)
    }

    fn to_bytes(&self) -> (r: Vec<u8>) {
        let b = self.to_bhs_bytes();
        bytes_to_vec(b.as_slice())
    }

    fn from_bytes(buf: &[u8]) -> (r: Result<Self, PduError>) {
        if buf.len() < REJECT_HEADER_LEN {
            return Err(PduError::Malformed);
        }
        Self::decode_bhs(buf)
    }
}

impl FromBytes for RejectPdu {
    open spec fn spec_fixed_len() -> nat {
        REJECT_HEADER_LEN as nat
    }

    open spec fn spec_total_len(b: Seq<u8>) -> Option<nat> {
        if reject_header_ok(b) {
            Some(pdu_len_of(REJECT_HEADER_LEN as nat, b))
        } else {
            None
        }
    }

    open spec fn spec_decodes(b: Seq<u8>) -> bool {
        reject_pdu_ok(b)
    }

    open spec fn spec_decoded(b: Seq<u8>, h: Self, data: Seq<u8>, digest: Option<u32>) -> bool {
        &&& h.spec_fields_of(b)
        &&& data == data_of(REJECT_HEADER_LEN as nat, b)
        &&& digest == digest_after(b, pdu_len_of(REJECT_HEADER_LEN as nat, b) as int)
    }

    fn header_len() -> (r: usize) {
        REJECT_HEADER_LEN
    }

    fn peek_total_len(buf: &[u8]) -> (r: Result<usize, PduError>) {
        if buf.len() < REJECT_HEADER_LEN {
            return Err(PduError::Malformed);
        }
        match Self::decode_bhs(buf) {
            Ok(_) => Ok(pdu_len(buf, REJECT_HEADER_LEN)),
            Err(e) => Err(e),
        }
    }

    fn from_bytes(buf: &[u8]) -> (r: Result<(Self, Vec<u8>, Option<u32>), PduError>) {
        Self::parse(buf)
    }

    proof fn lemma_decoded_unique(
        b: Seq<u8>,
        h1: Self,
        data1: Seq<u8>,
        digest1: Option<u32>,
        h2: Self,
        data2: Seq<u8>,
        digest2: Option<u32>,
    ) {
        assert(h1.data_segment_length =~= h2.data_segment_length);
        assert(h1.reserved3 =~= h2.reserved3);
        assert(h1.reserved4 =~= h2.reserved4);
        assert(h1.reserved5 =~= h2.reserved5);
    }

    proof fn lemma_peeked_len_decodes(header: Seq<u8>, b: Seq<u8>) {
        assert(header[0] == b[0]);
        assert(header[2] == b[2]);
        assert(header[4] == b[4]);
        assert(header[5] == b[5]);
        assert(header[6] == b[6]);
        assert(header[7] == b[7]);
    }
}

/// Serialising a Reject header and parsing the bytes back gives the same
/// header: the bytes decode, and every header they decode to is `h`.
pub proof fn lemma_reject_round_trip(h: RejectPdu, g: RejectPdu)
    ensures
        reject_header_ok(h.spec_bhs()),
        h.spec_fields_of(h.spec_bhs()),
        g.spec_fields_of(h.spec_bhs()) ==> g == h,
{
    let b = h.spec_bhs();
    lemma_bhs_opcode_round_trip(h.opcode);
    assert(b[0] == bhs_opcode_byte(h.opcode));
    assert(b[2] == reason_code(h.reason));
    assert(reason_of_code(reason_code(h.reason)) == Some(h.reason));
    assert(b.subrange(5, 8) =~= h.data_segment_length@);
    assert(b.subrange(8, 16) =~= h.reserved3@);
    assert(b.subrange(16, 20) =~= be_bytes(h.itt));
    assert(b.subrange(20, 24) =~= h.reserved4@);
    assert(b.subrange(24, 28) =~= be_bytes(h.stat_sn));
    assert(b.subrange(28, 32) =~= be_bytes(h.exp_cmd_sn));
    assert(b.subrange(32, 36) =~= be_bytes(h.max_cmd_sn));
    assert(b.subrange(36, 40) =~= be_bytes(h.data_sn_or_r2_sn));
    assert(b.subrange(40, 48) =~= h.reserved5@);
    assert(b.subrange(48, 52) =~= be_bytes(h.header_diggest));
    lemma_be32_round_trip(h.itt, b, 16);
    lemma_be32_round_trip(h.stat_sn, b, 24);
    lemma_be32_round_trip(h.exp_cmd_sn, b, 28);
    lemma_be32_round_trip(h.max_cmd_sn, b, 32);
    lemma_be32_round_trip(h.data_sn_or_r2_sn, b, 36);
    lemma_be32_round_trip(h.header_diggest, b, 48);
    if g.spec_fields_of(b) {
        assert(g.data_segment_length =~= h.data_segment_length);
        assert(g.reserved3 =~= h.reserved3);
        assert(g.reserved4 =~= h.reserved4);
        assert(g.reserved5 =~= h.reserved5);
    }
}

} // verus!
