//! The Text response PDU: a 48-byte header followed by negotiation text.
use vstd::prelude::*;

use crate::common::{
    be24, be32_at, be_bytes, bytes_to_vec, data_and_digest, data_of, digest_after,
    lemma_be32_round_trip, padded_data_len, pdu_len, pdu_len_of, read_be_u32, write_be_u32,
};
use crate::error::PduError;
use crate::opcode::{bhs_opcode_byte, bhs_opcode_of, lemma_bhs_opcode_round_trip, BhsOpcode};
use crate::pdu::{BasicHeaderSegment, FromBytes};

verus! {

/// Fixed header length of a Text response.
pub const TEXT_HEADER_LEN: usize = 48;

/// The flag byte that decoding records: the continue/final bits on the wire
/// are not read yet, and this single value stands for them.
pub const TEXT_DECODED_FLAGS: u8 = 0x40;

/// Basic Header Segment of a Text response.
///
/// `header_digest` is a field inside the fixed header, at bytes 44..48,
/// big-endian. A whole-PDU decode additionally reads a trailing digest after
/// the data segment; both readings are kept for wire compatibility.
#[derive(Clone, Copy, Debug, PartialEq, Eq)]
pub struct TextResponse {
    pub opcode: BhsOpcode,
    pub reserved1: [u8; 3],
    pub total_ahs_length: u8,
    pub data_segment_length: [u8; 3],
    pub lun: [u8; 8],
    pub initiator_task_tag: u32,
    pub target_task_tag: u32,
    pub stat_sn: u32,
    pub exp_cmd_sn: u32,
    pub max_cmd_sn: u32,
    pub reserved2: [u8; 16],
    pub header_digest: u32,
}

/// Whether `b` starts with a Text response header whose opcode decodes.
pub open spec fn text_header_ok(b: Seq<u8>) -> bool {
    b.len() >= TEXT_HEADER_LEN && bhs_opcode_of(b[0]) is Some
}

/// Whether `b` holds a whole Text response: a header that decodes, followed
/// by its AHS and padded data segment.
pub open spec fn text_pdu_ok(b: Seq<u8>) -> bool {
    text_header_ok(b) && b.len() >= pdu_len_of(TEXT_HEADER_LEN as nat, b)
}

impl TextResponse {
    /// The 48 header bytes of this value. The flag bytes are written as
    /// held; bytes 36..44 are zero, bytes 44..48 hold the digest field.
    pub open spec fn spec_bhs(&self) -> Seq<u8> {
        seq![bhs_opcode_byte(self.opcode)] + self.reserved1@ + seq![self.total_ahs_length]
            + self.data_segment_length@ + self.lun@ + be_bytes(self.initiator_task_tag)
            + be_bytes(self.target_task_tag) + be_bytes(self.stat_sn) + be_bytes(
            self.exp_cmd_sn,
        ) + be_bytes(self.max_cmd_sn) + Seq::new(8, |i: int| 0u8) + be_bytes(self.header_digest)
    }

    /// Whether each field of `self` holds what the start of `b` encodes.
    pub open spec fn spec_fields_of(&self, b: Seq<u8>) -> bool {
        &&& bhs_opcode_of(b[0]) == Some(self.opcode)
        &&& self.reserved1@ == seq![TEXT_DECODED_FLAGS, 0u8, 0u8]
        &&& self.total_ahs_length == b[4]
        &&& self.data_segment_length@ == b.subrange(5, 8)
        &&& self.lun@ == b.subrange(8, 16)
        &&& self.initiator_task_tag == be32_at(b, 16)
        &&& self.target_task_tag == be32_at(b, 20)
        &&& self.stat_sn == be32_at(b, 24)
        &&& self.exp_cmd_sn == be32_at(b, 28)
        &&& self.max_cmd_sn == be32_at(b, 32)
        &&& self.reserved2@ == Seq::new(16, |i: int| 0u8)
        &&& self.header_digest == be32_at(b, 44)
    }

    /// Serialises the 48-byte header in wire order, integers big-endian.
    pub fn to_bhs_bytes(&self) -> (r: [u8; TEXT_HEADER_LEN])
        ensures
            r@ == self.spec_bhs(),
    {
        let op = self.opcode.to_byte();
        let f = self.reserved1;
        let d = self.data_segment_length;
        let l = self.lun;
        let itt = write_be_u32(self.initiator_task_tag);
        let ttt = write_be_u32(self.target_task_tag);
        let ss = write_be_u32(self.stat_sn);
        let ecs = write_be_u32(self.exp_cmd_sn);
        let mcs = write_be_u32(self.max_cmd_sn);
        let hd = write_be_u32(self.header_digest);
        let r = [
            op, f[0], f[1], f[2], self.total_ahs_length,
            d[0], d[1], d[2],
            l[0], l[1], l[2], l[3], l[4], l[5], l[6], l[7],
            itt[0], itt[1], itt[2], itt[3],
            ttt[0], ttt[1], ttt[2], ttt[3],
            ss[0], ss[1], ss[2], ss[3],
            ecs[0], ecs[1], ecs[2], ecs[3],
            mcs[0], mcs[1], mcs[2], mcs[3],
            0, 0, 0, 0, 0, 0, 0, 0,
            hd[0], hd[1], hd[2], hd[3],
        ];
        assert(r@ =~= self.spec_bhs());
        r
    }

    /// Parses the header at the start of `buf`; `Malformed` where the buffer
    /// is shorter than 48 bytes or the opcode is unknown.
    pub fn from_bhs_bytes(buf: &[u8]) -> (r: Result<Self, PduError>)
        ensures
            r is Ok <==> text_header_ok(buf@),
            match r {
                Ok(h) => h.spec_fields_of(buf@),
                Err(e) => e == PduError::Malformed,
            },
    {
        if buf.len() < TEXT_HEADER_LEN {
            return Err(PduError::Malformed);
        }
        let opcode = match BhsOpcode::from_byte(buf[0]) {
            Ok(o) => o,
            Err(e) => return Err(e),
        };
        let reserved1 = [TEXT_DECODED_FLAGS, 0u8, 0u8];
        let data_segment_length = [buf[5], buf[6], buf[7]];
        let lun = [buf[8], buf[9], buf[10], buf[11], buf[12], buf[13], buf[14], buf[15]];
        let reserved2 = [0u8; 16];
        let h = TextResponse {
            opcode,
            reserved1,
            total_ahs_length: buf[4],
            data_segment_length,
            lun,
            initiator_task_tag: read_be_u32(buf, 16),
            target_task_tag: read_be_u32(buf, 20),
            stat_sn: read_be_u32(buf, 24),
            exp_cmd_sn: read_be_u32(buf, 28),
            max_cmd_sn: read_be_u32(buf, 32),
            reserved2,
            header_digest: read_be_u32(buf, 44),
        };
        assert(h.reserved1@ =~= seq![TEXT_DECODED_FLAGS, 0u8, 0u8]);
        assert(h.data_segment_length@ =~= buf@.subrange(5, 8));
        assert(h.lun@ =~= buf@.subrange(8, 16));
        assert(h.reserved2@ =~= Seq::new(16, |i: int| 0u8));
        Ok(h)
    }

    /// Parses a whole Text response: the header, then the data segment
    /// (padding consumed, not returned), then a trailing digest where four
    /// more bytes remain. `Malformed` where the header does not decode or the
    /// buffer ends before the padded data segment does.
    pub fn parse(buf: &[u8]) -> (r: Result<(Self, Vec<u8>, Option<u32>), PduError>)
        ensures
            r is Ok <==> text_pdu_ok(buf@),
            match r {
                Ok((h, data, digest)) => {
                    &&& h.spec_fields_of(buf@)
                    &&& data@ == data_of(TEXT_HEADER_LEN as nat, buf@)
                    &&& digest == digest_after(buf@, pdu_len_of(TEXT_HEADER_LEN as nat, buf@) as int)
                },
                Err(e) => e == PduError::Malformed,
            },
    {
        let header = match Self::from_bhs_bytes(buf) {
            Ok(h) => h,
            Err(e) => return Err(e),
        };
        match data_and_digest(buf, TEXT_HEADER_LEN) {
            Ok((data, digest)) => Ok((header, data, digest)),
            Err(e) => Err(e),
        }
    }
}

impl BasicHeaderSegment for TextResponse {
    open spec fn spec_bytes(&self) -> Seq<u8> {
        self.spec_bhs()
    }

    open spec fn spec_header_ok(b: Seq<u8>) -> bool {
        text_header_ok(b)
    }

    open spec fn spec_decodes_from(&self, b: Seq<u8>) -> bool {
        self.spec_fields_of(b)
    }

    open spec fn spec_opcode(&self) -> BhsOpcode {
        self.opcode
    }

    open spec fn spec_ahs_words(&self) -> u8 {
        self.total_ahs_length
    }

    open spec fn spec_data_len(&self) -> nat {
        be24(self.data_segment_length@[0], self.data_segment_length@[1], self.data_segment_length@[2])
    }

    fn get_opcode(&self) -> (r: BhsOpcode) {
        self.opcode
    }

    fn ahs_length_bytes(&self) -> (r: usize) {
        (self.total_ahs_length as usize) * 4
    }

    fn data_length_bytes(&self) -> (r: usize) {
        padded_data_len(&self.data_segment_length)
    }

    fn to_bytes(&self) -> (r: Vec<u8>) {
        let b = self.to_bhs_bytes();
        bytes_to_vec(b.as_slice())
    }

    fn from_bytes(buf: &[u8]) -> (r: Result<Self, PduError>) {
        Self::from_bhs_bytes(buf)
    }
}

impl FromBytes for TextResponse {
    open spec fn spec_fixed_len() -> nat {
        TEXT_HEADER_LEN as nat
    }

    open spec fn spec_total_len(b: Seq<u8>) -> Option<nat> {
        if text_header_ok(b) {
            Some(pdu_len_of(TEXT_HEADER_LEN as nat, b))
        } else {
            None
        }
    }

    open spec fn spec_decodes(b: Seq<u8>) -> bool {
        text_pdu_ok(b)
    }

    open spec fn spec_decoded(b: Seq<u8>, h: Self, data: Seq<u8>, digest: Option<u32>) -> bool {
        &&& h.spec_fields_of(b)
        &&& data == data_of(TEXT_HEADER_LEN as nat, b)
        &&& digest == digest_after(b, pdu_len_of(TEXT_HEADER_LEN as nat, b) as int)
    }

    fn header_len() -> (r: usize) {
        TEXT_HEADER_LEN
    }

    fn peek_total_len(buf: &[u8]) -> (r: Result<usize, PduError>) {
        match Self::from_bhs_bytes(buf) {
            Ok(_) => Ok(pdu_len(buf, TEXT_HEADER_LEN)),
            Err(e) => Err(e),
        }
    }

    fn from_bytes(buf: &[u8]) -> (r: Result<(Self, Vec<u8>, Option<u32>), PduError>) {
        Self::parse(buf)
    }

    proof fn lemma_decoded_unique(
        b: Seq<u8>,
        h1: Self,
        data1: Seq<u8>,
        digest1: Option<u32>,
        h2: Self,
        data2: Seq<u8>,
        digest2: Option<u32>,
    ) {
        assert(h1.reserved1 =~= h2.reserved1);
        assert(h1.data_segment_length =~= h2.data_segment_length);
        assert(h1.lun =~= h2.lun);
        assert(h1.reserved2 =~= h2.reserved2);
    }

    proof fn lemma_peeked_len_decodes(header: Seq<u8>, b: Seq<u8>) {
        assert(header[0] == b[0]);
        assert(header[2] == b[2]);
        assert(header[4] == b[4]);
        assert(header[5] == b[5]);
        assert(header[6] == b[6]);
        assert(header[7] == b[7]);
    }
}

/// Serialising a Text response header and parsing the bytes back gives the
/// same header, for every header whose flag bytes hold the decoded value
/// and whose reserved bytes are zero.
pub proof fn lemma_text_round_trip(h: TextResponse, g: TextResponse)
    requires
        h.reserved1@ == seq![TEXT_DECODED_FLAGS, 0u8, 0u8],
        h.reserved2@ == Seq::new(16, |i: int| 0u8),
    ensures
        text_header_ok(h.spec_bhs()),
        h.spec_fields_of(h.spec_bhs()),
        g.spec_fields_of(h.spec_bhs()) ==> g == h,
{
    let b = h.spec_bhs();
    lemma_bhs_opcode_round_trip(h.opcode);
    assert(b[0] == bhs_opcode_byte(h.opcode));
    assert(b.subrange(5, 8) =~= h.data_segment_length@);
    assert(b.subrange(8, 16) =~= h.lun@);
    assert(b.subrange(16, 20) =~= be_bytes(h.initiator_task_tag));
    assert(b.subrange(20, 24) =~= be_bytes(h.target_task_tag));
    assert(b.subrange(24, 28) =~= be_bytes(h.stat_sn));
    assert(b.subrange(28, 32) =~= be_bytes(h.exp_cmd_sn));
    assert(b.subrange(32, 36) =~= be_bytes(h.max_cmd_sn));
    assert(b.subrange(44, 48) =~= be_bytes(h.header_digest));
    lemma_be32_round_trip(h.initiator_task_tag, b, 16);
    lemma_be32_round_trip(h.target_task_tag, b, 20);
    lemma_be32_round_trip(h.stat_sn, b, 24);
    lemma_be32_round_trip(h.exp_cmd_sn, b, 28);
    lemma_be32_round_trip(h.max_cmd_sn, b, 32);
    lemma_be32_round_trip(h.header_digest, b, 44);
    if g.spec_fields_of(b) {
        assert(g.reserved1 =~= h.reserved1);
        assert(g.data_segment_length =~= h.data_segment_length);
        assert(g.lun =~= h.lun);
        assert(g.reserved2 =~= h.reserved2);
    }
}

} // verus!
