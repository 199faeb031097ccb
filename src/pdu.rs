//! The two contracts that every response PDU type implements: uniform
//! access to its fixed header, and framing/decoding from received bytes.
use vstd::prelude::*;

use crate::common::padded_len;
use crate::error::PduError;
use crate::opcode::BhsOpcode;

verus! {

/// Uniform access to a fixed-size Basic Header Segment.
pub trait BasicHeaderSegment: Sized {
    /// The bytes this header serialises to.
    spec fn spec_bytes(&self) -> Seq<u8>;

    /// Whether `b` starts with a header of this type whose fields decode.
    spec fn spec_header_ok(b: Seq<u8>) -> bool;

    /// Whether `self` is the header decoded from the start of `b`.
    spec fn spec_decodes_from(&self, b: Seq<u8>) -> bool;

    /// The opcode field.
    spec fn spec_opcode(&self) -> BhsOpcode;

    /// The AHS length field, in four-byte words.
    spec fn spec_ahs_words(&self) -> u8;

    /// The declared (unpadded) data-segment length.
    spec fn spec_data_len(&self) -> nat;

    /// The opcode found at byte 0.
    fn get_opcode(&self) -> (r: BhsOpcode)
        ensures
            r == self.spec_opcode(),
    ;

    /// AHS length in bytes.
    fn ahs_length_bytes(&self) -> (r: usize)
        ensures
            r == 4 * self.spec_ahs_words(),
    ;

    /// Data-segment length in bytes, padded to a multiple of four.
    fn data_length_bytes(&self) -> (r: usize)
        ensures
            r == padded_len(self.spec_data_len() as int),
    ;

    /// The serialised header.
    fn to_bytes(&self) -> (r: Vec<u8>)
        ensures
            r@ == self.spec_bytes(),
    ;

    /// Parses a header from the start of `buf`; `Malformed` where the buffer
    /// is too short or a fixed field does not decode.
    fn from_bytes(buf: &[u8]) -> (r: Result<Self, PduError>)
        ensures
            r is Ok <==> Self::spec_header_ok(buf@),
            match r {
                Ok(h) => h.spec_decodes_from(buf@),
                Err(e) => e == PduError::Malformed,
            },
    ;
}

/// Framing and decoding of a received PDU of one type.
pub trait FromBytes: Sized {
    /// The fixed header length of this PDU type.
    spec fn spec_fixed_len() -> nat;

    /// Total pre-digest length declared by the header at the start of `b`,
    /// or `None` where that header does not decode.
    spec fn spec_total_len(b: Seq<u8>) -> Option<nat>;

    /// Whether `b` holds a complete PDU of this type.
    spec fn spec_decodes(b: Seq<u8>) -> bool;

    /// Whether `(h, data, digest)` is the PDU decoded from `b`.
    spec fn spec_decoded(b: Seq<u8>, h: Self, data: Seq<u8>, digest: Option<u32>) -> bool;

    /// The fixed header length.
    fn header_len() -> (r: usize)
        ensures
            r == Self::spec_fixed_len(),
            8 <= r <= crate::common::MAX_HEADER_LEN,
    ;

    /// Total length of the PDU, digest excluded, from its header bytes alone.
    fn peek_total_len(buf: &[u8]) -> (r: Result<usize, PduError>)
        ensures
            match r {
                Ok(n) => Self::spec_total_len(buf@) == Some(n as nat) && n
                    >= Self::spec_fixed_len(),
                Err(e) => Self::spec_total_len(buf@) is None && e == PduError::Malformed,
            },
    ;

    /// Decodes header, data segment and optional digest from a full buffer.
    fn from_bytes(buf: &[u8]) -> (r: Result<(Self, Vec<u8>, Option<u32>), PduError>)
        ensures
            r is Ok <==> Self::spec_decodes(buf@),
            match r {
                Ok((h, data, digest)) => Self::spec_decoded(buf@, h, data@, digest),
                Err(e) => e == PduError::Malformed,
            },
    ;

    /// A buffer decodes to at most one header, data segment and digest.
    proof fn lemma_decoded_unique(
        b: Seq<u8>,
        h1: Self,
        data1: Seq<u8>,
        digest1: Option<u32>,
        h2: Self,
        data2: Seq<u8>,
        digest2: Option<u32>,
    )
        requires
            Self::spec_decoded(b, h1, data1, digest1),
            Self::spec_decoded(b, h2, data2, digest2),
        ensures
            h1 == h2,
            data1 == data2,
            digest1 == digest2,
    ;

    /// A buffer that starts with a header whose total length is known, and
    /// holds at least that length, decodes, and announces the same length.
    proof fn lemma_peeked_len_decodes(header: Seq<u8>, b: Seq<u8>)
        requires
            header.len() == Self::spec_fixed_len(),
            Self::spec_total_len(header) is Some,
            b.len() >= Self::spec_total_len(header)->0,
            b.subrange(0, header.len() as int) == header,
        ensures
            Self::spec_decodes(b),
            Self::spec_total_len(b) == Self::spec_total_len(header),
    ;
}

} // verus!
