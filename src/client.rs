//! Decisions of the request/response call: which header shape a response
//! has, how many bytes remain to be read, and how the bytes decode.
//!
//! The connection that owns the stream performs the reads; the functions
//! here take what was read and say what to do next.
use vstd::prelude::*;

use vstd::slice::slice_subrange;

use crate::common::{be24, padded_len, MAX_HEADER_LEN};
use crate::error::PduError;
use crate::opcode::{bhs_opcode_of, BhsOpcode, Opcode};
use crate::pdu::FromBytes;
use crate::reject::{RejectPdu, REJECT_HEADER_LEN};
use crate::text::{TextResponse, TEXT_HEADER_LEN};

verus! {

/// The outcome of a call: the expected response, or a Reject PDU.
pub enum PduResponse<R> {
    /// The expected response.
    Normal(R),
    /// A Reject PDU with its header, data segment and optional digest.
    Reject((RejectPdu, Vec<u8>, Option<u32>)),
}

/// What the opcode of a response decides about its header.
#[derive(Clone, Copy, Debug, PartialEq, Eq, Structural)]
pub struct HeaderPlan {
    /// The fixed header length of the PDU that arrives.
    pub header_len: usize,
    /// Whether it is a Reject PDU.
    pub is_reject: bool,
    /// Header bytes still to read after the common prefix.
    pub extra_read: usize,
}

/// Length of the prefix that a Reject header and an expected header of
/// `expected` bytes have in common.
pub open spec fn prefix_len(expected: nat) -> nat {
    if expected < REJECT_HEADER_LEN {
        expected
    } else {
        REJECT_HEADER_LEN as nat
    }
}

/// Whether `b` is the opcode byte of a Reject PDU.
pub open spec fn is_reject_byte(b: u8) -> bool {
    match bhs_opcode_of(b) {
        Some(o) => o.opcode == Opcode::Reject,
        None => false,
    }
}

/// The plan for a response whose first byte is `first`, while a header of
/// `expected` bytes is expected; `None` where the byte is no known opcode.
pub open spec fn spec_plan(expected: nat, first: u8) -> Option<HeaderPlan> {
    if bhs_opcode_of(first) is None {
        None
    } else if is_reject_byte(first) {
        Some(
            HeaderPlan {
                header_len: REJECT_HEADER_LEN,
                is_reject: true,
                extra_read: (REJECT_HEADER_LEN - prefix_len(expected)) as usize,
            },
        )
    } else {
        Some(
            HeaderPlan {
                header_len: expected as usize,
                is_reject: false,
                extra_read: (expected - prefix_len(expected)) as usize,
            },
        )
    }
}

/// Total pre-digest length announced by `header`, read as a Reject header
/// or as a header of the expected type.
pub open spec fn total_len_for<Res: FromBytes>(is_reject: bool, header: Seq<u8>) -> Option<nat> {
    if is_reject {
        <RejectPdu as FromBytes>::spec_total_len(header)
    } else {
        Res::spec_total_len(header)
    }
}

/// The number of bytes to read first: the prefix common to both headers.
pub fn prefix_read_len(expected_header_len: usize) -> (r: usize)
    ensures
        r == prefix_len(expected_header_len as nat),
{
    if expected_header_len < REJECT_HEADER_LEN {
        expected_header_len
    } else {
        REJECT_HEADER_LEN
    }
}

/// Tells a Reject PDU from the expected response by its first byte.
/// `Protocol` where the byte is no known opcode.
pub fn classify_prefix(expected_header_len: usize, first_byte: u8) -> (r: Result<
    HeaderPlan,
    PduError,
>)
    ensures
        match r {
            Ok(p) => spec_plan(expected_header_len as nat, first_byte) == Some(p),
            Err(e) => spec_plan(expected_header_len as nat, first_byte) is None && e
                == PduError::Protocol,
        },
{
    let o = match BhsOpcode::from_byte(first_byte) {
        Ok(o) => o,
        Err(_) => return Err(PduError::Protocol),
    };
    let lo = prefix_read_len(expected_header_len);
    if o.opcode == Opcode::Reject {
        Ok(HeaderPlan { header_len: REJECT_HEADER_LEN, is_reject: true, extra_read: REJECT_HEADER_LEN - lo })
    } else {
        Ok(
            HeaderPlan {
                header_len: expected_header_len,
                is_reject: false,
                extra_read: expected_header_len - lo,
            },
        )
    }
}

/// Bytes of the PDU still to read once its whole header is in `header`:
/// the announced total length less the header. `Malformed` where the header
/// does not decode.
pub fn body_read_len<Res: FromBytes>(is_reject: bool, header: &[u8]) -> (r: Result<
    usize,
    PduError,
>)
    requires
        header@.len() == if is_reject {
            REJECT_HEADER_LEN as nat
        } else {
            Res::spec_fixed_len()
        },
    ensures
        match r {
            Ok(n) => total_len_for::<Res>(is_reject, header@) == Some((header@.len() + n) as nat),
            Err(e) => total_len_for::<Res>(is_reject, header@) is None && e == PduError::Malformed,
        },
{
    let total = if is_reject {
        <RejectPdu as FromBytes>::peek_total_len(header)
    } else {
        Res::peek_total_len(header)
    };
    match total {
        Ok(t) => Ok(t - header.len()),
        Err(e) => Err(e),
    }
}

/// Decodes the assembled PDU as a Reject PDU or as the expected response.
pub fn finish_call<Res: FromBytes>(is_reject: bool, buf: &[u8]) -> (r: Result<
    PduResponse<(Res, Vec<u8>, Option<u32>)>,
    PduError,
>)
    ensures
        r is Ok <==> if is_reject {
            <RejectPdu as FromBytes>::spec_decodes(buf@)
        } else {
            Res::spec_decodes(buf@)
        },
        match r {
            Ok(PduResponse::Reject((h, data, digest))) => is_reject && <RejectPdu as FromBytes>::spec_decoded(
                buf@,
                h,
                data@,
                digest,
            ),
            Ok(PduResponse::Normal((h, data, digest))) => !is_reject && Res::spec_decoded(
                buf@,
                h,
                data@,
                digest,
            ),
            Err(e) => e == PduError::Malformed,
        },
{
    if is_reject {
        match RejectPdu::parse(buf) {
            Ok(t) => Ok(PduResponse::Reject(t)),
            Err(e) => Err(e),
        }
    } else {
        match Res::from_bytes(buf) {
            Ok(t) => Ok(PduResponse::Normal(t)),
            Err(e) => Err(e),
        }
    }
}

/// Whatever the expected header length, a first byte that is the Reject
/// opcode makes the receiver read exactly a whole Reject header, and a first
/// byte that is any other known opcode makes it read exactly the expected
/// header.
pub proof fn lemma_disambiguation(expected: nat, first: u8)
    requires
        8 <= expected <= MAX_HEADER_LEN,
    ensures
        is_reject_byte(first) ==> (spec_plan(expected, first) matches Some(p) && p.is_reject
            && p.header_len == REJECT_HEADER_LEN && prefix_len(expected) + p.extra_read
            == REJECT_HEADER_LEN),
        bhs_opcode_of(first) is Some && !is_reject_byte(first) ==> (spec_plan(expected, first)
            matches Some(p) && !p.is_reject && p.header_len == expected && prefix_len(expected)
            + p.extra_read == expected),
        bhs_opcode_of(first) is None ==> spec_plan(expected, first) is None,
        prefix_len(expected) <= expected && prefix_len(expected) <= REJECT_HEADER_LEN,
{
}

/// Reads one response from the bytes `stream` in the order a connection
/// reads them: the common header prefix, the rest of the header that the
/// first byte selects, then the announced remainder, which is then decoded. Returns the response and the number of bytes it took.
/// `Transport` where the bytes end before a read is satisfied, `Protocol`
/// for an unknown first byte, `Malformed` for a header that does not decode.
pub fn read_response<Res: FromBytes>(stream: &[u8]) -> (r: Result<
    (PduResponse<(Res, Vec<u8>, Option<u32>)>, usize),
    PduError,
>)
    ensures
        ({
            let s = stream@;
            let lo = prefix_len(Res::spec_fixed_len());
            if s.len() < lo {
                r == Err::<(PduResponse<(Res, Vec<u8>, Option<u32>)>, usize), PduError>(
                    PduError::Transport,
                )
            } else {
                match spec_plan(Res::spec_fixed_len(), s[0]) {
                    None => r == Err::<(PduResponse<(Res, Vec<u8>, Option<u32>)>, usize), PduError>(
                        PduError::Protocol,
                    ),
                    Some(p) => if s.len() < p.header_len {
                        r == Err::<(PduResponse<(Res, Vec<u8>, Option<u32>)>, usize), PduError>(
                            PduError::Transport,
                        )
                    } else {
                        match total_len_for::<Res>(p.is_reject, s.subrange(0, p.header_len as int)) {
                            None => r == Err::<
                                (PduResponse<(Res, Vec<u8>, Option<u32>)>, usize),
                                PduError,
                            >(PduError::Malformed),
                            Some(t) => if s.len() < t {
                                r == Err::<
                                    (PduResponse<(Res, Vec<u8>, Option<u32>)>, usize),
                                    PduError,
                                >(PduError::Transport)
                            } else {
                                match r {
                                    Ok((PduResponse::Reject((h, data, digest)), used)) => {
                                        &&& p.is_reject
                                        &&& used == t
                                        &&& <RejectPdu as FromBytes>::spec_decoded(
                                            s.subrange(0, t as int),
                                            h,
                                            data@,
                                            digest,
                                        )
                                    },
                                    Ok((PduResponse::Normal((h, data, digest)), used)) => {
                                        &&& !p.is_reject
                                        &&& used == t
                                        &&& Res::spec_decoded(s.subrange(0, t as int), h, data@, digest)
                                    },
                                    Err(_) => false,
                                }
                            },
                        }
                    },
                }
            }
        }),
{
    let expected = Res::header_len();
    let lo = prefix_read_len(expected);
    if stream.len() < lo {
        return Err(PduError::Transport);
    }
    let plan = match classify_prefix(expected, stream[0]) {
        Ok(p) => p,
        Err(e) => return Err(e),
    };
    if stream.len() < plan.header_len {
        return Err(PduError::Transport);
    }
    let header = slice_subrange(stream, 0, plan.header_len);
    let rest = match body_read_len::<Res>(plan.is_reject, header) {
        Ok(n) => n,
        Err(e) => return Err(e),
    };
    if stream.len() - plan.header_len < rest {
        return Err(PduError::Transport);
    }
    let total = plan.header_len + rest;
    let buf = slice_subrange(stream, 0, total);
    proof {
        assert(buf@.subrange(0, header@.len() as int) =~= header@);
        if plan.is_reject {
            <RejectPdu as FromBytes>::lemma_peeked_len_decodes(header@, buf@);
        } else {
            Res::lemma_peeked_len_decodes(header@, buf@);
        }
    }
    match finish_call::<Res>(plan.is_reject, buf) {
        Ok(resp) => Ok((resp, total)),
        Err(e) => Err(e),
    }
}

/// The total length peeked from a decodable header with AHS length field `k`
/// and data-segment length `d` is the header length plus `4k` plus `d`
/// rounded up to a multiple of four.
pub proof fn lemma_total_len(b: Seq<u8>)
    requires
        b.len() >= 8,
    ensures
        <RejectPdu as FromBytes>::spec_total_len(b) is Some ==> <RejectPdu as FromBytes>::spec_total_len(b)
            == Some(
            (REJECT_HEADER_LEN + 4 * b[4] + padded_len(be24(b[5], b[6], b[7]) as int)) as nat,
        ),
        <TextResponse as FromBytes>::spec_total_len(b) is Some ==> <TextResponse as FromBytes>::spec_total_len(b)
            == Some(
            (TEXT_HEADER_LEN + 4 * b[4] + padded_len(be24(b[5], b[6], b[7]) as int)) as nat,
        ),
{
}

/// A header whose opcode byte is no known opcode is refused everywhere:
/// by disambiguation, by both header decoders and by both PDU decoders.
pub proof fn lemma_unknown_opcode_refused(expected: nat, b: Seq<u8>)
    requires
        b.len() >= 1,
        bhs_opcode_of(b[0]) is None,
    ensures
        spec_plan(expected, b[0]) is None,
        <RejectPdu as FromBytes>::spec_total_len(b) is None,
        !<RejectPdu as FromBytes>::spec_decodes(b),
        <TextResponse as FromBytes>::spec_total_len(b) is None,
        !<TextResponse as FromBytes>::spec_decodes(b),
{
}

} // verus!
