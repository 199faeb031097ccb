//! Field arithmetic shared by every Basic Header Segment: big-endian
//! integers, the AHS length and the padded data-segment length.
use vstd::prelude::*;

use crate::error::PduError;

verus! {

/// Value of the big-endian 24-bit integer `b0 b1 b2`.
pub open spec fn be24(b0: u8, b1: u8, b2: u8) -> nat {
    (b0 as nat) * 65536 + (b1 as nat) * 256 + (b2 as nat)
}

/// Value of the big-endian 32-bit integer stored at `b[i .. i + 4]`.
pub open spec fn be32_at(b: Seq<u8>, i: int) -> u32 {
    ((b[i] as nat) * 16777216 + (b[i + 1] as nat) * 65536 + (b[i + 2] as nat) * 256 + (
    b[i + 3] as nat)) as u32
}

/// The four big-endian bytes of `v`.
pub open spec fn be_bytes(v: u32) -> Seq<u8> {
    seq![
        (v / 16777216) as u8,
        ((v / 65536) % 256) as u8,
        ((v / 256) % 256) as u8,
        (v % 256) as u8,
    ]
}

/// A data-segment length rounded up to the next multiple of four.
pub open spec fn padded_len(n: int) -> int {
    n + (4 - n % 4) % 4
}

/// Declared data-segment length (unpadded) of the header at the start of `b`.
pub open spec fn data_len_of(b: Seq<u8>) -> nat {
    be24(b[5], b[6], b[7])
}

/// Byte length of the additional header segment declared at the start of `b`.
pub open spec fn ahs_len_of(b: Seq<u8>) -> nat {
    4 * (b[4] as nat)
}

/// Length of a PDU before its optional digest: header, AHS and padded data.
pub open spec fn pdu_len_of(header_len: nat, b: Seq<u8>) -> nat {
    (header_len + ahs_len_of(b) + padded_len(data_len_of(b) as int)) as nat
}

/// The padded length is a multiple of four, at least `n`, and less than
/// four bytes longer.
pub proof fn lemma_padding(n: int)
    requires
        n >= 0,
    ensures
        padded_len(n) == n + (4 - n % 4) % 4,
        padded_len(n) % 4 == 0,
        n <= padded_len(n),
        padded_len(n) - n < 4,
{
}

/// Reads the big-endian `u32` at `buf[off .. off + 4]`.
pub fn read_be_u32(buf: &[u8], off: usize) -> (r: u32)
    requires
        off + 4 <= buf@.len(),
    ensures
        r == be32_at(buf@, off as int),
{
    let v: u32 = (buf[off] as u32) * 16777216 + (buf[off + 1] as u32) * 65536 + (buf[off
        + 2] as u32) * 256 + (buf[off + 3] as u32);
    v
}

/// The big-endian bytes of `v`.
pub fn write_be_u32(v: u32) -> (r: [u8; 4])
    ensures
        r@ == be_bytes(v),
{
    let r = [(v / 16777216) as u8, ((v / 65536) % 256) as u8, ((v / 256) % 256) as u8, (v
        % 256) as u8];
    assert(r@ =~= be_bytes(v));
    r
}

/// Decoding the bytes of `v` gives `v` back.
pub proof fn lemma_be32_round_trip(v: u32, b: Seq<u8>, i: int)
    requires
        0 <= i,
        i + 4 <= b.len(),
        b.subrange(i, i + 4) == be_bytes(v),
    ensures
        be32_at(b, i) == v,
{
    assert(b[i] == be_bytes(v)[0]);
    assert(b[i + 1] == be_bytes(v)[1]);
    assert(b[i + 2] == be_bytes(v)[2]);
    assert(b[i + 3] == be_bytes(v)[3]);
    let x = v as int;
    assert(x == (x / 16777216) * 16777216 + ((x / 65536) % 256) * 65536 + ((x / 256) % 256)
        * 256 + x % 256) by (nonlinear_arith)
        requires
            0 <= x < 0x1_0000_0000,
    ;
}

/// Data-segment length of a header whose length bytes are `d`: the 24-bit
/// value of `d`, rounded up to a multiple of four.
pub fn padded_data_len(d: &[u8; 3]) -> (r: usize)
    ensures
        r == padded_len(be24(d@[0], d@[1], d@[2]) as int),
{
    let size: usize = (d[0] as usize) * 65536 + (d[1] as usize) * 256 + (d[2] as usize);
    let pad: usize = (4 - size % 4) % 4;
    size + pad
}

/// Unpadded data-segment length declared by the bytes `d`.
pub fn raw_data_len(d: &[u8; 3]) -> (r: usize)
    ensures
        r == be24(d@[0], d@[1], d@[2]),
{
    (d[0] as usize) * 65536 + (d[1] as usize) * 256 + (d[2] as usize)
}

/// The logical data segment of a PDU whose header is `header_len` bytes:
/// the declared number of bytes after header and AHS, padding excluded.
pub open spec fn data_of(header_len: nat, b: Seq<u8>) -> Seq<u8> {
    let start = (header_len + ahs_len_of(b)) as int;
    b.subrange(start, start + data_len_of(b))
}

/// The trailing digest: the big-endian `u32` at `end` where at least four
/// bytes remain there, else absent.
pub open spec fn digest_after(b: Seq<u8>, end: int) -> Option<u32> {
    if b.len() >= end + 4 {
        Some(be32_at(b, end))
    } else {
        None
    }
}

/// The trailing digest is present exactly when at least four bytes remain
/// after the end of the padded data segment, and is then their big-endian
/// value; with fewer (none included) it is absent.
pub proof fn lemma_digest_optional(b: Seq<u8>, end: int)
    ensures
        b.len() >= end + 4 ==> digest_after(b, end) == Some(be32_at(b, end)),
        b.len() < end + 4 ==> digest_after(b, end) is None,
{
}

/// Upper bound on the fixed header length of any PDU type here.
pub const MAX_HEADER_LEN: usize = 1024;

/// Total pre-digest length of the PDU whose header of `header_len` bytes
/// starts `buf`: header, AHS and padded data segment.
pub fn pdu_len(buf: &[u8], header_len: usize) -> (r: usize)
    requires
        8 <= header_len <= MAX_HEADER_LEN,
        header_len <= buf@.len(),
    ensures
        r == pdu_len_of(header_len as nat, buf@),
{
    let ahs: usize = (buf[4] as usize) * 4;
    let d = [buf[5], buf[6], buf[7]];
    header_len + ahs + padded_data_len(&d)
}

/// Splits off the data segment and the optional digest of the PDU whose
/// header of `header_len` bytes starts `buf`. `Malformed` exactly where the
/// buffer ends before the padded data segment does.
pub fn data_and_digest(buf: &[u8], header_len: usize) -> (r: Result<
    (Vec<u8>, Option<u32>),
    PduError,
>)
    requires
        8 <= header_len <= MAX_HEADER_LEN,
        header_len <= buf@.len(),
    ensures
        r is Ok <==> buf@.len() >= pdu_len_of(header_len as nat, buf@),
        match r {
            Ok((data, digest)) => data@ == data_of(header_len as nat, buf@) && digest
                == digest_after(buf@, pdu_len_of(header_len as nat, buf@) as int),
            Err(e) => e == PduError::Malformed,
        },
{
    let end = pdu_len(buf, header_len);
    let len = buf.len();
    if len < end {
        return Err(PduError::Malformed);
    }
    let start: usize = header_len + (buf[4] as usize) * 4;
    let d = [buf[5], buf[6], buf[7]];
    let n = raw_data_len(&d);
    let mut data: Vec<u8> = Vec::new();
    let mut i: usize = 0;
    while i < n
        invariant
            start + n <= len,
            len == buf@.len(),
            i <= n,
            data@ == buf@.subrange(start as int, start + i),
        decreases n - i,
    {
        data.push(buf[start + i]);
        i = i + 1;
        assert(data@ =~= buf@.subrange(start as int, start + i));
    }
    let digest = if buf.len() >= end + 4 {
        Some(read_be_u32(buf, end))
    } else {
        None
    };
    Ok((data, digest))
}

/// A vector holding the bytes of `b`.
pub fn bytes_to_vec(b: &[u8]) -> (r: Vec<u8>)
    ensures
        r@ == b@,
{
    let mut r: Vec<u8> = Vec::new();
    let mut i: usize = 0;
    while i < b.len()
        invariant
            i <= b@.len(),
            r@ == b@.subrange(0, i as int),
        decreases b@.len() - i,
    {
        r.push(b[i]);
        i = i + 1;
        assert(r@ =~= b@.subrange(0, i as int));
    }
    assert(r@ =~= b@);
    r
}

} // verus!
