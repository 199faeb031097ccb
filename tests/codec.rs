use iscsi_client::client::{classify_prefix, prefix_read_len, read_response, PduResponse};
use iscsi_client::common::{padded_data_len, raw_data_len, read_be_u32, write_be_u32};
use iscsi_client::error::PduError;
use iscsi_client::opcode::{BhsOpcode, Opcode};
use iscsi_client::pdu::{BasicHeaderSegment, FromBytes};
use iscsi_client::reject::{RejectPdu, RejectReason};
use iscsi_client::text::{TextResponse, TEXT_DECODED_FLAGS};

fn reject_header(ahs: u8, dsl: [u8; 3]) -> Vec<u8> {
    let mut b = vec![0u8; 52];
    b[0] = 0x3f;
    b[2] = 0x09;
    b[4] = ahs;
    b[5] = dsl[0];
    b[6] = dsl[1];
    b[7] = dsl[2];
    for i in 16..20 {
        b[i] = 0xff;
    }
    b[24..28].copy_from_slice(&7u32.to_be_bytes());
    b[28..32].copy_from_slice(&8u32.to_be_bytes());
    b[32..36].copy_from_slice(&9u32.to_be_bytes());
    b[48..52].copy_from_slice(&0xdeadbeefu32.to_be_bytes());
    b
}

fn text_header(ahs: u8, dsl: [u8; 3]) -> Vec<u8> {
    let mut b = vec![0u8; 48];
    b[0] = 0x24;
    b[1] = 0x80;
    b[4] = ahs;
    b[5] = dsl[0];
    b[6] = dsl[1];
    b[7] = dsl[2];
    for i in 8..16 {
        b[i] = i as u8;
    }
    b[16..20].copy_from_slice(&0x01020304u32.to_be_bytes());
    b[20..24].copy_from_slice(&0xffffffffu32.to_be_bytes());
    b[24..28].copy_from_slice(&11u32.to_be_bytes());
    b[28..32].copy_from_slice(&12u32.to_be_bytes());
    b[32..36].copy_from_slice(&13u32.to_be_bytes());
    b
}

#[test]
fn big_endian_helpers() {
    assert_eq!(write_be_u32(0x01020304), [1, 2, 3, 4]);
    assert_eq!(read_be_u32(&[9, 0xaa, 0xbb, 0xcc, 0xdd], 1), 0xaabbccdd);
    assert_eq!(raw_data_len(&[1, 2, 3]), 0x010203);
}

#[test]
fn padding_rounds_up_to_four() {
    assert_eq!(padded_data_len(&[0, 0, 0]), 0);
    assert_eq!(padded_data_len(&[0, 0, 1]), 4);
    assert_eq!(padded_data_len(&[0, 0, 4]), 4);
    assert_eq!(padded_data_len(&[0, 0, 5]), 8);
    assert_eq!(padded_data_len(&[0, 0, 7]), 8);
    assert_eq!(padded_data_len(&[0xff, 0xff, 0xff]), 0x1000000);
    for n in 0u32..40 {
        let d = [0u8, 0u8, n as u8];
        let p = padded_data_len(&d) as u32;
        assert_eq!(p, n + (4 - n % 4) % 4);
        assert_eq!(p % 4, 0);
        assert!(p >= n && p - n < 4);
    }
}

#[test]
fn opcode_bytes() {
    let o = BhsOpcode::from_byte(0x3f).unwrap();
    assert_eq!(o.opcode, Opcode::Reject);
    assert!(!o.immediate);
    let i = BhsOpcode::from_byte(0x44).unwrap();
    assert_eq!(i.opcode, Opcode::TextRequest);
    assert!(i.immediate);
    assert_eq!(i.to_byte(), 0x44);
    assert_eq!(BhsOpcode::from_byte(0x3e), Err(PduError::Malformed));
    assert_eq!(BhsOpcode::from_byte(0xbf), Err(PduError::Malformed));
    assert_eq!(Opcode::from_code(0x24), Ok(Opcode::TextResponse));
    assert_eq!(Opcode::TextResponse.code(), 0x24);
}

#[test]
fn reject_header_decodes_fields() {
    let b = reject_header(0, [0, 0, 0]);
    let arr: [u8; 52] = b.clone().try_into().unwrap();
    let h = RejectPdu::from_bhs_bytes(&arr).unwrap();
    assert_eq!(h.opcode.opcode, Opcode::Reject);
    assert_eq!(h.reason, RejectReason::InvalidPduField);
    assert_eq!(h.itt, 0xffffffff);
    assert_eq!(h.stat_sn, 7);
    assert_eq!(h.exp_cmd_sn, 8);
    assert_eq!(h.max_cmd_sn, 9);
    assert_eq!(h.header_diggest, 0xdeadbeef);
    assert_eq!(h.to_bhs_bytes().to_vec(), b);
}

#[test]
fn reject_round_trip() {
    let h = RejectPdu {
        opcode: BhsOpcode { immediate: false, opcode: Opcode::Reject },
        reserved1: 0x80,
        reason: RejectReason::ProtocolError,
        reserved2: 1,
        total_ahs_length: 2,
        data_segment_length: [0, 1, 3],
        reserved3: [1, 2, 3, 4, 5, 6, 7, 8],
        itt: 0xffffffff,
        reserved4: [9, 8, 7, 6],
        stat_sn: 0x11223344,
        exp_cmd_sn: 5,
        max_cmd_sn: 6,
        data_sn_or_r2_sn: 0xabcdef01,
        reserved5: [0; 8],
        header_diggest: 42,
    };
    let bytes = h.to_bhs_bytes();
    assert_eq!(RejectPdu::from_bhs_bytes(&bytes), Ok(h));
    let v = BasicHeaderSegment::to_bytes(&h);
    assert_eq!(v.len(), 52);
    assert_eq!(<RejectPdu as BasicHeaderSegment>::from_bytes(&v), Ok(h));
}

#[test]
fn reject_unknown_reason_is_malformed() {
    let mut b = reject_header(0, [0, 0, 0]);
    b[2] = 0x7e;
    let arr: [u8; 52] = b.clone().try_into().unwrap();
    assert_eq!(RejectPdu::from_bhs_bytes(&arr), Err(PduError::Malformed));
    assert_eq!(<RejectPdu as FromBytes>::peek_total_len(&b), Err(PduError::Malformed));
    assert!(RejectPdu::parse(&b).is_err());
}

#[test]
fn reject_short_buffer_is_malformed() {
    let b = reject_header(0, [0, 0, 0]);
    assert_eq!(<RejectPdu as FromBytes>::peek_total_len(&b[..51]), Err(PduError::Malformed));
    assert_eq!(<RejectPdu as BasicHeaderSegment>::from_bytes(&b[..51]), Err(PduError::Malformed));
    assert!(RejectPdu::parse(&b[..51]).is_err());
}

#[test]
fn reject_header_segment_lengths() {
    let b = reject_header(3, [0, 0, 5]);
    let h = <RejectPdu as BasicHeaderSegment>::from_bytes(&b).unwrap();
    assert_eq!(h.ahs_length_bytes(), 12);
    assert_eq!(h.data_length_bytes(), 8);
    assert_eq!(h.get_opcode().opcode, Opcode::Reject);
    assert_eq!(<RejectPdu as FromBytes>::peek_total_len(&b), Ok(52 + 12 + 8));
    assert_eq!(<RejectPdu as FromBytes>::header_len(), 52);
}

#[test]
fn reject_parse_reads_ahs_data_and_digest() {
    let mut b = reject_header(1, [0, 0, 2]);
    b.extend_from_slice(&[0xa0, 0xa1, 0xa2, 0xa3]);
    b.extend_from_slice(&[0x10, 0x20, 0, 0]);
    let (h, data, digest) = RejectPdu::parse(&b).unwrap();
    assert_eq!(h.total_ahs_length, 1);
    assert_eq!(data, vec![0x10, 0x20]);
    assert_eq!(digest, None);
    b.extend_from_slice(&[0, 0, 1, 0]);
    let (_, _, digest) = <RejectPdu as FromBytes>::from_bytes(&b).unwrap();
    assert_eq!(digest, Some(256));
}

#[test]
fn text_header_decodes_fields() {
    let b = text_header(0, [0, 0, 5]);
    let h = TextResponse::from_bhs_bytes(&b).unwrap();
    assert_eq!(h.opcode.opcode, Opcode::TextResponse);
    assert_eq!(h.reserved1, [TEXT_DECODED_FLAGS, 0, 0]);
    assert_eq!(h.lun, [8, 9, 10, 11, 12, 13, 14, 15]);
    assert_eq!(h.initiator_task_tag, 0x01020304);
    assert_eq!(h.target_task_tag, 0xffffffff);
    assert_eq!(h.stat_sn, 11);
    assert_eq!(h.exp_cmd_sn, 12);
    assert_eq!(h.max_cmd_sn, 13);
    assert_eq!(h.header_digest, 0);
    assert_eq!(h.data_length_bytes(), 8);
}

#[test]
fn text_in_header_digest_field() {
    let mut b = text_header(0, [0, 0, 0]);
    b[44..48].copy_from_slice(&0xcafef00du32.to_be_bytes());
    let h = TextResponse::from_bhs_bytes(&b).unwrap();
    assert_eq!(h.header_digest, 0xcafef00d);
    let bytes = h.to_bhs_bytes();
    assert_eq!(&bytes[44..48], &[0xca, 0xfe, 0xf0, 0x0d]);
    assert_eq!(&bytes[36..44], &[0u8; 8]);
    assert_eq!(TextResponse::from_bhs_bytes(&bytes), Ok(h));
}

#[test]
fn text_round_trip() {
    let h = TextResponse::from_bhs_bytes(&text_header(2, [0, 1, 0])).unwrap();
    let bytes = h.to_bhs_bytes();
    assert_eq!(bytes[1], TEXT_DECODED_FLAGS);
    assert_eq!(&bytes[36..48], &[0u8; 12]);
    assert_eq!(TextResponse::from_bhs_bytes(&bytes), Ok(h));
    let v = BasicHeaderSegment::to_bytes(&h);
    assert_eq!(<TextResponse as BasicHeaderSegment>::from_bytes(&v), Ok(h));
}

#[test]
fn text_short_or_unknown_is_malformed() {
    let b = text_header(0, [0, 0, 0]);
    assert_eq!(TextResponse::from_bhs_bytes(&b[..47]), Err(PduError::Malformed));
    let mut c = b.clone();
    c[0] = 0x3e;
    assert_eq!(TextResponse::from_bhs_bytes(&c), Err(PduError::Malformed));
    assert_eq!(<TextResponse as FromBytes>::peek_total_len(&c), Err(PduError::Malformed));
}

#[test]
fn text_total_length_counts_ahs_words_and_padding() {
    let b = text_header(2, [0, 0, 5]);
    assert_eq!(<TextResponse as FromBytes>::peek_total_len(&b), Ok(48 + 8 + 8));
    let c = text_header(0, [0, 1, 1]);
    assert_eq!(<TextResponse as FromBytes>::peek_total_len(&c), Ok(48 + 260));
}

#[test]
fn text_five_data_bytes_take_eight() {
    let mut b = text_header(0, [0, 0, 5]);
    b.extend_from_slice(&[b'a', b'=', b'b', b'c', 0, 0, 0, 0]);
    let (_, data, digest) = TextResponse::parse(&b).unwrap();
    assert_eq!(data, b"a=bc\0".to_vec());
    assert_eq!(digest, None);
    b.extend_from_slice(&[1, 2, 3]);
    assert_eq!(TextResponse::parse(&b).unwrap().2, None);
    b.push(4);
    assert_eq!(TextResponse::parse(&b).unwrap().2, Some(0x01020304));
    assert_eq!(TextResponse::parse(&b[..55]), Err(PduError::Malformed));
}

#[test]
fn classify_reject_and_expected() {
    let shorter = classify_prefix(48, 0x3f).unwrap();
    assert!(shorter.is_reject);
    assert_eq!(shorter.header_len, 52);
    assert_eq!(prefix_read_len(48) + shorter.extra_read, 52);
    let longer = classify_prefix(60, 0x3f).unwrap();
    assert!(longer.is_reject);
    assert_eq!(longer.header_len, 52);
    assert_eq!(longer.extra_read, 0);
    assert_eq!(prefix_read_len(60), 52);
    let normal = classify_prefix(60, 0x24).unwrap();
    assert!(!normal.is_reject);
    assert_eq!(normal.header_len, 60);
    assert_eq!(normal.extra_read, 8);
    let text = classify_prefix(48, 0x24).unwrap();
    assert_eq!(text.extra_read, 0);
    assert_eq!(classify_prefix(48, 0x3e), Err(PduError::Protocol));
    assert_eq!(classify_prefix(48, 0xff), Err(PduError::Protocol));
}

#[test]
fn reject_instead_of_text_response() {
    let b = reject_header(0, [0, 0, 0]);
    match read_response::<TextResponse>(&b) {
        Ok((PduResponse::Reject((h, data, digest)), used)) => {
            assert_eq!(h.reason, RejectReason::InvalidPduField);
            assert!(data.is_empty());
            assert_eq!(digest, None);
            assert_eq!(used, 52);
        }
        _ => panic!("expected a Reject response"),
    }
}

#[test]
fn text_response_read_in_full() {
    let mut b = text_header(0, [0, 0, 5]);
    b.extend_from_slice(&[1, 2, 3, 4, 5, 0, 0, 0]);
    b.extend_from_slice(&[9, 9, 9, 9]);
    match read_response::<TextResponse>(&b) {
        Ok((PduResponse::Normal((h, data, digest)), used)) => {
            assert_eq!(h.stat_sn, 11);
            assert_eq!(data, vec![1, 2, 3, 4, 5]);
            assert_eq!(digest, None);
            assert_eq!(used, 56);
        }
        _ => panic!("expected a Text response"),
    }
}

#[test]
fn read_response_errors() {
    let b = text_header(0, [0, 0, 5]);
    assert!(matches!(read_response::<TextResponse>(&b[..20]), Err(PduError::Transport)));
    assert!(matches!(read_response::<TextResponse>(&b), Err(PduError::Transport)));
    let r = reject_header(0, [0, 0, 0]);
    assert!(matches!(read_response::<TextResponse>(&r[..50]), Err(PduError::Transport)));
    let mut bad = r.clone();
    bad[2] = 0;
    assert!(matches!(read_response::<TextResponse>(&bad), Err(PduError::Malformed)));
    let mut unknown = b.clone();
    unknown[0] = 0x3e;
    assert!(matches!(read_response::<TextResponse>(&unknown), Err(PduError::Protocol)));
}
