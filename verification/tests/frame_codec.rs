//! Frame codec behavior: round trips, corruption detection, and the
//! length-consistency rule.

use sprot::frame::{build_frame, finish_verify, parse_header};
use sprot::msg::{MsgType, SprotError};
use sprot::{HEADER_SIZE, MAX_PAYLOAD_SIZE};

fn frame_bytes_of(kind: MsgType, payload: &[u8]) -> Vec<u8> {
    build_frame(kind, payload).unwrap().as_slice().to_vec()
}

#[test]
fn round_trip_simple_payload() {
    let payload = [1u8, 2, 3, 4, 5];
    let bytes = frame_bytes_of(MsgType::StatusRsp, &payload);
    assert_eq!(bytes.len(), HEADER_SIZE + payload.len());
    let m = finish_verify(&bytes, bytes.len()).unwrap();
    assert_eq!(m.msg_type(), MsgType::StatusRsp);
    assert_eq!(m.payload().as_slice(), &payload);
    // The cheap header parse on the same buffer agrees.
    let h = parse_header(&bytes, bytes.len()).unwrap();
    assert_eq!(h.msgtype, MsgType::StatusRsp);
    assert_eq!(h.payload_len as usize, payload.len());
}

#[test]
fn round_trip_empty_payload() {
    let bytes = frame_bytes_of(MsgType::UpdAbortUpdateReq, &[]);
    assert_eq!(bytes.len(), HEADER_SIZE);
    let m = finish_verify(&bytes, bytes.len()).unwrap();
    assert_eq!(m.msg_type(), MsgType::UpdAbortUpdateReq);
    assert!(m.payload().is_empty());
}

#[test]
fn round_trip_max_payload() {
    let payload = vec![0xabu8; MAX_PAYLOAD_SIZE];
    let bytes = frame_bytes_of(MsgType::UpdWriteOneBlockReq, &payload);
    let m = finish_verify(&bytes, bytes.len()).unwrap();
    assert_eq!(m.msg_type(), MsgType::UpdWriteOneBlockReq);
    assert_eq!(m.payload().len(), MAX_PAYLOAD_SIZE);
}

#[test]
fn round_trip_every_kind() {
    let kinds = [
        MsgType::StatusReq,
        MsgType::StatusRsp,
        MsgType::IoStatsReq,
        MsgType::IoStatsRsp,
        MsgType::SinkReq,
        MsgType::SinkRsp,
        MsgType::UpdBlockSizeReq,
        MsgType::UpdBlockSizeRsp,
        MsgType::UpdPrepImageUpdateReq,
        MsgType::UpdPrepImageUpdateRsp,
        MsgType::UpdWriteOneBlockReq,
        MsgType::UpdWriteOneBlockRsp,
        MsgType::UpdFinishImageUpdateReq,
        MsgType::UpdFinishImageUpdateRsp,
        MsgType::UpdAbortUpdateReq,
        MsgType::UpdAbortUpdateRsp,
        MsgType::ErrorRsp,
    ];
    for kind in kinds {
        let payload = [7u8, 0, 255];
        let bytes = frame_bytes_of(kind, &payload);
        let m = finish_verify(&bytes, bytes.len()).unwrap();
        assert_eq!(m.msg_type(), kind);
        assert_eq!(m.payload().as_slice(), &payload);
    }
}

#[test]
fn build_rejects_oversize_payload() {
    let payload = vec![0u8; MAX_PAYLOAD_SIZE + 1];
    let r = build_frame(MsgType::SinkReq, &payload);
    assert!(matches!(r, Err(SprotError::BadMessageLength)));
}

#[test]
fn every_single_bit_corruption_is_rejected() {
    let bytes = frame_bytes_of(MsgType::StatusRsp, &[0x11, 0x22, 0x33]);
    for i in 0..bytes.len() {
        for bit in 0..8 {
            let mut bad = bytes.clone();
            bad[i] ^= 1u8 << bit;
            let r = finish_verify(&bad, bad.len());
            assert!(
                matches!(r, Err(SprotError::MalformedFrame)),
                "flip of bit {bit} in byte {i} was accepted"
            );
        }
    }
}

#[test]
fn every_single_byte_corruption_of_header_only_frame_is_rejected() {
    let bytes = frame_bytes_of(MsgType::StatusReq, &[]);
    for i in 0..bytes.len() {
        for delta in 1..=255u8 {
            let mut bad = bytes.clone();
            bad[i] = bad[i].wrapping_add(delta);
            let r = finish_verify(&bad, bad.len());
            assert!(matches!(r, Err(SprotError::MalformedFrame)));
        }
    }
}

#[test]
fn declared_length_must_match_bytes_available() {
    let bytes = frame_bytes_of(MsgType::StatusRsp, &[9, 9, 9, 9]);
    // One byte short of what the header declares.
    assert!(matches!(
        finish_verify(&bytes, bytes.len() - 1),
        Err(SprotError::MalformedFrame)
    ));
    // One byte past what the header declares.
    let mut longer = bytes.clone();
    longer.push(0);
    assert!(matches!(
        finish_verify(&longer, longer.len()),
        Err(SprotError::MalformedFrame)
    ));
    // The exact length is accepted.
    assert!(finish_verify(&bytes, bytes.len()).is_ok());
}

#[test]
fn parse_header_reads_declared_length_before_payload_arrives() {
    let bytes = frame_bytes_of(MsgType::StatusRsp, &[1, 2, 3, 4, 5, 6, 7]);
    // Only the header has arrived; parse still reports the length.
    let h = parse_header(&bytes[..HEADER_SIZE], HEADER_SIZE).unwrap();
    assert_eq!(h.msgtype, MsgType::StatusRsp);
    assert_eq!(h.payload_len, 7);
}

#[test]
fn parse_header_rejects_unknown_tag_and_short_buffer() {
    let mut bytes = frame_bytes_of(MsgType::StatusReq, &[]);
    bytes[0] = 0xee;
    assert!(matches!(
        parse_header(&bytes, bytes.len()),
        Err(SprotError::MalformedFrame)
    ));
    let short = [1u8, 0];
    assert!(matches!(
        parse_header(&short, short.len()),
        Err(SprotError::MalformedFrame)
    ));
}

#[test]
fn parse_header_rejects_oversize_declared_length() {
    // A header declaring a payload larger than the capacity.
    let bad = [1u8, 0xff, 0xff, 0, 0];
    assert!(matches!(
        parse_header(&bad, bad.len()),
        Err(SprotError::MalformedFrame)
    ));
}
