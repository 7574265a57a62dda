//! Reply payload codecs: update replies as an encoded `Result`, and the
//! fixed-width status and I/O-statistics records.

use sprot::reply::{
    decode_io_stats, decode_status, decode_update_reply, encode_io_stats, encode_status,
    encode_update_reply, IoStats, SprotStatus,
};
use sprot::msg::SprotError;

#[test]
fn update_reply_round_trips() {
    let cases = [
        Ok(None),
        Ok(Some(0u32)),
        Ok(Some(512)),
        Ok(Some(u32::MAX)),
        Err(0u32),
        Err(3),
        Err(999),
        Err(u32::MAX),
    ];
    for v in cases {
        let p = encode_update_reply(v);
        assert_eq!(decode_update_reply(&p), Some(v));
    }
}

#[test]
fn update_reply_exact_bytes() {
    assert_eq!(encode_update_reply(Ok(None)), vec![0, 0]);
    assert_eq!(encode_update_reply(Ok(Some(512))), vec![0, 1, 0, 2, 0, 0]);
    assert_eq!(encode_update_reply(Err(3)), vec![1, 3, 0, 0, 0]);
}

#[test]
fn update_reply_rejects_malformed_payloads() {
    assert_eq!(decode_update_reply(&vec![]), None);
    assert_eq!(decode_update_reply(&vec![2]), None);
    assert_eq!(decode_update_reply(&vec![0]), None);
    assert_eq!(decode_update_reply(&vec![0, 2]), None);
    assert_eq!(decode_update_reply(&vec![0, 1, 1, 2, 3]), None);
    assert_eq!(decode_update_reply(&vec![1, 1, 2, 3]), None);
    assert_eq!(decode_update_reply(&vec![1, 1, 2, 3, 4, 5]), None);
}

#[test]
fn status_record_round_trips() {
    let st = SprotStatus {
        version: 2,
        supported: 0x0000_00ff,
        bootrom_crc32: 0xdead_beef,
        buffer_size: 1033,
    };
    let p = encode_status(&st);
    assert_eq!(p.len(), 16);
    assert_eq!(decode_status(&p).unwrap(), st);
}

#[test]
fn status_record_rejects_wrong_length() {
    assert!(matches!(
        decode_status(&vec![0u8; 15]),
        Err(SprotError::Deserialization)
    ));
    assert!(matches!(
        decode_status(&vec![0u8; 17]),
        Err(SprotError::Deserialization)
    ));
}

#[test]
fn io_stats_record_round_trips() {
    let st = IoStats {
        rx_received: 10,
        rx_overrun: 1,
        tx_underrun: 2,
        rx_invalid: 3,
        tx_incomplete: 4,
    };
    let p = encode_io_stats(&st);
    assert_eq!(p.len(), 20);
    assert_eq!(decode_io_stats(&p).unwrap(), st);
}

#[test]
fn io_stats_record_rejects_wrong_length() {
    assert!(matches!(
        decode_io_stats(&vec![0u8; 19]),
        Err(SprotError::Deserialization)
    ));
}
