//! Bulk-transfer diagnostic mode: the position-derived pattern, the
//! echoed sequence number, and the construction-time switch.

use sprot::engine::{ServerImpl, SinkFailure, SinkStatus};
use sprot::frame::build_frame;
use sprot::msg::{MsgType, SprotError};
use sprot::sim::{BusOp, SimTransport};
use sprot::HEADER_SIZE;

fn sink_frame(kind: MsgType, payload: &[u8]) -> Vec<u8> {
    build_frame(kind, payload).unwrap().as_slice().to_vec()
}

fn seq_reply(seq: u16) -> Vec<u8> {
    sink_frame(MsgType::SinkRsp, &seq.to_le_bytes())
}

fn collect_writes(ops: &[BusOp]) -> Vec<Vec<u8>> {
    let mut out = Vec::new();
    for op in ops {
        if let BusOp::DataWrite(d) = op {
            out.push(d.clone());
        }
    }
    out
}

#[test]
fn five_payloads_all_carry_the_position_derived_pattern() {
    let signals = vec![false, true].repeat(5);
    let replies = (0..5).map(|i| seq_reply(i)).collect();
    let bus = SimTransport::new(signals, replies);
    let mut engine = ServerImpl::new(bus, true);
    assert_eq!(engine.rot_sink(5, 8), Ok(SinkStatus { sent: 5 }));
    let bus = engine.into_bus();
    let writes = collect_writes(bus.ops());
    // Each 13-byte request leaves in two chunks: an 8-byte FIFO prefix
    // and a 5-byte remainder.
    assert_eq!(writes.len(), 10);
    for i in 0..5u16 {
        let mut frame = writes[2 * i as usize].clone();
        frame.extend_from_slice(&writes[2 * i as usize + 1]);
        // The payload: sequence number first, then each byte equal to
        // its payload offset modulo 0x100.
        let mut expected = i.to_le_bytes().to_vec();
        expected.extend_from_slice(&[2, 3, 4, 5, 6, 7]);
        assert_eq!(frame, sink_frame(MsgType::SinkReq, &expected));
        assert_eq!(&frame[HEADER_SIZE..], &expected);
    }
}

#[test]
fn sequence_mismatch_stops_at_once_and_reports_sent() {
    // The third reply claims sequence 3 where 2 was expected: a fatal
    // sequence error, with two requests already acknowledged.
    let signals = vec![false, true].repeat(3);
    let replies = vec![seq_reply(0), seq_reply(1), seq_reply(3)];
    let bus = SimTransport::new(signals, replies);
    let mut engine = ServerImpl::new(bus, true);
    assert_eq!(
        engine.rot_sink(5, 8),
        Err(SinkFailure { err: SprotError::Sequence, sent: 2 })
    );
}

#[test]
fn short_reply_without_sequence_number_is_accepted() {
    let signals = vec![false, true].repeat(2);
    let replies = vec![
        sink_frame(MsgType::SinkRsp, &[7]),
        sink_frame(MsgType::SinkRsp, &[]),
    ];
    let bus = SimTransport::new(signals, replies);
    let mut engine = ServerImpl::new(bus, true);
    assert_eq!(engine.rot_sink(2, 4), Ok(SinkStatus { sent: 2 }));
}

#[test]
fn unexpected_reply_kind_is_fatal_bad_message_type() {
    let signals = vec![false, true].repeat(2);
    let replies = vec![seq_reply(0), sink_frame(MsgType::StatusRsp, &[])];
    let bus = SimTransport::new(signals, replies);
    let mut engine = ServerImpl::new(bus, true);
    assert_eq!(
        engine.rot_sink(5, 8),
        Err(SinkFailure { err: SprotError::BadMessageType, sent: 1 })
    );
}

#[test]
fn oversize_sink_payload_fails_before_sending() {
    let bus = SimTransport::new(vec![], vec![]);
    let mut engine = ServerImpl::new(bus, true);
    let r = engine.rot_sink(1, u16::MAX);
    assert_eq!(
        r,
        Err(SinkFailure { err: SprotError::BadMessageLength, sent: 0 })
    );
}

#[test]
fn zero_count_sends_nothing() {
    let bus = SimTransport::new(vec![], vec![]);
    let mut engine = ServerImpl::new(bus, true);
    assert_eq!(engine.rot_sink(0, 8), Ok(SinkStatus { sent: 0 }));
    let bus = engine.into_bus();
    assert!(collect_writes(bus.ops()).is_empty());
}

#[test]
fn disabled_sink_mode_always_reports_not_implemented() {
    let bus = SimTransport::new(vec![], vec![]);
    let mut engine = ServerImpl::new(bus, false);
    assert_eq!(
        engine.rot_sink(5, 8),
        Err(SinkFailure { err: SprotError::NotImplemented, sent: 0 })
    );
    let bus = engine.into_bus();
    assert!(bus.ops().is_empty());
}

#[test]
fn tiny_sink_payload_keeps_the_offset_pattern_only() {
    // With size 1 there is no room for the sequence number: the single
    // byte is its offset modulo 0x100.
    let signals = vec![false, true];
    let replies = vec![sink_frame(MsgType::SinkRsp, &[])];
    let bus = SimTransport::new(signals, replies);
    let mut engine = ServerImpl::new(bus, true);
    assert_eq!(engine.rot_sink(1, 1), Ok(SinkStatus { sent: 1 }));
    let bus = engine.into_bus();
    let writes = collect_writes(bus.ops());
    assert_eq!(writes.len(), 1);
    assert_eq!(writes[0], sink_frame(MsgType::SinkReq, &[0]));
}
