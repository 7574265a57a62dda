//! Exchange and retry-engine scenarios against the scripted transport.

use sprot::engine::{PulseStatus, ServerImpl};
use sprot::frame::build_frame;
use sprot::msg::{err_code, MsgType, SprotError};
use sprot::reply::{encode_io_stats, encode_status, IoStats, SprotStatus};
use sprot::sim::{BusOp, SimTransport};

fn reply_frame(kind: MsgType, payload: &[u8]) -> Vec<u8> {
    build_frame(kind, payload).unwrap().as_slice().to_vec()
}

fn sample_status() -> SprotStatus {
    SprotStatus {
        version: 2,
        supported: 1,
        bootrom_crc32: 0x1234_5678,
        buffer_size: 1033,
    }
}

fn write_ops(ops: &[BusOp]) -> Vec<Vec<u8>> {
    let mut out = Vec::new();
    for op in ops {
        if let BusOp::DataWrite(d) = op {
            out.push(d.clone());
        }
    }
    out
}

#[test]
fn status_exchange_succeeds() {
    let st = sample_status();
    let bus = SimTransport::new(
        vec![false, true],
        vec![reply_frame(MsgType::StatusRsp, &encode_status(&st))],
    );
    let mut engine = ServerImpl::new(bus, false);
    assert_eq!(engine.status().unwrap(), st);
}

#[test]
fn status_of_wrong_kind_is_bad_message_type() {
    let bus = SimTransport::new(
        vec![false, true],
        vec![reply_frame(MsgType::IoStatsRsp, &[0u8; 20])],
    );
    let mut engine = ServerImpl::new(bus, false);
    assert_eq!(engine.status(), Err(SprotError::BadMessageType));
}

#[test]
fn io_stats_exchange_succeeds() {
    let st = IoStats {
        rx_received: 5,
        rx_overrun: 0,
        tx_underrun: 0,
        rx_invalid: 1,
        tx_incomplete: 0,
    };
    let bus = SimTransport::new(
        vec![false, true],
        vec![reply_frame(MsgType::IoStatsRsp, &encode_io_stats(&st))],
    );
    let mut engine = ServerImpl::new(bus, false);
    assert_eq!(engine.io_stats().unwrap(), st);
}

#[test]
fn send_recv_echoes_request_kind_and_returns_payload() {
    let bus = SimTransport::new(
        vec![false, true],
        vec![reply_frame(MsgType::StatusRsp, &[9, 9])],
    );
    let mut engine = ServerImpl::new(bus, false);
    let rcv = engine.send_recv(MsgType::StatusReq, &[1, 2, 3]).unwrap();
    assert_eq!(rcv.msgtype, MsgType::StatusReq);
    assert_eq!(rcv.length, 2);
    assert_eq!(rcv.payload, vec![9, 9]);
}

#[test]
fn send_recv_rejects_oversize_request() {
    let bus = SimTransport::new(vec![], vec![]);
    let mut engine = ServerImpl::new(bus, false);
    let big = vec![0u8; sprot::MAX_PAYLOAD_SIZE + 1];
    let r = engine.send_recv(MsgType::StatusReq, &big);
    assert!(matches!(r, Err(SprotError::BadMessageLength)));
}

#[test]
fn all_attempts_failing_returns_last_error_and_bounds_exchanges() {
    // The ready signal never asserts: every attempt times out, and with
    // a budget of three the engine sends exactly three requests and
    // reports the final attempt's error.
    let bus = SimTransport::new(vec![], vec![]);
    let mut engine = ServerImpl::new(bus, false);
    let r = engine.send_recv_retries(MsgType::StatusReq, 3, &[]);
    assert_eq!(r.err().unwrap(), SprotError::RotNotReady);
    let bus = engine.into_bus();
    let writes = write_ops(bus.ops());
    assert_eq!(writes.len(), 3);
}

#[test]
fn zero_attempt_budget_yields_the_sentinel() {
    // With no attempt allowed, nothing touches the bus and the
    // internal-invariant sentinel is the only possible outcome.
    let bus = SimTransport::new(vec![], vec![]);
    let mut engine = ServerImpl::new(bus, false);
    let r = engine.send_recv_retries(MsgType::StatusReq, 0, &[]);
    assert_eq!(r.err().unwrap(), SprotError::Unknown);
    let bus = engine.into_bus();
    assert!(bus.ops().is_empty());
}

#[test]
fn single_attempt_cannot_be_distinguished_from_exhausted_budget() {
    let bus = SimTransport::new(vec![], vec![]);
    let mut engine = ServerImpl::new(bus, false);
    let r = engine.send_recv(MsgType::StatusReq, &[]);
    assert_eq!(r.err().unwrap(), SprotError::RotNotReady);
    let bus = engine.into_bus();
    assert_eq!(write_ops(bus.ops()).len(), 1);
}

#[test]
fn wrong_length_error_reply_is_retried_until_success() {
    // Two error-kind replies whose payload is not exactly one byte,
    // then a good reply: the wrong-length error payloads are treated
    // as recoverable and do not end the loop early.
    let good = reply_frame(MsgType::StatusRsp, &[42]);
    let bus = SimTransport::new(
        vec![false, true, false, true, false, true],
        vec![
            reply_frame(MsgType::ErrorRsp, &[1, 2]),
            reply_frame(MsgType::ErrorRsp, &[]),
            good,
        ],
    );
    let mut engine = ServerImpl::new(bus, false);
    let rcv = engine.send_recv_retries(MsgType::StatusReq, 3, &[]).unwrap();
    assert_eq!(rcv.payload, vec![42]);
    let bus = engine.into_bus();
    assert_eq!(write_ops(bus.ops()).len(), 3);
}

#[test]
fn wrong_length_error_replies_exhaust_the_budget() {
    let bus = SimTransport::new(
        vec![false, true, false, true],
        vec![
            reply_frame(MsgType::ErrorRsp, &[1, 2]),
            reply_frame(MsgType::ErrorRsp, &[1, 2]),
        ],
    );
    let mut engine = ServerImpl::new(bus, false);
    let r = engine.send_recv_retries(MsgType::StatusReq, 2, &[]);
    assert_eq!(r.err().unwrap(), SprotError::BadErrorPayload);
    let bus = engine.into_bus();
    assert_eq!(write_ops(bus.ops()).len(), 2);
}

#[test]
fn recoverable_peer_error_is_retried() {
    let bus = SimTransport::new(
        vec![false, true, false, true],
        vec![
            reply_frame(MsgType::ErrorRsp, &[err_code(SprotError::RotBusy)]),
            reply_frame(MsgType::StatusRsp, &[7]),
        ],
    );
    let mut engine = ServerImpl::new(bus, false);
    let rcv = engine.send_recv_retries(MsgType::StatusReq, 3, &[]).unwrap();
    assert_eq!(rcv.payload, vec![7]);
}

#[test]
fn fatal_peer_error_ends_the_loop_at_once() {
    let bus = SimTransport::new(
        vec![false, true],
        vec![reply_frame(MsgType::ErrorRsp, &[err_code(SprotError::Sequence)])],
    );
    let mut engine = ServerImpl::new(bus, false);
    let r = engine.send_recv_retries(MsgType::StatusReq, 3, &[]);
    assert_eq!(r.err().unwrap(), SprotError::Sequence);
    let bus = engine.into_bus();
    // Only one exchange despite the budget of three.
    assert_eq!(write_ops(bus.ops()).len(), 1);
}

#[test]
fn corrupted_reply_is_a_malformed_frame() {
    let mut bad = reply_frame(MsgType::StatusRsp, &[1, 2, 3]);
    bad[6] ^= 0x40;
    let bus = SimTransport::new(vec![false, true], vec![bad]);
    let mut engine = ServerImpl::new(bus, false);
    let r = engine.send_recv(MsgType::StatusReq, &[]);
    assert_eq!(r.err().unwrap(), SprotError::MalformedFrame);
}

#[test]
fn bus_fault_on_write_is_fatal_immediately() {
    let mut bus = SimTransport::new(vec![false], vec![]);
    bus.set_fail_writes(true);
    let mut engine = ServerImpl::new(bus, false);
    let r = engine.send_recv_retries(MsgType::StatusReq, 3, &[]);
    assert_eq!(r.err().unwrap(), SprotError::SpiServerError);
    let bus = engine.into_bus();
    // No retry after a bus-level fault.
    assert_eq!(write_ops(bus.ops()).len(), 1);
}

#[test]
fn large_request_is_sent_in_two_chunks() {
    let payload = [5u8; 20];
    let bus = SimTransport::new(
        vec![false, true],
        vec![reply_frame(MsgType::StatusRsp, &[])],
    );
    let mut engine = ServerImpl::new(bus, false);
    engine.send_recv(MsgType::StatusReq, &payload).unwrap();
    let bus = engine.into_bus();
    let writes = write_ops(bus.ops());
    assert_eq!(writes.len(), 2);
    assert_eq!(writes[0].len(), sprot::ROT_FIFO_SIZE);
    let whole = reply_frame(MsgType::StatusReq, &payload);
    let mut sent = writes[0].clone();
    sent.extend_from_slice(&writes[1]);
    assert_eq!(sent, whole);
}

#[test]
fn pulse_reports_signal_before_and_after_without_change() {
    // The level never changes; both observations are still reported,
    // each from a live read.
    let bus = SimTransport::new(vec![true, true], vec![]);
    let mut engine = ServerImpl::new(bus, false);
    let st = engine.pulse_cs(7).unwrap();
    assert_eq!(st, PulseStatus { rot_irq_begin: 1, rot_irq_end: 1 });
    let bus = engine.into_bus();
    let ops = bus.ops();
    assert_eq!(ops.len(), 6);
    assert!(matches!(ops[0], BusOp::SignalRead(true)));
    assert!(matches!(ops[1], BusOp::SelAssert));
    assert!(matches!(ops[2], BusOp::SleepTicks(7)));
    assert!(matches!(ops[3], BusOp::SelRelease));
    assert!(matches!(ops[4], BusOp::SleepTicks(7)));
    assert!(matches!(ops[5], BusOp::SignalRead(true)));
}

#[test]
fn pulse_reports_a_clearing_signal() {
    let bus = SimTransport::new(vec![true, false], vec![]);
    let mut engine = ServerImpl::new(bus, false);
    let st = engine.pulse_cs(1).unwrap();
    assert_eq!(st, PulseStatus { rot_irq_begin: 1, rot_irq_end: 0 });
}

#[test]
fn asserted_signal_going_in_triggers_resync_before_any_write() {
    // The ready signal is stuck asserted when the exchange starts — an
    // unsolicited pending response. The engine must wait, then pulse
    // select, before a single request byte goes out.
    let mut signals = vec![true; 253];
    signals.push(false); // the pulse clears the signal
    signals.push(true); // the response becomes ready after the send
    let st = sample_status();
    let bus = SimTransport::new(
        signals,
        vec![reply_frame(MsgType::StatusRsp, &encode_status(&st))],
    );
    let mut engine = ServerImpl::new(bus, false);
    assert_eq!(engine.status().unwrap(), st);
    let bus = engine.into_bus();
    let ops = bus.ops();
    let first_write = ops
        .iter()
        .position(|op| matches!(op, BusOp::DataWrite(_)))
        .unwrap();
    let pulse_release = ops
        .iter()
        .position(|op| matches!(op, BusOp::SelRelease))
        .unwrap();
    let pulse_assert = ops
        .iter()
        .position(|op| matches!(op, BusOp::SelAssert))
        .unwrap();
    assert!(pulse_assert < pulse_release);
    assert!(pulse_release < first_write, "resync pulse must precede the request bytes");
}

#[test]
fn resync_failure_is_desynchronization() {
    // The signal stays asserted even after the pulse.
    let signals = vec![true; 300];
    let bus = SimTransport::new(signals, vec![]);
    let mut engine = ServerImpl::new(bus, false);
    let r = engine.send_recv(MsgType::StatusReq, &[]);
    assert_eq!(r.err().unwrap(), SprotError::Desynchronized);
    let bus = engine.into_bus();
    // Nothing was ever written.
    assert_eq!(write_ops(bus.ops()).len(), 0);
}
