//! Update sub-protocol scenarios: block size, prepare, write block,
//! finish, abort, and the mapping of peer-reported failures.

use sprot::engine::ServerImpl;
use sprot::frame::build_frame;
use sprot::msg::{err_code, MsgType, SprotError, UpdateTarget};
use sprot::reply::encode_update_reply;
use sprot::sim::{BusOp, SimTransport};

fn upd_frame(kind: MsgType, payload: &[u8]) -> Vec<u8> {
    build_frame(kind, payload).unwrap().as_slice().to_vec()
}

fn one_reply_engine(reply: Vec<u8>) -> ServerImpl<SimTransport> {
    ServerImpl::new(SimTransport::new(vec![false, true], vec![reply]), false)
}

#[test]
fn block_size_success_returns_the_value() {
    let reply = upd_frame(
        MsgType::UpdBlockSizeRsp,
        &encode_update_reply(Ok(Some(512))),
    );
    let mut engine = one_reply_engine(reply);
    assert_eq!(engine.block_size().unwrap(), 512);
}

#[test]
fn block_size_unrecognized_failure_code_is_update_unknown() {
    let reply = upd_frame(MsgType::UpdBlockSizeRsp, &encode_update_reply(Err(999)));
    let mut engine = one_reply_engine(reply);
    assert_eq!(engine.block_size(), Err(SprotError::UpdateUnknown));
}

#[test]
fn block_size_without_a_value_is_an_error() {
    let reply = upd_frame(MsgType::UpdBlockSizeRsp, &encode_update_reply(Ok(None)));
    let mut engine = one_reply_engine(reply);
    assert_eq!(engine.block_size(), Err(SprotError::UpdateSpRotError));
}

#[test]
fn block_size_known_failure_code_maps_through_the_table() {
    let reply = upd_frame(MsgType::UpdBlockSizeRsp, &encode_update_reply(Err(1)));
    let mut engine = one_reply_engine(reply);
    assert_eq!(engine.block_size(), Err(SprotError::UpdateInProgress));
}

#[test]
fn prep_image_update_succeeds() {
    let reply = upd_frame(
        MsgType::UpdPrepImageUpdateRsp,
        &encode_update_reply(Ok(None)),
    );
    let mut engine = one_reply_engine(reply);
    assert_eq!(engine.prep_image_update(UpdateTarget::ImageA), Ok(()));
}

#[test]
fn write_one_block_sends_block_number_then_bytes() {
    let reply = upd_frame(
        MsgType::UpdWriteOneBlockRsp,
        &encode_update_reply(Ok(None)),
    );
    let mut engine = one_reply_engine(reply);
    let block = [0xaau8; 12];
    assert_eq!(engine.write_one_block(0x0102_0304, &block), Ok(()));
    let bus = engine.into_bus();
    let mut sent: Vec<u8> = Vec::new();
    for op in bus.ops() {
        if let BusOp::DataWrite(d) = op {
            sent.extend_from_slice(d);
        }
    }
    let mut payload = vec![0x04u8, 0x03, 0x02, 0x01];
    payload.extend_from_slice(&block);
    assert_eq!(sent, upd_frame(MsgType::UpdWriteOneBlockReq, &payload));
}

#[test]
fn write_one_block_flash_failure_maps_through_the_table() {
    let reply = upd_frame(
        MsgType::UpdWriteOneBlockRsp,
        &encode_update_reply(Err(5)),
    );
    let mut engine = one_reply_engine(reply);
    assert_eq!(
        engine.write_one_block(0, &[1, 2, 3]),
        Err(SprotError::UpdateFlashError)
    );
}

#[test]
fn finish_image_update_succeeds() {
    let reply = upd_frame(
        MsgType::UpdFinishImageUpdateRsp,
        &encode_update_reply(Ok(None)),
    );
    let mut engine = one_reply_engine(reply);
    assert_eq!(engine.finish_image_update(), Ok(()));
}

#[test]
fn abort_update_succeeds() {
    let reply = upd_frame(
        MsgType::UpdAbortUpdateRsp,
        &encode_update_reply(Ok(None)),
    );
    let mut engine = one_reply_engine(reply);
    assert_eq!(engine.abort_update(), Ok(()));
}

#[test]
fn update_op_receiving_peer_error_reply_unwraps_the_code() {
    let reply = upd_frame(
        MsgType::ErrorRsp,
        &[err_code(SprotError::UpdateInProgress)],
    );
    let mut engine = one_reply_engine(reply);
    assert_eq!(engine.abort_update(), Err(SprotError::UpdateInProgress));
}

#[test]
fn update_op_receiving_unrelated_kind_is_bad_message_type() {
    let reply = upd_frame(MsgType::SinkRsp, &[0, 0]);
    let mut engine = one_reply_engine(reply);
    assert_eq!(engine.finish_image_update(), Err(SprotError::BadMessageType));
}

#[test]
fn update_op_with_undecodable_reply_payload_is_deserialization() {
    let reply = upd_frame(MsgType::UpdAbortUpdateRsp, &[9, 9, 9]);
    let mut engine = one_reply_engine(reply);
    assert_eq!(engine.abort_update(), Err(SprotError::Deserialization));
}
