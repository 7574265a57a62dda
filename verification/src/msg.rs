//! Message kinds and the error taxonomy.
//!
//! Every request kind is paired with one response kind; the universal
//! `ErrorRsp` may stand wherever a response was expected. Each error value
//! is recoverable or fatal once and for all: the tag never depends on
//! context.

use vstd::prelude::*;

verus! {

/// The closed set of message kinds carried in a frame's tag byte.
#[derive(Clone, Copy, PartialEq, Eq, Structural, Debug)]
pub enum MsgType {
    StatusReq,
    StatusRsp,
    IoStatsReq,
    IoStatsRsp,
    SinkReq,
    SinkRsp,
    UpdBlockSizeReq,
    UpdBlockSizeRsp,
    UpdPrepImageUpdateReq,
    UpdPrepImageUpdateRsp,
    UpdWriteOneBlockReq,
    UpdWriteOneBlockRsp,
    UpdFinishImageUpdateReq,
    UpdFinishImageUpdateRsp,
    UpdAbortUpdateReq,
    UpdAbortUpdateRsp,
    ErrorRsp,
}

/// The wire tag of each message kind.
pub open spec fn spec_msg_tag(t: MsgType) -> u8 {
    match t {
        MsgType::StatusReq => 1,
        MsgType::StatusRsp => 2,
        MsgType::IoStatsReq => 3,
        MsgType::IoStatsRsp => 4,
        MsgType::SinkReq => 5,
        MsgType::SinkRsp => 6,
        MsgType::UpdBlockSizeReq => 7,
        MsgType::UpdBlockSizeRsp => 8,
        MsgType::UpdPrepImageUpdateReq => 9,
        MsgType::UpdPrepImageUpdateRsp => 10,
        MsgType::UpdWriteOneBlockReq => 11,
        MsgType::UpdWriteOneBlockRsp => 12,
        MsgType::UpdFinishImageUpdateReq => 13,
        MsgType::UpdFinishImageUpdateRsp => 14,
        MsgType::UpdAbortUpdateReq => 15,
        MsgType::UpdAbortUpdateRsp => 16,
        MsgType::ErrorRsp => 17,
    }
}

/// The message kind encoded by a tag byte, if any.
pub open spec fn spec_msg_of_tag(b: u8) -> Option<MsgType> {
    if b == 1 { Some(MsgType::StatusReq) }
    else if b == 2 { Some(MsgType::StatusRsp) }
    else if b == 3 { Some(MsgType::IoStatsReq) }
    else if b == 4 { Some(MsgType::IoStatsRsp) }
    else if b == 5 { Some(MsgType::SinkReq) }
    else if b == 6 { Some(MsgType::SinkRsp) }
    else if b == 7 { Some(MsgType::UpdBlockSizeReq) }
    else if b == 8 { Some(MsgType::UpdBlockSizeRsp) }
    else if b == 9 { Some(MsgType::UpdPrepImageUpdateReq) }
    else if b == 10 { Some(MsgType::UpdPrepImageUpdateRsp) }
    else if b == 11 { Some(MsgType::UpdWriteOneBlockReq) }
    else if b == 12 { Some(MsgType::UpdWriteOneBlockRsp) }
    else if b == 13 { Some(MsgType::UpdFinishImageUpdateReq) }
    else if b == 14 { Some(MsgType::UpdFinishImageUpdateRsp) }
    else if b == 15 { Some(MsgType::UpdAbortUpdateReq) }
    else if b == 16 { Some(MsgType::UpdAbortUpdateRsp) }
    else if b == 17 { Some(MsgType::ErrorRsp) }
    else { None }
}

/// Tag encoding is injective: decoding a kind's tag gives the kind back.
pub proof fn lemma_msg_tag_round_trip(t: MsgType)
    ensures
        spec_msg_of_tag(spec_msg_tag(t)) == Some(t),
{
}

pub fn msg_tag(t: MsgType) -> (r: u8)
    ensures
        r == spec_msg_tag(t),
{
    match t {
        MsgType::StatusReq => 1,
        MsgType::StatusRsp => 2,
        MsgType::IoStatsReq => 3,
        MsgType::IoStatsRsp => 4,
        MsgType::SinkReq => 5,
        MsgType::SinkRsp => 6,
        MsgType::UpdBlockSizeReq => 7,
        MsgType::UpdBlockSizeRsp => 8,
        MsgType::UpdPrepImageUpdateReq => 9,
        MsgType::UpdPrepImageUpdateRsp => 10,
        MsgType::UpdWriteOneBlockReq => 11,
        MsgType::UpdWriteOneBlockRsp => 12,
        MsgType::UpdFinishImageUpdateReq => 13,
        MsgType::UpdFinishImageUpdateRsp => 14,
        MsgType::UpdAbortUpdateReq => 15,
        MsgType::UpdAbortUpdateRsp => 16,
        MsgType::ErrorRsp => 17,
    }
}

pub fn msg_of_tag(b: u8) -> (r: Option<MsgType>)
    ensures
        r == spec_msg_of_tag(b),
{
    if b == 1 { Some(MsgType::StatusReq) }
    else if b == 2 { Some(MsgType::StatusRsp) }
    else if b == 3 { Some(MsgType::IoStatsReq) }
    else if b == 4 { Some(MsgType::IoStatsRsp) }
    else if b == 5 { Some(MsgType::SinkReq) }
    else if b == 6 { Some(MsgType::SinkRsp) }
    else if b == 7 { Some(MsgType::UpdBlockSizeReq) }
    else if b == 8 { Some(MsgType::UpdBlockSizeRsp) }
    else if b == 9 { Some(MsgType::UpdPrepImageUpdateReq) }
    else if b == 10 { Some(MsgType::UpdPrepImageUpdateRsp) }
    else if b == 11 { Some(MsgType::UpdWriteOneBlockReq) }
    else if b == 12 { Some(MsgType::UpdWriteOneBlockRsp) }
    else if b == 13 { Some(MsgType::UpdFinishImageUpdateReq) }
    else if b == 14 { Some(MsgType::UpdFinishImageUpdateRsp) }
    else if b == 15 { Some(MsgType::UpdAbortUpdateReq) }
    else if b == 16 { Some(MsgType::UpdAbortUpdateRsp) }
    else if b == 17 { Some(MsgType::ErrorRsp) }
    else { None }
}

/// The closed set of protocol errors. The first five are recoverable,
/// the rest fatal; see [`spec_recoverable`].
#[derive(Clone, Copy, PartialEq, Eq, Structural, Debug)]
pub enum SprotError {
    /// The peer did not assert (or clear) the ready signal in time.
    RotNotReady,
    /// The peer reported a transient busy condition.
    RotBusy,
    /// A resynchronizing pulse failed to clear the ready signal.
    Desynchronized,
    /// A received frame had a bad tag, length or checksum.
    MalformedFrame,
    /// An error reply arrived whose payload was not exactly one byte.
    BadErrorPayload,
    /// A structurally valid response had an unexpected kind.
    BadMessageType,
    /// A payload length broke a caller-side limit.
    BadMessageLength,
    /// A bulk-transfer reply echoed the wrong sequence number.
    Sequence,
    /// The bus driver reported an I/O fault.
    SpiServerError,
    /// The select line could not be asserted.
    CannotAssertCSn,
    /// The operation is not built into this engine.
    NotImplemented,
    /// A verified payload did not decode as the expected reply shape.
    Deserialization,
    /// An update reply carried no value where one was required.
    UpdateSpRotError,
    /// Peer update error: an update is already in progress.
    UpdateInProgress,
    /// Peer update error: block number out of bounds.
    UpdateOutOfBounds,
    /// Peer update error: the peer's flash operation timed out.
    UpdateTimeout,
    /// Peer update error: a block had a bad length.
    UpdateBadLength,
    /// Peer update error: the flash write itself failed.
    UpdateFlashError,
    /// Peer update error not in the local table.
    UpdateUnknown,
    /// Sentinel for "no attempt ever recorded an error"; never a valid
    /// protocol outcome.
    Unknown,
}

/// Whether an error is worth a retry. The tag is fixed per value:
/// timing faults, framing faults and a transiently busy peer are
/// recoverable; bus faults, protocol misuse and peer update errors are not.
pub open spec fn spec_recoverable(e: SprotError) -> bool {
    match e {
        SprotError::RotNotReady => true,
        SprotError::RotBusy => true,
        SprotError::Desynchronized => true,
        SprotError::MalformedFrame => true,
        SprotError::BadErrorPayload => true,
        _ => false,
    }
}

pub fn is_recoverable_error(e: SprotError) -> (r: bool)
    ensures
        r == spec_recoverable(e),
{
    match e {
        SprotError::RotNotReady => true,
        SprotError::RotBusy => true,
        SprotError::Desynchronized => true,
        SprotError::MalformedFrame => true,
        SprotError::BadErrorPayload => true,
        _ => false,
    }
}

/// The wire code of each error, used in the one-byte payload of an
/// `ErrorRsp` frame.
pub open spec fn spec_err_code(e: SprotError) -> u8 {
    match e {
        SprotError::RotNotReady => 1,
        SprotError::RotBusy => 2,
        SprotError::Desynchronized => 3,
        SprotError::MalformedFrame => 4,
        SprotError::BadErrorPayload => 5,
        SprotError::BadMessageType => 6,
        SprotError::BadMessageLength => 7,
        SprotError::Sequence => 8,
        SprotError::SpiServerError => 9,
        SprotError::CannotAssertCSn => 10,
        SprotError::NotImplemented => 11,
        SprotError::Deserialization => 12,
        SprotError::UpdateSpRotError => 13,
        SprotError::UpdateInProgress => 14,
        SprotError::UpdateOutOfBounds => 15,
        SprotError::UpdateTimeout => 16,
        SprotError::UpdateBadLength => 17,
        SprotError::UpdateFlashError => 18,
        SprotError::UpdateUnknown => 19,
        SprotError::Unknown => 20,
    }
}

/// The error a wire code names. The sentinel `Unknown` has no decodable
/// wire form: an unrecognized code — a peer speaking a newer dialect —
/// decodes to the fatal `Deserialization`, so decoding is total, never
/// panics, and defaults to not retrying.
pub open spec fn spec_err_of_code(b: u8) -> SprotError {
    if b == 1 { SprotError::RotNotReady }
    else if b == 2 { SprotError::RotBusy }
    else if b == 3 { SprotError::Desynchronized }
    else if b == 4 { SprotError::MalformedFrame }
    else if b == 5 { SprotError::BadErrorPayload }
    else if b == 6 { SprotError::BadMessageType }
    else if b == 7 { SprotError::BadMessageLength }
    else if b == 8 { SprotError::Sequence }
    else if b == 9 { SprotError::SpiServerError }
    else if b == 10 { SprotError::CannotAssertCSn }
    else if b == 11 { SprotError::NotImplemented }
    else if b == 12 { SprotError::Deserialization }
    else if b == 13 { SprotError::UpdateSpRotError }
    else if b == 14 { SprotError::UpdateInProgress }
    else if b == 15 { SprotError::UpdateOutOfBounds }
    else if b == 16 { SprotError::UpdateTimeout }
    else if b == 17 { SprotError::UpdateBadLength }
    else if b == 18 { SprotError::UpdateFlashError }
    else if b == 19 { SprotError::UpdateUnknown }
    else { SprotError::Deserialization }
}

/// Every protocol error but the sentinel survives the wire: decoding
/// its code gives the error back. The sentinel is no protocol outcome
/// and has no decodable code.
pub proof fn lemma_err_code_round_trip(e: SprotError)
    requires
        e != SprotError::Unknown,
    ensures
        spec_err_of_code(spec_err_code(e)) == e,
{
}

/// No wire code decodes to the sentinel `Unknown`.
pub proof fn lemma_err_of_code_not_unknown(b: u8)
    ensures
        spec_err_of_code(b) != SprotError::Unknown,
{
}

pub fn err_code(e: SprotError) -> (r: u8)
    ensures
        r == spec_err_code(e),
{
    match e {
        SprotError::RotNotReady => 1,
        SprotError::RotBusy => 2,
        SprotError::Desynchronized => 3,
        SprotError::MalformedFrame => 4,
        SprotError::BadErrorPayload => 5,
        SprotError::BadMessageType => 6,
        SprotError::BadMessageLength => 7,
        SprotError::Sequence => 8,
        SprotError::SpiServerError => 9,
        SprotError::CannotAssertCSn => 10,
        SprotError::NotImplemented => 11,
        SprotError::Deserialization => 12,
        SprotError::UpdateSpRotError => 13,
        SprotError::UpdateInProgress => 14,
        SprotError::UpdateOutOfBounds => 15,
        SprotError::UpdateTimeout => 16,
        SprotError::UpdateBadLength => 17,
        SprotError::UpdateFlashError => 18,
        SprotError::UpdateUnknown => 19,
        SprotError::Unknown => 20,
    }
}

pub fn err_of_code(b: u8) -> (r: SprotError)
    ensures
        r == spec_err_of_code(b),
{
    if b == 1 { SprotError::RotNotReady }
    else if b == 2 { SprotError::RotBusy }
    else if b == 3 { SprotError::Desynchronized }
    else if b == 4 { SprotError::MalformedFrame }
    else if b == 5 { SprotError::BadErrorPayload }
    else if b == 6 { SprotError::BadMessageType }
    else if b == 7 { SprotError::BadMessageLength }
    else if b == 8 { SprotError::Sequence }
    else if b == 9 { SprotError::SpiServerError }
    else if b == 10 { SprotError::CannotAssertCSn }
    else if b == 11 { SprotError::NotImplemented }
    else if b == 12 { SprotError::Deserialization }
    else if b == 13 { SprotError::UpdateSpRotError }
    else if b == 14 { SprotError::UpdateInProgress }
    else if b == 15 { SprotError::UpdateOutOfBounds }
    else if b == 16 { SprotError::UpdateTimeout }
    else if b == 17 { SprotError::UpdateBadLength }
    else if b == 18 { SprotError::UpdateFlashError }
    else if b == 19 { SprotError::UpdateUnknown }
    else { SprotError::Deserialization }
}

/// The peer's numeric update error codes, mapped into the local taxonomy;
/// unrecognized codes fall back to the generic `UpdateUnknown`.
pub open spec fn spec_update_err_of_code(c: u32) -> SprotError {
    if c == 1 { SprotError::UpdateInProgress }
    else if c == 2 { SprotError::UpdateOutOfBounds }
    else if c == 3 { SprotError::UpdateTimeout }
    else if c == 4 { SprotError::UpdateBadLength }
    else if c == 5 { SprotError::UpdateFlashError }
    else { SprotError::UpdateUnknown }
}

pub fn update_err_of_code(c: u32) -> (r: SprotError)
    ensures
        r == spec_update_err_of_code(c),
{
    if c == 1 { SprotError::UpdateInProgress }
    else if c == 2 { SprotError::UpdateOutOfBounds }
    else if c == 3 { SprotError::UpdateTimeout }
    else if c == 4 { SprotError::UpdateBadLength }
    else if c == 5 { SprotError::UpdateFlashError }
    else { SprotError::UpdateUnknown }
}

/// Images the update sub-protocol can prepare.
#[derive(Clone, Copy, PartialEq, Eq, Structural, Debug)]
pub enum UpdateTarget {
    ImageA,
    ImageB,
    Bootloader,
}

/// The one-byte wire encoding of an update target.
pub open spec fn spec_target_code(t: UpdateTarget) -> u8 {
    match t {
        UpdateTarget::ImageA => 1,
        UpdateTarget::ImageB => 2,
        UpdateTarget::Bootloader => 3,
    }
}

pub fn target_code(t: UpdateTarget) -> (r: u8)
    ensures
        r == spec_target_code(t),
{
    match t {
        UpdateTarget::ImageA => 1,
        UpdateTarget::ImageB => 2,
        UpdateTarget::Bootloader => 3,
    }
}

/// Return an error when the expected message kind does not match the
/// actual one.
pub fn expect_msg(expected: MsgType, actual: MsgType) -> (r: Result<(), SprotError>)
    ensures
        expected == actual <==> r is Ok,
        r matches Err(e) ==> e == SprotError::BadMessageType,
{
    if expected != actual {
        Err(SprotError::BadMessageType)
    } else {
        Ok(())
    }
}

} // verus!
