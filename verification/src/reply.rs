//! Reply payload codecs.
//!
//! An update-sub-protocol reply logically encodes a `Result`: success
//! carries an optional unsigned value (a block size, or nothing), failure
//! carries the peer's numeric error code, which is mapped through the
//! local table and never panics on an unrecognized value. Status and
//! I/O-statistics replies are fixed-width little-endian records.

use vstd::prelude::*;
use crate::frame::{spec_u32_of, VerifiedRxMsg};
use crate::msg::{MsgType, SprotError, spec_err_of_code, spec_update_err_of_code, err_of_code,
    update_err_of_code, expect_msg};

verus! {

/// A 32-bit value survives its little-endian encoding.
proof fn lemma_le32_decode(v: u32)
    ensures
        spec_u32_of(
            (v & 0xff) as u8,
            ((v >> 8) & 0xff) as u8,
            ((v >> 16) & 0xff) as u8,
            ((v >> 24) & 0xff) as u8,
        ) == v,
{
    assert(((v & 0xff) as u8) + 0x100 * (((v >> 8) & 0xff) as u8)
        + 0x10000 * (((v >> 16) & 0xff) as u8)
        + 0x1000000 * (((v >> 24) & 0xff) as u8) == v) by (bit_vector);
}

/// What a well-formed update reply payload encodes: one leading tag byte
/// selects success or failure; success carries either nothing or one
/// 32-bit value, failure carries the peer's 32-bit error code.
pub open spec fn spec_decode_update_reply(p: Seq<u8>) -> Option<Result<Option<u32>, u32>> {
    if p.len() == 2 && p[0] == 0 && p[1] == 0 {
        Some(Ok(None))
    } else if p.len() == 6 && p[0] == 0 && p[1] == 1 {
        Some(Ok(Some(spec_u32_of(p[2], p[3], p[4], p[5]) as u32)))
    } else if p.len() == 5 && p[0] == 1 {
        Some(Err(spec_u32_of(p[1], p[2], p[3], p[4]) as u32))
    } else {
        None
    }
}

pub fn decode_update_reply(p: &Vec<u8>) -> (r: Option<Result<Option<u32>, u32>>)
    ensures
        r == spec_decode_update_reply(p@),
{
    if p.len() == 2 && p[0] == 0 && p[1] == 0 {
        Some(Ok(None))
    } else if p.len() == 6 && p[0] == 0 && p[1] == 1 {
        let v: u32 = p[2] as u32 + 0x100 * p[3] as u32 + 0x10000 * p[4] as u32
            + 0x1000000 * p[5] as u32;
        Some(Ok(Some(v)))
    } else if p.len() == 5 && p[0] == 1 {
        let v: u32 = p[1] as u32 + 0x100 * p[2] as u32 + 0x10000 * p[3] as u32
            + 0x1000000 * p[4] as u32;
        Some(Err(v))
    } else {
        None
    }
}

/// The canonical payload bytes for an update reply; decoding gives the
/// value back.
pub fn encode_update_reply(v: Result<Option<u32>, u32>) -> (p: Vec<u8>)
    ensures
        spec_decode_update_reply(p@) == Some(v),
{
    let mut p: Vec<u8> = Vec::new();
    match v {
        Ok(None) => {
            p.push(0);
            p.push(0);
        },
        Ok(Some(x)) => {
            p.push(0);
            p.push(1);
            p.push((x & 0xff) as u8);
            p.push(((x >> 8) & 0xff) as u8);
            p.push(((x >> 16) & 0xff) as u8);
            p.push(((x >> 24) & 0xff) as u8);
            proof {
                lemma_le32_decode(x);
            }
        },
        Err(c) => {
            p.push(1);
            p.push((c & 0xff) as u8);
            p.push(((c >> 8) & 0xff) as u8);
            p.push(((c >> 16) & 0xff) as u8);
            p.push(((c >> 24) & 0xff) as u8);
            proof {
                lemma_le32_decode(c);
            }
        },
    }
    p
}

/// Interprets the frame the retry engine handed back for an update
/// operation that expected a reply of kind `rsp`: the expected kind is
/// decoded as an update reply; the universal error kind carries the
/// peer's one-byte error code; anything else is a protocol violation.
pub fn interpret_upd_reply(m: &VerifiedRxMsg, rsp: MsgType) -> (r: Result<Option<u32>, SprotError>)
    ensures
        m.typ() == rsp ==> r == (match spec_decode_update_reply(m.payload_view()) {
            Option::None => Err::<Option<u32>, SprotError>(SprotError::Deserialization),
            Option::Some(Ok(v)) => Ok::<Option<u32>, SprotError>(v),
            Option::Some(Err(c)) => Err::<Option<u32>, SprotError>(spec_update_err_of_code(c)),
        }),
        m.typ() != rsp && m.typ() != MsgType::ErrorRsp ==> r == Err::<Option<u32>, SprotError>(
            SprotError::BadMessageType),
        m.typ() != rsp && m.typ() == MsgType::ErrorRsp && m.payload_view().len() != 1
            ==> r == Err::<Option<u32>, SprotError>(SprotError::BadMessageLength),
        m.typ() != rsp && m.typ() == MsgType::ErrorRsp && m.payload_view().len() == 1
            ==> r == Err::<Option<u32>, SprotError>(spec_err_of_code(m.payload_view()[0])),
{
    if m.msg_type() == rsp {
        match decode_update_reply(m.payload()) {
            Option::None => Err(SprotError::Deserialization),
            Option::Some(Ok(v)) => Ok(v),
            Option::Some(Err(c)) => Err(update_err_of_code(c)),
        }
    } else {
        match expect_msg(MsgType::ErrorRsp, m.msg_type()) {
            Err(e) => Err(e),
            Ok(()) => {
                if m.payload_len() != 1 {
                    Err(SprotError::BadMessageLength)
                } else {
                    let payload = m.payload();
                    Err(err_of_code(payload[0]))
                }
            },
        }
    }
}

/// A status report from the peer, as a fixed-width record.
#[derive(Clone, Copy, PartialEq, Eq, Structural, Debug)]
pub struct SprotStatus {
    pub version: u32,
    pub supported: u32,
    pub bootrom_crc32: u32,
    pub buffer_size: u32,
}

/// What a 16-byte status payload encodes.
pub open spec fn spec_decode_status(p: Seq<u8>) -> Option<SprotStatus> {
    if p.len() == 16 {
        Some(SprotStatus {
            version: spec_u32_of(p[0], p[1], p[2], p[3]) as u32,
            supported: spec_u32_of(p[4], p[5], p[6], p[7]) as u32,
            bootrom_crc32: spec_u32_of(p[8], p[9], p[10], p[11]) as u32,
            buffer_size: spec_u32_of(p[12], p[13], p[14], p[15]) as u32,
        })
    } else {
        None
    }
}

pub fn decode_status(p: &Vec<u8>) -> (r: Result<SprotStatus, SprotError>)
    ensures
        r matches Ok(st) ==> spec_decode_status(p@) == Some(st),
        r matches Err(e) ==> e == SprotError::Deserialization && spec_decode_status(p@) is None,
{
    if p.len() != 16 {
        return Err(SprotError::Deserialization);
    }
    Ok(SprotStatus {
        version: read_u32(p, 0),
        supported: read_u32(p, 4),
        bootrom_crc32: read_u32(p, 8),
        buffer_size: read_u32(p, 12),
    })
}

/// I/O statistics from the peer, as a fixed-width record.
#[derive(Clone, Copy, PartialEq, Eq, Structural, Debug)]
pub struct IoStats {
    pub rx_received: u32,
    pub rx_overrun: u32,
    pub tx_underrun: u32,
    pub rx_invalid: u32,
    pub tx_incomplete: u32,
}

/// What a 20-byte I/O-statistics payload encodes.
pub open spec fn spec_decode_io_stats(p: Seq<u8>) -> Option<IoStats> {
    if p.len() == 20 {
        Some(IoStats {
            rx_received: spec_u32_of(p[0], p[1], p[2], p[3]) as u32,
            rx_overrun: spec_u32_of(p[4], p[5], p[6], p[7]) as u32,
            tx_underrun: spec_u32_of(p[8], p[9], p[10], p[11]) as u32,
            rx_invalid: spec_u32_of(p[12], p[13], p[14], p[15]) as u32,
            tx_incomplete: spec_u32_of(p[16], p[17], p[18], p[19]) as u32,
        })
    } else {
        None
    }
}

pub fn decode_io_stats(p: &Vec<u8>) -> (r: Result<IoStats, SprotError>)
    ensures
        r matches Ok(st) ==> spec_decode_io_stats(p@) == Some(st),
        r matches Err(e) ==> e == SprotError::Deserialization && spec_decode_io_stats(p@) is None,
{
    if p.len() != 20 {
        return Err(SprotError::Deserialization);
    }
    Ok(IoStats {
        rx_received: read_u32(p, 0),
        rx_overrun: read_u32(p, 4),
        tx_underrun: read_u32(p, 8),
        rx_invalid: read_u32(p, 12),
        tx_incomplete: read_u32(p, 16),
    })
}

/// Four little-endian bytes of `p` starting at `at`, as one value.
fn read_u32(p: &Vec<u8>, at: usize) -> (r: u32)
    requires
        at + 4 <= p@.len(),
    ensures
        r == spec_u32_of(p@[at as int], p@[at as int + 1], p@[at as int + 2],
            p@[at as int + 3]),
{
    let len: usize = p.len();
    assert(at + 4 <= len);
    p[at] as u32 + 0x100 * p[at + 1] as u32 + 0x10000 * p[at + 2] as u32
        + 0x1000000 * p[at + 3] as u32
}

/// The canonical payload bytes for a status reply.
pub fn encode_status(st: &SprotStatus) -> (p: Vec<u8>)
    ensures
        spec_decode_status(p@) == Some(*st),
{
    let mut p: Vec<u8> = Vec::new();
    push_u32(&mut p, st.version);
    push_u32(&mut p, st.supported);
    push_u32(&mut p, st.bootrom_crc32);
    push_u32(&mut p, st.buffer_size);
    p
}

/// The canonical payload bytes for an I/O-statistics reply.
pub fn encode_io_stats(st: &IoStats) -> (p: Vec<u8>)
    ensures
        spec_decode_io_stats(p@) == Some(*st),
{
    let mut p: Vec<u8> = Vec::new();
    push_u32(&mut p, st.rx_received);
    push_u32(&mut p, st.rx_overrun);
    push_u32(&mut p, st.tx_underrun);
    push_u32(&mut p, st.rx_invalid);
    push_u32(&mut p, st.tx_incomplete);
    p
}

/// Appends the four little-endian bytes of `v`.
pub fn push_u32(p: &mut Vec<u8>, v: u32)
    ensures
        final(p)@.len() == old(p)@.len() + 4,
        final(p)@ == old(p)@ + seq![
            (v & 0xff) as u8,
            ((v >> 8) & 0xff) as u8,
            ((v >> 16) & 0xff) as u8,
            ((v >> 24) & 0xff) as u8,
        ],
        spec_u32_of(final(p)@[old(p)@.len() as int], final(p)@[old(p)@.len() as int + 1],
            final(p)@[old(p)@.len() as int + 2], final(p)@[old(p)@.len() as int + 3]) == v,
{
    p.push((v & 0xff) as u8);
    p.push(((v >> 8) & 0xff) as u8);
    p.push(((v >> 16) & 0xff) as u8);
    p.push(((v >> 24) & 0xff) as u8);
    proof {
        lemma_le32_decode(v);
        assert(p@ =~= old(p)@ + seq![
            (v & 0xff) as u8,
            ((v >> 8) & 0xff) as u8,
            ((v >> 16) & 0xff) as u8,
            ((v >> 24) & 0xff) as u8,
        ]);
    }
}

} // verus!
