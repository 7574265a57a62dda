//! The exchange engine.
//!
//! [`ServerImpl`] drives one request/response exchange at a time over a
//! [`Transport`]: it repairs a peer that is out of step (an asserted
//! ready signal when no response is owed) by waiting and, if need be,
//! pulsing select; sends a verified frame in at most two chunks sized to
//! the peer's FIFO; waits a bounded time for the ready signal; reads and
//! verifies the response; and retries recoverable failures under a
//! bounded attempt budget with a fixed backoff. The update sub-protocol
//! and the bulk-transfer diagnostic mode ride the retry engine.
//!
//! Contracts bound the number of byte transfers an operation may perform
//! (at most two per attempt), guarantee the select line is released on
//! every exit path, tie a successful operation to the wire — the request
//! leaves exactly as built ([`ends_with_chunks`]) and the result decodes
//! from the bytes actually read ([`reads_verify_to`]) — and pin the
//! per-reply decisions down exactly in the pure helpers
//! [`classify_response`] and [`check_sink_reply`].

use vstd::prelude::*;
use crate::frame::{VerifiedTxMsg, VerifiedRxMsg, MsgHeader, build_frame, parse_header,
    finish_verify, spec_le16, spec_u16_of, spec_stored_len, spec_verify_frame,
    spec_frame_bytes};
use crate::msg::{MsgType, SprotError, UpdateTarget, spec_recoverable, spec_err_of_code,
    is_recoverable_error, err_of_code, target_code, spec_target_code, expect_msg,
    lemma_err_of_code_not_unknown};
use crate::reply::{SprotStatus, IoStats, interpret_upd_reply, decode_status, decode_io_stats,
    push_u32, spec_decode_update_reply, spec_decode_status, spec_decode_io_stats};
use crate::transport::{Transport, BusEvent, write_count, writes_of, reads_of, extends,
    lemma_write_count_push, lemma_writes_of_push, lemma_reads_of_push, lemma_extends_push,
    lemma_extends_refl, lemma_extends_trans};
use crate::{HEADER_SIZE, MAX_PAYLOAD_SIZE, MAX_BLOCK_SIZE, ROT_FIFO_SIZE, TIMEOUT_QUICK,
    TIMEOUT_MAX, TIMEOUT_WRITE_ONE_BLOCK, RETRY_TIMEOUT, PART2_DELAY, MAX_UPDATE_ATTEMPTS,
    MAX_SINKREQ_ATTEMPTS};

verus! {

broadcast use lemma_write_count_push, lemma_writes_of_push, lemma_reads_of_push,
    lemma_extends_push;

/// The ready-signal level immediately before and after a select pulse,
/// 1 for asserted.
#[derive(Clone, Copy, PartialEq, Eq, Structural, Debug)]
pub struct PulseStatus {
    pub rot_irq_begin: u8,
    pub rot_irq_end: u8,
}

/// A successful exchange as handed back to the host: the request kind
/// echoed, and the response payload with its length.
pub struct Received {
    pub msgtype: MsgType,
    pub length: u16,
    pub payload: Vec<u8>,
}

/// How far a bulk transfer got when it stopped.
#[derive(Clone, Copy, PartialEq, Eq, Structural, Debug)]
pub struct SinkStatus {
    pub sent: u16,
}

/// Why a bulk transfer stopped, and how many requests had succeeded.
#[derive(Clone, Copy, PartialEq, Eq, Structural, Debug)]
pub struct SinkFailure {
    pub err: SprotError,
    pub sent: u16,
}

/// What the retry engine does with one structurally valid response.
#[derive(Clone, Copy, PartialEq, Eq, Structural, Debug)]
pub enum ReplyClass {
    /// A non-error response: hand it to the caller.
    Accept,
    /// Worth another attempt after the fixed backoff.
    RetryWith(SprotError),
    /// Not retryable: surface at once.
    Fatal(SprotError),
}

/// Classifies one verified response frame for the retry loop. An
/// error-kind reply must carry exactly one byte, the peer's error code;
/// a wrong-length error payload is itself recoverable — peer
/// miscommunication, worth retrying — and never ends the loop early.
pub fn classify_response(m: &VerifiedRxMsg) -> (r: ReplyClass)
    ensures
        m.typ() != MsgType::ErrorRsp ==> r == ReplyClass::Accept,
        m.typ() == MsgType::ErrorRsp && m.payload_view().len() != 1
            ==> r == ReplyClass::RetryWith(SprotError::BadErrorPayload),
        m.typ() == MsgType::ErrorRsp && m.payload_view().len() == 1 ==> {
            let code = spec_err_of_code(m.payload_view()[0]);
            r == (if spec_recoverable(code) {
                ReplyClass::RetryWith(code)
            } else {
                ReplyClass::Fatal(code)
            })
        },
        r matches ReplyClass::RetryWith(e) ==> spec_recoverable(e),
        r matches ReplyClass::Fatal(e) ==> e != SprotError::Unknown,
{
    if m.msg_type() != MsgType::ErrorRsp {
        return ReplyClass::Accept;
    }
    if m.payload_len() != 1 {
        return ReplyClass::RetryWith(SprotError::BadErrorPayload);
    }
    let payload = m.payload();
    let code: SprotError = err_of_code(payload[0]);
    proof {
        lemma_err_of_code_not_unknown(m.payload_view()[0]);
    }
    if is_recoverable_error(code) {
        ReplyClass::RetryWith(code)
    } else {
        ReplyClass::Fatal(code)
    }
}

/// One byte of the bulk-transfer test pattern: the first two bytes carry
/// the sequence number (when there is room for it), every other byte is
/// its payload offset modulo 0x100, predictable for a bus analyzer.
pub open spec fn spec_sink_byte(seq: u16, size: u16, j: int) -> u8 {
    if j < 2 && size >= 2 {
        spec_le16(seq)[j]
    } else {
        (j % 256) as u8
    }
}

/// The whole position-derived payload of one bulk-transfer request.
pub open spec fn spec_sink_payload(seq: u16, size: u16) -> Seq<u8> {
    Seq::new(size as nat, |j: int| spec_sink_byte(seq, size, j))
}

/// Builds one bulk-transfer payload, byte for byte the fixed pattern.
pub fn build_sink_payload(seq: u16, size: u16) -> (p: Vec<u8>)
    ensures
        p@ == spec_sink_payload(seq, size),
{
    let mut p: Vec<u8> = Vec::new();
    let mut j: usize = 0;
    while j < size as usize
        invariant
            j <= size,
            p@.len() == j,
            forall|k: int| 0 <= k < j ==> p@[k] == spec_sink_byte(seq, size, k),
        decreases size - j,
    {
        let b: u8 = if j < 2 && size >= 2 {
            if j == 0 {
                (seq & 0xff) as u8
            } else {
                ((seq >> 8) & 0xff) as u8
            }
        } else {
            (j % 256) as u8
        };
        p.push(b);
        j = j + 1;
    }
    proof {
        assert(p@ =~= spec_sink_payload(seq, size));
    }
    p
}

/// Checks one bulk-transfer reply against the sequence number just
/// sent: a reply that echoes a sequence number must echo the right one
/// — a mismatch is a fatal `Sequence` error, real desynchronization,
/// not noise — and any kind other than the expected ones is fatal.
pub fn check_sink_reply(m: &VerifiedRxMsg, expected_seq: u16) -> (r: Result<(), SprotError>)
    ensures
        m.typ() == MsgType::SinkRsp && m.payload_view().len() >= 2 ==> r == (
            if spec_u16_of(m.payload_view()[0], m.payload_view()[1]) == expected_seq {
                Ok::<(), SprotError>(())
            } else {
                Err::<(), SprotError>(SprotError::Sequence)
            }),
        m.typ() == MsgType::SinkRsp && m.payload_view().len() < 2
            ==> r == Ok::<(), SprotError>(()),
        m.typ() == MsgType::ErrorRsp && m.payload_view().len() == 1
            ==> r == Err::<(), SprotError>(spec_err_of_code(m.payload_view()[0])),
        m.typ() == MsgType::ErrorRsp && m.payload_view().len() != 1
            ==> r == Err::<(), SprotError>(SprotError::BadMessageLength),
        m.typ() != MsgType::SinkRsp && m.typ() != MsgType::ErrorRsp
            ==> r == Err::<(), SprotError>(SprotError::BadMessageType),
        r matches Err(e) ==> e != SprotError::Unknown,
{
    proof {
        if m.payload_view().len() == 1 {
            lemma_err_of_code_not_unknown(m.payload_view()[0]);
        }
    }
    if m.msg_type() == MsgType::SinkRsp {
        if m.payload_len() >= 2 {
            let payload = m.payload();
            let seq: u16 = payload[0] as u16 + 0x100 * payload[1] as u16;
            if seq != expected_seq {
                return Err(SprotError::Sequence);
            }
        }
        Ok(())
    } else if m.msg_type() == MsgType::ErrorRsp {
        if m.payload_len() == 1 {
            let payload = m.payload();
            Err(err_of_code(payload[0]))
        } else {
            Err(SprotError::BadMessageLength)
        }
    } else {
        Err(SprotError::BadMessageType)
    }
}

/// The bus events one chunked request transmission appends on success:
/// select asserted, the FIFO-sized prefix written, and — only when
/// bytes remain — a settle delay and the remainder.
pub open spec fn spec_sent_events(frame: Seq<u8>) -> Seq<BusEvent> {
    if frame.len() <= ROT_FIFO_SIZE {
        seq![BusEvent::SelAssert, BusEvent::DataWrite { data: frame }]
    } else {
        seq![
            BusEvent::SelAssert,
            BusEvent::DataWrite { data: frame.take(ROT_FIFO_SIZE as int) },
            BusEvent::SleepTicks { ticks: PART2_DELAY },
            BusEvent::DataWrite { data: frame.skip(ROT_FIFO_SIZE as int) },
        ]
    }
}

/// The chunks a frame is transmitted in: whole when it fits the
/// peer's FIFO, otherwise the FIFO-sized prefix and the remainder.
pub open spec fn chunks_of(frame: Seq<u8>) -> Seq<Seq<u8>> {
    if frame.len() <= ROT_FIFO_SIZE {
        seq![frame]
    } else {
        seq![frame.take(ROT_FIFO_SIZE as int), frame.skip(ROT_FIFO_SIZE as int)]
    }
}

/// Whether the last transfers in a log are exactly this frame's
/// chunks: what a successful exchange leaves on the wire.
pub open spec fn ends_with_chunks(log: Seq<BusEvent>, frame: Seq<u8>) -> bool {
    let w = writes_of(log);
    let c = chunks_of(frame);
    w.len() >= c.len() && w.skip(w.len() - c.len()) == c
}

/// The payload of one block-write request: the block number in little
/// endian, then the block bytes.
pub open spec fn spec_block_payload(block_num: u32, block: Seq<u8>) -> Seq<u8> {
    seq![
        (block_num & 0xff) as u8,
        ((block_num >> 8) & 0xff) as u8,
        ((block_num >> 16) & 0xff) as u8,
        ((block_num >> 24) & 0xff) as u8,
    ] + block
}

/// Whether the bytes read at the tail of the log verify to this kind
/// and payload: either one FIFO-sized read whose leading declared
/// frame verifies, or that prefix read followed by exactly the
/// remainder the header declared.
pub open spec fn reads_verify_to(log: Seq<BusEvent>, t: MsgType, p: Seq<u8>) -> bool {
    let rd = reads_of(log);
    ||| (rd.len() >= 1 && rd.last().len() == ROT_FIFO_SIZE
        && HEADER_SIZE + spec_stored_len(rd.last()) <= ROT_FIFO_SIZE
        && spec_verify_frame(rd.last().take(HEADER_SIZE + spec_stored_len(rd.last())))
            == Some((t, p)))
    ||| (rd.len() >= 2 && rd[rd.len() - 2].len() == ROT_FIFO_SIZE
        && spec_verify_frame(rd[rd.len() - 2] + rd.last()) == Some((t, p)))
}

/// The request/response engine over one exclusively owned bus.
pub struct ServerImpl<T: Transport> {
    bus: T,
    sink_enabled: bool,
}

impl<T: Transport> ServerImpl<T> {
    /// Every bus action performed so far.
    pub closed spec fn bus_log(&self) -> Seq<BusEvent> {
        self.bus.log()
    }

    /// Whether the select line is held.
    pub closed spec fn bus_selected(&self) -> bool {
        self.bus.selected()
    }

    /// Whether the bulk-transfer diagnostic mode was built in.
    pub closed spec fn sink_on(&self) -> bool {
        self.sink_enabled
    }

    /// A fresh engine. `sink_enabled` selects at construction time
    /// whether the bulk-transfer diagnostic mode is available.
    pub fn new(bus: T, sink_enabled: bool) -> (r: Self)
        ensures
            r.bus_log() == bus.log(),
            r.bus_selected() == bus.selected(),
            r.sink_on() == sink_enabled,
    {
        ServerImpl { bus, sink_enabled }
    }

    /// Hands the transport back, for inspection after a session.
    pub fn into_bus(self) -> (r: T)
        ensures
            r.log() == self.bus_log(),
    {
        self.bus
    }

    /// One live read of the ready signal; never cached.
    fn is_rot_irq_asserted(&mut self) -> (r: bool)
        requires
            !old(self).bus_selected(),
        ensures
            !final(self).bus_selected(),
            final(self).bus_log() == old(self).bus_log().push(BusEvent::SignalRead { level: r }),
    {
        self.bus.read_signal()
    }

    /// Polls the ready signal until it reaches `desired`, sleeping one
    /// tick between polls, for at most `max_sleep` ticks. True exactly
    /// when the level was reached in time; transfers nothing.
    fn wait_rot_irq(&mut self, desired: bool, max_sleep: u32) -> (r: bool)
        requires
            !old(self).bus_selected(),
        ensures
            !final(self).bus_selected(),
            write_count(final(self).bus_log()) == write_count(old(self).bus_log()),
            writes_of(final(self).bus_log()) == writes_of(old(self).bus_log()),
            reads_of(final(self).bus_log()) == reads_of(old(self).bus_log()),
            extends(final(self).bus_log(), old(self).bus_log()),
            final(self).bus_log().len() <= old(self).bus_log().len() + 1 + 2 * (max_sleep as int),
            r ==> final(self).bus_log().len() > old(self).bus_log().len()
                && final(self).bus_log().last() == (BusEvent::SignalRead { level: desired }),
            !r ==> final(self).bus_log().len() == old(self).bus_log().len() + 1 + 2 * (
            max_sleep as int) && final(self).bus_log().last() == (BusEvent::SignalRead {
                level: !desired,
            }),
    {
        proof {
            lemma_extends_refl(old(self).bus_log());
        }
        let mut slept: u32 = 0;
        let mut level: bool = self.is_rot_irq_asserted();
        while level != desired
            invariant
                !self.bus_selected(),
                slept <= max_sleep,
                write_count(self.bus_log()) == write_count(old(self).bus_log()),
                writes_of(self.bus_log()) == writes_of(old(self).bus_log()),
                reads_of(self.bus_log()) == reads_of(old(self).bus_log()),
                extends(self.bus_log(), old(self).bus_log()),
                self.bus_log().len() == old(self).bus_log().len() + 1 + 2 * (slept as int),
                self.bus_log().last() == (BusEvent::SignalRead { level }),
            decreases max_sleep - slept,
        {
            if slept == max_sleep {
                return false;
            }
            self.bus.sleep(1);
            slept = slept + 1;
            level = self.is_rot_irq_asserted();
        }
        true
    }

    /// Clears the ready signal and the peer's transmit buffer by
    /// toggling select with bracketing delays. The signal level
    /// immediately before and immediately after is always reported,
    /// read live, whether or not it changed.
    pub fn do_pulse_cs(&mut self, delay: u64, delay_after: u64) -> (r: Result<PulseStatus,
        SprotError>)
        requires
            !old(self).bus_selected(),
        ensures
            !final(self).bus_selected(),
            write_count(final(self).bus_log()) == write_count(old(self).bus_log()),
            writes_of(final(self).bus_log()) == writes_of(old(self).bus_log()),
            reads_of(final(self).bus_log()) == reads_of(old(self).bus_log()),
            extends(final(self).bus_log(), old(self).bus_log()),
            r matches Ok(st) ==> {
                &&& (st.rot_irq_begin == 0 || st.rot_irq_begin == 1)
                &&& (st.rot_irq_end == 0 || st.rot_irq_end == 1)
                &&& final(self).bus_log() == old(self).bus_log() + seq![
                    BusEvent::SignalRead { level: st.rot_irq_begin == 1 },
                    BusEvent::SelAssert,
                    BusEvent::SleepTicks { ticks: delay },
                    BusEvent::SelRelease,
                    BusEvent::SleepTicks { ticks: delay_after },
                    BusEvent::SignalRead { level: st.rot_irq_end == 1 },
                ]
            },
            r matches Err(e) ==> e == SprotError::CannotAssertCSn,
    {
        proof {
            lemma_extends_refl(old(self).bus_log());
        }
        let begin: bool = self.is_rot_irq_asserted();
        match self.bus.assert_select() {
            Err(_) => {
                return Err(SprotError::CannotAssertCSn);
            },
            Ok(()) => {},
        }
        self.bus.sleep(delay);
        let _ = self.bus.release_select();
        self.bus.sleep(delay_after);
        let end: bool = self.is_rot_irq_asserted();
        let st = PulseStatus {
            rot_irq_begin: if begin { 1 } else { 0 },
            rot_irq_end: if end { 1 } else { 0 },
        };
        proof {
            assert(final(self).bus_log() =~= old(self).bus_log() + seq![
                BusEvent::SignalRead { level: begin },
                BusEvent::SelAssert,
                BusEvent::SleepTicks { ticks: delay },
                BusEvent::SelRelease,
                BusEvent::SleepTicks { ticks: delay_after },
                BusEvent::SignalRead { level: end },
            ]);
        }
        Ok(st)
    }

    /// When the peer asserts the ready signal although no response is
    /// owed — a stale reply, or a peer that restarted — wait briefly for
    /// it to clear, then force resynchronization with a select pulse; if
    /// the signal still will not clear, the link is declared
    /// desynchronized for this attempt. Transfers no bytes. The
    /// contract ties the outcome to what was observed: success means
    /// the signal was last read deasserted — after exactly one read
    /// when it was already clear, else after the repair — and the
    /// desynchronization fault means a pulse ran (select asserted and
    /// released) and the read after it still saw the signal asserted.
    fn handle_unexpected_rot_irq(&mut self) -> (r: Result<(), SprotError>)
        requires
            !old(self).bus_selected(),
        ensures
            !final(self).bus_selected(),
            write_count(final(self).bus_log()) == write_count(old(self).bus_log()),
            writes_of(final(self).bus_log()) == writes_of(old(self).bus_log()),
            reads_of(final(self).bus_log()) == reads_of(old(self).bus_log()),
            extends(final(self).bus_log(), old(self).bus_log()),
            r is Ok ==> final(self).bus_log().len() > old(self).bus_log().len()
                && final(self).bus_log().last() == (BusEvent::SignalRead { level: false })
                && (final(self).bus_log() == old(self).bus_log().push(
                    BusEvent::SignalRead { level: false })
                    || final(self).bus_log()[old(self).bus_log().len() as int]
                        == (BusEvent::SignalRead { level: true })),
            r == Err::<(), SprotError>(SprotError::Desynchronized) ==> {
                let n = final(self).bus_log().len() as int;
                &&& n >= old(self).bus_log().len() + 7
                &&& final(self).bus_log().last() == (BusEvent::SignalRead { level: true })
                &&& final(self).bus_log()[n - 3] == BusEvent::SelRelease
                &&& final(self).bus_log()[n - 5] == BusEvent::SelAssert
            },
            r matches Err(e) ==> e == SprotError::Desynchronized
                || e == SprotError::CannotAssertCSn,
    {
        proof {
            lemma_extends_refl(old(self).bus_log());
        }
        if self.is_rot_irq_asserted() {
            let ghost after_first: Seq<BusEvent> = self.bus_log();
            if !self.wait_rot_irq(false, TIMEOUT_QUICK) {
                let ghost after_wait: Seq<BusEvent> = self.bus_log();
                let st = match self.do_pulse_cs(10, 10) {
                    Ok(st) => st,
                    Err(e) => {
                        proof {
                            assert(extends(after_first, old(self).bus_log()));
                            lemma_extends_trans(after_wait, after_first, old(self).bus_log());
                            lemma_extends_trans(self.bus_log(), after_wait,
                                old(self).bus_log());
                        }
                        return Err(e);
                    },
                };
                proof {
                    assert(extends(after_first, old(self).bus_log()));
                    lemma_extends_trans(after_wait, after_first, old(self).bus_log());
                    lemma_extends_trans(self.bus_log(), after_wait, old(self).bus_log());
                    lemma_extends_trans(self.bus_log(), after_wait, after_first);
                    assert(self.bus_log()[old(self).bus_log().len() as int]
                        == after_first[old(self).bus_log().len() as int]);
                }
                if st.rot_irq_end == 1 {
                    return Err(SprotError::Desynchronized);
                }
            } else {
                proof {
                    assert(extends(after_first, old(self).bus_log()));
                    lemma_extends_trans(self.bus_log(), after_first, old(self).bus_log());
                    assert(self.bus_log()[old(self).bus_log().len() as int]
                        == after_first[old(self).bus_log().len() as int]);
                }
            }
        }
        Ok(())
    }

    /// Sends one verified frame in up to two chunks: the first
    /// `ROT_FIFO_SIZE` bytes always fit the peer's FIFO; any remainder
    /// follows after a settle delay. On success the bytes on the wire
    /// are exactly the frame, and select is still held; at most two
    /// transfers happen in any case.
    #[verifier::rlimit(50)]
    fn do_send_request(&mut self, msg: &VerifiedTxMsg) -> (r: Result<(), SprotError>)
        requires
            !old(self).bus_selected(),
            msg.wf(),
        ensures
            write_count(final(self).bus_log()) <= write_count(old(self).bus_log()) + 2,
            reads_of(final(self).bus_log()) == reads_of(old(self).bus_log()),
            r is Ok ==> final(self).bus_selected(),
            r is Ok ==> final(self).bus_log() == old(self).bus_log() + spec_sent_events(msg@),
            r is Ok ==> writes_of(final(self).bus_log())
                == writes_of(old(self).bus_log()) + chunks_of(msg@),
            r matches Err(e) ==> e == SprotError::SpiServerError,
    {
        let total: usize = msg.len();
        let part1_len: usize = if total < ROT_FIFO_SIZE {
            total
        } else {
            ROT_FIFO_SIZE
        };
        let all: &[u8] = msg.as_slice();
        let part1: &[u8] = vstd::slice::slice_subrange(all, 0, part1_len);
        let part2: &[u8] = vstd::slice::slice_subrange(all, part1_len, total);
        match self.bus.assert_select() {
            Err(_) => {
                return Err(SprotError::SpiServerError);
            },
            Ok(()) => {},
        }
        match self.bus.write(part1) {
            Err(_) => {
                return Err(SprotError::SpiServerError);
            },
            Ok(()) => {},
        }
        if part2.len() > 0 {
            self.bus.sleep(PART2_DELAY);
            match self.bus.write(part2) {
                Err(_) => {
                    return Err(SprotError::SpiServerError);
                },
                Ok(()) => {},
            }
            proof {
                assert(part1@ == msg@.take(ROT_FIFO_SIZE as int));
                assert(part2@ == msg@.skip(ROT_FIFO_SIZE as int));
                assert(final(self).bus_log() =~= old(self).bus_log() + spec_sent_events(msg@));
                assert(writes_of(final(self).bus_log())
                    =~= writes_of(old(self).bus_log()) + chunks_of(msg@));
            }
        } else {
            proof {
                assert(part1@ =~= msg@);
                assert(final(self).bus_log() =~= old(self).bus_log() + spec_sent_events(msg@));
                assert(writes_of(final(self).bus_log())
                    =~= writes_of(old(self).bus_log()) + chunks_of(msg@));
            }
        }
        Ok(())
    }

    /// Reads one response while select is held: first the FIFO-sized
    /// prefix, enough for the header; then, if the declared payload
    /// implies more bytes, exactly the remainder after a settle delay.
    /// The completed buffer goes through [`finish_verify`], so anything
    /// returned has a matching tag, length and checksum.
    fn do_read_response(&mut self) -> (r: Result<VerifiedRxMsg, SprotError>)
        requires
            old(self).bus_selected(),
        ensures
            final(self).bus_selected(),
            write_count(final(self).bus_log()) == write_count(old(self).bus_log()),
            writes_of(final(self).bus_log()) == writes_of(old(self).bus_log()),
            r matches Ok(m) ==> m.wf()
                && reads_verify_to(final(self).bus_log(), m.typ(), m.payload_view()),
            r matches Err(e) ==> e == SprotError::SpiServerError
                || e == SprotError::MalformedFrame,
    {
        let part1_len: usize = if HEADER_SIZE < ROT_FIFO_SIZE {
            ROT_FIFO_SIZE
        } else {
            HEADER_SIZE
        };
        let mut buf: Vec<u8> = match self.bus.read(part1_len) {
            Ok(v) => v,
            Err(_) => {
                return Err(SprotError::SpiServerError);
            },
        };
        let header: MsgHeader = match parse_header(buf.as_slice(), part1_len) {
            Ok(h) => h,
            Err(e) => {
                return Err(e);
            },
        };
        let total: usize = HEADER_SIZE + header.payload_len as usize;
        if part1_len < total {
            let part2_len: usize = total - part1_len;
            self.bus.sleep(PART2_DELAY);
            let part2: Vec<u8> = match self.bus.read(part2_len) {
                Ok(v) => v,
                Err(_) => {
                    return Err(SprotError::SpiServerError);
                },
            };
            let ghost first: Seq<u8> = buf@;
            let mut k: usize = 0;
            while k < part2.len()
                invariant
                    k <= part2@.len(),
                    buf@ == first + part2@.take(k as int),
                    first.len() == part1_len,
                decreases part2@.len() - k,
            {
                proof {
                    assert(first + part2@.take(k as int + 1)
                        =~= (first + part2@.take(k as int)).push(part2@[k as int]));
                }
                buf.push(part2[k]);
                k = k + 1;
            }
            proof {
                assert(buf@ =~= first + part2@);
                assert(buf@.take(total as int) =~= buf@);
            }
            match finish_verify(buf.as_slice(), total) {
                Ok(m) => {
                    proof {
                        let rd = reads_of(self.bus_log());
                        assert(rd[rd.len() - 2] == first && rd.last() == part2@);
                    }
                    Ok(m)
                },
                Err(e) => Err(e),
            }
        } else {
            proof {
                assert(spec_stored_len(buf@.take(part1_len as int)) == spec_stored_len(buf@));
            }
            match finish_verify(buf.as_slice(), total) {
                Ok(m) => {
                    proof {
                        let rd = reads_of(self.bus_log());
                        assert(rd.last() == buf@);
                        assert(HEADER_SIZE + spec_stored_len(rd.last()) == total);
                    }
                    Ok(m)
                },
                Err(e) => Err(e),
            }
        }
    }

    /// One full exchange: repair an out-of-step peer, send the request
    /// chunked, release the bus, wait up to `timeout` for the ready
    /// signal, then read and verify the response. Select is released on
    /// every exit path, and at most two transfers go out.
    pub fn do_send_recv(&mut self, msg: &VerifiedTxMsg, timeout: u32) -> (r: Result<VerifiedRxMsg,
        SprotError>)
        requires
            !old(self).bus_selected(),
            msg.wf(),
        ensures
            !final(self).bus_selected(),
            write_count(final(self).bus_log()) <= write_count(old(self).bus_log()) + 2,
            r is Ok ==> writes_of(final(self).bus_log())
                == writes_of(old(self).bus_log()) + chunks_of(msg@),
            r matches Ok(m) ==> m.wf()
                && reads_verify_to(final(self).bus_log(), m.typ(), m.payload_view()),
            r == Err::<VerifiedRxMsg, SprotError>(SprotError::RotNotReady)
                ==> reads_of(final(self).bus_log()) == reads_of(old(self).bus_log())
                && final(self).bus_log().last() == (BusEvent::SignalRead { level: false }),
            r matches Err(e) ==> e != SprotError::Unknown,
    {
        match self.handle_unexpected_rot_irq() {
            Err(e) => {
                return Err(e);
            },
            Ok(()) => {},
        }
        let res: Result<(), SprotError> = self.do_send_request(msg);
        let _ = self.bus.release_select();
        match res {
            Err(e) => {
                return Err(e);
            },
            Ok(()) => {},
        }
        if !self.wait_rot_irq(true, timeout) {
            return Err(SprotError::RotNotReady);
        }
        match self.bus.assert_select() {
            Err(_) => {
                return Err(SprotError::SpiServerError);
            },
            Ok(()) => {},
        }
        let res2: Result<VerifiedRxMsg, SprotError> = self.do_read_response();
        match self.bus.release_select() {
            Err(_) => {
                return Err(SprotError::SpiServerError);
            },
            Ok(()) => {},
        }
        res2
    }

    /// The retry engine: runs [`Self::do_send_recv`] up to `retries`
    /// times. Recoverable failures sleep a fixed backoff and loop;
    /// fatal ones return at once. An error-kind reply is unwrapped by
    /// [`classify_response`]: recoverable peer errors loop, the rest
    /// end the call. At most two transfers happen per attempt, and with
    /// at least one attempt the `Unknown` sentinel can never be the
    /// result — every attempt records a real error first.
    pub fn do_send_recv_retries(&mut self, msg: &VerifiedTxMsg, timeout: u32, retries: u16) -> (r:
        Result<VerifiedRxMsg, SprotError>)
        requires
            !old(self).bus_selected(),
            msg.wf(),
        ensures
            !final(self).bus_selected(),
            write_count(final(self).bus_log()) <= write_count(old(self).bus_log()) + 2 * (
            retries as int),
            r is Ok ==> ends_with_chunks(final(self).bus_log(), msg@),
            r matches Ok(m) ==> m.wf() && m.typ() != MsgType::ErrorRsp
                && reads_verify_to(final(self).bus_log(), m.typ(), m.payload_view()),
            retries >= 1 ==> r != Err::<VerifiedRxMsg, SprotError>(SprotError::Unknown),
            retries == 0 ==> r == Err::<VerifiedRxMsg, SprotError>(SprotError::Unknown),
    {
        let mut attempts_left: u16 = retries;
        let mut errcode: SprotError = SprotError::Unknown;
        while attempts_left > 0
            invariant
                !self.bus_selected(),
                msg.wf(),
                attempts_left <= retries,
                write_count(self.bus_log()) <= write_count(old(self).bus_log()) + 2 * (
                retries as int - attempts_left as int),
                attempts_left < retries ==> errcode != SprotError::Unknown,
                retries == 0 ==> errcode == SprotError::Unknown,
            decreases attempts_left,
        {
            attempts_left = attempts_left - 1;
            let ghost w_before: Seq<Seq<u8>> = writes_of(self.bus_log());
            match self.do_send_recv(msg, timeout) {
                Err(err) => {
                    if is_recoverable_error(err) {
                        errcode = err;
                        self.bus.sleep(RETRY_TIMEOUT);
                    } else {
                        return Err(err);
                    }
                },
                Ok(rxmsg) => {
                    match classify_response(&rxmsg) {
                        ReplyClass::Accept => {
                            proof {
                                assert(writes_of(self.bus_log())
                                    == w_before + chunks_of(msg@));
                                assert((w_before + chunks_of(msg@)).skip(
                                    w_before.len() as int) =~= chunks_of(msg@));
                            }
                            return Ok(rxmsg);
                        },
                        ReplyClass::RetryWith(e) => {
                            errcode = e;
                            self.bus.sleep(RETRY_TIMEOUT);
                        },
                        ReplyClass::Fatal(e) => {
                            return Err(e);
                        },
                    }
                },
            }
        }
        Err(errcode)
    }

    /// One update-sub-protocol exchange: send `msg` through the retry
    /// engine, then interpret the reply against the expected kind `rsp`
    /// with [`interpret_upd_reply`]. Success means the request went out
    /// exactly as built and a reply of the expected kind was read off
    /// the wire whose payload decodes to the returned value.
    fn upd(&mut self, msg: &VerifiedTxMsg, rsp: MsgType, timeout: u32, attempts: u16) -> (r:
        Result<Option<u32>, SprotError>)
        requires
            !old(self).bus_selected(),
            msg.wf(),
        ensures
            !final(self).bus_selected(),
            write_count(final(self).bus_log()) <= write_count(old(self).bus_log()) + 2 * (
            attempts as int),
            r is Ok ==> ends_with_chunks(final(self).bus_log(), msg@),
            r matches Ok(v) ==> exists|p: Seq<u8>|
                #[trigger] reads_verify_to(final(self).bus_log(), rsp, p)
                && spec_decode_update_reply(p) == Some(Ok::<Option<u32>, u32>(v)),
            attempts >= 1 ==> r != Err::<Option<u32>, SprotError>(SprotError::Unknown),
    {
        let rxmsg: VerifiedRxMsg = match self.do_send_recv_retries(msg, timeout, attempts) {
            Ok(m) => m,
            Err(e) => {
                return Err(e);
            },
        };
        let r = interpret_upd_reply(&rxmsg, rsp);
        proof {
            if r is Ok {
                assert(rxmsg.typ() == rsp);
                assert(reads_verify_to(self.bus_log(), rsp, rxmsg.payload_view())
                    && spec_decode_update_reply(rxmsg.payload_view())
                        == Some(Ok::<Option<u32>, u32>(r.unwrap())));
            }
        }
        r
    }

    /// Sends one message with `source` as payload and returns the
    /// response payload; a single attempt.
    pub fn send_recv(&mut self, msgtype: MsgType, source: &[u8]) -> (r: Result<Received,
        SprotError>)
        requires
            !old(self).bus_selected(),
        ensures
            !final(self).bus_selected(),
            write_count(final(self).bus_log()) <= write_count(old(self).bus_log()) + 2,
            source@.len() > MAX_PAYLOAD_SIZE ==> (r matches Err(e)
                && e == SprotError::BadMessageLength),
            r matches Ok(rcv) ==> rcv.msgtype == msgtype && rcv.length == rcv.payload@.len()
                && rcv.payload@.len() <= MAX_PAYLOAD_SIZE,
            r is Ok ==> ends_with_chunks(final(self).bus_log(),
                crate::frame::spec_frame_bytes(msgtype, source@)),
            r matches Ok(rcv) ==> exists|t: MsgType|
                #[trigger] reads_verify_to(final(self).bus_log(), t, rcv.payload@)
                && t != MsgType::ErrorRsp,
            r != Err::<Received, SprotError>(SprotError::Unknown),
    {
        self.send_recv_retries(msgtype, 1, source)
    }

    /// Sends one message with `source` as payload through the retry
    /// engine and returns the response payload. The request is refused
    /// up front when the payload exceeds the frame capacity.
    pub fn send_recv_retries(&mut self, msgtype: MsgType, attempts: u16, source: &[u8]) -> (r:
        Result<Received, SprotError>)
        requires
            !old(self).bus_selected(),
        ensures
            !final(self).bus_selected(),
            write_count(final(self).bus_log()) <= write_count(old(self).bus_log()) + 2 * (
            attempts as int),
            source@.len() > MAX_PAYLOAD_SIZE ==> (r matches Err(e)
                && e == SprotError::BadMessageLength),
            r matches Ok(rcv) ==> rcv.msgtype == msgtype && rcv.length == rcv.payload@.len()
                && rcv.payload@.len() <= MAX_PAYLOAD_SIZE,
            r is Ok ==> ends_with_chunks(final(self).bus_log(),
                crate::frame::spec_frame_bytes(msgtype, source@)),
            r matches Ok(rcv) ==> exists|t: MsgType|
                #[trigger] reads_verify_to(final(self).bus_log(), t, rcv.payload@)
                && t != MsgType::ErrorRsp,
            attempts >= 1 ==> r != Err::<Received, SprotError>(SprotError::Unknown),
    {
        let txmsg: VerifiedTxMsg = match build_frame(msgtype, source) {
            Ok(m) => m,
            Err(e) => {
                return Err(e);
            },
        };
        let rxmsg: VerifiedRxMsg = match self.do_send_recv_retries(&txmsg, TIMEOUT_MAX, attempts) {
            Ok(m) => m,
            Err(e) => {
                return Err(e);
            },
        };
        let payload: Vec<u8> = rxmsg.take_payload();
        let length: u16 = payload.len() as u16;
        let rcv = Received { msgtype, length, payload };
        proof {
            assert(reads_verify_to(self.bus_log(), rxmsg.typ(), rcv.payload@)
                && rxmsg.typ() != MsgType::ErrorRsp);
        }
        Ok(rcv)
    }

    /// The standalone resynchronizing pulse, for diagnostics: toggles
    /// select with `delay` ticks on both sides and reports the ready
    /// signal immediately before and after, even when it did not change.
    pub fn pulse_cs(&mut self, delay: u16) -> (r: Result<PulseStatus, SprotError>)
        requires
            !old(self).bus_selected(),
        ensures
            !final(self).bus_selected(),
            write_count(final(self).bus_log()) == write_count(old(self).bus_log()),
            r matches Ok(st) ==> {
                &&& (st.rot_irq_begin == 0 || st.rot_irq_begin == 1)
                &&& (st.rot_irq_end == 0 || st.rot_irq_end == 1)
                &&& final(self).bus_log() == old(self).bus_log() + seq![
                    BusEvent::SignalRead { level: st.rot_irq_begin == 1 },
                    BusEvent::SelAssert,
                    BusEvent::SleepTicks { ticks: delay as u64 },
                    BusEvent::SelRelease,
                    BusEvent::SleepTicks { ticks: delay as u64 },
                    BusEvent::SignalRead { level: st.rot_irq_end == 1 },
                ]
            },
            r matches Err(e) ==> e == SprotError::CannotAssertCSn,
    {
        self.do_pulse_cs(delay as u64, delay as u64)
    }

    /// Retrieves the peer's status record; fixed quick timeout, single
    /// attempt, no request payload.
    pub fn status(&mut self) -> (r: Result<SprotStatus, SprotError>)
        requires
            !old(self).bus_selected(),
        ensures
            !final(self).bus_selected(),
            write_count(final(self).bus_log()) <= write_count(old(self).bus_log()) + 2,
            r is Ok ==> ends_with_chunks(final(self).bus_log(),
                spec_frame_bytes(MsgType::StatusReq, Seq::<u8>::empty())),
            r matches Ok(st) ==> exists|p: Seq<u8>|
                #[trigger] reads_verify_to(final(self).bus_log(), MsgType::StatusRsp, p)
                && spec_decode_status(p) == Some(st),
    {
        let empty: Vec<u8> = Vec::new();
        proof {
            assert(empty@ =~= Seq::<u8>::empty());
        }
        let txmsg: VerifiedTxMsg = match build_frame(MsgType::StatusReq, empty.as_slice()) {
            Ok(m) => m,
            Err(e) => {
                return Err(e);
            },
        };
        let ghost w_before: Seq<Seq<u8>> = writes_of(self.bus_log());
        let rxmsg: VerifiedRxMsg = match self.do_send_recv(&txmsg, TIMEOUT_QUICK) {
            Ok(m) => m,
            Err(e) => {
                return Err(e);
            },
        };
        proof {
            assert((w_before + chunks_of(txmsg@)).skip(w_before.len() as int)
                =~= chunks_of(txmsg@));
        }
        match expect_msg(MsgType::StatusRsp, rxmsg.msg_type()) {
            Err(e) => {
                return Err(e);
            },
            Ok(()) => {},
        }
        let r = decode_status(rxmsg.payload());
        proof {
            if r is Ok {
                assert(reads_verify_to(self.bus_log(), MsgType::StatusRsp,
                    rxmsg.payload_view())
                    && spec_decode_status(rxmsg.payload_view()) == Some(r.unwrap()));
            }
        }
        r
    }

    /// Retrieves the peer's I/O statistics; fixed quick timeout, single
    /// attempt, no request payload.
    pub fn io_stats(&mut self) -> (r: Result<IoStats, SprotError>)
        requires
            !old(self).bus_selected(),
        ensures
            !final(self).bus_selected(),
            write_count(final(self).bus_log()) <= write_count(old(self).bus_log()) + 2,
            r is Ok ==> ends_with_chunks(final(self).bus_log(),
                spec_frame_bytes(MsgType::IoStatsReq, Seq::<u8>::empty())),
            r matches Ok(st) ==> exists|p: Seq<u8>|
                #[trigger] reads_verify_to(final(self).bus_log(), MsgType::IoStatsRsp, p)
                && spec_decode_io_stats(p) == Some(st),
    {
        let empty: Vec<u8> = Vec::new();
        proof {
            assert(empty@ =~= Seq::<u8>::empty());
        }
        let txmsg: VerifiedTxMsg = match build_frame(MsgType::IoStatsReq, empty.as_slice()) {
            Ok(m) => m,
            Err(e) => {
                return Err(e);
            },
        };
        let ghost w_before: Seq<Seq<u8>> = writes_of(self.bus_log());
        let rxmsg: VerifiedRxMsg = match self.do_send_recv(&txmsg, TIMEOUT_QUICK) {
            Ok(m) => m,
            Err(e) => {
                return Err(e);
            },
        };
        proof {
            assert((w_before + chunks_of(txmsg@)).skip(w_before.len() as int)
                =~= chunks_of(txmsg@));
        }
        match expect_msg(MsgType::IoStatsRsp, rxmsg.msg_type()) {
            Err(e) => {
                return Err(e);
            },
            Ok(()) => {},
        }
        let r = decode_io_stats(rxmsg.payload());
        proof {
            if r is Ok {
                assert(reads_verify_to(self.bus_log(), MsgType::IoStatsRsp,
                    rxmsg.payload_view())
                    && spec_decode_io_stats(rxmsg.payload_view()) == Some(r.unwrap()));
            }
        }
        r
    }

    /// Asks the peer for its update block size: a reply that encodes
    /// success with a value yields that value; success without a value
    /// is itself an error here, since a size is owed.
    pub fn block_size(&mut self) -> (r: Result<usize, SprotError>)
        requires
            !old(self).bus_selected(),
        ensures
            !final(self).bus_selected(),
            write_count(final(self).bus_log()) <= write_count(old(self).bus_log()) + 2,
            r is Ok ==> ends_with_chunks(final(self).bus_log(),
                spec_frame_bytes(MsgType::UpdBlockSizeReq, Seq::<u8>::empty())),
            r matches Ok(sz) ==> sz <= u32::MAX && exists|p: Seq<u8>|
                #[trigger] reads_verify_to(final(self).bus_log(), MsgType::UpdBlockSizeRsp, p)
                && spec_decode_update_reply(p) == Some(Ok::<Option<u32>, u32>(Some(
                sz as u32))),
            r != Err::<usize, SprotError>(SprotError::Unknown),
    {
        let empty: Vec<u8> = Vec::new();
        proof {
            assert(empty@ =~= Seq::<u8>::empty());
        }
        let txmsg: VerifiedTxMsg = match build_frame(MsgType::UpdBlockSizeReq, empty.as_slice()) {
            Ok(m) => m,
            Err(e) => {
                return Err(e);
            },
        };
        match self.upd(&txmsg, MsgType::UpdBlockSizeRsp, TIMEOUT_QUICK, 1) {
            Ok(Some(block_size)) => {
                proof {
                    let p = choose|p: Seq<u8>|
                        #[trigger] reads_verify_to(self.bus_log(), MsgType::UpdBlockSizeRsp, p)
                        && spec_decode_update_reply(p) == Some(Ok::<Option<u32>, u32>(Some(
                        block_size)));
                    assert(reads_verify_to(self.bus_log(), MsgType::UpdBlockSizeRsp, p)
                        && spec_decode_update_reply(p) == Some(Ok::<Option<u32>, u32>(Some(
                        block_size as usize as u32))));
                }
                Ok(block_size as usize)
            },
            Ok(None) => Err(SprotError::UpdateSpRotError),
            Err(e) => Err(e),
        }
    }

    /// Tells the peer to prepare an image update for `target`; single
    /// attempt, failure is immediately fatal.
    pub fn prep_image_update(&mut self, target: UpdateTarget) -> (r: Result<(), SprotError>)
        requires
            !old(self).bus_selected(),
        ensures
            !final(self).bus_selected(),
            write_count(final(self).bus_log()) <= write_count(old(self).bus_log()) + 2,
            r is Ok ==> ends_with_chunks(final(self).bus_log(),
                spec_frame_bytes(MsgType::UpdPrepImageUpdateReq, seq![spec_target_code(
                target)])),
            r is Ok ==> exists|p: Seq<u8>|
                #[trigger] reads_verify_to(final(self).bus_log(),
                MsgType::UpdPrepImageUpdateRsp, p)
                && (spec_decode_update_reply(p) matches Some(Ok(_))),
    {
        let mut payload: Vec<u8> = Vec::new();
        payload.push(target_code(target));
        proof {
            assert(payload@ =~= seq![spec_target_code(target)]);
        }
        let txmsg: VerifiedTxMsg = match build_frame(MsgType::UpdPrepImageUpdateReq,
            payload.as_slice()) {
            Ok(m) => m,
            Err(e) => {
                return Err(e);
            },
        };
        match self.upd(&txmsg, MsgType::UpdPrepImageUpdateRsp, TIMEOUT_QUICK, 1) {
            Ok(v) => {
                proof {
                    let p = choose|p: Seq<u8>|
                        #[trigger] reads_verify_to(self.bus_log(),
                        MsgType::UpdPrepImageUpdateRsp, p)
                        && spec_decode_update_reply(p) == Some(Ok::<Option<u32>, u32>(v));
                    assert(reads_verify_to(self.bus_log(), MsgType::UpdPrepImageUpdateRsp, p)
                        && (spec_decode_update_reply(p) matches Some(Ok(_))));
                }
                Ok(())
            },
            Err(e) => Err(e),
        }
    }

    /// Writes one update block: the payload is the block number followed
    /// by the block bytes. Flash programming is slow and occasionally
    /// worth a retry, so this uses the largest timeout and a small
    /// positive attempt budget.
    pub fn write_one_block(&mut self, block_num: u32, block: &[u8]) -> (r: Result<(), SprotError>)
        requires
            !old(self).bus_selected(),
            block@.len() <= MAX_BLOCK_SIZE,
        ensures
            !final(self).bus_selected(),
            write_count(final(self).bus_log()) <= write_count(old(self).bus_log()) + 2 * (
            MAX_UPDATE_ATTEMPTS as int),
            r is Ok ==> ends_with_chunks(final(self).bus_log(),
                spec_frame_bytes(MsgType::UpdWriteOneBlockReq, spec_block_payload(block_num,
                block@))),
            r is Ok ==> exists|p: Seq<u8>|
                #[trigger] reads_verify_to(final(self).bus_log(),
                MsgType::UpdWriteOneBlockRsp, p)
                && (spec_decode_update_reply(p) matches Some(Ok(_))),
    {
        let mut payload: Vec<u8> = Vec::new();
        push_u32(&mut payload, block_num);
        let ghost lead: Seq<u8> = payload@;
        let mut k: usize = 0;
        while k < block.len()
            invariant
                k <= block@.len(),
                block@.len() <= MAX_BLOCK_SIZE,
                lead.len() == 4,
                payload@ == lead + block@.take(k as int),
            decreases block@.len() - k,
        {
            proof {
                assert(lead + block@.take(k as int + 1)
                    =~= (lead + block@.take(k as int)).push(block@[k as int]));
            }
            payload.push(block[k]);
            k = k + 1;
        }
        proof {
            assert(payload@ =~= spec_block_payload(block_num, block@));
        }
        let txmsg: VerifiedTxMsg = match build_frame(MsgType::UpdWriteOneBlockReq,
            payload.as_slice()) {
            Ok(m) => m,
            Err(e) => {
                return Err(e);
            },
        };
        match self.upd(&txmsg, MsgType::UpdWriteOneBlockRsp, TIMEOUT_WRITE_ONE_BLOCK,
            MAX_UPDATE_ATTEMPTS) {
            Ok(v) => {
                proof {
                    let p = choose|p: Seq<u8>|
                        #[trigger] reads_verify_to(self.bus_log(),
                        MsgType::UpdWriteOneBlockRsp, p)
                        && spec_decode_update_reply(p) == Some(Ok::<Option<u32>, u32>(v));
                    assert(reads_verify_to(self.bus_log(), MsgType::UpdWriteOneBlockRsp, p)
                        && (spec_decode_update_reply(p) matches Some(Ok(_))));
                }
                Ok(())
            },
            Err(e) => Err(e),
        }
    }

    /// Tells the peer the image is complete; single attempt.
    pub fn finish_image_update(&mut self) -> (r: Result<(), SprotError>)
        requires
            !old(self).bus_selected(),
        ensures
            !final(self).bus_selected(),
            write_count(final(self).bus_log()) <= write_count(old(self).bus_log()) + 2,
            r is Ok ==> ends_with_chunks(final(self).bus_log(),
                spec_frame_bytes(MsgType::UpdFinishImageUpdateReq, Seq::<u8>::empty())),
            r is Ok ==> exists|p: Seq<u8>|
                #[trigger] reads_verify_to(final(self).bus_log(), MsgType::UpdFinishImageUpdateRsp, p)
                && (spec_decode_update_reply(p) matches Some(Ok(_))),
    {
        let empty: Vec<u8> = Vec::new();
        proof {
            assert(empty@ =~= Seq::<u8>::empty());
        }
        let txmsg: VerifiedTxMsg = match build_frame(MsgType::UpdFinishImageUpdateReq,
            empty.as_slice()) {
            Ok(m) => m,
            Err(e) => {
                return Err(e);
            },
        };
        match self.upd(&txmsg, MsgType::UpdFinishImageUpdateRsp, TIMEOUT_QUICK, 1) {
            Ok(v) => {
                proof {
                    let p = choose|p: Seq<u8>|
                        #[trigger] reads_verify_to(self.bus_log(), MsgType::UpdFinishImageUpdateRsp, p)
                        && spec_decode_update_reply(p) == Some(Ok::<Option<u32>, u32>(v));
                    assert(reads_verify_to(self.bus_log(), MsgType::UpdFinishImageUpdateRsp, p)
                        && (spec_decode_update_reply(p) matches Some(Ok(_))));
                }
                Ok(())
            },
            Err(e) => Err(e),
        }
    }

    /// Tells the peer to abandon the update in progress; single attempt.
    pub fn abort_update(&mut self) -> (r: Result<(), SprotError>)
        requires
            !old(self).bus_selected(),
        ensures
            !final(self).bus_selected(),
            write_count(final(self).bus_log()) <= write_count(old(self).bus_log()) + 2,
            r is Ok ==> ends_with_chunks(final(self).bus_log(),
                spec_frame_bytes(MsgType::UpdAbortUpdateReq, Seq::<u8>::empty())),
            r is Ok ==> exists|p: Seq<u8>|
                #[trigger] reads_verify_to(final(self).bus_log(), MsgType::UpdAbortUpdateRsp, p)
                && (spec_decode_update_reply(p) matches Some(Ok(_))),
    {
        let empty: Vec<u8> = Vec::new();
        proof {
            assert(empty@ =~= Seq::<u8>::empty());
        }
        let txmsg: VerifiedTxMsg = match build_frame(MsgType::UpdAbortUpdateReq,
            empty.as_slice()) {
            Ok(m) => m,
            Err(e) => {
                return Err(e);
            },
        };
        match self.upd(&txmsg, MsgType::UpdAbortUpdateRsp, TIMEOUT_QUICK, 1) {
            Ok(v) => {
                proof {
                    let p = choose|p: Seq<u8>|
                        #[trigger] reads_verify_to(self.bus_log(), MsgType::UpdAbortUpdateRsp, p)
                        && spec_decode_update_reply(p) == Some(Ok::<Option<u32>, u32>(v));
                    assert(reads_verify_to(self.bus_log(), MsgType::UpdAbortUpdateRsp, p)
                        && (spec_decode_update_reply(p) matches Some(Ok(_))));
                }
                Ok(())
            },
            Err(e) => Err(e),
        }
    }

    /// The bulk-transfer diagnostic mode: sends `count` fixed-pattern
    /// payloads of `size` bytes, each through the retry engine, checking
    /// the echoed sequence number of every reply. Stops at the first
    /// fatal error and reports how many requests had succeeded; without
    /// the mode built in, every call is `NotImplemented` with nothing
    /// sent.
    pub fn rot_sink(&mut self, count: u16, size: u16) -> (r: Result<SinkStatus, SinkFailure>)
        requires
            !old(self).bus_selected(),
        ensures
            !final(self).bus_selected(),
            write_count(final(self).bus_log()) <= write_count(old(self).bus_log()) + 2 * (
            MAX_SINKREQ_ATTEMPTS as int) * (count as int),
            !old(self).sink_on() ==> r == Err::<SinkStatus, SinkFailure>(SinkFailure {
                err: SprotError::NotImplemented,
                sent: 0,
            }),
            old(self).sink_on() && count == 0 ==> r == Ok::<SinkStatus, SinkFailure>(
                SinkStatus { sent: 0 }),
            old(self).sink_on() && count > 0 && size as int > MAX_PAYLOAD_SIZE ==> r
                == Err::<SinkStatus, SinkFailure>(SinkFailure {
                err: SprotError::BadMessageLength,
                sent: 0,
            }),
            r is Ok ==> old(self).sink_on(),
            r matches Ok(st) ==> st.sent == count,
            r matches Err(f) ==> f.sent <= count && f.err != SprotError::Unknown,
    {
        if !self.sink_enabled {
            return Err(SinkFailure { err: SprotError::NotImplemented, sent: 0 });
        }
        let mut sent: u16 = 0;
        while sent < count
            invariant
                !self.bus_selected(),
                old(self).sink_enabled,
                sent <= count,
                size as int > MAX_PAYLOAD_SIZE ==> sent == 0,
                write_count(self.bus_log()) <= write_count(old(self).bus_log()) + 2 * (
                MAX_SINKREQ_ATTEMPTS as int) * (sent as int),
            decreases count - sent,
        {
            proof {
                assert(2 * (MAX_SINKREQ_ATTEMPTS as int) * (sent as int + 1)
                    <= 2 * (MAX_SINKREQ_ATTEMPTS as int) * (count as int)) by (nonlinear_arith)
                    requires
                        0 <= sent as int,
                        (sent as int) < (count as int),
                ;
                assert(2 * (MAX_SINKREQ_ATTEMPTS as int) * (sent as int + 1)
                    == 2 * (MAX_SINKREQ_ATTEMPTS as int) * (sent as int)
                    + 2 * (MAX_SINKREQ_ATTEMPTS as int)) by (nonlinear_arith);
            }
            let payload: Vec<u8> = build_sink_payload(sent, size);
            let txmsg: VerifiedTxMsg = match build_frame(MsgType::SinkReq, payload.as_slice()) {
                Ok(m) => m,
                Err(e) => {
                    return Err(SinkFailure { err: e, sent });
                },
            };
            match self.do_send_recv_retries(&txmsg, TIMEOUT_QUICK, MAX_SINKREQ_ATTEMPTS) {
                Err(err) => {
                    return Err(SinkFailure { err, sent });
                },
                Ok(rxmsg) => {
                    match check_sink_reply(&rxmsg, sent) {
                        Err(e) => {
                            return Err(SinkFailure { err: e, sent });
                        },
                        Ok(()) => {},
                    }
                },
            }
            sent = sent + 1;
        }
        Ok(SinkStatus { sent })
    }
}

} // verus!
