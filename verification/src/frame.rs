//! The frame codec.
//!
//! A frame is a five-byte header — tag (1 byte), payload length (2 bytes,
//! little endian), checksum (2 bytes, little endian) — followed by the
//! payload. The checksum is the sum of every transmitted byte outside the
//! checksum field itself, reduced modulo 2^16; because a single corrupted
//! byte shifts that sum by a nonzero amount smaller than 2^16, the codec
//! rejects every single-byte (hence every single-bit) corruption of a
//! built frame.
//!
//! A buffer becomes a [`VerifiedTxMsg`] only through [`build_frame`], and
//! a [`VerifiedRxMsg`] only through [`finish_verify`]: the types, not
//! flags, record that the bytes were checked.

use vstd::prelude::*;
use vstd::arithmetic::div_mod::lemma_fundamental_div_mod;
use crate::msg::{MsgType, SprotError, spec_msg_tag, spec_msg_of_tag, msg_tag, msg_of_tag,
    lemma_msg_tag_round_trip};
use crate::{BUF_SIZE, HEADER_SIZE, MAX_PAYLOAD_SIZE};

verus! {

/// Sum of a byte sequence's values, over the integers.
pub open spec fn sum_bytes(s: Seq<u8>) -> int
    decreases s.len(),
{
    if s.len() == 0 {
        0
    } else {
        sum_bytes(s.drop_last()) + s.last()
    }
}

/// Little-endian bytes of a 16-bit value.
pub open spec fn spec_le16(v: u16) -> Seq<u8> {
    seq![(v & 0xff) as u8, ((v >> 8) & 0xff) as u8]
}

/// The 16-bit value two little-endian bytes encode.
pub open spec fn spec_u16_of(lo: u8, hi: u8) -> int {
    lo + 0x100 * hi
}

/// The 32-bit value four little-endian bytes encode.
pub open spec fn spec_u32_of(b0: u8, b1: u8, b2: u8, b3: u8) -> int {
    b0 + 0x100 * b1 + 0x10000 * b2 + 0x1000000 * b3
}

/// Sum of the bytes the checksum covers: tag, the two length bytes, and
/// the payload, as they stand in a frame of kind `t` with payload `p`.
pub open spec fn spec_frame_sum(t: MsgType, p: Seq<u8>) -> int {
    spec_msg_tag(t) + sum_bytes(spec_le16(p.len() as u16)) + sum_bytes(p)
}

/// The checksum written into a built frame.
pub open spec fn spec_frame_ck(t: MsgType, p: Seq<u8>) -> u16 {
    (spec_frame_sum(t, p) % 0x10000) as u16
}

/// The complete wire encoding of a frame of kind `t` with payload `p`.
pub open spec fn spec_frame_bytes(t: MsgType, p: Seq<u8>) -> Seq<u8> {
    seq![spec_msg_tag(t)]
        + spec_le16(p.len() as u16)
        + spec_le16(spec_frame_ck(t, p))
        + p
}

/// The payload length a received header declares.
pub open spec fn spec_stored_len(s: Seq<u8>) -> int {
    spec_u16_of(s[1], s[2])
}

/// The checksum a received header carries.
pub open spec fn spec_stored_ck(s: Seq<u8>) -> int {
    spec_u16_of(s[3], s[4])
}

/// The checksum-covered byte sum of a received buffer.
pub open spec fn spec_buf_sum(s: Seq<u8>) -> int {
    s[0] + s[1] + s[2] + sum_bytes(s.skip(HEADER_SIZE as int))
}

/// A parsed frame header.
#[derive(Clone, Copy, PartialEq, Eq, Structural, Debug)]
pub struct MsgHeader {
    pub msgtype: MsgType,
    pub payload_len: u16,
    pub checksum: u16,
}

/// What header the first `HEADER_SIZE` bytes of `s` declare, if they
/// hold a known tag and a length within capacity. Checks neither the
/// checksum nor whether the payload has arrived.
pub open spec fn spec_parse(s: Seq<u8>) -> Option<MsgHeader> {
    if s.len() < HEADER_SIZE {
        None
    } else {
        match spec_msg_of_tag(s[0]) {
            Option::None => None,
            Option::Some(t) => {
                if spec_stored_len(s) > MAX_PAYLOAD_SIZE {
                    None
                } else {
                    Some(MsgHeader {
                        msgtype: t,
                        payload_len: spec_stored_len(s) as u16,
                        checksum: spec_stored_ck(s) as u16,
                    })
                }
            },
        }
    }
}

/// The kind and payload of `s`, if `s` is a complete well-formed frame:
/// the header parses, the declared length matches the bytes present, and
/// the checksum matches.
pub open spec fn spec_verify_frame(s: Seq<u8>) -> Option<(MsgType, Seq<u8>)> {
    match spec_parse(s) {
        Option::None => None,
        Option::Some(h) => {
            if s.len() == HEADER_SIZE + h.payload_len
                && spec_buf_sum(s) % 0x10000 == h.checksum {
                Some((h.msgtype, s.skip(HEADER_SIZE as int)))
            } else {
                None
            }
        },
    }
}

pub proof fn lemma_sum_bytes_bounds(s: Seq<u8>)
    ensures
        0 <= sum_bytes(s) <= 255 * s.len(),
    decreases s.len(),
{
    if s.len() > 0 {
        lemma_sum_bytes_bounds(s.drop_last());
    }
}

/// Appending one byte adds its value to the sum.
pub proof fn lemma_sum_take_step(s: Seq<u8>, i: int)
    requires
        0 <= i < s.len(),
    ensures
        sum_bytes(s.take(i + 1)) == sum_bytes(s.take(i)) + s[i],
{
    assert(s.take(i + 1).drop_last() =~= s.take(i));
    assert(s.take(i + 1).last() == s[i]);
}

proof fn lemma_sum_two(a: u8, b: u8)
    ensures
        sum_bytes(seq![a, b]) == a + b,
{
    assert(seq![a, b].drop_last() =~= seq![a]);
    assert(seq![a].drop_last() =~= Seq::<u8>::empty());
    assert(seq![a, b].last() == b);
    assert(seq![a].last() == a);
    assert(sum_bytes(Seq::<u8>::empty()) == 0);
    assert(sum_bytes(seq![a]) == sum_bytes(seq![a].drop_last()) + a);
    assert(sum_bytes(seq![a, b]) == sum_bytes(seq![a, b].drop_last()) + b);
}

/// Two equal-length sequences differing in one place have sums that
/// differ by exactly the difference of that byte.
pub proof fn lemma_sum_bytes_diff(s1: Seq<u8>, s2: Seq<u8>, i: int)
    requires
        s1.len() == s2.len(),
        0 <= i < s1.len(),
        forall|j: int| 0 <= j < s1.len() && j != i ==> s1[j] == s2[j],
    ensures
        sum_bytes(s2) == sum_bytes(s1) + s2[i] - s1[i],
    decreases s1.len(),
{
    if i == s1.len() - 1 {
        assert(s1.drop_last() =~= s2.drop_last());
    } else {
        lemma_sum_bytes_diff(s1.drop_last(), s2.drop_last(), i);
        assert(s1.drop_last()[i] == s1[i]);
        assert(s2.drop_last()[i] == s2[i]);
    }
}

/// Shifting an integer by a nonzero amount smaller than the modulus
/// moves it to a different residue class.
proof fn lemma_mod_shift_ne(x: int, d: int)
    requires
        d != 0,
        -0x10000 < d < 0x10000,
    ensures
        (x + d) % 0x10000 != x % 0x10000,
{
    lemma_fundamental_div_mod(x, 0x10000);
    lemma_fundamental_div_mod(x + d, 0x10000);
    if (x + d) % 0x10000 == x % 0x10000 {
        let q1: int = x / 0x10000;
        let q2: int = (x + d) / 0x10000;
        assert(d == 0x10000 * (q2 - q1));
        assert(false) by (nonlinear_arith)
            requires
                d == 0x10000 * (q2 - q1),
                d != 0,
                -0x10000 < d < 0x10000,
        ;
    }
}

/// A 16-bit value survives its little-endian encoding.
proof fn lemma_le16_decode(v: u16)
    ensures
        spec_u16_of(spec_le16(v)[0], spec_le16(v)[1]) == v,
{
    assert(spec_le16(v)[0] == (v & 0xff) as u8);
    assert(spec_le16(v)[1] == ((v >> 8) & 0xff) as u8);
    assert(((v & 0xff) as u8) + 0x100 * (((v >> 8) & 0xff) as u8) == v) by (bit_vector);
}

/// Facts every later proof needs about a built frame's layout.
proof fn lemma_frame_layout(t: MsgType, p: Seq<u8>)
    requires
        p.len() <= MAX_PAYLOAD_SIZE,
    ensures
        spec_frame_bytes(t, p).len() == HEADER_SIZE + p.len(),
        spec_frame_bytes(t, p)[0] == spec_msg_tag(t),
        spec_frame_bytes(t, p)[1] == spec_le16(p.len() as u16)[0],
        spec_frame_bytes(t, p)[2] == spec_le16(p.len() as u16)[1],
        spec_frame_bytes(t, p)[3] == spec_le16(spec_frame_ck(t, p))[0],
        spec_frame_bytes(t, p)[4] == spec_le16(spec_frame_ck(t, p))[1],
        spec_frame_bytes(t, p).skip(HEADER_SIZE as int) =~= p,
        spec_stored_len(spec_frame_bytes(t, p)) == p.len(),
        spec_stored_ck(spec_frame_bytes(t, p)) == spec_frame_ck(t, p),
        spec_buf_sum(spec_frame_bytes(t, p)) == spec_frame_sum(t, p),
{
    let s = spec_frame_bytes(t, p);
    assert(s.skip(HEADER_SIZE as int) =~= p);
    lemma_le16_decode(p.len() as u16);
    lemma_le16_decode(spec_frame_ck(t, p));
    lemma_sum_two((p.len() as u16 & 0xff) as u8, ((p.len() as u16 >> 8) & 0xff) as u8);
}

/// Encode/decode round trip: a frame built from any kind and any payload
/// within capacity verifies, and verification recovers the same kind and
/// the same payload bytes unchanged.
pub proof fn lemma_frame_round_trip(t: MsgType, p: Seq<u8>)
    requires
        p.len() <= MAX_PAYLOAD_SIZE,
    ensures
        spec_verify_frame(spec_frame_bytes(t, p)) == Some((t, p)),
{
    let s = spec_frame_bytes(t, p);
    lemma_frame_layout(t, p);
    lemma_msg_tag_round_trip(t);
    lemma_sum_bytes_bounds(p);
    let h = spec_parse(s).unwrap();
    assert(h.msgtype == t);
    assert(h.payload_len == p.len());
    assert(h.checksum == spec_frame_ck(t, p));
    assert(spec_buf_sum(s) % 0x10000 == spec_frame_ck(t, p));
}

/// Checksum sensitivity: corrupting any single byte of a built frame —
/// header, checksum field or payload — makes verification fail. A
/// single-bit corruption changes exactly one byte, so it is covered.
pub proof fn lemma_single_byte_corruption(t: MsgType, p: Seq<u8>, s2: Seq<u8>, i: int)
    requires
        p.len() <= MAX_PAYLOAD_SIZE,
        s2.len() == spec_frame_bytes(t, p).len(),
        0 <= i < s2.len(),
        s2[i] != spec_frame_bytes(t, p)[i],
        forall|j: int| 0 <= j < s2.len() && j != i ==> s2[j] == spec_frame_bytes(t, p)[j],
    ensures
        spec_verify_frame(s2) is None,
{
    let s1 = spec_frame_bytes(t, p);
    lemma_frame_layout(t, p);
    lemma_msg_tag_round_trip(t);
    lemma_sum_bytes_bounds(p);
    if i == 1 || i == 2 {
        // The declared length changes, but the bytes present do not.
        if spec_parse(s2) is Some {
            let d: int = spec_stored_len(s2) - spec_stored_len(s1);
            assert(d != 0);
            assert(s2.len() != HEADER_SIZE + spec_parse(s2).unwrap().payload_len);
        }
    } else if i == 3 || i == 4 {
        // The stored checksum changes while the computed one does not.
        if spec_parse(s2) is Some {
            assert(s2.skip(HEADER_SIZE as int) =~= s1.skip(HEADER_SIZE as int));
            assert(spec_buf_sum(s2) == spec_buf_sum(s1));
            assert(spec_stored_ck(s2) != spec_stored_ck(s1));
            assert(spec_buf_sum(s2) % 0x10000 != spec_parse(s2).unwrap().checksum);
        }
    } else {
        // A covered byte changes: the computed sum shifts by a nonzero
        // amount below 2^16, so it leaves the stored checksum's residue.
        if spec_parse(s2) is Some {
            let d: int = s2[i] - s1[i];
            assert(-256 < d < 256 && d != 0);
            if i == 0 {
                assert(s2.skip(HEADER_SIZE as int) =~= s1.skip(HEADER_SIZE as int));
                assert(spec_buf_sum(s2) == spec_buf_sum(s1) + d);
            } else {
                assert(s2[0] == s1[0] && s2[1] == s1[1] && s2[2] == s1[2]);
                lemma_sum_bytes_diff(s1.skip(HEADER_SIZE as int), s2.skip(HEADER_SIZE as int), i - HEADER_SIZE);
                assert(spec_buf_sum(s2) == spec_buf_sum(s1) + d);
            }
            lemma_mod_shift_ne(spec_buf_sum(s1), d);
            assert(spec_stored_ck(s2) == spec_stored_ck(s1));
            assert(spec_buf_sum(s2) % 0x10000 != spec_parse(s2).unwrap().checksum);
        }
    }
}

/// A verified frame's declared payload length always matches the bytes
/// actually present: nothing inconsistent is ever accepted.
pub proof fn lemma_verified_length_consistent(s: Seq<u8>)
    ensures
        spec_verify_frame(s) is Some ==> {
            &&& s.len() == HEADER_SIZE + spec_stored_len(s)
            &&& spec_verify_frame(s).unwrap().1.len() == spec_stored_len(s)
        },
{
}

/// A frame built by [`build_frame`] and so known well-formed before any
/// byte leaves the buffer.
pub struct VerifiedTxMsg {
    bytes: Vec<u8>,
    typ: MsgType,
}

impl View for VerifiedTxMsg {
    type V = Seq<u8>;

    closed spec fn view(&self) -> Seq<u8> {
        self.bytes@
    }
}

impl VerifiedTxMsg {
    /// The message kind this frame was built from.
    pub closed spec fn typ(&self) -> MsgType {
        self.typ
    }

    /// The payload bytes this frame carries.
    pub open spec fn payload_view(&self) -> Seq<u8> {
        self@.skip(HEADER_SIZE as int)
    }

    /// The frame is exactly the canonical encoding of its kind and payload.
    pub open spec fn wf(&self) -> bool {
        &&& self@.len() >= HEADER_SIZE
        &&& self.payload_view().len() <= MAX_PAYLOAD_SIZE
        &&& self@ == spec_frame_bytes(self.typ(), self.payload_view())
    }

    pub fn msg_type(&self) -> (r: MsgType)
        ensures
            r == self.typ(),
    {
        self.typ
    }

    pub fn len(&self) -> (r: usize)
        ensures
            r == self@.len(),
    {
        self.bytes.len()
    }

    pub fn as_slice(&self) -> (r: &[u8])
        ensures
            r@ == self@,
    {
        self.bytes.as_slice()
    }
}

/// A frame accepted by [`finish_verify`]: header parsed, length matched,
/// checksum matched.
pub struct VerifiedRxMsg {
    msgtype: MsgType,
    payload: Vec<u8>,
}

impl VerifiedRxMsg {
    /// The verified message kind.
    pub closed spec fn typ(&self) -> MsgType {
        self.msgtype
    }

    /// The payload bytes behind the verified header.
    pub closed spec fn payload_view(&self) -> Seq<u8> {
        self.payload@
    }

    pub fn msg_type(&self) -> (r: MsgType)
        ensures
            r == self.typ(),
    {
        self.msgtype
    }

    pub open spec fn wf(&self) -> bool {
        self.payload_view().len() <= MAX_PAYLOAD_SIZE
    }

    pub fn payload(&self) -> (r: &Vec<u8>)
        ensures
            r@ == self.payload_view(),
    {
        &self.payload
    }

    pub fn payload_len(&self) -> (r: usize)
        ensures
            r == self.payload_view().len(),
    {
        self.payload.len()
    }

    /// Consumes the frame, handing the payload to the caller.
    pub fn take_payload(self) -> (r: Vec<u8>)
        ensures
            r@ == self.payload_view(),
    {
        self.payload
    }
}

/// The checksum of a frame about to be built.
fn frame_checksum(t: MsgType, payload: &[u8]) -> (r: u16)
    requires
        payload@.len() <= MAX_PAYLOAD_SIZE,
    ensures
        r == spec_frame_ck(t, payload@),
{
    let tag: u8 = msg_tag(t);
    let len: u16 = payload.len() as u16;
    let lo: u8 = (len & 0xff) as u8;
    let hi: u8 = ((len >> 8) & 0xff) as u8;
    proof {
        lemma_sum_two(lo, hi);
    }
    let mut acc: u32 = tag as u32 + lo as u32 + hi as u32;
    let mut i: usize = 0;
    proof {
        assert(payload@.take(0) =~= Seq::<u8>::empty());
    }
    while i < payload.len()
        invariant
            i <= payload@.len(),
            payload@.len() <= MAX_PAYLOAD_SIZE,
            acc == spec_msg_tag(t) + sum_bytes(spec_le16(payload@.len() as u16))
                + sum_bytes(payload@.take(i as int)),
            acc <= 765 + 255 * i,
        decreases payload@.len() - i,
    {
        proof {
            lemma_sum_take_step(payload@, i as int);
            lemma_sum_bytes_bounds(payload@.take(i as int));
        }
        acc = acc + payload[i] as u32;
        i = i + 1;
    }
    proof {
        assert(payload@.take(payload@.len() as int) =~= payload@);
    }
    (acc % 0x10000) as u16
}

/// Builds the frame for `t` and `payload`: succeeds exactly when the
/// payload fits the capacity, and then the buffer is the canonical
/// encoding, checksum included, before any byte leaves it.
pub fn build_frame(t: MsgType, payload: &[u8]) -> (r: Result<VerifiedTxMsg, SprotError>)
    ensures
        payload@.len() <= MAX_PAYLOAD_SIZE ==> (r matches Ok(m)
            && m@ == spec_frame_bytes(t, payload@)
            && m@.len() == HEADER_SIZE + payload@.len()
            && m@.len() <= BUF_SIZE
            && m.typ() == t
            && m.payload_view() == payload@
            && m.wf()),
        payload@.len() > MAX_PAYLOAD_SIZE ==> r == Err::<VerifiedTxMsg, SprotError>(
            SprotError::BadMessageLength),
{
    if payload.len() > MAX_PAYLOAD_SIZE {
        return Err(SprotError::BadMessageLength);
    }
    let ck: u16 = frame_checksum(t, payload);
    let len: u16 = payload.len() as u16;
    let mut bytes: Vec<u8> = Vec::new();
    bytes.push(msg_tag(t));
    bytes.push((len & 0xff) as u8);
    bytes.push(((len >> 8) & 0xff) as u8);
    bytes.push((ck & 0xff) as u8);
    bytes.push(((ck >> 8) & 0xff) as u8);
    let ghost header: Seq<u8> = bytes@;
    let mut i: usize = 0;
    while i < payload.len()
        invariant
            i <= payload@.len(),
            bytes@ == header + payload@.take(i as int),
        decreases payload@.len() - i,
    {
        proof {
            assert(header + payload@.take(i as int + 1)
                =~= (header + payload@.take(i as int)).push(payload@[i as int]));
        }
        bytes.push(payload[i]);
        i = i + 1;
    }
    proof {
        assert(payload@.take(payload@.len() as int) =~= payload@);
        assert(bytes@ =~= spec_frame_bytes(t, payload@));
        assert(bytes@.skip(HEADER_SIZE as int) =~= payload@);
    }
    Ok(VerifiedTxMsg { bytes, typ: t })
}

/// Parses the header from the first bytes of `buf`, of which `n` have
/// arrived. Cheap, and callable before the payload is complete: it
/// checks the tag and the declared length, not the checksum.
pub fn parse_header(buf: &[u8], n: usize) -> (r: Result<MsgHeader, SprotError>)
    requires
        n <= buf@.len(),
    ensures
        r matches Ok(h) ==> spec_parse(buf@.take(n as int)) == Some(h),
        r matches Err(e) ==> e == SprotError::MalformedFrame
            && spec_parse(buf@.take(n as int)) is None,
{
    if n < HEADER_SIZE {
        return Err(SprotError::MalformedFrame);
    }
    match msg_of_tag(buf[0]) {
        Option::None => Err(SprotError::MalformedFrame),
        Option::Some(t) => {
            let len: u16 = buf[1] as u16 + (buf[2] as u16) * 0x100;
            if len as usize > MAX_PAYLOAD_SIZE {
                Err(SprotError::MalformedFrame)
            } else {
                let ck: u16 = buf[3] as u16 + (buf[4] as u16) * 0x100;
                Ok(MsgHeader { msgtype: t, payload_len: len, checksum: ck })
            }
        },
    }
}

/// Re-validates the completed buffer: header, declared length against
/// bytes available, and checksum. This repeats what [`parse_header`]
/// checked on purpose — every trust decision is localized here, and a
/// mismatch is always a framing error, never a panic.
pub fn finish_verify(buf: &[u8], n: usize) -> (r: Result<VerifiedRxMsg, SprotError>)
    requires
        n <= buf@.len(),
    ensures
        r matches Ok(m) ==> spec_verify_frame(buf@.take(n as int))
            == Some((m.typ(), m.payload_view())) && m.wf(),
        r matches Err(e) ==> e == SprotError::MalformedFrame
            && spec_verify_frame(buf@.take(n as int)) is None,
{
    let ghost s: Seq<u8> = buf@.take(n as int);
    let h: MsgHeader = match parse_header(buf, n) {
        Ok(h) => h,
        Err(e) => {
            return Err(e);
        },
    };
    if n != HEADER_SIZE + h.payload_len as usize {
        return Err(SprotError::MalformedFrame);
    }
    let mut acc: u32 = buf[0] as u32 + buf[1] as u32 + buf[2] as u32;
    let mut i: usize = HEADER_SIZE;
    proof {
        assert(s.skip(HEADER_SIZE as int).take(0) =~= Seq::<u8>::empty());
    }
    while i < n
        invariant
            HEADER_SIZE <= i <= n <= buf@.len(),
            n <= HEADER_SIZE + MAX_PAYLOAD_SIZE,
            s == buf@.take(n as int),
            acc == s[0] + s[1] + s[2]
                + sum_bytes(s.skip(HEADER_SIZE as int).take(i - HEADER_SIZE)),
            acc <= 765 + 255 * (i - HEADER_SIZE),
        decreases n - i,
    {
        proof {
            lemma_sum_take_step(s.skip(HEADER_SIZE as int), i - HEADER_SIZE);
            lemma_sum_bytes_bounds(s.skip(HEADER_SIZE as int).take(i - HEADER_SIZE));
            assert(s.skip(HEADER_SIZE as int)[i - HEADER_SIZE] == buf@[i as int]);
        }
        acc = acc + buf[i] as u32;
        i = i + 1;
    }
    proof {
        assert(s.skip(HEADER_SIZE as int).take(n - HEADER_SIZE) =~= s.skip(HEADER_SIZE as int));
        assert(acc == spec_buf_sum(s));
    }
    if acc % 0x10000 != h.checksum as u32 {
        return Err(SprotError::MalformedFrame);
    }
    let mut payload: Vec<u8> = Vec::new();
    let mut j: usize = HEADER_SIZE;
    while j < n
        invariant
            HEADER_SIZE <= j <= n <= buf@.len(),
            s == buf@.take(n as int),
            payload@ =~= s.skip(HEADER_SIZE as int).take(j - HEADER_SIZE),
        decreases n - j,
    {
        payload.push(buf[j]);
        proof {
            assert(payload@ =~= s.skip(HEADER_SIZE as int).take(j + 1 - HEADER_SIZE));
        }
        j = j + 1;
    }
    proof {
        assert(payload@ =~= s.skip(HEADER_SIZE as int));
    }
    Ok(VerifiedRxMsg { msgtype: h.msgtype, payload })
}

} // verus!
