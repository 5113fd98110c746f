//! Framing of the UDP payloads that both peers exchange on one socket.
//!
//! Control frames start with the three tag bytes `d9 d9 f7`. Data frames hold
//! a big-endian sequence number at bytes 12..16 and a big-endian send
//! timestamp at bytes 16..20; their first bytes are zero, or the RTP header
//! bytes `80 64` in RTP-mimic mode.
use vstd::prelude::*;
use crate::statement::MINPACKETSIZE;

verus! {

/// The big-endian number held by the four bytes of `s` at `at`.
pub open spec fn be_u32(s: Seq<u8>, at: int) -> int {
    s[at] as int * 0x100_0000 + s[at + 1] as int * 0x1_0000 + s[at + 2] as int * 0x100 + s[at
        + 3] as int
}

/// The four big-endian bytes of `x`.
pub open spec fn be_bytes_u32(x: u32) -> Seq<u8> {
    seq![(x / 0x100_0000) as u8, (x / 0x1_0000 % 0x100) as u8, (x / 0x100 % 0x100) as u8, (x % 0x100) as u8]
}

/// Reads the big-endian number at `at`.
pub fn read_be_u32(s: &[u8], at: usize) -> (r: u32)
    requires
        at + 4 <= s@.len(),
    ensures
        r as int == be_u32(s@, at as int),
{
    let a = s[at] as u32;
    let b = s[at + 1] as u32;
    let c = s[at + 2] as u32;
    let d = s[at + 3] as u32;
    assert(a * 0x100_0000 + b * 0x1_0000 + c * 0x100 + d <= u32::MAX) by (nonlinear_arith)
        requires
            a < 256,
            b < 256,
            c < 256,
            d < 256,
    ;
    a * 0x100_0000 + b * 0x1_0000 + c * 0x100 + d
}

/// Writes `x` big-endian at `at`; the other bytes stay.
pub fn write_be_u32(buf: &mut Vec<u8>, at: usize, x: u32)
    requires
        at + 4 <= old(buf)@.len(),
    ensures
        final(buf)@.len() == old(buf)@.len(),
        final(buf)@.subrange(at as int, at + 4) == be_bytes_u32(x),
        forall|i: int|
            0 <= i < old(buf)@.len() && !(at <= i < at + 4) ==> final(buf)@[i] == old(buf)@[i],
        be_u32(final(buf)@, at as int) == x as int,
{
    let n = buf.len();
    assert(at + 4 <= n);
    let a1 = at + 1;
    let a2 = at + 2;
    let a3 = at + 3;
    buf.set(at, (x / 0x100_0000) as u8);
    buf.set(a1, (x / 0x1_0000 % 0x100) as u8);
    buf.set(a2, (x / 0x100 % 0x100) as u8);
    buf.set(a3, (x % 0x100) as u8);
    assert(final(buf)@.subrange(at as int, at + 4) =~= be_bytes_u32(x));
    let ghost a = x / 0x100_0000;
    let ghost b = x / 0x1_0000 % 0x100;
    let ghost c = x / 0x100 % 0x100;
    let ghost d = x % 0x100;
    assert(a * 0x100_0000 + b * 0x1_0000 + c * 0x100 + d == x) by (nonlinear_arith)
        requires
            a == x / 0x100_0000,
            b == x / 0x1_0000 % 0x100,
            c == x / 0x100 % 0x100,
            d == x % 0x100,
            0 <= x <= u32::MAX,
    ;
}

/// What an inbound payload is.
#[derive(Debug, PartialEq, Eq, Structural, Clone, Copy)]
pub enum FrameKind {
    /// A control frame, to be decoded.
    Control,
    /// A data frame with its sequence number and send timestamp.
    Data { seqn: u32, send_us: u32 },
    /// Too short or of unknown kind.
    Discard,
}

pub open spec fn has_control_tag(s: Seq<u8>) -> bool {
    s.len() >= 3 && s[0] == 0xd9 && s[1] == 0xd9 && s[2] == 0xf7
}

pub open spec fn has_data_tag(s: Seq<u8>) -> bool {
    ||| (s.len() >= 3 && s[0] == 0 && s[1] == 0 && s[2] == 0)
    ||| (s.len() >= 2 && s[0] == 0x80 && s[1] == 0x64)
}

pub open spec fn frame_kind(s: Seq<u8>) -> FrameKind {
    if s.len() < MINPACKETSIZE {
        FrameKind::Discard
    } else if has_control_tag(s) {
        FrameKind::Control
    } else if has_data_tag(s) {
        FrameKind::Data { seqn: be_u32(s, 12) as u32, send_us: be_u32(s, 16) as u32 }
    } else {
        FrameKind::Discard
    }
}

/// Tells control frames from data frames.
pub fn classify_frame(msg: &[u8]) -> (k: FrameKind)
    ensures
        k == frame_kind(msg@),
{
    if msg.len() < MINPACKETSIZE {
        return FrameKind::Discard;
    }
    if msg[0] == 0xd9 && msg[1] == 0xd9 && msg[2] == 0xf7 {
        return FrameKind::Control;
    }
    if (msg[0] == 0 && msg[1] == 0 && msg[2] == 0) || (msg[0] == 0x80 && msg[1] == 0x64) {
        return FrameKind::Data { seqn: read_be_u32(msg, 12), send_us: read_be_u32(msg, 16) };
    }
    FrameKind::Discard
}

/// The header bytes of a data frame that stay the same for every packet: all
/// zero, or in RTP-mimic mode the RTP version and payload type and, at 8..12,
/// the low 32 bits of the session id.
pub open spec fn frame_template_ok(f: Seq<u8>, size: int, rtpmimic: bool, session_id: u64) -> bool {
    &&& f.len() == size
    &&& forall|i: int| 20 <= i < size ==> f[i] == 0
    &&& if rtpmimic {
        &&& f[0] == 0x80 && f[1] == 0x64
        &&& be_u32(f, 8) == session_id as int % 0x1_0000_0000
    } else {
        forall|i: int| 0 <= i < 12 ==> f[i] == 0
    }
}

/// A zero-filled data frame of `size` bytes with the fixed header bytes set.
pub fn data_frame_template(size: usize, rtpmimic: bool, session_id: u64) -> (f: Vec<u8>)
    requires
        size >= MINPACKETSIZE,
    ensures
        frame_template_ok(f@, size as int, rtpmimic, session_id),
{
    let mut f: Vec<u8> = Vec::with_capacity(size);
    let mut i: usize = 0;
    while i < size
        invariant
            i <= size,
            f@.len() == i,
            forall|k: int| 0 <= k < i ==> f@[k] == 0,
        decreases size - i,
    {
        f.push(0);
        i += 1;
    }
    if rtpmimic {
        f.set(0, 0x80);
        f.set(1, 0x64);
        write_be_u32(&mut f, 8, (session_id % 0x1_0000_0000) as u32);
    }
    f
}

/// Writes the per-packet fields of a data frame: the sequence number and the
/// send timestamp, and in RTP-mimic mode the RTP sequence number (low 16
/// bits) and the RTP timestamp (`ts * 90 / 1000` on a 32-bit counter).
pub fn stamp_data_frame(f: &mut Vec<u8>, seqn: u32, ts: u32, rtpmimic: bool)
    requires
        old(f)@.len() >= MINPACKETSIZE,
    ensures
        final(f)@.len() == old(f)@.len(),
        be_u32(final(f)@, 12) == seqn as int,
        be_u32(final(f)@, 16) == ts as int,
        forall|i: int| 20 <= i < old(f)@.len() ==> final(f)@[i] == old(f)@[i],
        forall|i: int| 8 <= i < 12 ==> final(f)@[i] == old(f)@[i],
        !rtpmimic ==> forall|i: int| 0 <= i < 12 ==> final(f)@[i] == old(f)@[i],
        rtpmimic ==> {
            &&& final(f)@[0] == old(f)@[0] && final(f)@[1] == old(f)@[1]
            &&& final(f)@[2] as int * 0x100 + final(f)@[3] as int == seqn as int % 0x1_0000
            &&& be_u32(final(f)@, 4) == (ts as int * 90) % 0x1_0000_0000 / 1000
        },
{
    write_be_u32(f, 12, seqn);
    write_be_u32(f, 16, ts);
    if rtpmimic {
        let s16 = seqn % 0x1_0000;
        f.set(2, (s16 / 0x100) as u8);
        f.set(3, (s16 % 0x100) as u8);
        let rtp_ts = ts.wrapping_mul(90) / 1000;
        write_be_u32(f, 4, rtp_ts);
        assert(ts.wrapping_mul(90) as int == (ts as int * 90) % 0x1_0000_0000);
    }
}

/// A data frame is never taken for a control frame: whatever its mode, a
/// stamped frame reads back as data, with its sequence number and timestamp.
pub proof fn lemma_data_frame_reads_back(f: Seq<u8>, size: int, rtpmimic: bool, session_id: u64, g: Seq<u8>, seqn: u32, ts: u32)
    requires
        size >= MINPACKETSIZE,
        frame_template_ok(f, size, rtpmimic, session_id),
        g.len() == f.len(),
        be_u32(g, 12) == seqn as int,
        be_u32(g, 16) == ts as int,
        !rtpmimic ==> forall|i: int| 0 <= i < 12 ==> g[i] == f[i],
        rtpmimic ==> g[0] == f[0] && g[1] == f[1],
    ensures
        frame_kind(g) == (FrameKind::Data { seqn, send_us: ts }),
{
    if !rtpmimic {
        assert(g[0] == f[0] && g[1] == f[1] && g[2] == f[2]);
    }
}

} // verus!
