//! The packet sender's schedule: when each packet is due, which late packets
//! are dropped at the sending side, and what each data frame holds.
use vstd::prelude::*;
use crate::duration::SmallishDuration;
use crate::statement::MINPACKETSIZE;
use crate::wire::{be_u32, data_frame_template, frame_template_ok, stamp_data_frame};

verus! {

/// A packet more than this late (in microseconds) is dropped, not sent.
pub const MAX_LATENESS_US: u64 = 10_000;

/// What to do with one packet.
#[derive(Debug, PartialEq, Eq, Structural, Clone, Copy)]
pub enum SendDecision {
    /// Sleep until the given time, then send.
    SleepUntil(u64),
    /// Send at once: the packet is late, but not by much.
    SendNow,
    /// Drop the packet: it is too late.
    Drop,
}

/// Configuration of one sender. Times are microseconds of the local
/// monotonic clock.
#[derive(Debug, Clone, Copy)]
pub struct Sender {
    pub packetsize: usize,
    pub rtpmimic: bool,
    pub packetcount: u32,
    pub experiment_start: u64,
    pub delay_between_packets: u64,
    pub session_id: u64,
}

impl Sender {
    /// When packet `seqn` is due.
    pub open spec fn due(&self, seqn: u32) -> int {
        self.experiment_start + seqn * self.delay_between_packets
    }

    pub open spec fn decision(&self, seqn: u32, now: u64) -> SendDecision {
        if now <= self.due(seqn) {
            SendDecision::SleepUntil(self.due(seqn) as u64)
        } else if now - self.due(seqn) > MAX_LATENESS_US {
            SendDecision::Drop
        } else {
            SendDecision::SendNow
        }
    }

    /// The send timestamp of a packet sent at `now`: microseconds since the
    /// experiment start (zero before it) on a 32-bit counter.
    pub open spec fn timestamp(&self, now: u64) -> int {
        if now > self.experiment_start {
            (now - self.experiment_start) % 0x1_0000_0000
        } else {
            0
        }
    }

    /// The times of all packets fit the clock.
    pub open spec fn fits_clock(&self) -> bool {
        self.experiment_start + self.packetcount * self.delay_between_packets <= u64::MAX
    }

    /// What to do at `now` with packet `seqn`.
    pub fn decide(&self, seqn: u32, now: u64) -> (d: SendDecision)
        requires
            self.fits_clock(),
            seqn < self.packetcount,
        ensures
            d == self.decision(seqn, now),
    {
        assert(seqn * self.delay_between_packets <= self.packetcount * self.delay_between_packets)
            by (nonlinear_arith)
            requires
                seqn < self.packetcount,
        ;
        let t = self.experiment_start + seqn as u64 * self.delay_between_packets;
        if now <= t {
            SendDecision::SleepUntil(t)
        } else if now - t > MAX_LATENESS_US {
            SendDecision::Drop
        } else {
            SendDecision::SendNow
        }
    }

    /// The frame that every packet is written into.
    pub fn frame(&self) -> (f: Vec<u8>)
        requires
            self.packetsize >= MINPACKETSIZE,
        ensures
            frame_template_ok(f@, self.packetsize as int, self.rtpmimic, self.session_id),
    {
        data_frame_template(self.packetsize, self.rtpmimic, self.session_id)
    }

    /// Writes packet `seqn`, sent at `now`, into the frame: its timestamp
    /// counts from the experiment start (zero before it) on a 32-bit
    /// microsecond clock.
    pub fn stamp(&self, f: &mut Vec<u8>, seqn: u32, now: u64)
        requires
            frame_template_ok(old(f)@, self.packetsize as int, self.rtpmimic, self.session_id),
            self.packetsize >= MINPACKETSIZE,
        ensures
            frame_template_ok(final(f)@, self.packetsize as int, self.rtpmimic, self.session_id),
            be_u32(final(f)@, 12) == seqn as int,
            be_u32(final(f)@, 16) == self.timestamp(now),
            self.rtpmimic ==> {
                &&& final(f)@[2] as int * 0x100 + final(f)@[3] as int == seqn as int % 0x1_0000
                &&& be_u32(final(f)@, 4) == (self.timestamp(now) * 90) % 0x1_0000_0000 / 1000
            },
    {
        let ts: u32 = if now > self.experiment_start {
            (now - self.experiment_start).as_us()
        } else {
            0
        };
        stamp_data_frame(f, seqn, ts, self.rtpmimic);
    }
}

} // verus!
