//! The packet receiver: a fixed-capacity record of the data frames that arrived.
use vstd::prelude::*;
use crate::duration::SmallishDuration;
use crate::analyser::{analyse, analysis};
use crate::results::{with_session, ExperimentResults};
use vstd::slice::slice_subrange;
use crate::statement::MINPACKETSIZE;
use crate::wire::{be_u32, read_be_u32};

verus! {

/// One received data packet: its sequence number, the sender's timestamp and
/// the local arrival time, both in microseconds from the experiment start.
#[derive(Copy, Clone, Debug, PartialEq, Eq, Structural)]
pub struct Info {
    pub seqn: u32,
    pub st_us: u32,
    pub rt_us: u32,
}

/// What a receiver is built from. Times are microseconds of the local
/// monotonic clock.
#[derive(Debug, Clone, Copy)]
pub struct PacketReceiverParams {
    pub num_packets: u32,
    pub session_id: u64,
    pub experiment_start: u64,
}

/// Records the data packets of one direction of an experiment into an array
/// allocated whole up front.
#[derive(Debug)]
pub struct PacketReceiver {
    v: Vec<Info>,
    start: u64,
    session_id: u64,
    ctr: usize,
    cur_del_us: i64,
}

/// The exponentially smoothed delay after one more sample: four fifths of the
/// old estimate plus one fifth of the sample, rounded toward zero.
pub open spec fn smoothed(old: int, sample: int) -> int {
    let n = 4 * old + sample;
    if n >= 0 {
        n / 5
    } else {
        -((-n) / 5)
    }
}

/// Mathematical content of a receiver.
pub struct ReceiverModel {
    /// Records of the packets received so far, in arrival order.
    pub received: Seq<Info>,
    /// How many records the array holds.
    pub capacity: nat,
    /// The experiment start that arrival times are measured from.
    pub start: u64,
    pub session: u64,
    /// The smoothed delay estimate, in microseconds.
    pub estimate: int,
}

/// The receiver after a packet numbered `seqn`, sent at `st_us`, arrived at
/// `now`. The start moves back to `now` if `now` is earlier, so that arrival
/// times are never negative; arrival times count on a 32-bit microsecond
/// clock. A packet that finds the array full is dropped.
pub open spec fn recorded(m: ReceiverModel, seqn: u32, st_us: u32, now: u64) -> ReceiverModel {
    if m.received.len() >= m.capacity {
        m
    } else {
        let start = if m.start > now {
            now
        } else {
            m.start
        };
        let x = Info { seqn, st_us, rt_us: ((now - start) % 0x1_0000_0000) as u32 };
        ReceiverModel {
            received: m.received.push(x),
            start,
            estimate: smoothed(m.estimate, x.rt_us - x.st_us),
            ..m
        }
    }
}

impl PacketReceiver {
    pub closed spec fn wf(&self) -> bool {
        &&& self.ctr <= self.v@.len() <= u32::MAX
        &&& -0x1_0000_0000 <= self.cur_del_us <= 0x1_0000_0000
    }

    /// The records of the packets received so far, in arrival order.
    pub closed spec fn received(&self) -> Seq<Info> {
        self.v@.subrange(0, self.ctr as int)
    }

    /// How many packets the array holds.
    pub closed spec fn capacity(&self) -> nat {
        self.v@.len()
    }

    /// The experiment start that arrival times are measured from.
    pub closed spec fn start(&self) -> u64 {
        self.start
    }

    pub closed spec fn session(&self) -> u64 {
        self.session_id
    }

    /// The smoothed delay estimate, in microseconds.
    pub closed spec fn delay_estimate(&self) -> int {
        self.cur_del_us as int
    }

    pub fn new(prp: PacketReceiverParams) -> (r: PacketReceiver)
        ensures
            r.wf(),
            r.received() == Seq::<Info>::empty(),
            r.capacity() == prp.num_packets,
            r.start() == prp.experiment_start,
            r.session() == prp.session_id,
            r.delay_estimate() == 0,
    {
        let n = prp.num_packets as usize;
        let mut v: Vec<Info> = Vec::with_capacity(n);
        let mut i: usize = 0;
        while i < n
            invariant
                i <= n,
                v@.len() == i,
            decreases n - i,
        {
            v.push(Info { seqn: 0, st_us: 0, rt_us: 0 });
            i += 1;
        }
        let r = PacketReceiver {
            v,
            start: prp.experiment_start,
            session_id: prp.session_id,
            ctr: 0,
            cur_del_us: 0,
        };
        assert(r.received() =~= Seq::<Info>::empty());
        r
    }

    pub open spec fn model(&self) -> ReceiverModel {
        ReceiverModel {
            received: self.received(),
            capacity: self.capacity(),
            start: self.start(),
            session: self.session(),
            estimate: self.delay_estimate(),
        }
    }

    /// Records a packet with sequence number `seqn`, sent at `st_us`, that
    /// arrived at `now`.
    pub fn record(&mut self, seqn: u32, st_us: u32, now: u64)
        requires
            old(self).wf(),
        ensures
            final(self).wf(),
            final(self).model() == recorded(old(self).model(), seqn, st_us, now),
    {
        if self.ctr >= self.v.len() {
            return;
        }
        if self.start > now {
            self.start = now;
        }
        let rt_us = (now - self.start).as_us();
        let ghost old_v = self.v@;
        self.v.set(self.ctr, Info { rt_us, st_us, seqn });
        self.ctr = self.ctr + 1;
        assert(self.v@.subrange(0, self.ctr as int) =~= old_v.subrange(0, self.ctr - 1).push(
            Info { rt_us, st_us, seqn },
        ));
        self.cur_del_us = (4 * self.cur_del_us + (rt_us as i64 - st_us as i64)) / 5;
    }

    /// Records the data frame `pkt` that arrived at `now`.
    pub fn recv(&mut self, pkt: &[u8], now: u64)
        requires
            old(self).wf(),
            pkt@.len() >= MINPACKETSIZE,
        ensures
            final(self).wf(),
            final(self).model() == recorded(
                old(self).model(),
                be_u32(pkt@, 12) as u32,
                be_u32(pkt@, 16) as u32,
                now,
            ),
    {
        let seqn = read_be_u32(pkt, 12);
        let st_us = read_be_u32(pkt, 16);
        self.record(seqn, st_us, now);
    }

    /// The records of the packets received so far.
    pub fn records(&self) -> (r: &[Info])
        requires
            self.wf(),
        ensures
            r@ == self.received(),
    {
        slice_subrange(self.v.as_slice(), 0, self.ctr)
    }

    /// How many packets the array holds.
    pub fn num_packets(&self) -> (r: usize)
        ensures
            r == self.capacity(),
    {
        self.v.len()
    }

    /// Told that nothing arrived for a while; the estimate is kept as it is.
    pub fn no_packet_received(&mut self)
        ensures
            *final(self) == *old(self),
    {
    }

    /// The smoothed delay estimate, in microseconds (for observation only).
    pub fn current_delay(&self) -> (r: i64)
        ensures
            r as int == self.delay_estimate(),
    {
        self.cur_del_us
    }

    /// The sequence number of the packet that arrived last; zero before any.
    pub fn last_sqn(&self) -> (r: u32)
        requires
            self.wf(),
        ensures
            r == (if self.received().len() == 0 {
                0
            } else {
                self.received().last().seqn
            }),
    {
        if self.ctr == 0 {
            0
        } else {
            self.v[self.ctr - 1].seqn
        }
    }

    /// Analysis of the packets received so far, out of `capacity()` sent,
    /// stamped with the session id.
    pub fn analyse(&self) -> (r: ExperimentResults)
        requires
            self.wf(),
        ensures
            r.model() == with_session(
                analysis(self.received(), self.capacity() as int),
                self.session() as int,
            ),
    {
        let mut r = analyse(slice_subrange(self.v.as_slice(), 0, self.ctr), self.v.len());
        r.session_id = self.session_id;
        r
    }
}

} // verus!
