//! What an experiment is: its parameters, its direction and the replies of the server.
use vstd::prelude::*;

verus! {

/// Smallest payload that can hold a data frame (its header is 20 bytes long).
pub const MINPACKETSIZE: usize = 20;

/// Which of the two peers sends data packets.
#[derive(Debug, PartialEq, Eq, Structural, Clone, Copy)]
pub enum ExperimentDirection {
    ToServerOnly,
    FromServerOnly,
    Bidirectional,
}

impl ExperimentDirection {
    pub open spec fn server_sends(self) -> bool {
        !(self is ToServerOnly)
    }

    pub open spec fn client_sends(self) -> bool {
        !(self is FromServerOnly)
    }

    pub fn server_needs_sender(&self) -> (r: bool)
        ensures
            r == self.server_sends(),
    {
        match self {
            ExperimentDirection::ToServerOnly => false,
            _ => true,
        }
    }

    pub fn client_needs_sender(&self) -> (r: bool)
        ensures
            r == self.client_sends(),
    {
        match self {
            ExperimentDirection::FromServerOnly => false,
            _ => true,
        }
    }

    /// The server receives exactly what the client sends.
    pub fn server_needs_receiver(&self) -> (r: bool)
        ensures
            r == self.client_sends(),
    {
        self.client_needs_sender()
    }

    /// The client receives exactly what the server sends.
    pub fn client_needs_receiver(&self) -> (r: bool)
        ensures
            r == self.server_sends(),
    {
        self.server_needs_sender()
    }
}

/// Negotiated parameters of one experiment, which also identify it.
#[derive(Debug, Clone, Copy)]
pub struct ExperimentInfo {
    /// Packet size, in bytes.
    pub packetsize: u32,
    /// Delay between two successive packets, in microseconds.
    pub packetdelay_us: u64,
    /// Number of packets to send in each direction.
    pub totalpackets: u32,
    pub direction: ExperimentDirection,
    /// Make data packets look like RTP.
    pub rtpmimic: bool,
    /// Issued by the server, echoed by the probe; zero before it is issued.
    pub session_id: u64,
    /// Warm-up time before the first packet, in microseconds.
    pub pending_start_in_microseconds: u32,
}

/// Two requests describe the same experiment when they agree on everything
/// but the warm-up countdown.
pub open spec fn same_experiment(a: ExperimentInfo, b: ExperimentInfo) -> bool {
    &&& a.packetsize == b.packetsize
    &&& a.packetdelay_us == b.packetdelay_us
    &&& a.totalpackets == b.totalpackets
    &&& a.direction == b.direction
    &&& a.rtpmimic == b.rtpmimic
    &&& a.session_id == b.session_id
}

impl PartialEq for ExperimentInfo {
    fn eq(&self, o: &ExperimentInfo) -> (r: bool) {
        self.packetsize == o.packetsize && self.packetdelay_us == o.packetdelay_us
            && self.totalpackets == o.totalpackets && self.direction == o.direction
            && self.rtpmimic == o.rtpmimic && self.session_id == o.session_id
    }
}

impl vstd::std_specs::cmp::PartialEqSpecImpl for ExperimentInfo {
    open spec fn obeys_eq_spec() -> bool {
        true
    }

    open spec fn eq_spec(&self, o: &ExperimentInfo) -> bool {
        same_experiment(*self, *o)
    }
}

/// Largest accepted packet size, in bytes.
pub const MAXPACKETSIZE: u32 = 10000;
/// Largest accepted number of packets.
pub const MAXTOTALPACKETS: u32 = 10_000_000;
/// Largest accepted delay between packets, in microseconds.
pub const MAXPACKETDELAY_US: u64 = 60_000_000;
/// Largest accepted warm-up time, in microseconds.
pub const MAXPENDINGSTART_US: u32 = 5_000_000;

/// Limits that a server puts on the experiments it accepts.
#[derive(Debug, Clone, Copy)]
pub struct ServerLimits {
    /// Longest experiment, in seconds.
    pub timelimit: u32,
    /// Highest bit rate, in kilobits per second.
    pub bwlimit: u32,
    /// Shortest delay between packets, in microseconds.
    pub min_packetdelay_us: u64,
}

/// Why a request was refused.
#[derive(Debug, PartialEq, Eq, Structural, Clone, Copy)]
pub enum LimitViolation {
    ZeroPacketDelay,
    PacketDelayTooLow,
    TooManyPackets,
    PacketDelayTooBig,
    InvalidPacketSize,
    PendingStartTooLate,
    DurationTooLong,
    BandwidthLimit,
}

pub open spec fn violation_text(v: LimitViolation) -> Seq<char> {
    match v {
        LimitViolation::ZeroPacketDelay => "zero packet delay"@,
        LimitViolation::PacketDelayTooLow => "packetdelay too low"@,
        LimitViolation::TooManyPackets => "total packets too big"@,
        LimitViolation::PacketDelayTooBig => "packet delay too big"@,
        LimitViolation::InvalidPacketSize => "invalid packetsize"@,
        LimitViolation::PendingStartTooLate => "pending start too late"@,
        LimitViolation::DurationTooLong => "duration too long"@,
        LimitViolation::BandwidthLimit => "bwlimit"@,
    }
}

impl LimitViolation {
    /// The message that a `ResourceLimits` reply carries.
    pub fn message(&self) -> (s: &'static str)
        ensures
            s@ == violation_text(*self),
    {
        match self {
            LimitViolation::ZeroPacketDelay => "zero packet delay",
            LimitViolation::PacketDelayTooLow => "packetdelay too low",
            LimitViolation::TooManyPackets => "total packets too big",
            LimitViolation::PacketDelayTooBig => "packet delay too big",
            LimitViolation::InvalidPacketSize => "invalid packetsize",
            LimitViolation::PendingStartTooLate => "pending start too late",
            LimitViolation::DurationTooLong => "duration too long",
            LimitViolation::BandwidthLimit => "bwlimit",
        }
    }
}

/// Length of the experiment in microseconds: one delay per packet.
pub open spec fn duration_us(e: ExperimentInfo) -> int {
    e.packetdelay_us as int * e.totalpackets as int
}

/// Bytes per packet on the wire: 32 bytes of IP and UDP headers are added and
/// the frame is at least 64 bytes long.
pub open spec fn effective_packet_size(e: ExperimentInfo) -> int {
    if e.packetsize as int + 32 > 64 {
        e.packetsize as int + 32
    } else {
        64
    }
}

/// Bit rate in kilobits per second, rounded down; it saturates at `u32::MAX`
/// (which a zero delay gives).
pub open spec fn kbps_of(e: ExperimentInfo) -> int {
    if e.packetdelay_us == 0 {
        u32::MAX as int
    } else {
        let k = effective_packet_size(e) * 8000 / e.packetdelay_us as int;
        if k > u32::MAX as int {
            u32::MAX as int
        } else {
            k
        }
    }
}

/// The first limit that a request breaks, in the order the server tests them.
pub open spec fn first_violation(e: ExperimentInfo, l: ServerLimits) -> Option<LimitViolation> {
    if e.packetdelay_us == 0 {
        Some(LimitViolation::ZeroPacketDelay)
    } else if e.packetdelay_us < l.min_packetdelay_us {
        Some(LimitViolation::PacketDelayTooLow)
    } else if e.totalpackets > MAXTOTALPACKETS {
        Some(LimitViolation::TooManyPackets)
    } else if e.packetdelay_us > MAXPACKETDELAY_US {
        Some(LimitViolation::PacketDelayTooBig)
    } else if e.packetsize < MINPACKETSIZE as u32 || e.packetsize > MAXPACKETSIZE {
        Some(LimitViolation::InvalidPacketSize)
    } else if e.pending_start_in_microseconds > MAXPENDINGSTART_US {
        Some(LimitViolation::PendingStartTooLate)
    } else if duration_us(e) > l.timelimit as int * 1_000_000 {
        Some(LimitViolation::DurationTooLong)
    } else if kbps_of(e) > l.bwlimit as int {
        Some(LimitViolation::BandwidthLimit)
    } else {
        None
    }
}

impl ExperimentInfo {
    /// Length of the experiment, in microseconds.
    pub fn duration(&self) -> (r: u128)
        ensures
            r as int == duration_us(*self),
    {
        assert(self.packetdelay_us as int * self.totalpackets as int <= u64::MAX as int * u32::MAX as int) by (nonlinear_arith);
        self.packetdelay_us as u128 * self.totalpackets as u128
    }

    /// Bit rate of one direction, in kilobits per second.
    pub fn kbps(&self) -> (r: u32)
        ensures
            r as int == kbps_of(*self),
    {
        if self.packetdelay_us == 0 {
            return u32::MAX;
        }
        let ps: u64 = self.packetsize as u64 + 32;
        let eps: u64 = if ps > 64 { ps } else { 64 };
        assert(eps as int * 8000 <= (u32::MAX as int + 32) * 8000) by (nonlinear_arith)
            requires eps <= u32::MAX as int + 32;
        let k: u64 = eps * 8000 / self.packetdelay_us;
        if k > u32::MAX as u64 {
            u32::MAX
        } else {
            k as u32
        }
    }

    /// Bytes that one direction of the experiment carries, 24 bytes of
    /// overhead counted per packet.
    pub fn bytes_used(&self) -> (r: u32)
        requires
            self.totalpackets as int * (self.packetsize as int + 24) <= u32::MAX as int,
        ensures
            r as int == self.totalpackets as int * (self.packetsize as int + 24),
    {
        let per_packet: u64 = self.packetsize as u64 + 24;
        assert(self.totalpackets as int * per_packet as int <= u32::MAX as int);
        (self.totalpackets as u64 * per_packet) as u32
    }

    /// Tests the request against the server's limits; the error is the first
    /// limit broken.
    pub fn check_limits(&self, limits: &ServerLimits) -> (r: Result<(), LimitViolation>)
        ensures
            r matches Err(v) ==> first_violation(*self, *limits) == Some(v),
            r is Ok <==> first_violation(*self, *limits) is None,
    {
        if self.packetdelay_us == 0 {
            return Err(LimitViolation::ZeroPacketDelay);
        }
        if self.packetdelay_us < limits.min_packetdelay_us {
            return Err(LimitViolation::PacketDelayTooLow);
        }
        if self.totalpackets > MAXTOTALPACKETS {
            return Err(LimitViolation::TooManyPackets);
        }
        if self.packetdelay_us > MAXPACKETDELAY_US {
            return Err(LimitViolation::PacketDelayTooBig);
        }
        if self.packetsize < MINPACKETSIZE as u32 || self.packetsize > MAXPACKETSIZE {
            return Err(LimitViolation::InvalidPacketSize);
        }
        if self.pending_start_in_microseconds > MAXPENDINGSTART_US {
            return Err(LimitViolation::PendingStartTooLate);
        }
        if self.duration() > limits.timelimit as u128 * 1_000_000 {
            return Err(LimitViolation::DurationTooLong);
        }
        if self.kbps() > limits.bwlimit {
            return Err(LimitViolation::BandwidthLimit);
        }
        Ok(())
    }
}

/// What the server answers to a control frame. `S` is the results payload:
/// the server's own analysis, or whatever stands for it on the receiving side.
#[derive(Debug)]
pub enum ExperimentReply<S> {
    /// The experiment is accepted and starts after the warm-up time.
    Accepted { session_id: u64, remaining_warmup_time_us: u32 },
    /// The experiment is already running; the results come later.
    IsOngoing { session_id: u64, elapsed_time_us: u32 },
    /// The server is busy with another peer.
    Busy,
    /// The parameters are too aggressive.
    ResourceLimits { msg: String },
    /// The request must be sent again with this session id (a deterrent
    /// against spoofed source addresses).
    RetryWithASessionId { session_id: u64 },
    /// Final results; `None` where that side was not part of the experiment.
    HereAreResults { stats: Option<S>, send_lost: Option<u32> },
    /// The server failed.
    Failed { msg: String },
}

/// A request of the probe.
#[derive(Debug, Clone, Copy)]
pub struct ClientToServer {
    pub experiment: ExperimentInfo,
    pub api_version: u32,
    /// Incremented by the probe on every request, echoed by the server.
    pub seqn_for_rtt: u32,
}

/// An answer of the server.
#[derive(Debug)]
pub struct ServerToClient<S> {
    pub reply: ExperimentReply<S>,
    pub api_version: u32,
    pub seqn_for_rtt: u32,
}

impl ClientToServer {
    /// A request for `experiment` under this protocol version.
    pub fn new(experiment: ExperimentInfo, seqn_for_rtt: u32) -> (r: ClientToServer)
        ensures
            r.experiment == experiment,
            r.api_version == crate::API_VERSION,
            r.seqn_for_rtt == seqn_for_rtt,
    {
        ClientToServer { experiment, api_version: crate::API_VERSION, seqn_for_rtt }
    }
}

impl<S> ServerToClient<S> {
    /// An answer carrying `reply` under this protocol version.
    pub fn new(reply: ExperimentReply<S>, seqn_for_rtt: u32) -> (r: ServerToClient<S>)
        ensures
            r.reply == reply,
            r.api_version == crate::API_VERSION,
            r.seqn_for_rtt == seqn_for_rtt,
    {
        ServerToClient { reply, api_version: crate::API_VERSION, seqn_for_rtt }
    }
}

/// A peer's UDP address: an IPv4 address is held in the low 32 bits of `ip`.
#[derive(Debug, PartialEq, Eq, Structural, Clone, Copy)]
pub struct PeerAddr {
    pub ip: u128,
    pub port: u16,
    pub v6: bool,
}

} // verus!
