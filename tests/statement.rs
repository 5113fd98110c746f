use netmeasure2::statement::{
    ExperimentDirection, ExperimentInfo, LimitViolation, ServerLimits, MINPACKETSIZE,
};

fn info() -> ExperimentInfo {
    ExperimentInfo {
        packetsize: 120,
        packetdelay_us: 10_000,
        totalpackets: 1000,
        direction: ExperimentDirection::Bidirectional,
        rtpmimic: false,
        session_id: 0,
        pending_start_in_microseconds: 2_000_000,
    }
}

fn limits() -> ServerLimits {
    ServerLimits { timelimit: 30, bwlimit: 50_000, min_packetdelay_us: 200 }
}

#[test]
fn directions_say_who_sends() {
    let (to_server, from_server, both) = (
        ExperimentDirection::ToServerOnly,
        ExperimentDirection::FromServerOnly,
        ExperimentDirection::Bidirectional,
    );
    assert!(!to_server.server_needs_sender());
    assert!(to_server.client_needs_sender());
    assert!(to_server.server_needs_receiver());
    assert!(!to_server.client_needs_receiver());
    assert!(from_server.server_needs_sender());
    assert!(!from_server.client_needs_sender());
    assert!(!from_server.server_needs_receiver());
    assert!(from_server.client_needs_receiver());
    assert!(both.server_needs_sender() && both.client_needs_sender());
    assert!(both.server_needs_receiver() && both.client_needs_receiver());
}

#[test]
fn kbps_adds_headers_and_rounds_small_frames_up() {
    // (120 + 32) bytes * 8 bits * 100 packets per second = 121.6 kbit/s
    assert_eq!(info().kbps(), 121);
    let small = ExperimentInfo { packetsize: 20, packetdelay_us: 1000, ..info() };
    // 64 bytes * 8 bits * 1000 packets per second = 512 kbit/s
    assert_eq!(small.kbps(), 512);
    let zero = ExperimentInfo { packetdelay_us: 0, ..info() };
    assert_eq!(zero.kbps(), u32::MAX);
}

#[test]
fn duration_and_bytes() {
    assert_eq!(info().duration(), 10_000_000);
    assert_eq!(info().bytes_used(), 1000 * 144);
}

#[test]
fn equality_ignores_warmup_only() {
    let a = info();
    let b = ExperimentInfo { pending_start_in_microseconds: 17, ..info() };
    assert!(a == b);
    let c = ExperimentInfo { session_id: 5, ..info() };
    assert!(a != c);
    let d = ExperimentInfo { rtpmimic: true, ..info() };
    assert!(a != d);
}

#[test]
fn limits_accept_default_request() {
    assert_eq!(info().check_limits(&limits()), Ok(()));
}

#[test]
fn zero_packet_delay_is_refused() {
    let e = ExperimentInfo { packetdelay_us: 0, ..info() };
    assert_eq!(e.check_limits(&limits()), Err(LimitViolation::ZeroPacketDelay));
    assert_eq!(LimitViolation::ZeroPacketDelay.message(), "zero packet delay");
}

#[test]
fn packet_size_below_minimum_is_refused() {
    let e = ExperimentInfo { packetsize: MINPACKETSIZE as u32 - 1, ..info() };
    assert_eq!(e.check_limits(&limits()), Err(LimitViolation::InvalidPacketSize));
    let e = ExperimentInfo { packetsize: 10_001, ..info() };
    assert_eq!(e.check_limits(&limits()), Err(LimitViolation::InvalidPacketSize));
}

#[test]
fn too_many_packets_are_refused() {
    let e = ExperimentInfo { totalpackets: 10_000_001, ..info() };
    assert_eq!(e.check_limits(&limits()), Err(LimitViolation::TooManyPackets));
    assert_eq!(LimitViolation::TooManyPackets.message(), "total packets too big");
}

#[test]
fn too_long_duration_is_refused() {
    // 3001 packets 10 ms apart last 30.01 s
    let e = ExperimentInfo { totalpackets: 3001, ..info() };
    let r = e.check_limits(&limits());
    assert_eq!(r, Err(LimitViolation::DurationTooLong));
    assert_eq!(r.unwrap_err().message(), "duration too long");
    let e = ExperimentInfo { totalpackets: 3000, ..info() };
    assert_eq!(e.check_limits(&limits()), Ok(()));
}

#[test]
fn too_high_bit_rate_is_refused() {
    let l = ServerLimits { bwlimit: 120, ..limits() };
    let r = info().check_limits(&l);
    assert_eq!(r, Err(LimitViolation::BandwidthLimit));
    assert_eq!(r.unwrap_err().message(), "bwlimit");
    let l = ServerLimits { bwlimit: 121, ..limits() };
    assert_eq!(info().check_limits(&l), Ok(()));
}

#[test]
fn other_limits_are_refused() {
    let e = ExperimentInfo { packetdelay_us: 199, ..info() };
    assert_eq!(e.check_limits(&limits()), Err(LimitViolation::PacketDelayTooLow));
    let e = ExperimentInfo { packetdelay_us: 60_000_001, totalpackets: 0, ..info() };
    assert_eq!(e.check_limits(&limits()), Err(LimitViolation::PacketDelayTooBig));
    let e = ExperimentInfo { pending_start_in_microseconds: 5_000_001, ..info() };
    assert_eq!(e.check_limits(&limits()), Err(LimitViolation::PendingStartTooLate));
    assert_eq!(LimitViolation::PacketDelayTooLow.message(), "packetdelay too low");
    assert_eq!(LimitViolation::PacketDelayTooBig.message(), "packet delay too big");
    assert_eq!(LimitViolation::InvalidPacketSize.message(), "invalid packetsize");
    assert_eq!(LimitViolation::PendingStartTooLate.message(), "pending start too late");
}
