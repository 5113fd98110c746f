use netmeasure2::probe::{Probe, ProbeError, ProbePhase};
use netmeasure2::statement::{ExperimentDirection, ExperimentInfo, ExperimentReply, ServerToClient};
use netmeasure2::API_VERSION;

fn info() -> ExperimentInfo {
    ExperimentInfo {
        packetsize: 120,
        packetdelay_us: 10_000,
        totalpackets: 100,
        direction: ExperimentDirection::Bidirectional,
        rtpmimic: false,
        session_id: 0,
        pending_start_in_microseconds: 2_000_000,
    }
}

fn answer(reply: ExperimentReply<u64>, seqn: u32) -> ServerToClient<u64> {
    ServerToClient::new(reply, seqn)
}

#[test]
fn negotiation_then_results() {
    let mut p = Probe::new(info(), 0);
    assert_eq!(p.start, 2_000_000);
    assert_eq!(p.end, 4_000_000);
    let rq = p.next_request(500_000).unwrap();
    assert_eq!(rq.seqn_for_rtt, 1);
    assert_eq!(rq.api_version, API_VERSION);
    assert_eq!(rq.experiment.pending_start_in_microseconds, 1_500_000);
    let r = p.on_reply(&answer(ExperimentReply::RetryWithASessionId { session_id: 42 }, 1), 500_400);
    assert_eq!(r, Ok(false));
    assert_eq!(p.experiment.session_id, 42);
    let rq = p.next_request(600_000).unwrap();
    assert_eq!(rq.experiment.session_id, 42);
    assert_eq!(rq.seqn_for_rtt, 2);
    let acc = ExperimentReply::Accepted { session_id: 42, remaining_warmup_time_us: 1_399_000 };
    assert_eq!(p.on_reply(&answer(acc, 2), 600_600), Ok(true));
    assert_eq!(p.phase, ProbePhase::Running { receiver_start: 1_999_600 });
    // round trips of 400 and 600 us
    assert_eq!(p.rtt_us(), 500);
    // echoes of the acceptance are ignored
    let ongoing = ExperimentReply::IsOngoing { session_id: 42, elapsed_time_us: 5 };
    assert_eq!(p.on_reply(&answer(ongoing, 2), 700_000), Ok(false));
    // the results are asked for after the end
    assert_eq!(p.poll(4_000_000, Some(99), 15_000_000), Ok(false));
    assert_eq!(p.poll(4_000_001, Some(99), 15_000_000), Ok(true));
    assert!(p.request_results);
    let done = ExperimentReply::HereAreResults { stats: Some(42), send_lost: Some(3) };
    assert_eq!(p.on_reply(&answer(done, 2), 4_100_000), Ok(true));
    assert_eq!(p.phase, ProbePhase::Done { send_lost: Some(3) });
}

#[test]
fn negotiation_failures() {
    let mut p = Probe::new(info(), 0);
    assert_eq!(p.next_request(2_000_001).unwrap_err(), ProbeError::Timeout);
    p.next_request(0).unwrap();
    assert_eq!(p.on_reply(&answer(ExperimentReply::Busy, 1), 10), Err(ProbeError::Busy));
    let limits = ExperimentReply::ResourceLimits { msg: "bwlimit".to_string() };
    assert_eq!(p.on_reply(&answer(limits, 1), 10), Err(ProbeError::ParametersOutOfRange));
    let failed = ExperimentReply::Failed { msg: "x".to_string() };
    assert_eq!(p.on_reply(&answer(failed, 1), 10), Err(ProbeError::ServerFailed));
    let early = ExperimentReply::HereAreResults { stats: None, send_lost: None };
    assert_eq!(p.on_reply(&answer(early, 1), 10), Err(ProbeError::ProtocolViolation));
    let wrong = ExperimentReply::Accepted { session_id: 9, remaining_warmup_time_us: 0 };
    assert_eq!(p.on_reply(&answer(wrong, 1), 10), Err(ProbeError::ProtocolViolation));
    let mut old = answer(ExperimentReply::Busy, 1);
    old.api_version = API_VERSION + 1;
    assert_eq!(p.on_reply(&old, 10), Err(ProbeError::WrongApiVersion));
    assert_eq!(p.phase, ProbePhase::Negotiating);
    assert_eq!(ProbeError::Busy.message(), "Server busy");
}

#[test]
fn ongoing_reply_anchors_the_receiver_in_the_past() {
    let mut p = Probe::new(info(), 0);
    p.next_request(100).unwrap();
    let ongoing = ExperimentReply::IsOngoing { session_id: 0, elapsed_time_us: 300 };
    assert_eq!(p.on_reply(&answer(ongoing, 1), 1_000), Ok(true));
    assert_eq!(p.phase, ProbePhase::Running { receiver_start: 700 });
}

#[test]
fn results_with_a_foreign_session_are_refused() {
    let mut p = Probe::new(info(), 0);
    p.next_request(0).unwrap();
    let acc = ExperimentReply::Accepted { session_id: 0, remaining_warmup_time_us: 0 };
    p.on_reply(&answer(acc, 1), 0).unwrap();
    let wrong = ExperimentReply::HereAreResults { stats: Some(8), send_lost: None };
    assert_eq!(p.on_reply(&answer(wrong, 1), 5), Err(ProbeError::ProtocolViolation));
}

#[test]
fn late_packets_extend_the_wait_and_results_time_out() {
    let mut p = Probe::new(info(), 0);
    p.next_request(0).unwrap();
    let acc = ExperimentReply::Accepted { session_id: 0, remaining_warmup_time_us: 0 };
    p.on_reply(&answer(acc, 1), 0).unwrap();
    // more than four packets missing: ten more seconds
    assert_eq!(p.poll(5_000_000, Some(50), 15_000_000), Ok(false));
    assert_eq!(p.poll(14_000_001, Some(50), 15_000_000), Ok(true));
    assert_eq!(p.asked_at, 14_000_001);
    assert_eq!(p.poll(29_000_001, Some(50), 15_000_000), Ok(false));
    assert_eq!(p.poll(29_000_002, Some(50), 15_000_000), Err(ProbeError::ResultsTimeout));
}

#[test]
fn rtt_without_answers_is_zero() {
    let mut p = Probe::new(info(), 0);
    p.next_request(0).unwrap();
    assert_eq!(p.rtt_us(), 0);
}
