use netmeasure2::serve::{Inbound, ServerOutput, State};
use netmeasure2::statement::{
    ClientToServer, ExperimentDirection, ExperimentInfo, ExperimentReply, PeerAddr, ServerLimits,
};
use netmeasure2::API_VERSION;

fn info(sid: u64) -> ExperimentInfo {
    ExperimentInfo {
        packetsize: 120,
        packetdelay_us: 10_000,
        totalpackets: 100,
        direction: ExperimentDirection::Bidirectional,
        rtpmimic: false,
        session_id: sid,
        pending_start_in_microseconds: 2_000_000,
    }
}

fn limits() -> ServerLimits {
    ServerLimits { timelimit: 30, bwlimit: 50_000, min_packetdelay_us: 200 }
}

fn peer(port: u16) -> PeerAddr {
    PeerAddr { ip: 0x7f00_0001, port, v6: false }
}

fn request(sid: u64, seqn: u32) -> Inbound {
    Inbound::Control(ClientToServer::new(info(sid), seqn))
}

fn reply(o: &ServerOutput) -> &ExperimentReply<netmeasure2::results::ExperimentResults> {
    &o.reply.as_ref().unwrap().1.reply
}

fn is_ongoing(s: &State) -> bool {
    matches!(s, State::ExperimentIsOngoing(_))
}

/// Runs the handshake and returns the issued session id.
fn start(st: &mut State, now: u64) -> u64 {
    let o = st.handle(peer(1), &request(0, 1), now, 0xabc, &limits());
    let sid = match reply(&o) {
        ExperimentReply::RetryWithASessionId { session_id } => *session_id,
        _ => panic!("expected a session id"),
    };
    let o = st.handle(peer(1), &request(sid, 2), now, 0xdef, &limits());
    assert!(o.started);
    sid
}

#[test]
fn lost_session_id_reply_is_reissued_unchanged() {
    let mut st = State::new();
    let o1 = st.handle(peer(1), &request(0, 1), 0, 0xabc, &limits());
    let o2 = st.handle(peer(1), &request(0, 2), 10, 0x999, &limits());
    let sid1 = match reply(&o1) {
        ExperimentReply::RetryWithASessionId { session_id } => *session_id,
        _ => panic!(),
    };
    let sid2 = match reply(&o2) {
        ExperimentReply::RetryWithASessionId { session_id } => *session_id,
        _ => panic!(),
    };
    assert_eq!(sid1, 0xabc);
    assert_eq!(sid1, sid2);
    assert!(!is_ongoing(&st));
    assert_eq!(o2.reply.as_ref().unwrap().1.seqn_for_rtt, 2);
    let o3 = st.handle(peer(1), &request(sid1, 3), 20, 0x777, &limits());
    assert!(o3.started);
    assert!(is_ongoing(&st));
    match reply(&o3) {
        ExperimentReply::Accepted { session_id, remaining_warmup_time_us } => {
            assert_eq!(*session_id, sid1);
            assert_eq!(*remaining_warmup_time_us, 2_000_000);
        }
        _ => panic!(),
    }
    // the same request again: not a second start
    let o4 = st.handle(peer(1), &request(sid1, 4), 1_000_020, 0, &limits());
    assert!(!o4.started);
    match reply(&o4) {
        ExperimentReply::Accepted { remaining_warmup_time_us, .. } => {
            assert_eq!(*remaining_warmup_time_us, 1_000_000)
        }
        _ => panic!(),
    }
    let o5 = st.handle(peer(1), &request(sid1, 5), 2_500_020, 0, &limits());
    match reply(&o5) {
        ExperimentReply::IsOngoing { elapsed_time_us, .. } => assert_eq!(*elapsed_time_us, 500_000),
        _ => panic!(),
    }
}

#[test]
fn zero_draw_gives_nonzero_session_id() {
    let mut st = State::new();
    let o = st.handle(peer(1), &request(0, 1), 0, 0, &limits());
    match reply(&o) {
        ExperimentReply::RetryWithASessionId { session_id } => assert_eq!(*session_id, 1),
        _ => panic!(),
    }
}

#[test]
fn results_are_redelivered_identically() {
    let mut st = State::new();
    let sid = start(&mut st, 0);
    // data frames for the server's receiver
    for i in 0..100u32 {
        let o = st.handle(
            peer(1),
            &Inbound::Data { seqn: i, send_us: i * 10_000 },
            2_000_000 + i as u64 * 10_000 + 3_000,
            0,
            &limits(),
        );
        assert!(o.reply.is_none());
    }
    assert!(st.tick(3_000_001));
    st.complete_experiment(Some(3));
    assert!(!is_ongoing(&st));
    let o1 = st.handle(peer(1), &request(sid, 9), 5_000_000, 1, &limits());
    let o2 = st.handle(peer(1), &request(sid, 9), 6_000_000, 2, &limits());
    let (s1, l1) = match reply(&o1) {
        ExperimentReply::HereAreResults { stats, send_lost } => (stats.as_ref().unwrap(), *send_lost),
        _ => panic!(),
    };
    let (s2, l2) = match reply(&o2) {
        ExperimentReply::HereAreResults { stats, send_lost } => (stats.as_ref().unwrap(), *send_lost),
        _ => panic!(),
    };
    assert_eq!(l1, Some(3));
    assert_eq!(l1, l2);
    assert_eq!(s1.session_id, sid);
    assert_eq!(s1.total_received_packets, 100);
    assert_eq!(s1.delay_model.delay_sum_ms, 300);
    assert_eq!(s1.loss_model.loss, s2.loss_model.loss);
    assert_eq!(s1.loss_model.nonloss, s2.loss_model.nonloss);
    assert_eq!(s1.delay_model.value_popularity, s2.delay_model.value_popularity);
    assert_eq!(s1.delay_model.delta_noloss, s2.delay_model.delta_noloss);
    assert_eq!(s1.delay_model.delay_sum_ms, s2.delay_model.delay_sum_ms);
}

#[test]
fn second_peer_gets_busy() {
    let mut st = State::new();
    let sid = start(&mut st, 0);
    st.handle(peer(1), &Inbound::Data { seqn: 0, send_us: 0 }, 2_001_000, 0, &limits());
    let o = st.handle(peer(2), &request(0, 1), 2_002_000, 5, &limits());
    assert!(matches!(reply(&o), ExperimentReply::Busy));
    assert_eq!(o.reply.as_ref().unwrap().0, peer(2));
    // the stranger's data is never recorded
    let o = st.handle(peer(2), &Inbound::Data { seqn: 1, send_us: 0 }, 2_003_000, 5, &limits());
    assert!(matches!(reply(&o), ExperimentReply::Busy));
    match &st {
        State::ExperimentIsOngoing(oe) => {
            assert_eq!(oe.info.session_id, sid);
            assert_eq!(oe.rcv.as_ref().unwrap().last_sqn(), 0);
        }
        _ => panic!(),
    }
    st.complete_experiment(None);
    match &st {
        State::Idle(Some(c), None) => {
            assert_eq!(c.rcv.as_ref().unwrap().total_received_packets, 1);
        }
        _ => panic!(),
    }
}

#[test]
fn other_experiment_from_the_owner_gets_busy() {
    let mut st = State::new();
    let sid = start(&mut st, 0);
    let other = ClientToServer::new(ExperimentInfo { totalpackets: 5, ..info(sid) }, 7);
    let o = st.handle(peer(1), &Inbound::Control(other), 10, 0, &limits());
    assert!(matches!(reply(&o), ExperimentReply::Busy));
    assert!(is_ongoing(&st));
}

#[test]
fn refused_parameters_get_resource_limits() {
    let mut st = State::new();
    let bad = ClientToServer::new(ExperimentInfo { packetdelay_us: 0, ..info(0) }, 1);
    let o = st.handle(peer(1), &Inbound::Control(bad), 0, 1, &limits());
    match reply(&o) {
        ExperimentReply::ResourceLimits { msg } => assert_eq!(msg, "zero packet delay"),
        _ => panic!(),
    }
    let long = ClientToServer::new(ExperimentInfo { totalpackets: 4000, ..info(0) }, 1);
    let o = st.handle(peer(1), &Inbound::Control(long), 0, 1, &limits());
    match reply(&o) {
        ExperimentReply::ResourceLimits { msg } => assert_eq!(msg, "duration too long"),
        _ => panic!(),
    }
}

#[test]
fn wrong_version_and_garbage() {
    let mut st = State::new();
    let old = ClientToServer { experiment: info(0), api_version: API_VERSION + 1, seqn_for_rtt: 1 };
    let o = st.handle(peer(1), &Inbound::Control(old), 0, 1, &limits());
    assert!(o.reply.is_none());
    let o = st.handle(peer(1), &Inbound::Undecodable, 0, 1, &limits());
    assert!(matches!(reply(&o), ExperimentReply::Failed { .. }));
    let o = st.handle(peer(1), &Inbound::Other, 0, 1, &limits());
    assert!(o.reply.is_none());

    start(&mut st, 0);
    let o = st.handle(peer(1), &Inbound::Control(old), 10, 1, &limits());
    assert!(o.aborted);
    match reply(&o) {
        ExperimentReply::Failed { msg } => assert_eq!(msg, "Invalid API version"),
        _ => panic!(),
    }
    assert!(!is_ongoing(&st));
}

#[test]
fn results_wait_for_late_packets() {
    let mut st = State::new();
    let sid = start(&mut st, 0);
    // the experiment runs from 2 s to 3 s; nothing arrived, so ten seconds of grace
    assert!(!st.tick(3_000_000));
    assert!(st.tick(3_000_001));
    let o = st.handle(peer(1), &request(sid, 3), 12_000_000, 0, &limits());
    assert!(!o.expired);
    let o = st.handle(peer(1), &request(sid, 4), 13_000_001, 0, &limits());
    assert!(o.expired);
}
