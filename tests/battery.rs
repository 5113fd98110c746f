use netmeasure2::battery::{
    admission, after_failure, candidate, Battery, BatteryAbort, BatteryProfile, Draw, RetryDecision,
};
use netmeasure2::numplay::{pick, prsum};
use netmeasure2::summary::{sort_key, SortOrder};
use netmeasure2::statement::{ExperimentDirection, ExperimentInfo};

fn band(k: u32, bands: (u32, u32, u32)) -> usize {
    if k < bands.0 {
        0
    } else if k < bands.1 {
        1
    } else if k < bands.2 {
        2
    } else {
        3
    }
}

#[test]
fn normal_battery_is_full_and_reproducible() {
    let a = Battery::generate();
    let b = Battery::generate();
    assert_eq!(a.0.len(), 50);
    assert!(a.0.iter().zip(b.0.iter()).all(|(x, y)| x == y));
    let mut counts = [0; 4];
    for e in &a.0 {
        assert!(e.kbps() <= 10_000);
        assert!(e.duration() <= 30_000_000 + 999_999);
        assert_eq!(e.session_id, 0);
        assert_eq!(e.pending_start_in_microseconds, 2_000_000);
        assert!(e.totalpackets >= 200);
        counts[band(e.kbps(), (20, 400, 1500))] += 1;
    }
    assert!(counts[0] <= 15 && counts[1] <= 15 && counts[2] <= 15 && counts[3] <= 10);
    assert_eq!(counts.iter().sum::<usize>(), 50);
}

#[test]
fn big_battery_is_full() {
    let a = Battery::generate_bb();
    assert_eq!(a.0.len(), 50);
    let mut counts = [0; 4];
    for e in &a.0 {
        assert!(e.kbps() <= 80_000);
        assert!(e.totalpackets >= 1000);
        counts[band(e.kbps(), (200, 1400, 8000))] += 1;
    }
    assert!(counts[0] <= 15 && counts[1] <= 15 && counts[2] <= 15 && counts[3] <= 10);
}

#[test]
fn batteries_draw_varied_experiments() {
    let a = Battery::generate();
    assert!(a.0.iter().any(|e| e.direction == ExperimentDirection::Bidirectional));
    assert!(a.0.iter().any(|e| e.direction != ExperimentDirection::Bidirectional));
    assert!(a.0.iter().any(|e| e.rtpmimic) && a.0.iter().any(|e| !e.rtpmimic));
    assert!(a.0.iter().any(|e| e.packetsize >= 100) && a.0.iter().any(|e| e.packetsize < 100));
}

#[test]
fn weighted_picks() {
    assert_eq!(prsum(), 100);
    assert_eq!(pick(0), Some(1));
    assert_eq!(pick(4), Some(1));
    assert_eq!(pick(5), Some(2));
    assert_eq!(pick(25), Some(3));
    assert_eq!(pick(99), Some(8));
    assert_eq!(pick(100), None);
}

#[test]
fn summary_keys() {
    let e = ExperimentInfo {
        packetsize: 120,
        packetdelay_us: 10_000,
        totalpackets: 1000,
        direction: ExperimentDirection::ToServerOnly,
        rtpmimic: false,
        session_id: 0,
        pending_start_in_microseconds: 0,
    };
    assert_eq!(sort_key(SortOrder::Kbps, 3, &e), 121);
    assert_eq!(sort_key(SortOrder::Time, 3, &e), 3);
    assert_eq!(sort_key(SortOrder::PktRate, 3, &e), 10_000);
    assert_eq!(sort_key(SortOrder::PktSize, 3, &e), 120);
}

#[test]
fn retry_policy() {
    let abort = RetryDecision::Abort;
    assert_eq!(after_failure(0, 1, 4, false), abort(BatteryAbort::FirstFailed));
    assert_eq!(after_failure(2, 1, 4, true), abort(BatteryAbort::ServerBusy));
    assert_eq!(after_failure(3, 1, 4, true), RetryDecision::Retry);
    assert_eq!(after_failure(5, 3, 4, false), RetryDecision::Retry);
    // four retries are allowed: the fifth failure in a row ends the run
    assert_eq!(after_failure(5, 4, 4, false), RetryDecision::Retry);
    assert_eq!(after_failure(5, 5, 4, false), abort(BatteryAbort::TooManyFailures));
    assert_eq!(after_failure(5, 1, 0, false), abort(BatteryAbort::TooManyFailures));
}

fn draw(size: u64, delay: u64) -> Draw {
    Draw {
        large: size >= 100,
        size,
        dir: 1,
        short: delay < 2000,
        delay,
        rtpmimic: true,
        bump: false,
        soft: false,
        long: false,
    }
}

#[test]
fn candidates_from_draws() {
    let p = BatteryProfile::normal();
    let e = candidate(&p, &draw(120, 10_000));
    assert_eq!(e.packetsize, 120);
    assert_eq!(e.packetdelay_us, 10_000);
    assert_eq!(e.totalpackets, 500);
    assert_eq!(e.direction, ExperimentDirection::ToServerOnly);
    assert!(e.rtpmimic);
    assert_eq!(e.session_id, 0);
    assert_eq!(e.pending_start_in_microseconds, 2_000_000);
    let bumped = candidate(&p, &Draw { bump: true, ..draw(120, 10_000) });
    assert_eq!(bumped.totalpackets, 1000);
    // 5 s / 100 ms = 50 packets, raised to the hard minimum of 200
    assert_eq!(candidate(&p, &draw(120, 100_000)).totalpackets, 200);
}

#[test]
fn admission_of_candidates() {
    let p = BatteryProfile::normal();
    let e = candidate(&p, &draw(120, 10_000)); // 121 kbit/s, 5 s
    assert_eq!(admission(&p, &[0, 0, 0, 0], &e, false, false), Some(1));
    assert_eq!(admission(&p, &[0, 15, 0, 0], &e, false, false), None);
    let fast = candidate(&p, &draw(1000, 500)); // 16512 kbit/s
    assert_eq!(admission(&p, &[0, 0, 0, 0], &fast, false, false), None);
    let mid = candidate(&p, &draw(1000, 5000)); // 1651 kbit/s
    assert_eq!(admission(&p, &[0, 0, 0, 0], &mid, false, false), Some(3));
    assert_eq!(admission(&p, &[0, 0, 0, 0], &mid, true, false), None);
    let long = Draw { bump: true, ..draw(50, 15_000) }; // 1000 packets, 15 s
    let long = candidate(&p, &long);
    assert_eq!(admission(&p, &[0, 0, 0, 0], &long, false, false), Some(1));
    assert_eq!(admission(&p, &[0, 0, 0, 0], &long, false, true), None);
}
