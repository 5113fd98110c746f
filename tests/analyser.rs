use netmeasure2::analyser::analyse;
use netmeasure2::receiver::Info;
use netmeasure2::results::{ExperimentResults, SEED, UNIT};

fn same(a: &ExperimentResults, b: &ExperimentResults) -> bool {
    a.loss_model.nonloss == b.loss_model.nonloss
        && a.loss_model.loss == b.loss_model.loss
        && a.loss_model.begin_lp == b.loss_model.begin_lp
        && a.loss_model.end_lp == b.loss_model.end_lp
        && a.loss_model.sendside_lost == b.loss_model.sendside_lost
        && a.delay_model.value_popularity == b.delay_model.value_popularity
        && a.delay_model.delta_noloss == b.delay_model.delta_noloss
        && a.delay_model.delta_loss1 == b.delay_model.delta_loss1
        && a.delay_model.delta_loss2_20 == b.delay_model.delta_loss2_20
        && a.delay_model.delta_lossmany == b.delay_model.delta_lossmany
        && a.delay_model.delay_sum_ms == b.delay_model.delay_sum_ms
        && a.total_received_packets == b.total_received_packets
        && a.total_packets == b.total_packets
        && a.session_id == b.session_id
}

fn sum(v: &[u128]) -> u128 {
    v.iter().sum()
}

/// Packets 10 ms apart with a 2 ms path delay, without those that `lost` names.
fn path(n: u32, lost: impl Fn(u32) -> bool) -> Vec<Info> {
    (0..n)
        .filter(|i| !lost(*i))
        .map(|i| Info { seqn: i, st_us: i * 10_000, rt_us: i * 10_000 + 2_000 })
        .collect()
}

#[test]
fn zero_loss_perfect_path() {
    let v = path(1000, |_| false);
    let r = analyse(&v, 1000);
    assert_eq!(r.total_received_packets, 1000);
    assert_eq!(r.total_packets, 1000);
    assert_eq!(r.loss_model.begin_lp, 0);
    assert_eq!(r.loss_model.end_lp, 0);
    // one run of 1000 packets, between the 400 and the "and above" centres
    assert!(r.loss_model.nonloss[..28].iter().all(|&x| x == 0));
    let to_400 = UNIT * (65535 - 1000) / (65535 - 400);
    assert_eq!(r.loss_model.nonloss[28], to_400);
    assert_eq!(r.loss_model.nonloss[29], SEED + UNIT - to_400);
    // the loss histogram holds only its seed
    assert_eq!(r.loss_model.loss[0], SEED);
    assert_eq!(sum(&r.loss_model.loss), SEED);
    // mean delay: the 2 ms floor
    assert_eq!(r.delay_model.delay_sum_ms, 2000);
    // 2 ms lies a fifth of the way from 0 to 10
    assert_eq!(r.delay_model.value_popularity[0], SEED + 1000 * (UNIT * 8 / 10));
    assert_eq!(r.delay_model.value_popularity[1], 1000 * (UNIT * 2 / 10));
    assert_eq!(sum(&r.delay_model.delta_noloss), SEED + 1000 * UNIT);
    assert_eq!(sum(&r.delay_model.delta_loss1), SEED);
}

#[test]
fn uniform_ten_percent_loss() {
    let v = path(1000, |i| i % 10 == 9);
    let r = analyse(&v, 1000);
    assert_eq!(r.total_received_packets, 900);
    let loss_prob = 1.0 - r.total_received_packets as f64 / r.total_packets as f64;
    assert!((0.08..=0.12).contains(&loss_prob));
    // every cluster is a single packet: 99 inside, the last one at the end
    assert_eq!(r.loss_model.loss[0], SEED + 99 * UNIT);
    assert_eq!(sum(&r.loss_model.loss), SEED + 99 * UNIT);
    assert_eq!(r.loss_model.end_lp, 1);
    assert_eq!(r.loss_model.begin_lp, 0);
    assert_eq!(sum(&r.delay_model.delta_loss1), SEED + 99 * UNIT);
    assert_eq!(sum(&r.delay_model.delta_noloss), SEED + 801 * UNIT);
}

#[test]
fn burst_loss_of_fifty() {
    let v = path(1000, |i| (475..525).contains(&i));
    let r = analyse(&v, 1000);
    assert_eq!(r.loss_model.loss[18], UNIT);
    assert_eq!(sum(&r.loss_model.loss), SEED + UNIT);
    assert_eq!(r.loss_model.begin_lp, 0);
    assert_eq!(r.loss_model.end_lp, 0);
    assert_eq!(sum(&r.delay_model.delta_lossmany), SEED + UNIT);
    assert_eq!(r.total_received_packets, 950);
}

#[test]
fn loss_at_the_beginning_and_the_end() {
    let v = path(100, |i| i < 5 || i >= 90);
    let r = analyse(&v, 100);
    assert_eq!(r.loss_model.begin_lp, 4);
    assert_eq!(r.loss_model.end_lp, 10);
    assert_eq!(sum(&r.loss_model.loss), SEED);
}

#[test]
fn empty_receive_keeps_the_seeds() {
    let r = analyse(&[], 10);
    assert_eq!(r.total_received_packets, 0);
    assert_eq!(r.loss_model.end_lp, 9);
    assert_eq!(r.loss_model.nonloss[29], SEED);
    assert_eq!(sum(&r.loss_model.nonloss), SEED);
    assert_eq!(r.delay_model.value_popularity[0], SEED);
    assert_eq!(r.delay_model.delta_noloss[15], SEED);
    assert_eq!(r.delay_model.delta_lossmany[15], SEED);
}

#[test]
fn histogram_masses_match_the_counts() {
    let v = path(300, |i| i % 7 == 3 || (100..140).contains(&i));
    let r = analyse(&v, 300);
    let n = r.total_received_packets as u128;
    assert_eq!(sum(&r.delay_model.value_popularity), SEED + n * UNIT);
    let d = sum(&r.delay_model.delta_noloss)
        + sum(&r.delay_model.delta_loss1)
        + sum(&r.delay_model.delta_loss2_20)
        + sum(&r.delay_model.delta_lossmany);
    assert_eq!(d, 4 * SEED + n * UNIT);
    for h in [&r.loss_model.nonloss, &r.loss_model.loss, &r.delay_model.value_popularity] {
        let t = sum(h) as f64;
        let normalized: f64 = h.iter().map(|&x| x as f64 / t).sum();
        assert!((normalized - 1.0).abs() < 1e-5);
        assert!(h.iter().all(|&x| x as f64 / t <= 1.0));
    }
}

#[test]
fn duplicates_keep_the_smallest_delay() {
    let v = vec![
        Info { seqn: 0, st_us: 0, rt_us: 9_000 },
        Info { seqn: 0, st_us: 0, rt_us: 3_000 },
        Info { seqn: 1, st_us: 0, rt_us: 3_000 },
    ];
    let r = analyse(&v, 2);
    assert_eq!(r.total_received_packets, 2);
    assert_eq!(r.delay_model.delay_sum_ms, 6);
}

#[test]
fn order_of_records_does_not_matter() {
    let v = path(500, |i| i % 13 == 0 || (200..230).contains(&i));
    let mut w = v.clone();
    w.reverse();
    w.swap(3, 100);
    assert!(same(&analyse(&v, 500), &analyse(&w, 500)));
}

#[test]
fn shifting_both_clocks_does_not_matter() {
    let v = path(400, |i| i % 11 == 0);
    let w: Vec<Info> = v
        .iter()
        .map(|x| Info { seqn: x.seqn, st_us: x.st_us + 5_000, rt_us: x.rt_us + 5_000 })
        .collect();
    assert!(same(&analyse(&v, 400), &analyse(&w, 400)));
}

#[test]
fn negative_delays_are_raised_to_zero() {
    // the receiver's clock is 4 ms behind: delays of -4, -2 and -3 ms
    let v = vec![
        Info { seqn: 0, st_us: 10_000, rt_us: 6_000 },
        Info { seqn: 1, st_us: 20_000, rt_us: 18_000 },
        Info { seqn: 2, st_us: 30_000, rt_us: 27_000 },
    ];
    let r = analyse(&v, 3);
    // raised by 4: 0, 2 and 1 ms
    assert_eq!(r.delay_model.delay_sum_ms, 3);
    assert_eq!(r.delay_model.value_popularity[0], SEED + UNIT + UNIT * 8 / 10 + UNIT * 9 / 10);
}

#[test]
fn sub_millisecond_shift_does_not_matter() {
    let v = vec![Info { seqn: 0, st_us: 999, rt_us: 1000 }, Info { seqn: 1, st_us: 10_500, rt_us: 12_499 }];
    let w: Vec<Info> = v.iter().map(|x| Info { seqn: x.seqn, st_us: x.st_us + 1, rt_us: x.rt_us + 1 }).collect();
    assert!(same(&analyse(&v, 2), &analyse(&w, 2)));
    // delays of 0 ms (1 us) and 1 ms (1999 us)
    assert_eq!(analyse(&v, 2).delay_model.delay_sum_ms, 1);
}
