use netmeasure2::receiver::{PacketReceiver, PacketReceiverParams};
use netmeasure2::sender::Sender;

fn frame(seqn: u32, ts: u32) -> Vec<u8> {
    let s = Sender {
        packetsize: 40,
        rtpmimic: false,
        packetcount: 10,
        experiment_start: 0,
        delay_between_packets: 1000,
        session_id: 1,
    };
    let mut f = s.frame();
    s.stamp(&mut f, seqn, ts as u64);
    f
}

#[test]
fn receiver_records_until_full() {
    let mut r = PacketReceiver::new(PacketReceiverParams {
        num_packets: 2,
        session_id: 77,
        experiment_start: 1_000,
    });
    assert_eq!(r.last_sqn(), 0);
    r.recv(&frame(5, 100), 3_000);
    assert_eq!(r.last_sqn(), 5);
    r.record(6, 200, 4_000);
    assert_eq!(r.last_sqn(), 6);
    r.record(9, 300, 5_000);
    assert_eq!(r.last_sqn(), 6);
    let a = r.analyse();
    assert_eq!(a.session_id, 77);
    assert_eq!(a.total_received_packets, 2);
    assert_eq!(a.total_packets, 2);
}

#[test]
fn receiver_start_moves_back_to_early_packets() {
    let mut r = PacketReceiver::new(PacketReceiverParams {
        num_packets: 3,
        session_id: 1,
        experiment_start: 10_000,
    });
    r.record(0, 0, 4_000);
    r.record(1, 0, 9_000);
    // both arrival times count from 4000: 0 and 5000 us
    let a = r.analyse();
    assert_eq!(a.delay_model.delay_sum_ms, 5);
    // smoothing: (4 * 0 + 0) / 5 = 0, then (4 * 0 + 5000) / 5 = 1000
    assert_eq!(r.current_delay(), 1000);
}
