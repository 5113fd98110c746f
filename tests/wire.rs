use netmeasure2::sender::{SendDecision, Sender};
use netmeasure2::wire::{classify_frame, read_be_u32, write_be_u32, FrameKind};

#[test]
fn big_endian_round_trip() {
    let mut b = vec![0u8; 8];
    write_be_u32(&mut b, 2, 0x0102_0304);
    assert_eq!(b, vec![0, 0, 1, 2, 3, 4, 0, 0]);
    assert_eq!(read_be_u32(&b, 2), 0x0102_0304);
}

#[test]
fn frames_are_classified_by_their_tag() {
    let mut f = vec![0u8; 20];
    f[15] = 7;
    f[19] = 9;
    assert_eq!(classify_frame(&f), FrameKind::Data { seqn: 7, send_us: 9 });
    let mut c = vec![0u8; 20];
    c[0] = 0xd9;
    c[1] = 0xd9;
    c[2] = 0xf7;
    assert_eq!(classify_frame(&c), FrameKind::Control);
    let mut r = vec![0u8; 20];
    r[0] = 0x80;
    r[1] = 0x64;
    r[2] = 0x55;
    r[15] = 1;
    assert_eq!(classify_frame(&r), FrameKind::Data { seqn: 1, send_us: 0 });
    let mut u = vec![0u8; 20];
    u[0] = 1;
    assert_eq!(classify_frame(&u), FrameKind::Discard);
    assert_eq!(classify_frame(&c[..19]), FrameKind::Discard);
}

fn sender(rtp: bool) -> Sender {
    Sender {
        packetsize: 120,
        rtpmimic: rtp,
        packetcount: 100,
        experiment_start: 1_000_000,
        delay_between_packets: 10_000,
        session_id: 0x1234_5678_9abc_def0,
    }
}

#[test]
fn sender_schedule() {
    let s = sender(false);
    assert_eq!(s.decide(3, 1_000_000), SendDecision::SleepUntil(1_030_000));
    assert_eq!(s.decide(3, 1_030_000), SendDecision::SleepUntil(1_030_000));
    assert_eq!(s.decide(3, 1_040_000), SendDecision::SendNow);
    assert_eq!(s.decide(3, 1_040_001), SendDecision::Drop);
}

#[test]
fn stamped_frames_read_back() {
    let s = sender(false);
    let mut f = s.frame();
    assert_eq!(f.len(), 120);
    s.stamp(&mut f, 42, 1_500_000);
    assert_eq!(classify_frame(&f), FrameKind::Data { seqn: 42, send_us: 500_000 });
    assert!(f[..12].iter().all(|&b| b == 0));

    let s = sender(true);
    let mut f = s.frame();
    s.stamp(&mut f, 0x1_0002, 1_500_000);
    assert_eq!(&f[0..2], &[0x80, 0x64]);
    assert_eq!(&f[2..4], &[0, 2]);
    assert_eq!(read_be_u32(&f, 4), 500_000 * 90 / 1000);
    assert_eq!(read_be_u32(&f, 8), 0x9abc_def0);
    assert_eq!(classify_frame(&f), FrameKind::Data { seqn: 0x1_0002, send_us: 500_000 });
    s.stamp(&mut f, 1, 900_000);
    assert_eq!(read_be_u32(&f, 16), 0);
}
