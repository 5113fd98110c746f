//! A battery: a reproducible sweep of experiments over bit rates, packet
//! sizes, directions and durations, drawn from a seeded generator and spread
//! over four bit-rate bands.
use vstd::prelude::*;
use rand::seq::SliceRandom;
use rand::{Rng, SeedableRng};
use rand_xorshift::XorShiftRng;
use crate::statement::{duration_us, kbps_of, ExperimentDirection, ExperimentInfo};

verus! {

#[verifier::external_type_specification]
#[verifier::external_body]
pub struct ExXorShiftRng(XorShiftRng);

/// Relies on rand_xorshift's `SeedableRng::from_seed`: the generator that the
/// seed gives, the same for the same seed.
#[verifier::external_body]
fn seeded_rng(seed: [u8; 16]) -> XorShiftRng {
    XorShiftRng::from_seed(seed)
}

/// Relies on rand's `Rng::gen_ratio`: true with probability `num / den`;
/// never when `num` is zero and always when `num == den`. It panics when
/// `den` is zero or `num > den`.
#[verifier::external_body]
fn draw_ratio(r: &mut XorShiftRng, num: u32, den: u32) -> (b: bool)
    requires
        0 < den,
        num <= den,
    ensures
        num == 0 ==> !b,
        num == den ==> b,
{
    r.gen_ratio(num, den)
}

/// Relies on rand's `Rng::gen_range`: a value in `[lo, hi)`; it panics when
/// `lo >= hi`.
#[verifier::external_body]
fn draw_range(r: &mut XorShiftRng, lo: u64, hi: u64) -> (x: u64)
    requires
        lo < hi,
    ensures
        lo <= x < hi,
{
    r.gen_range(lo, hi)
}

/// Relies on rand's `SliceRandom::shuffle`: the same experiments, reordered.
#[verifier::external_body]
fn shuffle_experiments(r: &mut XorShiftRng, v: &mut Vec<ExperimentInfo>)
    ensures
        final(v)@.to_multiset() == old(v)@.to_multiset(),
{
    v.shuffle(r);
}

/// Seed of the battery's generator.
pub const SEED_BYTES: [u8; 16] = [1, 2, 3, 4, 5, 6, 7, 8, 9, 10, 11, 12, 13, 14, 15, 16];

/// Number of experiments in a battery.
pub const BATTERY_SIZE: usize = 50;

/// Draws after which generation stops even if the battery is not full.
pub const MAX_DRAWS: u64 = 100_000_000;

/// Warm-up time of every experiment of a battery, in microseconds.
pub const BATTERY_WARMUP_US: u32 = 2_000_000;

/// The ranges a battery draws from and the bands it fills.
#[derive(Debug, Clone, Copy)]
pub struct BatteryProfile {
    /// Packet sizes: large ones in `[large_lo, large_hi)` half of the time,
    /// else small ones in `[small_lo, small_hi)`.
    pub large_lo: u64,
    pub large_hi: u64,
    pub small_lo: u64,
    pub small_hi: u64,
    /// Delays: short ones in `[short_lo, short_hi)` with probability
    /// `short_num / 10`, else long ones in `[long_lo, long_hi)`.
    pub short_num: u32,
    pub short_lo: u64,
    pub short_hi: u64,
    pub long_lo: u64,
    pub long_hi: u64,
    /// Packet counts below `likely_min` are raised to it with probability
    /// 7/10; counts below `hard_min` always are.
    pub likely_min: u32,
    pub hard_min: u32,
    /// Bit rates above this are refused with probability 4/5, if set.
    pub soft_kbps: Option<u32>,
    /// Bit rates above this are always refused.
    pub hard_kbps: u32,
    /// Upper bounds (exclusive) of the three lower bit-rate bands.
    pub bands: (u32, u32, u32),
    /// Whether the battery is shuffled at the end.
    pub shuffle: bool,
}

/// How many experiments each band may hold.
pub open spec fn band_cap(b: int) -> int {
    if b == 3 {
        10
    } else {
        15
    }
}

/// The bit-rate band of an experiment: 0 to 3, light to heavy.
pub open spec fn band_of(p: BatteryProfile, e: ExperimentInfo) -> int {
    let k = kbps_of(e);
    if k < p.bands.0 {
        0
    } else if k < p.bands.1 {
        1
    } else if k < p.bands.2 {
        2
    } else {
        3
    }
}

pub open spec fn band_count(p: BatteryProfile, s: Seq<ExperimentInfo>, b: int) -> int
    decreases s.len(),
{
    if s.len() == 0 {
        0
    } else {
        band_count(p, s.drop_last(), b) + if band_of(p, s.last()) == b {
            1int
        } else {
            0
        }
    }
}

/// What every experiment of a battery satisfies.
pub open spec fn fits_profile(p: BatteryProfile, e: ExperimentInfo) -> bool {
    &&& (p.large_lo <= e.packetsize < p.large_hi || p.small_lo <= e.packetsize < p.small_hi)
    &&& (p.short_lo <= e.packetdelay_us < p.short_hi || p.long_lo <= e.packetdelay_us < p.long_hi)
    &&& e.totalpackets >= p.hard_min
    &&& kbps_of(e) <= p.hard_kbps
    &&& duration_us(e) / 1_000_000 <= 30
    &&& e.pending_start_in_microseconds == BATTERY_WARMUP_US
    &&& e.session_id == 0
}

pub open spec fn profile_ok(p: BatteryProfile) -> bool {
    &&& p.large_lo < p.large_hi <= u32::MAX
    &&& p.small_lo < p.small_hi <= u32::MAX
    &&& 0 < p.short_lo < p.short_hi
    &&& 0 < p.long_lo < p.long_hi
    &&& p.short_num <= 10
}

/// What a battery generated from the profile `p` holds: at most fifty
/// experiments, each fitting the profile, no band above its cap.
pub open spec fn battery_ok(p: BatteryProfile, s: Seq<ExperimentInfo>) -> bool {
    &&& s.len() <= BATTERY_SIZE
    &&& forall|i: int| 0 <= i < s.len() ==> fits_profile(p, #[trigger] s[i])
    &&& forall|b: int| 0 <= b < 4 ==> band_count(p, s, b) <= band_cap(b)
}

/// The normal profile: up to about ten megabits per second.
pub open spec fn normal_profile() -> BatteryProfile {
    BatteryProfile {
        large_lo: 100,
        large_hi: 1537,
        small_lo: 32,
        small_hi: 100,
        short_num: 4,
        short_lo: 300,
        short_hi: 2000,
        long_lo: 2000,
        long_hi: 200_000,
        likely_min: 1000,
        hard_min: 200,
        soft_kbps: Some(1000),
        hard_kbps: 10_000,
        bands: (20, 400, 1500),
        shuffle: false,
    }
}

/// The big profile, for broadband networks.
pub open spec fn big_profile() -> BatteryProfile {
    BatteryProfile {
        large_lo: 256,
        large_hi: 1537,
        small_lo: 80,
        small_hi: 256,
        short_num: 5,
        short_lo: 40,
        short_hi: 300,
        long_lo: 300,
        long_hi: 30_000,
        likely_min: 5000,
        hard_min: 1000,
        soft_kbps: None,
        hard_kbps: 80_000,
        bands: (200, 1400, 8000),
        shuffle: true,
    }
}

/// A list of experiments to run one after the other.
#[derive(Debug)]
pub struct Battery(pub Vec<ExperimentInfo>);

impl BatteryProfile {
    pub fn normal() -> (p: BatteryProfile)
        ensures
            p == normal_profile(),
            profile_ok(p),
    {
        BatteryProfile {
            large_lo: 100,
            large_hi: 1537,
            small_lo: 32,
            small_hi: 100,
            short_num: 4,
            short_lo: 300,
            short_hi: 2000,
            long_lo: 2000,
            long_hi: 200_000,
            likely_min: 1000,
            hard_min: 200,
            soft_kbps: Some(1000),
            hard_kbps: 10_000,
            bands: (20, 400, 1500),
            shuffle: false,
        }
    }

    pub fn big() -> (p: BatteryProfile)
        ensures
            p == big_profile(),
            profile_ok(p),
    {
        BatteryProfile {
            large_lo: 256,
            large_hi: 1537,
            small_lo: 80,
            small_hi: 256,
            short_num: 5,
            short_lo: 40,
            short_hi: 300,
            long_lo: 300,
            long_hi: 30_000,
            likely_min: 5000,
            hard_min: 1000,
            soft_kbps: None,
            hard_kbps: 80_000,
            bands: (200, 1400, 8000),
            shuffle: true,
        }
    }
}

proof fn lemma_band_count_push(p: BatteryProfile, s: Seq<ExperimentInfo>, e: ExperimentInfo, b: int)
    ensures
        band_count(p, s.push(e), b) == band_count(p, s, b) + if band_of(p, e) == b {
            1int
        } else {
            0
        },
{
    assert(s.push(e).drop_last() =~= s);
}

/// Band counts depend only on which experiments there are, not on their order.
proof fn lemma_band_count_multiset(p: BatteryProfile, a: Seq<ExperimentInfo>, c: Seq<ExperimentInfo>, b: int)
    requires
        a.to_multiset() == c.to_multiset(),
    ensures
        band_count(p, a, b) == band_count(p, c, b),
    decreases a.len(),
{
    broadcast use vstd::seq_lib::group_to_multiset_ensures;

    assert(a.to_multiset().len() == a.len());
    assert(c.to_multiset().len() == c.len());
    if a.len() > 0 {
        let x = a.last();
        assert(a.contains(x));
        assert(a.to_multiset().count(x) > 0);
        assert(c.contains(x));
        let j = choose|j: int| 0 <= j < c.len() && c[j] == x;
        let a2 = a.drop_last();
        let c2 = c.remove(j);
        assert(a2.push(x) =~= a);
        assert(a2.to_multiset() =~= a.to_multiset().remove(x)) by {
            assert(a2.push(x).to_multiset() =~= a2.to_multiset().insert(x));
        }
        assert(c2.to_multiset() =~= c.to_multiset().remove(x));
        lemma_band_count_multiset(p, a2, c2, b);
        lemma_band_count_remove(p, c, j, b);
    }
}

proof fn lemma_band_count_remove(p: BatteryProfile, s: Seq<ExperimentInfo>, j: int, b: int)
    requires
        0 <= j < s.len(),
    ensures
        band_count(p, s, b) == band_count(p, s.remove(j), b) + if band_of(p, s[j]) == b {
            1int
        } else {
            0
        },
    decreases s.len(),
{
    if j < s.len() - 1 {
        lemma_band_count_remove(p, s.drop_last(), j, b);
        assert(s.remove(j).drop_last() =~= s.drop_last().remove(j));
    } else {
        assert(s.remove(j) =~= s.drop_last());
    }
}

/// The values drawn for one candidate experiment.
#[derive(Debug, Clone, Copy)]
pub struct Draw {
    /// Whether the packet size comes from the large range.
    pub large: bool,
    pub size: u64,
    /// 0, 1 or 2: bidirectional, to the server, from the server.
    pub dir: u64,
    /// Whether the delay comes from the short range.
    pub short: bool,
    pub delay: u64,
    pub rtpmimic: bool,
    /// Whether a short packet count is raised to the profile's likely minimum
    /// (drawn only where the count is below it).
    pub bump: bool,
    /// Whether the soft bit-rate cap applies to the candidate.
    pub soft: bool,
    /// Whether the ten-second limit applies to the candidate (drawn only
    /// where the bit-rate caps let it through).
    pub long: bool,
}

/// The draw lies in the ranges that the profile hands to the generator.
pub open spec fn draw_fits(p: BatteryProfile, d: Draw) -> bool {
    &&& if d.large {
        p.large_lo <= d.size < p.large_hi
    } else {
        p.small_lo <= d.size < p.small_hi
    }
    &&& d.dir < 3
    &&& if d.short {
        p.short_lo <= d.delay < p.short_hi
    } else {
        p.long_lo <= d.delay < p.long_hi
    }
}

pub open spec fn direction_of(dir: u64) -> ExperimentDirection {
    if dir == 0 {
        ExperimentDirection::Bidirectional
    } else if dir == 1 {
        ExperimentDirection::ToServerOnly
    } else {
        ExperimentDirection::FromServerOnly
    }
}

/// Packets for five seconds at the drawn delay, raised to the likely
/// minimum where `bump` says so and always to the hard minimum.
pub open spec fn packets_for(p: BatteryProfile, d: Draw) -> u32 {
    let n: int = 5_000_000int / d.delay as int;
    let n: u32 = if n > u32::MAX {
        u32::MAX
    } else {
        n as u32
    };
    let n = if n < p.likely_min && d.bump {
        p.likely_min
    } else {
        n
    };
    if n < p.hard_min {
        p.hard_min
    } else {
        n
    }
}

/// The candidate experiment that the draw `d` gives.
pub open spec fn candidate_spec(p: BatteryProfile, d: Draw) -> ExperimentInfo {
    ExperimentInfo {
        packetsize: d.size as u32,
        packetdelay_us: d.delay,
        totalpackets: packets_for(p, d),
        direction: direction_of(d.dir),
        rtpmimic: d.rtpmimic,
        session_id: 0,
        pending_start_in_microseconds: BATTERY_WARMUP_US,
    }
}

/// The band in which the candidate `e` is kept, given how many experiments
/// each band already holds; `None` where it is refused: its bit rate is above
/// the hard cap, or above the soft cap where `soft` applies; it is longer
/// than ten seconds where `long` applies, or longer than thirty seconds; or
/// its band is full.
pub open spec fn admission_spec(p: BatteryProfile, counts: Seq<u32>, e: ExperimentInfo, soft: bool, long: bool) -> Option<int> {
    let k = kbps_of(e);
    let secs = duration_us(e) / 1_000_000;
    let b = band_of(p, e);
    if k > p.hard_kbps || (soft && p.soft_kbps is Some && k > p.soft_kbps->0) || (long && secs
        > 10) || secs > 30 {
        None
    } else if counts[b] >= band_cap(b) {
        None
    } else {
        Some(b)
    }
}

pub open spec fn band_counts(p: BatteryProfile, v: Seq<ExperimentInfo>) -> Seq<u32> {
    Seq::new(4, |b: int| band_count(p, v, b) as u32)
}

/// The experiments kept from the draws `ds`, in draw order: once fifty are
/// kept, later draws are ignored.
pub open spec fn admitted(p: BatteryProfile, ds: Seq<Draw>) -> Seq<ExperimentInfo>
    decreases ds.len(),
{
    if ds.len() == 0 {
        Seq::empty()
    } else {
        let v = admitted(p, ds.drop_last());
        let d = ds.last();
        if v.len() >= BATTERY_SIZE {
            v
        } else if admission_spec(p, band_counts(p, v), candidate_spec(p, d), d.soft, d.long) is Some {
            v.push(candidate_spec(p, d))
        } else {
            v
        }
    }
}

/// `s` is what drawing `ds` gives: the draws lie in the profile's ranges,
/// drawing stopped when fifty experiments were kept or `MAX_DRAWS` were
/// drawn, and `s` is the kept experiments in draw order, or shuffled where
/// the profile says so.
pub open spec fn from_draws(p: BatteryProfile, ds: Seq<Draw>, s: Seq<ExperimentInfo>) -> bool {
    &&& forall|i: int| 0 <= i < ds.len() ==> draw_fits(p, #[trigger] ds[i])
    &&& ds.len() <= MAX_DRAWS
    &&& (admitted(p, ds).len() == BATTERY_SIZE || ds.len() == MAX_DRAWS)
    &&& if p.shuffle {
        s.to_multiset() == admitted(p, ds).to_multiset()
    } else {
        s == admitted(p, ds)
    }
}

/// The candidate experiment that the draw `d` gives.
pub fn candidate(p: &BatteryProfile, d: &Draw) -> (e: ExperimentInfo)
    requires
        profile_ok(*p),
        draw_fits(*p, *d),
    ensures
        e == candidate_spec(*p, *d),
{
    let direction = if d.dir == 0 {
        ExperimentDirection::Bidirectional
    } else if d.dir == 1 {
        ExperimentDirection::ToServerOnly
    } else {
        ExperimentDirection::FromServerOnly
    };
    let n = 5_000_000 / d.delay;
    let mut totalpackets: u32 = if n > u32::MAX as u64 {
        u32::MAX
    } else {
        n as u32
    };
    if totalpackets < p.likely_min && d.bump {
        totalpackets = p.likely_min;
    }
    if totalpackets < p.hard_min {
        totalpackets = p.hard_min;
    }
    ExperimentInfo {
        direction,
        packetdelay_us: d.delay,
        packetsize: d.size as u32,
        pending_start_in_microseconds: BATTERY_WARMUP_US,
        rtpmimic: d.rtpmimic,
        session_id: 0,
        totalpackets,
    }
}

/// Whether the soft or hard bit-rate cap refuses the candidate `e`.
fn over_bit_rate_caps(p: &BatteryProfile, e: &ExperimentInfo, soft: bool) -> (r: bool)
    ensures
        r == (kbps_of(*e) > p.hard_kbps || (soft && p.soft_kbps is Some && kbps_of(*e)
            > p.soft_kbps->0)),
{
    let k = e.kbps();
    let over_soft = match p.soft_kbps {
        Some(s) => soft && k > s,
        None => false,
    };
    over_soft || k > p.hard_kbps
}

/// The band in which the candidate `e` is kept, or `None` where it is refused.
pub fn admission(p: &BatteryProfile, counts: &[u32; 4], e: &ExperimentInfo, soft: bool, long: bool) -> (r: Option<usize>)
    ensures
        (match r {
            Some(b) => Some(b as int),
            None => None,
        }) == admission_spec(*p, counts@, *e, soft, long),
        r matches Some(b) ==> b < 4,
{
    let secs = e.duration() / 1_000_000;
    if over_bit_rate_caps(p, e, soft) || (long && secs > 10) || secs > 30 {
        return None;
    }
    let k = e.kbps();
    let band: usize = if k < p.bands.0 {
        0
    } else if k < p.bands.1 {
        1
    } else if k < p.bands.2 {
        2
    } else {
        3
    };
    let cap: u32 = if band == 3 {
        10
    } else {
        15
    };
    if counts[band] >= cap {
        None
    } else {
        Some(band)
    }
}

/// Draws the values of one candidate.
fn draw_values(r: &mut XorShiftRng, p: &BatteryProfile) -> (d: Draw)
    requires
        profile_ok(*p),
    ensures
        draw_fits(*p, d),
        !d.long,
{
    let large = draw_ratio(r, 1, 2);
    let size = if large {
        draw_range(r, p.large_lo, p.large_hi)
    } else {
        draw_range(r, p.small_lo, p.small_hi)
    };
    let dir = draw_range(r, 0, 3);
    let short = draw_ratio(r, p.short_num, 10);
    let delay = if short {
        draw_range(r, p.short_lo, p.short_hi)
    } else {
        draw_range(r, p.long_lo, p.long_hi)
    };
    let rtpmimic = draw_ratio(r, 1, 2);
    let bump = if 5_000_000 / delay < p.likely_min as u64 {
        draw_ratio(r, 7, 10)
    } else {
        false
    };
    let soft = draw_ratio(r, 4, 5);
    Draw { large, size, dir, short, delay, rtpmimic, bump, soft, long: false }
}

impl Battery {
    /// A battery drawn from the profile `p`: candidates are drawn until fifty
    /// are kept (or `MAX_DRAWS` were drawn), and shuffled at the end where the
    /// profile says so.
    pub fn generate_from(p: &BatteryProfile) -> (b: Battery)
        requires
            profile_ok(*p),
        ensures
            battery_ok(*p, b.0@),
            exists|ds: Seq<Draw>| from_draws(*p, ds, b.0@),
    {
        let mut v: Vec<ExperimentInfo> = Vec::new();
        let mut r = seeded_rng(SEED_BYTES);
        let mut counts: [u32; 4] = [0, 0, 0, 0];
        let mut draws: u64 = 0;
        let ghost mut ds: Seq<Draw> = Seq::empty();
        while v.len() < BATTERY_SIZE && draws < MAX_DRAWS
            invariant
                profile_ok(*p),
                v@.len() <= BATTERY_SIZE,
                v@ == admitted(*p, ds),
                ds.len() == draws <= MAX_DRAWS,
                forall|i: int| 0 <= i < ds.len() ==> draw_fits(*p, #[trigger] ds[i]),
                forall|i: int| 0 <= i < v@.len() ==> fits_profile(*p, #[trigger] v@[i]),
                forall|b: int| 0 <= b < 4 ==> counts@[b] as int == band_count(*p, v@, b),
                forall|b: int| 0 <= b < 4 ==> band_count(*p, v@, b) <= band_cap(b),
            decreases MAX_DRAWS - draws,
        {
            draws = draws + 1;
            let mut d = draw_values(&mut r, p);
            let e = candidate(p, &d);
            if !over_bit_rate_caps(p, &e, d.soft) {
                d.long = draw_ratio(&mut r, 4, 5);
            }
            assert(candidate_spec(*p, d) == e);
            let kept = admission(p, &counts, &e, d.soft, d.long);
            assert(counts@ =~= band_counts(*p, v@));
            let ghost old_ds = ds;
            proof {
                ds = ds.push(d);
                assert(ds.drop_last() =~= old_ds);
            }
            match kept {
                Some(band) => {
                    proof {
                        assert forall|b: int| 0 <= b < 4 implies band_count(*p, v@.push(e), b)
                            == band_count(*p, v@, b) + if band_of(*p, e) == b {
                            1int
                        } else {
                            0
                        } by {
                            lemma_band_count_push(*p, v@, e, b);
                        }
                    }
                    counts[band] = counts[band] + 1;
                    v.push(e);
                },
                None => {},
            }
        }
        let ghost kept = v@;
        assert(from_draws(*p, ds, kept) || p.shuffle);
        if p.shuffle {
            shuffle_experiments(&mut r, &mut v);
            proof {
                broadcast use vstd::seq_lib::group_to_multiset_ensures;

                assert(v@.len() == kept.len()) by {
                    assert(v@.to_multiset().len() == v@.len());
                    assert(kept.to_multiset().len() == kept.len());
                }
                assert forall|i: int| 0 <= i < v@.len() implies fits_profile(*p, #[trigger] v@[i]) by {
                    assert(v@.contains(v@[i]));
                    assert(v@.to_multiset().count(v@[i]) > 0);
                    assert(kept.contains(v@[i]));
                }
                assert forall|b: int| 0 <= b < 4 implies band_count(*p, v@, b) <= band_cap(b) by {
                    lemma_band_count_multiset(*p, v@, kept, b);
                }
            }
        }
        assert(from_draws(*p, ds, v@));
        Battery(v)
    }

    /// The normal battery.
    pub fn generate() -> (b: Battery)
        ensures
            battery_ok(normal_profile(), b.0@),
            exists|ds: Seq<Draw>| from_draws(normal_profile(), ds, b.0@),
    {
        Battery::generate_from(&BatteryProfile::normal())
    }

    /// The big battery, shuffled.
    pub fn generate_bb() -> (b: Battery)
        ensures
            battery_ok(big_profile(), b.0@),
            exists|ds: Seq<Draw>| from_draws(big_profile(), ds, b.0@),
    {
        Battery::generate_from(&BatteryProfile::big())
    }
}

/// Why a battery run stops.
#[derive(Debug, PartialEq, Eq, Structural, Clone, Copy)]
pub enum BatteryAbort {
    /// One of the first three experiments found the server busy.
    ServerBusy,
    /// The first experiment failed.
    FirstFailed,
    /// An experiment failed again after all the retries allowed.
    TooManyFailures,
}

/// What to do after a failed experiment.
#[derive(Debug, PartialEq, Eq, Structural, Clone, Copy)]
pub enum RetryDecision {
    /// Wait, then run the experiment again.
    Retry,
    Abort(BatteryAbort),
}

pub open spec fn retry_decision(index: int, failures: int, max_retries: int, busy: bool) -> RetryDecision {
    if index < 3 && busy {
        RetryDecision::Abort(BatteryAbort::ServerBusy)
    } else if index == 0 {
        RetryDecision::Abort(BatteryAbort::FirstFailed)
    } else if failures > max_retries {
        RetryDecision::Abort(BatteryAbort::TooManyFailures)
    } else {
        RetryDecision::Retry
    }
}

/// The decision after experiment number `index` of a battery failed for the
/// `failures`-th time in a row; `busy` tells whether the failure was the
/// server being busy. An experiment is retried up to `max_retries` times.
pub fn after_failure(index: usize, failures: usize, max_retries: usize, busy: bool) -> (d: RetryDecision)
    ensures
        d == retry_decision(index as int, failures as int, max_retries as int, busy),
{
    if index < 3 && busy {
        RetryDecision::Abort(BatteryAbort::ServerBusy)
    } else if index == 0 {
        RetryDecision::Abort(BatteryAbort::FirstFailed)
    } else if failures > max_retries {
        RetryDecision::Abort(BatteryAbort::TooManyFailures)
    } else {
        RetryDecision::Retry
    }
}

} // verus!
