//! Output of the analyser: histograms kept as exact integer masses.
//!
//! Every registration of a value adds `UNIT` to a histogram, split between the
//! two nearest bucket centres. `UNIT` is divisible by the distance between any
//! two neighbouring centres, so the split is exact, and by 10000, so the
//! initial seed of a ten-thousandth of a registration is exact too. A bucket's
//! normalized value is its mass divided by the histogram's total mass.
use vstd::prelude::*;

verus! {

/// Mass of one registered value.
pub const UNIT: u128 = 8681453340000000;

/// Mass seeded into one bucket of every histogram, so that every histogram
/// has a positive total even when nothing was received.
pub const SEED: u128 = 868145334000;

/// Index of the zero entry of `DELAY_DELTAS`.
pub const ZERO_DELTA_IDX: usize = 15;

/// Loss and non-loss cluster lengths (the last bucket is "and above").
pub open spec fn clusters_spec() -> Seq<i32> {
    seq![
        1i32, 2, 3, 4, 5, 6, 7, 8, 9, 10, 12, 15, 20, 25, 30, 35, 40, 45, 50, 60, 70, 80, 90, 100,
        120, 150, 200, 300, 400, 65535,
    ]
}

/// One-way delays, in milliseconds.
pub open spec fn delay_values_spec() -> Seq<i32> {
    seq![
        0i32, 10, 20, 40, 70, 100, 150, 200, 250, 300, 350, 400, 500, 600, 700, 800, 900, 1000,
        1200, 1400, 1600, 1800, 2000, 2500, 3000, 4000, 5000, 7000, 10000, 65535,
    ]
}

/// Differences between the delays of two successive packets, in milliseconds.
pub open spec fn delay_deltas_spec() -> Seq<i32> {
    seq![
        -1000i32, -500i32, -300i32, -200i32, -100i32, -90i32, -80i32, -70i32, -60i32, -50i32, -40i32, -30i32, -20i32, -10i32, -5i32, 0, 5,
        10, 20, 30, 40, 50, 60, 70, 80, 90, 100, 200, 300, 500, 1000,
    ]
}

pub fn clusters() -> (r: Vec<i32>)
    ensures
        r@ == clusters_spec(),
{
    let r = vec![
        1i32, 2, 3, 4, 5, 6, 7, 8, 9, 10, 12, 15, 20, 25, 30, 35, 40, 45, 50, 60, 70, 80, 90, 100,
        120, 150, 200, 300, 400, 65535,
    ];
    assert(r@ =~= clusters_spec());
    r
}

pub fn delay_values() -> (r: Vec<i32>)
    ensures
        r@ == delay_values_spec(),
{
    let r = vec![
        0i32, 10, 20, 40, 70, 100, 150, 200, 250, 300, 350, 400, 500, 600, 700, 800, 900, 1000,
        1200, 1400, 1600, 1800, 2000, 2500, 3000, 4000, 5000, 7000, 10000, 65535,
    ];
    assert(r@ =~= delay_values_spec());
    r
}

pub fn delay_deltas() -> (r: Vec<i32>)
    ensures
        r@ == delay_deltas_spec(),
{
    let r = vec![
        -1000i32, -500, -300, -200, -100, -90, -80, -70, -60, -50, -40, -30, -20, -10, -5, 0, 5,
        10, 20, 30, 40, 50, 60, 70, 80, 90, 100, 200, 300, 500, 1000,
    ];
    assert(r@ =~= delay_deltas_spec());
    r
}

/// The masses of a histogram, as integers.
pub open spec fn weights(v: Seq<u128>) -> Seq<int> {
    v.map_values(|w: u128| w as int)
}

/// Sum of a sequence.
pub open spec fn total(s: Seq<int>) -> int
    decreases s.len(),
{
    if s.len() == 0 {
        0
    } else {
        total(s.drop_last()) + s.last()
    }
}

/// Loss side of the results.
#[derive(Debug)]
pub struct LossModel {
    /// Run lengths of consecutively received packets, over `clusters()`.
    pub nonloss: Vec<u128>,
    /// Run lengths of missing packets, over `clusters()`.
    pub loss: Vec<u128>,
    /// Packets that the sender reports as dropped before the wire.
    pub sendside_lost: u32,
    /// Packets missing before the first received one.
    pub begin_lp: u32,
    /// Packets missing after the last received one.
    pub end_lp: u32,
}

/// Delay side of the results.
#[derive(Debug)]
pub struct DelayModel {
    /// One-way delays, over `delay_values()`.
    pub value_popularity: Vec<u128>,
    /// Delay jumps after no lost packet, over `delay_deltas()`.
    pub delta_noloss: Vec<u128>,
    /// Delay jumps after exactly one lost packet.
    pub delta_loss1: Vec<u128>,
    /// Delay jumps after two to twenty lost packets.
    pub delta_loss2_20: Vec<u128>,
    /// Delay jumps after more than twenty lost packets.
    pub delta_lossmany: Vec<u128>,
    /// Sum of the delays of the received packets, in milliseconds.
    pub delay_sum_ms: i64,
}

/// What the analyser makes of one direction of an experiment.
#[derive(Debug)]
pub struct ExperimentResults {
    pub delay_model: DelayModel,
    pub loss_model: LossModel,
    pub session_id: u64,
    /// Distinct sequence numbers received.
    pub total_received_packets: u32,
    /// Packets that were sent.
    pub total_packets: u32,
}

/// Mathematical content of `ExperimentResults`.
pub struct ResultsModel {
    pub nonloss: Seq<int>,
    pub loss: Seq<int>,
    pub value_popularity: Seq<int>,
    pub delta_noloss: Seq<int>,
    pub delta_loss1: Seq<int>,
    pub delta_loss2_20: Seq<int>,
    pub delta_lossmany: Seq<int>,
    pub sendside_lost: int,
    pub begin_lp: int,
    pub end_lp: int,
    pub delay_sum_ms: int,
    pub session_id: int,
    pub total_received_packets: int,
    pub total_packets: int,
}

/// The results `m` stamped with a session id.
pub open spec fn with_session(m: ResultsModel, sid: int) -> ResultsModel {
    ResultsModel { session_id: sid, ..m }
}

impl ExperimentResults {
    pub open spec fn model(&self) -> ResultsModel {
        ResultsModel {
            nonloss: weights(self.loss_model.nonloss@),
            loss: weights(self.loss_model.loss@),
            value_popularity: weights(self.delay_model.value_popularity@),
            delta_noloss: weights(self.delay_model.delta_noloss@),
            delta_loss1: weights(self.delay_model.delta_loss1@),
            delta_loss2_20: weights(self.delay_model.delta_loss2_20@),
            delta_lossmany: weights(self.delay_model.delta_lossmany@),
            sendside_lost: self.loss_model.sendside_lost as int,
            begin_lp: self.loss_model.begin_lp as int,
            end_lp: self.loss_model.end_lp as int,
            delay_sum_ms: self.delay_model.delay_sum_ms as int,
            session_id: self.session_id as int,
            total_received_packets: self.total_received_packets as int,
            total_packets: self.total_packets as int,
        }
    }

    /// A copy of the results.
    pub fn duplicate(&self) -> (r: ExperimentResults)
        ensures
            r.model() == self.model(),
    {
        ExperimentResults {
            delay_model: DelayModel {
                value_popularity: copy_masses(&self.delay_model.value_popularity),
                delta_noloss: copy_masses(&self.delay_model.delta_noloss),
                delta_loss1: copy_masses(&self.delay_model.delta_loss1),
                delta_loss2_20: copy_masses(&self.delay_model.delta_loss2_20),
                delta_lossmany: copy_masses(&self.delay_model.delta_lossmany),
                delay_sum_ms: self.delay_model.delay_sum_ms,
            },
            loss_model: LossModel {
                nonloss: copy_masses(&self.loss_model.nonloss),
                loss: copy_masses(&self.loss_model.loss),
                sendside_lost: self.loss_model.sendside_lost,
                begin_lp: self.loss_model.begin_lp,
                end_lp: self.loss_model.end_lp,
            },
            session_id: self.session_id,
            total_received_packets: self.total_received_packets,
            total_packets: self.total_packets,
        }
    }
}

fn copy_masses(v: &Vec<u128>) -> (r: Vec<u128>)
    ensures
        r@ == v@,
{
    let mut r: Vec<u128> = Vec::with_capacity(v.len());
    let mut i: usize = 0;
    while i < v.len()
        invariant
            i <= v@.len(),
            r@ == v@.subrange(0, i as int),
        decreases v@.len() - i,
    {
        r.push(v[i]);
        i += 1;
        assert(r@ =~= v@.subrange(0, i as int));
    }
    assert(v@ =~= v@.subrange(0, v@.len() as int));
    r
}

} // verus!
