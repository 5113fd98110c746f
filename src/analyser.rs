//! The analyser: from the records of the received packets to loss and delay
//! histograms.
use vstd::prelude::*;
use vstd::relations::{sorted_by, total_ordering};
use vstd::seq_lib::{group_to_multiset_ensures, lemma_sorted_unique};
use crate::receiver::Info;
use crate::results::{
    clusters, clusters_spec, delay_deltas, delay_deltas_spec, delay_values, delay_values_spec,
    total, weights, DelayModel, ExperimentResults, LossModel, ResultsModel, SEED, UNIT,
    ZERO_DELTA_IDX,
};

verus! {

// ---------------------------------------------------------------------------
// Registration of one value into a histogram
// ---------------------------------------------------------------------------

/// Index of the first registry entry at or above `x`, searching from `j`;
/// the registry's length where there is none.
pub open spec fn find_ge(reg: Seq<i32>, x: int, j: int) -> int
    decreases reg.len() - j,
{
    if 0 <= j < reg.len() {
        if reg[j] as int >= x {
            j
        } else {
            find_ge(reg, x, j + 1)
        }
    } else {
        reg.len() as int
    }
}

/// Adds one registration of `x` to the histogram `h` over the sorted bucket
/// centres `reg`. A value on a centre, below the first or above the last one
/// goes to that bucket whole; a value between two centres is split between
/// them in inverse proportion to its distance from each.
pub open spec fn register(h: Seq<int>, reg: Seq<i32>, x: int) -> Seq<int> {
    let i = find_ge(reg, x, 0);
    if i >= reg.len() {
        h.update(reg.len() - 1, h[reg.len() - 1] + UNIT)
    } else if reg[i] as int == x || i == 0 {
        h.update(i, h[i] + UNIT)
    } else {
        let p = reg[i - 1] as int;
        let n = reg[i] as int;
        let q = UNIT * (n - x) / (n - p);
        h.update(i - 1, h[i - 1] + q).update(i, h[i] + (UNIT - q))
    }
}

pub open spec fn nonneg(s: Seq<int>) -> bool {
    forall|i: int| 0 <= i < s.len() ==> s[i] >= 0
}

proof fn lemma_total_update(s: Seq<int>, k: int, v: int)
    requires
        0 <= k < s.len(),
    ensures
        total(s.update(k, v)) == total(s) - s[k] + v,
    decreases s.len(),
{
    if k == s.len() - 1 {
        assert(s.update(k, v).drop_last() =~= s.drop_last());
    } else {
        lemma_total_update(s.drop_last(), k, v);
        assert(s.update(k, v).drop_last() =~= s.drop_last().update(k, v));
    }
}

proof fn lemma_elem_le_total(s: Seq<int>, k: int)
    requires
        0 <= k < s.len(),
        nonneg(s),
    ensures
        s[k] <= total(s),
        total(s) >= 0,
    decreases s.len(),
{
    lemma_total_nonneg(s.drop_last());
    if k < s.len() - 1 {
        lemma_elem_le_total(s.drop_last(), k);
    }
}

proof fn lemma_total_nonneg(s: Seq<int>)
    requires
        nonneg(s),
    ensures
        total(s) >= 0,
    decreases s.len(),
{
    if s.len() > 0 {
        lemma_total_nonneg(s.drop_last());
    }
}

proof fn lemma_find_ge(reg: Seq<i32>, x: int, j: int)
    requires
        0 <= j <= reg.len(),
    ensures
        j <= find_ge(reg, x, j) <= reg.len(),
        forall|k: int| j <= k < find_ge(reg, x, j) ==> (reg[k] as int) < x,
        find_ge(reg, x, j) < reg.len() ==> reg[find_ge(reg, x, j)] as int >= x,
    decreases reg.len() - j,
{
    if j < reg.len() && (reg[j] as int) < x {
        lemma_find_ge(reg, x, j + 1);
    }
}

/// One registration adds exactly one `UNIT` of mass and keeps every bucket
/// non-negative.
pub proof fn lemma_register(h: Seq<int>, reg: Seq<i32>, x: int)
    requires
        reg.len() > 0,
        h.len() == reg.len(),
        nonneg(h),
    ensures
        register(h, reg, x).len() == h.len(),
        total(register(h, reg, x)) == total(h) + UNIT,
        nonneg(register(h, reg, x)),
{
    lemma_find_ge(reg, x, 0);
    let i = find_ge(reg, x, 0);
    if i >= reg.len() {
        lemma_total_update(h, reg.len() - 1, h[reg.len() - 1] + UNIT);
    } else if reg[i] as int == x || i == 0 {
        lemma_total_update(h, i, h[i] + UNIT);
    } else {
        let p = reg[i - 1] as int;
        let n = reg[i] as int;
        let q = UNIT * (n - x) / (n - p);
        assert(0 <= q <= UNIT) by (nonlinear_arith)
            requires
                p < x,
                x < n,
                q == UNIT * (n - x) / (n - p),
        ;
        let h1 = h.update(i - 1, h[i - 1] + q);
        lemma_total_update(h, i - 1, h[i - 1] + q);
        lemma_total_update(h1, i, h[i] + (UNIT - q));
    }
}

/// Registers `x` into `h` over the bucket centres `reg`.
fn register_value(h: &mut Vec<u128>, reg: &Vec<i32>, x: i64)
    requires
        reg@.len() > 0,
        old(h)@.len() == reg@.len(),
        total(weights(old(h)@)) + UNIT <= u128::MAX,
    ensures
        weights(final(h)@) == register(weights(old(h)@), reg@, x as int),
{
    let ghost w0 = weights(h@);
    proof {
        lemma_find_ge(reg@, x as int, 0);
    }
    let mut i: usize = 0;
    while i < reg.len() && (reg[i] as i64) < x
        invariant
            0 <= i <= reg@.len(),
            find_ge(reg@, x as int, 0) == find_ge(reg@, x as int, i as int),
        decreases reg@.len() - i,
    {
        i += 1;
    }
    assert(find_ge(reg@, x as int, 0) == i);
    let n = reg.len();
    if i >= n {
        proof {
            lemma_elem_le_total(w0, n - 1);
        }
        let v = h[n - 1] + UNIT;
        h.set(n - 1, v);
        assert(weights(h@) =~= w0.update(n - 1, v as int));
    } else if reg[i] as i64 == x || i == 0 {
        proof {
            lemma_elem_le_total(w0, i as int);
        }
        let v = h[i] + UNIT;
        h.set(i, v);
        assert(weights(h@) =~= w0.update(i as int, v as int));
    } else {
        let p = reg[i - 1] as i64;
        let nx = reg[i] as i64;
        let num = (nx - x) as u128;
        let den = (nx - p) as u128;
        assert(UNIT * num <= UNIT * 0x1_0000_0000) by (nonlinear_arith)
            requires num <= 0x1_0000_0000;
        let q = UNIT * num / den;
        assert(0 <= q <= UNIT) by (nonlinear_arith)
            requires
                0 < num < den,
                q as int == (UNIT as int * num as int) / den as int,
        ;
        proof {
            lemma_elem_le_total(w0, i - 1);
            lemma_elem_le_total(w0, i as int);
        }
        let a = h[i - 1] + q;
        h.set(i - 1, a);
        let b = h[i] + (UNIT - q);
        h.set(i, b);
        assert(weights(h@) =~= w0.update(i - 1, a as int).update(i as int, b as int));
    }
}

// ---------------------------------------------------------------------------
// From records to (sequence number, delay) pairs
// ---------------------------------------------------------------------------

/// Delay of one packet in milliseconds: the difference of the two
/// timestamps, divided by 1000 and rounded toward zero.
pub open spec fn raw_delay(x: Info) -> int {
    if x.rt_us >= x.st_us {
        (x.rt_us - x.st_us) / 1000
    } else {
        -((x.st_us - x.rt_us) / 1000)
    }
}

/// The smallest delay among the first `n` records (`i32::MAX` if there is none).
pub open spec fn min_delay_prefix(v: Seq<Info>, n: int) -> int
    decreases n,
{
    if n <= 0 {
        i32::MAX as int
    } else {
        let m = min_delay_prefix(v, n - 1);
        let d = raw_delay(v[n - 1]);
        if m > d {
            d
        } else {
            m
        }
    }
}

pub open spec fn min_delay(v: Seq<Info>) -> int {
    min_delay_prefix(v, v.len() as int)
}

/// Added to every delay so that none is negative: the negated smallest
/// delay where that is negative, else zero.
pub open spec fn delay_shift(v: Seq<Info>) -> int {
    if min_delay(v) < 0 {
        -min_delay(v)
    } else {
        0
    }
}

pub open spec fn record_of(x: Info, shift: int) -> (u32, i64) {
    (x.seqn, (raw_delay(x) + shift) as i64)
}

/// The (sequence number, delay) pair of each record, in input order.
pub open spec fn records(v: Seq<Info>) -> Seq<(u32, i64)> {
    v.map_values(|x: Info| record_of(x, delay_shift(v)))
}

pub open spec fn pair_leq(a: (u32, i64), b: (u32, i64)) -> bool {
    a.0 < b.0 || (a.0 == b.0 && a.1 <= b.1)
}

/// Pairs ordered by sequence number, then by delay.
pub open spec fn pair_order() -> spec_fn((u32, i64), (u32, i64)) -> bool {
    |a: (u32, i64), b: (u32, i64)| pair_leq(a, b)
}

pub open spec fn sorted_records(v: Seq<Info>) -> Seq<(u32, i64)> {
    records(v).sort_by(pair_order())
}

/// Keeps the first pair of each run of pairs with one sequence number.
pub open spec fn dedup(s: Seq<(u32, i64)>) -> Seq<(u32, i64)>
    decreases s.len(),
{
    if s.len() == 0 {
        s
    } else {
        let d = dedup(s.drop_last());
        if d.len() > 0 && d.last().0 == s.last().0 {
            d
        } else {
            d.push(s.last())
        }
    }
}

/// The pairs that the analyser walks: sorted, one per sequence number, with
/// the smallest delay seen for it.
pub open spec fn received(v: Seq<Info>) -> Seq<(u32, i64)> {
    dedup(sorted_records(v))
}

pub proof fn lemma_pair_order_total()
    ensures
        total_ordering(pair_order()),
{
}

proof fn lemma_min_delay_prefix(v: Seq<Info>, n: int)
    requires
        0 <= n <= v.len(),
    ensures
        forall|j: int| 0 <= j < n ==> min_delay_prefix(v, n) <= raw_delay(#[trigger] v[j]),
        min_delay_prefix(v, n) >= -4294967,
        min_delay_prefix(v, n) <= i32::MAX,
        n == 0 ==> min_delay_prefix(v, n) == i32::MAX,
        n > 0 ==> exists|j: int| 0 <= j < n && min_delay_prefix(v, n) == raw_delay(#[trigger] v[j]),
    decreases n,
{
    if n > 0 {
        lemma_min_delay_prefix(v, n - 1);
        if min_delay_prefix(v, n - 1) > raw_delay(v[n - 1]) {
            assert(min_delay_prefix(v, n) == raw_delay(v[n - 1]));
        } else {
            if n - 1 == 0 {
                assert(min_delay_prefix(v, n) == raw_delay(v[n - 1]));
            } else {
                let j = choose|j: int| 0 <= j < n - 1 && min_delay_prefix(v, n - 1) == raw_delay(#[trigger] v[j]);
                assert(min_delay_prefix(v, n) == raw_delay(v[j]));
            }
        }
    }
}

pub open spec fn delay_ok(r: (u32, i64)) -> bool {
    -10_000_000 <= r.1 <= 10_000_000
}

proof fn lemma_records_bounded(v: Seq<Info>)
    ensures
        forall|k: int| 0 <= k < records(v).len() ==> delay_ok(#[trigger] records(v)[k]),
        forall|k: int|
            0 <= k < records(v).len() ==> (#[trigger] records(v)[k]).1 as int == raw_delay(v[k])
                + delay_shift(v),
        forall|x: (u32, i64)| sorted_records(v).contains(x) ==> delay_ok(x),
        sorted_by(sorted_records(v), pair_order()),
        sorted_records(v).to_multiset() == records(v).to_multiset(),
        sorted_records(v).len() == v.len(),
{
    broadcast use group_to_multiset_ensures;

    lemma_min_delay_prefix(v, v.len() as int);
    assert forall|k: int| 0 <= k < records(v).len() implies delay_ok(#[trigger] records(v)[k])
        && records(v)[k].1 as int == raw_delay(v[k]) + delay_shift(v) by {
        assert(min_delay(v) <= raw_delay(v[k]));
    }
    lemma_pair_order_total();
    records(v).lemma_sort_by_ensures(pair_order());
    assert(sorted_records(v).to_multiset().len() == sorted_records(v).len());
    assert(records(v).to_multiset().len() == records(v).len());
    assert forall|x: (u32, i64)| sorted_records(v).contains(x) implies delay_ok(x) by {
        assert(records(v).contains(x));
    }
}

proof fn lemma_dedup(s: Seq<(u32, i64)>)
    requires
        sorted_by(s, pair_order()),
    ensures
        forall|i: int, j: int| 0 <= i < j < dedup(s).len() ==> dedup(s)[i].0 < dedup(s)[j].0,
        forall|k: int| 0 <= k < dedup(s).len() ==> s.contains(#[trigger] dedup(s)[k]),
        dedup(s).len() <= s.len(),
        s.len() > 0 ==> dedup(s).len() > 0 && dedup(s).last().0 == s.last().0,
    decreases s.len(),
{
    if s.len() > 0 {
        let t = s.drop_last();
        assert(sorted_by(t, pair_order()));
        lemma_dedup(t);
        let d = dedup(t);
        assert forall|k: int| 0 <= k < d.len() implies s.contains(#[trigger] d[k]) by {
            assert(t.contains(d[k]));
            let j = choose|j: int| 0 <= j < t.len() && t[j] == d[k];
            assert(s[j] == d[k]);
        }
        if d.len() > 0 && d.last().0 == s.last().0 {
        } else {
            if t.len() > 0 {
                assert(pair_order()(s[s.len() - 2], s[s.len() - 1]));
                assert(pair_leq(t.last(), s.last()));
            }
            let d2 = d.push(s.last());
            assert forall|k: int| 0 <= k < d2.len() implies s.contains(#[trigger] d2[k]) by {
                if k == d.len() {
                    assert(s[s.len() - 1] == d2[k]);
                }
            }
        }
    }
}

// ---------------------------------------------------------------------------
// The walk over the received pairs
// ---------------------------------------------------------------------------

/// State of the walk over the received pairs.
pub struct Walk {
    pub nonloss: Seq<int>,
    pub loss: Seq<int>,
    pub values: Seq<int>,
    pub d_noloss: Seq<int>,
    pub d_loss1: Seq<int>,
    pub d_loss2_20: Seq<int>,
    pub d_lossmany: Seq<int>,
    pub begin_lp: int,
    /// Length of the current run of received packets.
    pub run: int,
    pub prev_seqn: int,
    pub prev_delay: int,
    /// No gap after sequence number zero has been seen yet.
    pub first: bool,
    pub delay_sum: int,
    /// Number of registrations into each histogram.
    pub n_nonloss: int,
    pub n_loss: int,
    pub n_d_noloss: int,
    pub n_d_loss1: int,
    pub n_d_loss2_20: int,
    pub n_d_lossmany: int,
}

/// A histogram of `len` buckets holding the seed mass in bucket `at`.
pub open spec fn seeded(len: nat, at: int) -> Seq<int> {
    Seq::new(len, |i: int| if i == at { SEED as int } else { 0 })
}

pub open spec fn walk_start() -> Walk {
    Walk {
        nonloss: seeded(30, 29),
        loss: seeded(30, 0),
        values: seeded(30, 0),
        d_noloss: seeded(31, 15),
        d_loss1: seeded(31, 15),
        d_loss2_20: seeded(31, 15),
        d_lossmany: seeded(31, 15),
        begin_lp: 0,
        run: 0,
        prev_seqn: 0,
        prev_delay: 0,
        first: true,
        delay_sum: 0,
        n_nonloss: 0,
        n_loss: 0,
        n_d_noloss: 0,
        n_d_loss1: 0,
        n_d_loss2_20: 0,
        n_d_lossmany: 0,
    }
}

/// The loss part of one step: a gap closes the current run and is registered
/// as a loss cluster, or, for the first gap after sequence number zero, as
/// the packets lost at the beginning.
pub open spec fn walk_loss(w: Walk, gap: int) -> Walk {
    if gap <= 1 {
        Walk { run: w.run + 1, ..w }
    } else {
        let nl = if w.run > 0 {
            register(w.nonloss, clusters_spec(), w.run)
        } else {
            w.nonloss
        };
        let nn = if w.run > 0 {
            w.n_nonloss + 1
        } else {
            w.n_nonloss
        };
        if w.first && w.prev_seqn == 0 {
            Walk { nonloss: nl, n_nonloss: nn, run: 0, begin_lp: gap - 1, first: false, ..w }
        } else {
            Walk {
                nonloss: nl,
                n_nonloss: nn,
                run: 0,
                loss: register(w.loss, clusters_spec(), gap - 1),
                n_loss: w.n_loss + 1,
                ..w
            }
        }
    }
}

/// The delay-jump part of one step: the histogram is chosen by the gap.
pub open spec fn walk_jump(w: Walk, gap: int, jump: int) -> Walk {
    if gap <= 1 {
        Walk {
            d_noloss: register(w.d_noloss, delay_deltas_spec(), jump),
            n_d_noloss: w.n_d_noloss + 1,
            ..w
        }
    } else if gap == 2 {
        Walk {
            d_loss1: register(w.d_loss1, delay_deltas_spec(), jump),
            n_d_loss1: w.n_d_loss1 + 1,
            ..w
        }
    } else if gap <= 21 {
        Walk {
            d_loss2_20: register(w.d_loss2_20, delay_deltas_spec(), jump),
            n_d_loss2_20: w.n_d_loss2_20 + 1,
            ..w
        }
    } else {
        Walk {
            d_lossmany: register(w.d_lossmany, delay_deltas_spec(), jump),
            n_d_lossmany: w.n_d_lossmany + 1,
            ..w
        }
    }
}

pub open spec fn walk_step(w: Walk, r: (u32, i64)) -> Walk {
    let seqn = r.0 as int;
    let d = r.1 as int;
    let gap = seqn - w.prev_seqn;
    let w1 = walk_loss(w, gap);
    let w2 = Walk { values: register(w1.values, delay_values_spec(), d), ..w1 };
    let w3 = walk_jump(w2, gap, d - w.prev_delay);
    Walk { prev_seqn: seqn, prev_delay: d, delay_sum: w3.delay_sum + d, ..w3 }
}

pub open spec fn walk(s: Seq<(u32, i64)>) -> Walk
    decreases s.len(),
{
    if s.len() == 0 {
        walk_start()
    } else {
        walk_step(walk(s.drop_last()), s.last())
    }
}

/// The non-loss histogram after the run still open at the end is registered.
pub open spec fn final_nonloss(w: Walk) -> Seq<int> {
    if w.run > 0 {
        register(w.nonloss, clusters_spec(), w.run)
    } else {
        w.nonloss
    }
}

/// What the analyser returns for the records `v` of an experiment of `total`
/// packets.
pub open spec fn analysis(v: Seq<Info>, total: int) -> ResultsModel {
    let d = received(v);
    let w = walk(d);
    ResultsModel {
        nonloss: final_nonloss(w),
        loss: w.loss,
        value_popularity: w.values,
        delta_noloss: w.d_noloss,
        delta_loss1: w.d_loss1,
        delta_loss2_20: w.d_loss2_20,
        delta_lossmany: w.d_lossmany,
        sendside_lost: 0,
        begin_lp: w.begin_lp,
        end_lp: if w.prev_seqn + 1 < total {
            total - w.prev_seqn - 1
        } else {
            0
        },
        delay_sum_ms: w.delay_sum,
        session_id: 0,
        total_received_packets: d.len() as int,
        total_packets: total,
    }
}

/// Facts that hold after walking any sequence of bounded pairs.
pub open spec fn walk_facts(s: Seq<(u32, i64)>, w: Walk) -> bool {
    &&& w.nonloss.len() == 30 && w.loss.len() == 30 && w.values.len() == 30
    &&& w.d_noloss.len() == 31 && w.d_loss1.len() == 31
    &&& w.d_loss2_20.len() == 31 && w.d_lossmany.len() == 31
    &&& nonneg(w.nonloss) && nonneg(w.loss) && nonneg(w.values)
    &&& nonneg(w.d_noloss) && nonneg(w.d_loss1) && nonneg(w.d_loss2_20) && nonneg(w.d_lossmany)
    &&& total(w.nonloss) == SEED + UNIT * w.n_nonloss
    &&& total(w.loss) == SEED + UNIT * w.n_loss
    &&& total(w.values) == SEED + UNIT * s.len()
    &&& total(w.d_noloss) == SEED + UNIT * w.n_d_noloss
    &&& total(w.d_loss1) == SEED + UNIT * w.n_d_loss1
    &&& total(w.d_loss2_20) == SEED + UNIT * w.n_d_loss2_20
    &&& total(w.d_lossmany) == SEED + UNIT * w.n_d_lossmany
    &&& w.n_d_noloss + w.n_d_loss1 + w.n_d_loss2_20 + w.n_d_lossmany == s.len()
    &&& 0 <= w.n_nonloss <= s.len() && 0 <= w.n_loss <= s.len()
    &&& 0 <= w.n_d_noloss && 0 <= w.n_d_loss1 && 0 <= w.n_d_loss2_20 && 0 <= w.n_d_lossmany
    &&& 0 <= w.run <= s.len()
    &&& -10_000_000 * s.len() <= w.delay_sum <= 10_000_000 * s.len()
    &&& w.prev_seqn == (if s.len() == 0 { 0 } else { s.last().0 as int })
    &&& w.prev_delay == (if s.len() == 0 { 0 } else { s.last().1 as int })
    &&& 0 <= w.begin_lp <= u32::MAX
}

proof fn lemma_seeded(len: nat, at: int)
    requires
        0 <= at < len,
    ensures
        total(seeded(len, at)) == SEED,
        nonneg(seeded(len, at)),
{
    assert forall|n: nat| n <= len implies total(#[trigger] seeded(len, at).subrange(0, n as int))
        == (if n > at { SEED as int } else { 0 }) by {
        lemma_seeded_prefix(len, at, n);
    }
    assert(seeded(len, at).subrange(0, len as int) =~= seeded(len, at));
}

proof fn lemma_seeded_prefix(len: nat, at: int, n: nat)
    requires
        0 <= at < len,
        n <= len,
    ensures
        total(seeded(len, at).subrange(0, n as int)) == (if n > at { SEED as int } else { 0 }),
    decreases n,
{
    if n > 0 {
        lemma_seeded_prefix(len, at, (n - 1) as nat);
        assert(seeded(len, at).subrange(0, n as int).drop_last() =~= seeded(len, at).subrange(
            0,
            n - 1,
        ));
    }
}

pub proof fn lemma_walk(s: Seq<(u32, i64)>)
    requires
        forall|k: int| 0 <= k < s.len() ==> delay_ok(#[trigger] s[k]),
        forall|i: int, j: int| 0 <= i < j < s.len() ==> s[i].0 < s[j].0,
    ensures
        walk_facts(s, walk(s)),
    decreases s.len(),
{
    if s.len() == 0 {
        lemma_seeded(30, 29);
        lemma_seeded(30, 0);
        lemma_seeded(31, 15);
    } else {
        let t = s.drop_last();
        lemma_walk(t);
        let w = walk(t);
        let r = s.last();
        let gap = r.0 as int - w.prev_seqn;
        assert(delay_ok(s[s.len() - 1]));
        if t.len() > 0 {
            assert(t.last().0 < r.0);
        }
        if gap > 1 && w.run > 0 {
            lemma_register(w.nonloss, clusters_spec(), w.run);
        }
        if gap > 1 && !(w.first && w.prev_seqn == 0) {
            lemma_register(w.loss, clusters_spec(), gap - 1);
        }
        let w1 = walk_loss(w, gap);
        lemma_register(w1.values, delay_values_spec(), r.1 as int);
        let w2 = Walk { values: register(w1.values, delay_values_spec(), r.1 as int), ..w1 };
        let jump = r.1 as int - w.prev_delay;
        if gap <= 1 {
            lemma_register(w2.d_noloss, delay_deltas_spec(), jump);
        } else if gap == 2 {
            lemma_register(w2.d_loss1, delay_deltas_spec(), jump);
        } else if gap <= 21 {
            lemma_register(w2.d_loss2_20, delay_deltas_spec(), jump);
        } else {
            lemma_register(w2.d_lossmany, delay_deltas_spec(), jump);
        }
        assert(-10_000_000 * t.len() - 10_000_000 == -10_000_000 * s.len());
        assert(10_000_000 * t.len() + 10_000_000 == 10_000_000 * s.len());
        assert(UNIT * t.len() + UNIT == UNIT * s.len());
        assert(UNIT * w.n_nonloss + UNIT == UNIT * (w.n_nonloss + 1));
        assert(UNIT * w.n_loss + UNIT == UNIT * (w.n_loss + 1));
        assert(UNIT * w.n_d_noloss + UNIT == UNIT * (w.n_d_noloss + 1));
        assert(UNIT * w.n_d_loss1 + UNIT == UNIT * (w.n_d_loss1 + 1));
        assert(UNIT * w.n_d_loss2_20 + UNIT == UNIT * (w.n_d_loss2_20 + 1));
        assert(UNIT * w.n_d_lossmany + UNIT == UNIT * (w.n_d_lossmany + 1));
    }
}

// ---------------------------------------------------------------------------
// The analyser
// ---------------------------------------------------------------------------

/// Relies on `slice::sort`: afterwards the pairs are in ascending order (std
/// orders tuples lexicographically) and are a permutation of what they were.
#[verifier::external_body]
fn sort_pairs(v: &mut Vec<(u32, i64)>)
    ensures
        final(v)@.to_multiset() == old(v)@.to_multiset(),
        sorted_by(final(v)@, pair_order()),
{
    v.sort();
}

/// A histogram of `len` buckets holding the seed mass in bucket `at`.
fn seeded_masses(len: usize, at: usize) -> (r: Vec<u128>)
    requires
        at < len,
    ensures
        weights(r@) == seeded(len as nat, at as int),
{
    let mut r: Vec<u128> = Vec::with_capacity(len);
    let mut i: usize = 0;
    while i < len
        invariant
            i <= len,
            r@.len() == i,
            forall|k: int| 0 <= k < i ==> r@[k] as int == (if k == at { SEED as int } else { 0 }),
        decreases len - i,
    {
        if i == at {
            r.push(SEED);
        } else {
            r.push(0);
        }
        i += 1;
    }
    assert(weights(r@) =~= seeded(len as nat, at as int));
    r
}

/// The (sequence number, delay) pairs of the records, sorted, one per
/// sequence number.
fn received_pairs(v: &[Info]) -> (d: Vec<(u32, i64)>)
    ensures
        d@ == received(v@),
{
    let mut tmp: Vec<(u32, i64)> = Vec::with_capacity(v.len());
    let mut mind: i64 = i32::MAX as i64;
    let mut i: usize = 0;
    while i < v.len()
        invariant
            i <= v@.len(),
            tmp@.len() == i,
            forall|k: int| 0 <= k < i ==> tmp@[k] == record_of(v@[k], 0),
            mind as int == min_delay_prefix(v@, i as int),
        decreases v@.len() - i,
    {
        let x = v[i];
        let d: i64 = if x.rt_us >= x.st_us {
            ((x.rt_us - x.st_us) / 1000) as i64
        } else {
            -(((x.st_us - x.rt_us) / 1000) as i64)
        };
        tmp.push((x.seqn, d));
        if mind > d {
            mind = d;
        }
        i += 1;
    }
    proof {
        lemma_min_delay_prefix(v@, v@.len() as int);
    }
    if mind < 0 {
        let mut j: usize = 0;
        while j < tmp.len()
            invariant
                tmp@.len() == v@.len(),
                mind as int == min_delay(v@),
                -4294967 <= mind < 0,
                forall|k: int| 0 <= k < j ==> tmp@[k] == record_of(v@[k], delay_shift(v@)),
                forall|k: int| j <= k < tmp@.len() ==> tmp@[k] == record_of(v@[k], 0),
            decreases tmp@.len() - j,
        {
            let (sq, d) = tmp[j];
            tmp.set(j, (sq, d - mind));
            j += 1;
        }
    }
    assert(tmp@ =~= records(v@));
    sort_pairs(&mut tmp);
    proof {
        lemma_records_bounded(v@);
        lemma_pair_order_total();
        lemma_sorted_unique(tmp@, sorted_records(v@), pair_order());
    }
    let mut dd: Vec<(u32, i64)> = Vec::new();
    let mut i: usize = 0;
    while i < tmp.len()
        invariant
            i <= tmp@.len(),
            dd@ == dedup(tmp@.subrange(0, i as int)),
        decreases tmp@.len() - i,
    {
        let p = tmp[i];
        if dd.len() > 0 && dd[dd.len() - 1].0 == p.0 {
        } else {
            dd.push(p);
        }
        assert(tmp@.subrange(0, i + 1).drop_last() =~= tmp@.subrange(0, i as int));
        i += 1;
    }
    assert(tmp@.subrange(0, tmp@.len() as int) =~= tmp@);
    dd
}

/// Mutable state of the walk, one variable per field of `Walk`.
struct WalkVars {
    nonloss: Vec<u128>,
    loss: Vec<u128>,
    values: Vec<u128>,
    d_noloss: Vec<u128>,
    d_loss1: Vec<u128>,
    d_loss2_20: Vec<u128>,
    d_lossmany: Vec<u128>,
    begin_lp: u32,
    run: u32,
    prev_seqn: u32,
    prev_delay: i64,
    first: bool,
    delay_sum: i64,
}

impl WalkVars {
    spec fn matches(&self, w: Walk) -> bool {
        &&& weights(self.nonloss@) == w.nonloss
        &&& weights(self.loss@) == w.loss
        &&& weights(self.values@) == w.values
        &&& weights(self.d_noloss@) == w.d_noloss
        &&& weights(self.d_loss1@) == w.d_loss1
        &&& weights(self.d_loss2_20@) == w.d_loss2_20
        &&& weights(self.d_lossmany@) == w.d_lossmany
        &&& self.begin_lp as int == w.begin_lp
        &&& self.run as int == w.run
        &&& self.prev_seqn as int == w.prev_seqn
        &&& self.prev_delay as int == w.prev_delay
        &&& self.first == w.first
        &&& self.delay_sum as int == w.delay_sum
    }
}

proof fn lemma_mass_fits(n: int, k: int)
    requires
        0 <= n <= k <= u32::MAX,
    ensures
        SEED + UNIT * n + UNIT <= u128::MAX,
        -10_000_000 * k <= -10_000_000 * n,
        10_000_000 * n <= 10_000_000 * k,
        10_000_000 * k + 10_000_000 <= i64::MAX,
{
    assert(UNIT * n <= UNIT * u32::MAX) by (nonlinear_arith)
        requires
            0 <= n <= u32::MAX,
    ;
    assert(10_000_000 * n <= 10_000_000 * k) by (nonlinear_arith)
        requires
            0 <= n <= k,
    ;
    assert(10_000_000 * k <= 10_000_000 * u32::MAX) by (nonlinear_arith)
        requires
            0 <= k <= u32::MAX,
    ;
}

/// One step of the walk: the pair `(seqn, d)` follows the pairs already walked.
fn walk_one(st: &mut WalkVars, seqn: u32, d: i64, clu: &Vec<i32>, dv: &Vec<i32>, dl: &Vec<i32>, Ghost(s): Ghost<Seq<(u32, i64)>>)
    requires
        clu@ == clusters_spec(),
        dv@ == delay_values_spec(),
        dl@ == delay_deltas_spec(),
        s.len() < u32::MAX,
        walk_facts(s, walk(s)),
        old(st).matches(walk(s)),
        old(st).prev_seqn <= seqn,
        delay_ok((seqn, d)),
        s.len() > 0 ==> delay_ok(s.last()),
    ensures
        final(st).matches(walk_step(walk(s), (seqn, d))),
{
    let ghost w = walk(s);
    proof {
        lemma_mass_fits(w.n_nonloss, s.len() as int);
        lemma_mass_fits(w.n_loss, s.len() as int);
        lemma_mass_fits(s.len() as int, s.len() as int);
        lemma_mass_fits(w.n_d_noloss, s.len() as int);
        lemma_mass_fits(w.n_d_loss1, s.len() as int);
        lemma_mass_fits(w.n_d_loss2_20, s.len() as int);
        lemma_mass_fits(w.n_d_lossmany, s.len() as int);
    }
    let gap: u32 = seqn - st.prev_seqn;
    if gap <= 1 {
        st.run = st.run + 1;
    } else {
        if st.run > 0 {
            register_value(&mut st.nonloss, clu, st.run as i64);
        }
        st.run = 0;
        if st.first && st.prev_seqn == 0 {
            st.begin_lp = gap - 1;
            st.first = false;
        } else {
            register_value(&mut st.loss, clu, (gap - 1) as i64);
        }
    }
    assert(st.matches(Walk { prev_seqn: w.prev_seqn, ..walk_loss(w, gap as int) }));
    st.prev_seqn = seqn;
    register_value(&mut st.values, dv, d);
    let jump: i64 = d - st.prev_delay;
    if gap <= 1 {
        register_value(&mut st.d_noloss, dl, jump);
    } else if gap == 2 {
        register_value(&mut st.d_loss1, dl, jump);
    } else if gap <= 21 {
        register_value(&mut st.d_loss2_20, dl, jump);
    } else {
        register_value(&mut st.d_lossmany, dl, jump);
    }
    st.prev_delay = d;
    st.delay_sum = st.delay_sum + d;
}

/// Turns the records of the received packets of an experiment of `total`
/// packets into loss and delay histograms.
pub fn analyse(v: &[Info], total: usize) -> (r: ExperimentResults)
    requires
        v@.len() <= u32::MAX,
        total <= u32::MAX,
    ensures
        r.model() == analysis(v@, total as int),
{
    let dd = received_pairs(v);
    proof {
        lemma_records_bounded(v@);
        lemma_dedup(sorted_records(v@));
        assert forall|k: int| 0 <= k < dd@.len() implies delay_ok(#[trigger] dd@[k]) by {
            assert(sorted_records(v@).contains(dd@[k]));
        }
    }
    let clu = clusters();
    let dv = delay_values();
    let dl = delay_deltas();
    let mut st = WalkVars {
        nonloss: seeded_masses(30, 29),
        loss: seeded_masses(30, 0),
        values: seeded_masses(30, 0),
        d_noloss: seeded_masses(31, ZERO_DELTA_IDX),
        d_loss1: seeded_masses(31, ZERO_DELTA_IDX),
        d_loss2_20: seeded_masses(31, ZERO_DELTA_IDX),
        d_lossmany: seeded_masses(31, ZERO_DELTA_IDX),
        begin_lp: 0,
        run: 0,
        prev_seqn: 0,
        prev_delay: 0,
        first: true,
        delay_sum: 0,
    };
    assert(dd@.subrange(0, 0) =~= Seq::<(u32, i64)>::empty());
    let mut i: usize = 0;
    while i < dd.len()
        invariant
            i <= dd@.len() <= v@.len(),
            v@.len() <= u32::MAX,
            clu@ == clusters_spec(),
            dv@ == delay_values_spec(),
            dl@ == delay_deltas_spec(),
            forall|k: int| 0 <= k < dd@.len() ==> delay_ok(#[trigger] dd@[k]),
            forall|a: int, b: int| 0 <= a < b < dd@.len() ==> dd@[a].0 < dd@[b].0,
            st.matches(walk(dd@.subrange(0, i as int))),
        decreases dd@.len() - i,
    {
        let ghost s = dd@.subrange(0, i as int);
        proof {
            lemma_walk(s);
            if i > 0 {
                assert(s.last() == dd@[i - 1]);
            }
        }
        let (seqn, d) = dd[i];
        walk_one(&mut st, seqn, d, &clu, &dv, &dl, Ghost(s));
        assert(dd@.subrange(0, i + 1).drop_last() =~= s);
        i += 1;
    }
    assert(dd@.subrange(0, dd@.len() as int) =~= dd@);
    proof {
        lemma_walk(dd@);
        lemma_mass_fits(walk(dd@).n_nonloss, dd@.len() as int);
    }
    if st.run > 0 {
        register_value(&mut st.nonloss, &clu, st.run as i64);
    }
    let end_lp: u32 = if (st.prev_seqn as u64) + 1 < total as u64 {
        (total as u64 - st.prev_seqn as u64 - 1) as u32
    } else {
        0
    };
    ExperimentResults {
        delay_model: DelayModel {
            value_popularity: st.values,
            delta_noloss: st.d_noloss,
            delta_loss1: st.d_loss1,
            delta_loss2_20: st.d_loss2_20,
            delta_lossmany: st.d_lossmany,
            delay_sum_ms: st.delay_sum,
        },
        loss_model: LossModel {
            nonloss: st.nonloss,
            loss: st.loss,
            sendside_lost: 0,
            begin_lp: st.begin_lp,
            end_lp,
        },
        session_id: 0,
        total_received_packets: dd.len() as u32,
        total_packets: total as u32,
    }
}

// ---------------------------------------------------------------------------
// Laws of the analyser
// ---------------------------------------------------------------------------

/// Every histogram of the analysis has non-negative buckets and a positive
/// total mass, so that each normalized bucket lies in [0, 1] and the
/// normalized buckets sum to one. The loss histogram holds one `UNIT` per gap
/// classified as a loss cluster (the gap counted as lost at the beginning is
/// not one), the delay histogram one per received packet, and the four delay
/// jump histograms together one per received packet, above their seeds.
pub proof fn lemma_histograms_normalizable(v: Seq<Info>, t: int)
    ensures
        ({
            let r = analysis(v, t);
            let w = walk(received(v));
            &&& nonneg(r.nonloss) && nonneg(r.loss) && nonneg(r.value_popularity)
            &&& nonneg(r.delta_noloss) && nonneg(r.delta_loss1)
            &&& nonneg(r.delta_loss2_20) && nonneg(r.delta_lossmany)
            &&& r.nonloss.len() == 30 && r.loss.len() == 30 && r.value_popularity.len() == 30
            &&& r.delta_noloss.len() == 31 && r.delta_loss1.len() == 31
            &&& r.delta_loss2_20.len() == 31 && r.delta_lossmany.len() == 31
            &&& total(r.nonloss) >= SEED && total(r.loss) >= SEED
            &&& total(r.delta_noloss) >= SEED && total(r.delta_loss1) >= SEED
            &&& total(r.delta_loss2_20) >= SEED && total(r.delta_lossmany) >= SEED
            &&& total(r.loss) == SEED + UNIT * w.n_loss
            &&& total(r.value_popularity) == SEED + UNIT * r.total_received_packets
            &&& total(r.delta_noloss) + total(r.delta_loss1) + total(r.delta_loss2_20) + total(
                r.delta_lossmany,
            ) == 4 * SEED + UNIT * r.total_received_packets
        }),
{
    lemma_records_bounded(v);
    lemma_dedup(sorted_records(v));
    let d = received(v);
    assert forall|k: int| 0 <= k < d.len() implies delay_ok(#[trigger] d[k]) by {
        assert(sorted_records(v).contains(d[k]));
    }
    lemma_walk(d);
    let w = walk(d);
    if w.run > 0 {
        lemma_register(w.nonloss, clusters_spec(), w.run);
    }
    assert(UNIT * w.n_d_noloss + UNIT * w.n_d_loss1 + UNIT * w.n_d_loss2_20 + UNIT
        * w.n_d_lossmany == UNIT * d.len()) by (nonlinear_arith)
        requires
            w.n_d_noloss + w.n_d_loss1 + w.n_d_loss2_20 + w.n_d_lossmany == d.len(),
    ;
    assert(UNIT * w.n_loss >= 0) by (nonlinear_arith)
        requires
            w.n_loss >= 0,
    ;
    assert(UNIT * w.n_nonloss >= 0) by (nonlinear_arith)
        requires
            w.n_nonloss >= 0,
    ;
    assert(UNIT * w.n_d_noloss >= 0 && UNIT * w.n_d_loss1 >= 0 && UNIT * w.n_d_loss2_20 >= 0
        && UNIT * w.n_d_lossmany >= 0) by (nonlinear_arith)
        requires
            w.n_d_noloss >= 0,
            w.n_d_loss1 >= 0,
            w.n_d_loss2_20 >= 0,
            w.n_d_lossmany >= 0,
    ;
}

proof fn lemma_min_delay_same(a: Seq<Info>, b: Seq<Info>)
    requires
        a.to_multiset() == b.to_multiset(),
    ensures
        min_delay(a) == min_delay(b),
{
    broadcast use group_to_multiset_ensures;

    lemma_min_delay_prefix(a, a.len() as int);
    lemma_min_delay_prefix(b, b.len() as int);
    assert(a.len() == b.len()) by {
        assert(a.to_multiset().len() == a.len());
        assert(b.to_multiset().len() == b.len());
    }
    if a.len() > 0 {
        let i = choose|i: int| 0 <= i < a.len() && min_delay(a) == raw_delay(#[trigger] a[i]);
        let j = choose|j: int| 0 <= j < b.len() && min_delay(b) == raw_delay(#[trigger] b[j]);
        assert(a.contains(a[i]));
        assert(a.to_multiset().count(a[i]) > 0);
        assert(b.to_multiset().count(a[i]) > 0);
        assert(b.contains(a[i]));
        let i2 = choose|i2: int| 0 <= i2 < b.len() && b[i2] == a[i];
        assert(b.contains(b[j]));
        assert(b.to_multiset().count(b[j]) > 0);
        assert(a.to_multiset().count(b[j]) > 0);
        assert(a.contains(b[j]));
        let j2 = choose|j2: int| 0 <= j2 < a.len() && a[j2] == b[j];
        assert(min_delay(b) <= raw_delay(b[i2]));
        assert(min_delay(a) <= raw_delay(a[j2]));
    }
}

proof fn lemma_map_to_multiset(a: Seq<Info>, b: Seq<Info>, f: spec_fn(Info) -> (u32, i64))
    requires
        a.to_multiset() == b.to_multiset(),
    ensures
        a.map_values(f).to_multiset() == b.map_values(f).to_multiset(),
    decreases a.len(),
{
    broadcast use group_to_multiset_ensures;

    assert(a.to_multiset().len() == a.len());
    assert(b.to_multiset().len() == b.len());
    if a.len() == 0 {
        assert(a.map_values(f) =~= b.map_values(f));
    } else {
        let x = a.last();
        assert(a.contains(x));
        assert(b.to_multiset().count(x) > 0);
        assert(b.contains(x));
        let j = choose|j: int| 0 <= j < b.len() && b[j] == x;
        let a2 = a.drop_last();
        let b2 = b.remove(j);
        assert(a2.push(x) =~= a);
        assert(a2.to_multiset() =~= a.to_multiset().remove(x)) by {
            assert(a2.push(x).to_multiset() =~= a2.to_multiset().insert(x));
        }
        assert(b2.to_multiset() =~= b.to_multiset().remove(x));
        lemma_map_to_multiset(a2, b2, f);
        assert(a.map_values(f) =~= a2.map_values(f).push(f(x)));
        assert(b2.map_values(f) =~= b.map_values(f).remove(j));
        assert(b.map_values(f).remove(j).to_multiset() =~= b.map_values(f).to_multiset().remove(
            b.map_values(f)[j],
        ));
        assert(b.map_values(f).to_multiset().count(f(x)) > 0) by {
            assert(b.map_values(f).contains(f(x))) by {
                assert(b.map_values(f)[j] == f(x));
            }
        }
    }
}

/// The analysis depends on the records received, not on their order.
pub proof fn lemma_analysis_order_invariant(a: Seq<Info>, b: Seq<Info>, t: int)
    requires
        a.to_multiset() == b.to_multiset(),
    ensures
        analysis(a, t) == analysis(b, t),
{
    lemma_min_delay_same(a, b);
    let f = |x: Info| record_of(x, delay_shift(a));
    assert(records(a) == a.map_values(f));
    assert(records(b) =~= b.map_values(f));
    lemma_map_to_multiset(a, b, f);
    lemma_records_bounded(a);
    lemma_records_bounded(b);
    lemma_pair_order_total();
    lemma_sorted_unique(sorted_records(a), sorted_records(b), pair_order());
}

/// The records `v` with `k` microseconds added to both timestamps of each.
pub open spec fn shifted(v: Seq<Info>, k: int) -> Seq<Info> {
    v.map_values(
        |x: Info| Info { seqn: x.seqn, st_us: (x.st_us + k) as u32, rt_us: (x.rt_us + k) as u32 },
    )
}

proof fn lemma_min_delay_shifted(v: Seq<Info>, k: int, n: int)
    requires
        0 <= n <= v.len(),
        forall|i: int| 0 <= i < v.len() ==> raw_delay(#[trigger] shifted(v, k)[i]) == raw_delay(v[i]),
    ensures
        min_delay_prefix(shifted(v, k), n) == min_delay_prefix(v, n),
    decreases n,
{
    if n > 0 {
        lemma_min_delay_shifted(v, k, n - 1);
        assert(raw_delay(shifted(v, k)[n - 1]) == raw_delay(v[n - 1]));
    }
}

/// Adding the same number of microseconds to every send and receive
/// timestamp leaves the analysis unchanged.
pub proof fn lemma_analysis_shift_invariant(v: Seq<Info>, k: int, t: int)
    requires
        k >= 0,
        forall|i: int| 0 <= i < v.len() ==> v[i].st_us + k <= u32::MAX && v[i].rt_us + k <= u32::MAX,
    ensures
        analysis(shifted(v, k), t) == analysis(v, t),
{
    let w = shifted(v, k);
    assert forall|i: int| 0 <= i < v.len() implies raw_delay(#[trigger] w[i]) == raw_delay(v[i]) by {
        assert(w[i].rt_us - w[i].st_us == v[i].rt_us - v[i].st_us);
    }
    lemma_min_delay_shifted(v, k, v.len() as int);
    assert(records(w) =~= records(v));
}

/// Where the smallest delay is `-k < 0`, every delay is raised by `k`: the
/// smallest becomes zero.
pub proof fn lemma_negative_delays_raised(v: Seq<Info>, k: int)
    requires
        k > 0,
        min_delay(v) == -k,
    ensures
        forall|i: int| 0 <= i < v.len() ==> (#[trigger] records(v)[i]).1 == raw_delay(v[i]) + k,
        forall|i: int| 0 <= i < v.len() ==> (#[trigger] records(v)[i]).1 >= 0,
        exists|i: int| 0 <= i < v.len() && (#[trigger] records(v)[i]).1 == 0,
{
    lemma_records_bounded(v);
    lemma_min_delay_prefix(v, v.len() as int);
    assert forall|i: int| 0 <= i < v.len() implies (#[trigger] records(v)[i]).1 >= 0 by {
        assert(min_delay(v) <= raw_delay(v[i]));
    }
    let j = choose|j: int| 0 <= j < v.len() && min_delay(v) == raw_delay(#[trigger] v[j]);
    assert(records(v)[j].1 == 0);
}

/// The distinct sequence numbers among the records.
pub open spec fn seqns(v: Seq<Info>) -> Set<u32> {
    v.map_values(|x: Info| x.seqn).to_set()
}

proof fn lemma_dedup_covers(s: Seq<(u32, i64)>)
    ensures
        forall|j: int| 0 <= j < s.len() ==> exists|k: int| 0 <= k < dedup(s).len() && (#[trigger] dedup(s)[k]).0 == (#[trigger] s[j]).0,
    decreases s.len(),
{
    if s.len() > 0 {
        let t = s.drop_last();
        lemma_dedup_covers(t);
        let d = dedup(t);
        assert forall|j: int| 0 <= j < s.len() implies exists|k: int| 0 <= k < dedup(s).len() && (#[trigger] dedup(s)[k]).0 == (#[trigger] s[j]).0 by {
            if j < s.len() - 1 {
                assert(s[j] == t[j]);
                let k = choose|k: int| 0 <= k < d.len() && (#[trigger] d[k]).0 == (#[trigger] t[j]).0;
                assert(dedup(s)[k] == d[k]);
            } else {
                if d.len() > 0 && d.last().0 == s.last().0 {
                    assert(dedup(s)[d.len() - 1].0 == s[j].0);
                } else {
                    assert(dedup(s)[d.len() as int].0 == s[j].0);
                }
            }
        }
    }
}

/// The number of packets received that the analysis reports is the number
/// of distinct sequence numbers among the records; with the packets sent it
/// gives the loss probability `1 - received / sent` exactly.
pub proof fn lemma_received_counts_distinct(v: Seq<Info>, t: int)
    ensures
        analysis(v, t).total_received_packets == seqns(v).len(),
        analysis(v, t).total_packets == t,
{
    broadcast use group_to_multiset_ensures;

    let sr = sorted_records(v);
    let d = received(v);
    lemma_records_bounded(v);
    lemma_pair_order_total();
    records(v).lemma_sort_by_ensures(pair_order());
    lemma_dedup(sr);
    lemma_dedup_covers(sr);
    let ds = d.map_values(|p: (u32, i64)| p.0);
    assert(ds.no_duplicates()) by {
        assert forall|i: int, j: int| 0 <= i < ds.len() && 0 <= j < ds.len() && i != j implies ds[i] != ds[j] by {
            if i < j {
                assert(d[i].0 < d[j].0);
            } else {
                assert(d[j].0 < d[i].0);
            }
        }
    }
    ds.unique_seq_to_set();
    let vs = v.map_values(|x: Info| x.seqn);
    assert forall|x: u32| ds.to_set().contains(x) implies vs.to_set().contains(x) by {
        let k = choose|k: int| 0 <= k < ds.len() && ds[k] == x;
        assert(sr.contains(d[k]));
        assert(records(v).contains(d[k]));
        let i = choose|i: int| 0 <= i < records(v).len() && records(v)[i] == d[k];
        assert(vs[i] == x);
    }
    assert forall|x: u32| vs.to_set().contains(x) implies ds.to_set().contains(x) by {
        let i = choose|i: int| 0 <= i < vs.len() && vs[i] == x;
        let r = records(v)[i];
        assert(records(v).contains(r));
        assert(records(v).to_multiset().count(r) > 0);
        assert(sr.to_multiset().count(r) > 0);
        assert(sr.contains(r));
        let j = choose|j: int| 0 <= j < sr.len() && sr[j] == r;
        let k = choose|k: int| 0 <= k < d.len() && (#[trigger] d[k]).0 == (#[trigger] sr[j]).0;
        assert(ds[k] == x);
    }
    assert(ds.to_set() =~= seqns(v));
}

} // verus!
