//! A playground for random sequences drawn from a fixed table of weights.
use vstd::prelude::*;

verus! {

/// What the playground does.
#[derive(Debug, PartialEq, Eq, Structural, Clone, Copy)]
pub enum Numplay {
    /// Print values drawn independently from the table.
    Gen,
    /// Print values drawn by a self-correcting Markov chain.
    Gen2,
    /// Read values and print how often each occurred.
    Check,
}

/// The values and their weights.
pub open spec fn table() -> Seq<(u32, u32)> {
    seq![(1u32, 5u32), (2, 20), (3, 20), (4, 5), (5, 20), (6, 20), (7, 5), (8, 5)]
}

pub fn weight_table() -> (t: Vec<(u32, u32)>)
    ensures
        t@ == table(),
{
    let t = vec![(1u32, 5u32), (2, 20), (3, 20), (4, 5), (5, 20), (6, 20), (7, 5), (8, 5)];
    assert(t@ =~= table());
    t
}

/// Sum of the weights of the first `n` entries of `t`.
pub open spec fn weight_sum(t: Seq<(u32, u32)>, n: int) -> int
    decreases n,
{
    if n <= 0 {
        0
    } else {
        weight_sum(t, n - 1) + t[n - 1].1
    }
}

/// The value that a uniform draw `c` in `[0, total weight)` stands for: the
/// first entry whose cumulated weight exceeds `c`.
pub open spec fn pick_spec(t: Seq<(u32, u32)>, c: int, i: int) -> Option<u32>
    decreases t.len() - i,
{
    if i < 0 || i >= t.len() {
        None
    } else if c < weight_sum(t, i + 1) {
        Some(t[i].0)
    } else {
        pick_spec(t, c, i + 1)
    }
}

/// Sum of all the weights.
pub fn prsum() -> (r: u32)
    ensures
        r as int == weight_sum(table(), 8),
{
    let t = weight_table();
    let mut s: u32 = 0;
    let mut i: usize = 0;
    while i < t.len()
        invariant
            t@ == table(),
            i <= 8,
            s as int == weight_sum(table(), i as int),
            s <= 20 * i,
        decreases 8 - i,
    {
        s = s + t[i].1;
        i += 1;
    }
    s
}

/// The value that the draw `c` picks; `None` where `c` is not below the sum
/// of the weights.
pub fn pick(c: u32) -> (r: Option<u32>)
    ensures
        r == pick_spec(table(), c as int, 0),
{
    let t = weight_table();
    let mut rest: u32 = c;
    let mut i: usize = 0;
    while i < t.len()
        invariant
            t@ == table(),
            i <= 8,
            rest as int == c - weight_sum(table(), i as int),
            pick_spec(table(), c as int, 0) == pick_spec(table(), c as int, i as int),
        decreases 8 - i,
    {
        let (v, w) = t[i];
        if rest < w {
            return Some(v);
        }
        rest = rest - w;
        i += 1;
    }
    None
}

} // verus!
