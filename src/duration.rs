//! Durations counted in microseconds on a 32-bit counter.
use vstd::prelude::*;

verus! {

/// A duration short enough for a 32-bit count of microseconds (71 minutes);
/// longer ones wrap around.
pub trait SmallishDuration {
    /// The duration in microseconds.
    spec fn micros(&self) -> int;

    fn as_us(&self) -> (r: u32)
        ensures
            r as int == self.micros() % 0x1_0000_0000,
    ;
}

/// A number of microseconds.
impl SmallishDuration for u64 {
    open spec fn micros(&self) -> int {
        *self as int
    }

    fn as_us(&self) -> (r: u32) {
        (*self % 0x1_0000_0000) as u32
    }
}

} // verus!
