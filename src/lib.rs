//! Measurement of the quality of a UDP path: wire framing, the server and
//! probe negotiation machines, the packet receiver and sender schedules, the
//! loss and delay analyser and the experiment battery generator.
use vstd::prelude::*;

pub mod analyser;
pub mod battery;
pub mod duration;
pub mod numplay;
pub mod probe;
pub mod receiver;
pub mod results;
pub mod sender;
pub mod serve;
pub mod statement;
pub mod summary;
pub mod wire;

verus! {

/// Version of the control-frame protocol; peers with another version are refused.
pub const API_VERSION: u32 = 7;

} // verus!
