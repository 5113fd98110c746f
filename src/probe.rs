//! The probe's side of an experiment: negotiation, collection of the results,
//! and the round-trip time of the control exchanges.
//!
//! The driver owns the socket and the clock. It asks the probe for each
//! request to send, hands it each reply of the server and each read timeout,
//! and learns from the answers when to start, when to ask for the results and
//! when to give up. Times are microseconds of the local monotonic clock.
use vstd::prelude::*;
use crate::duration::SmallishDuration;
use crate::results::ExperimentResults;
use crate::statement::{duration_us, ClientToServer, ExperimentInfo, ExperimentReply, ServerToClient};

verus! {

/// Time added after the last packet before the results are asked for.
pub const END_MARGIN_US: u64 = 1_000_000;

/// Extra time for late packets where more than four have not arrived.
pub const LATE_PACKETS_GRACE_US: u64 = 10_000_000;

/// Why an experiment failed on the probe's side.
#[derive(Debug, PartialEq, Eq, Structural, Clone, Copy)]
pub enum ProbeError {
    /// The warm-up ran out before the server accepted.
    Timeout,
    /// The server is busy with another peer.
    Busy,
    /// The server refused the parameters.
    ParametersOutOfRange,
    /// The server reported a failure.
    ServerFailed,
    /// A reply of another protocol version.
    WrongApiVersion,
    /// A reply that does not fit the phase, or a session id that does not match.
    ProtocolViolation,
    /// The results did not come in time.
    ResultsTimeout,
}

pub open spec fn probe_error_text(e: ProbeError) -> Seq<char> {
    match e {
        ProbeError::Timeout => "timeout"@,
        ProbeError::Busy => "Server busy"@,
        ProbeError::ParametersOutOfRange => "Parameters out of range"@,
        ProbeError::ServerFailed => "Fail reply from server"@,
        ProbeError::WrongApiVersion => "Wrong API version"@,
        ProbeError::ProtocolViolation => "Protocol violation"@,
        ProbeError::ResultsTimeout => "Timed out waiting for results"@,
    }
}

impl ProbeError {
    pub fn message(&self) -> (s: &'static str)
        ensures
            s@ == probe_error_text(*self),
    {
        match self {
            ProbeError::Timeout => "timeout",
            ProbeError::Busy => "Server busy",
            ProbeError::ParametersOutOfRange => "Parameters out of range",
            ProbeError::ServerFailed => "Fail reply from server",
            ProbeError::WrongApiVersion => "Wrong API version",
            ProbeError::ProtocolViolation => "Protocol violation",
            ProbeError::ResultsTimeout => "Timed out waiting for results",
        }
    }
}

/// Where the probe stands.
#[derive(Debug, PartialEq, Eq, Structural, Clone, Copy)]
pub enum ProbePhase {
    /// Asking the server to accept the experiment.
    Negotiating,
    /// Accepted: the receiver counts arrival times from `receiver_start`.
    Running { receiver_start: u64 },
    /// The results came: the server's sender dropped `send_lost` packets.
    Done { send_lost: Option<u32> },
}

/// The client side of one experiment.
#[derive(Debug)]
pub struct Probe {
    /// The request as it is sent; the session id is the one issued last.
    pub experiment: ExperimentInfo,
    /// Sequence number of the last request sent.
    pub seqn_for_rtt: u32,
    /// When the probe's own sender starts.
    pub start: u64,
    /// When the last packet is due, plus a margin.
    pub end: u64,
    pub phase: ProbePhase,
    /// The experiment is over and the results are being asked for.
    pub request_results: bool,
    /// When the results were first asked for.
    pub asked_at: u64,
    /// Send time of request `i + 1`.
    pub sent: Vec<u64>,
    /// Arrival time of the last reply to request `i + 1`.
    pub answered: Vec<Option<u64>>,
}

/// Sum of the round trips of the answered requests among the first `n`.
pub open spec fn rtt_sum(sent: Seq<u64>, answered: Seq<Option<u64>>, n: int) -> int
    decreases n,
{
    if n <= 0 {
        0
    } else {
        rtt_sum(sent, answered, n - 1) + match answered[n - 1] {
            Some(t) => if t >= sent[n - 1] {
                t - sent[n - 1]
            } else {
                0
            },
            None => 0,
        }
    }
}

/// Number of answered requests among the first `n`.
pub open spec fn rtt_count(answered: Seq<Option<u64>>, n: int) -> int
    decreases n,
{
    if n <= 0 {
        0
    } else {
        rtt_count(answered, n - 1) + if answered[n - 1] is Some {
            1int
        } else {
            0
        }
    }
}

/// Mean round trip of the answered requests, zero where none was answered.
pub open spec fn mean_rtt(sent: Seq<u64>, answered: Seq<Option<u64>>) -> int {
    let c = rtt_count(answered, answered.len() as int);
    if c == 0 {
        0
    } else {
        rtt_sum(sent, answered, answered.len() as int) / c
    }
}

proof fn lemma_rtt_bounds(sent: Seq<u64>, answered: Seq<Option<u64>>, n: int)
    requires
        0 <= n <= answered.len() <= sent.len(),
    ensures
        0 <= rtt_count(answered, n) <= n,
        0 <= rtt_sum(sent, answered, n) <= rtt_count(answered, n) * u64::MAX,
        rtt_count(answered, n) * u64::MAX <= n * u64::MAX,
    decreases n,
{
    if n > 0 {
        lemma_rtt_bounds(sent, answered, n - 1);
        let c = rtt_count(answered, n - 1);
        assert(c * u64::MAX + u64::MAX == (c + 1) * u64::MAX) by (nonlinear_arith);
        assert(c * u64::MAX <= (n - 1) * u64::MAX) by (nonlinear_arith)
            requires c <= n - 1;
        assert((c + 1) * u64::MAX <= n * u64::MAX) by (nonlinear_arith)
            requires c <= n - 1;
    }
}

/// The arrival times after a reply echoing `seqn` arrived at `now`: it is
/// recorded against the request it answers, if there is one.
pub open spec fn answered_after(answered: Seq<Option<u64>>, seqn: u32, now: u64) -> Seq<Option<u64>> {
    if 1 <= seqn <= answered.len() {
        answered.update(seqn - 1, Some(now))
    } else {
        answered
    }
}

impl Probe {
    pub open spec fn wf(&self) -> bool {
        &&& self.sent@.len() == self.answered@.len() == self.seqn_for_rtt
        &&& self.start <= self.end
    }

    /// A probe for `experiment`, created at `now`: its sender starts after
    /// the warm-up time.
    pub fn new(experiment: ExperimentInfo, now: u64) -> (r: Probe)
        requires
            now as int + experiment.pending_start_in_microseconds as int + duration_us(experiment)
                + END_MARGIN_US <= u64::MAX,
        ensures
            r.wf(),
            r.experiment == experiment,
            r.seqn_for_rtt == 0,
            r.start == now + experiment.pending_start_in_microseconds,
            r.end == r.start + duration_us(experiment) + END_MARGIN_US,
            r.phase == ProbePhase::Negotiating,
            !r.request_results,
    {
        let start = now + experiment.pending_start_in_microseconds as u64;
        let end = start + experiment.duration() as u64 + END_MARGIN_US;
        Probe {
            experiment,
            seqn_for_rtt: 0,
            start,
            end,
            phase: ProbePhase::Negotiating,
            request_results: false,
            asked_at: 0,
            sent: Vec::new(),
            answered: Vec::new(),
        }
    }

    /// The next request to send at `now`. While negotiating it carries the
    /// warm-up time that is left, and fails once the start has passed.
    pub fn next_request(&mut self, now: u64) -> (r: Result<ClientToServer, ProbeError>)
        requires
            old(self).wf(),
            old(self).seqn_for_rtt < u32::MAX,
        ensures
            final(self).wf(),
            final(self).phase == old(self).phase,
            final(self).start == old(self).start,
            final(self).end == old(self).end,
            old(self).phase == ProbePhase::Negotiating && now > old(self).start ==> r == Err::<
                ClientToServer,
                ProbeError,
            >(ProbeError::Timeout),
            r is Ok ==> {
                &&& final(self).seqn_for_rtt == old(self).seqn_for_rtt + 1
                &&& final(self).sent@ == old(self).sent@.push(now)
                &&& final(self).answered@ == old(self).answered@.push(None)
                &&& r->Ok_0.seqn_for_rtt == final(self).seqn_for_rtt
                &&& r->Ok_0.api_version == crate::API_VERSION
                &&& r->Ok_0.experiment == final(self).experiment
                &&& final(self).experiment == if old(self).phase == ProbePhase::Negotiating {
                    ExperimentInfo {
                        pending_start_in_microseconds: ((old(self).start - now) % 0x1_0000_0000) as u32,
                        ..old(self).experiment
                    }
                } else {
                    old(self).experiment
                }
            },
            old(self).phase != ProbePhase::Negotiating || now <= old(self).start ==> r is Ok,
    {
        if self.phase == ProbePhase::Negotiating {
            if now > self.start {
                return Err(ProbeError::Timeout);
            }
            self.experiment.pending_start_in_microseconds = (self.start - now).as_us();
        }
        self.seqn_for_rtt = self.seqn_for_rtt + 1;
        self.sent.push(now);
        self.answered.push(None);
        Ok(ClientToServer::new(self.experiment, self.seqn_for_rtt))
    }

    fn note_answer(&mut self, seqn: u32, now: u64)
        requires
            old(self).wf(),
        ensures
            final(self).wf(),
            final(self).experiment == old(self).experiment,
            final(self).seqn_for_rtt == old(self).seqn_for_rtt,
            final(self).start == old(self).start,
            final(self).end == old(self).end,
            final(self).phase == old(self).phase,
            final(self).request_results == old(self).request_results,
            final(self).asked_at == old(self).asked_at,
            final(self).sent@ == old(self).sent@,
            final(self).answered@ == answered_after(old(self).answered@, seqn, now),
    {
        if seqn >= 1 && (seqn as usize) <= self.answered.len() {
            self.answered.set((seqn - 1) as usize, Some(now));
        }
    }

    /// Handles a reply of the server that arrived at `now`. The results
    /// payload `S` is the session id that the server's results carry.
    /// `Ok(true)` means that the phase moved on; `Ok(false)` that the probe
    /// is to carry on as it was.
    pub fn on_reply(&mut self, s2c: &ServerToClient<u64>, now: u64) -> (r: Result<bool, ProbeError>)
        requires
            old(self).wf(),
        ensures
            final(self).wf(),
            final(self).start == old(self).start,
            final(self).end == old(self).end,
            final(self).seqn_for_rtt == old(self).seqn_for_rtt,
            final(self).request_results == old(self).request_results,
            final(self).asked_at == old(self).asked_at,
            final(self).sent@ == old(self).sent@,
            s2c.api_version != crate::API_VERSION ==> final(self).answered@ == old(self).answered@,
            s2c.api_version == crate::API_VERSION ==> final(self).answered@ == answered_after(
                old(self).answered@,
                s2c.seqn_for_rtt,
                now,
            ),
            s2c.api_version != crate::API_VERSION ==> r == Err::<bool, ProbeError>(
                ProbeError::WrongApiVersion,
            ),
            s2c.api_version == crate::API_VERSION ==> r == reply_outcome(
                old(self).phase,
                old(self).experiment.session_id,
                s2c.reply,
            ),
            s2c.api_version == crate::API_VERSION && r is Ok ==> final(self).phase == next_phase(
                old(self).phase,
                s2c.reply,
                now,
            ),
            s2c.api_version == crate::API_VERSION && r is Ok ==> final(self).experiment
                == (match (old(self).phase, s2c.reply) {
                (ProbePhase::Negotiating, ExperimentReply::RetryWithASessionId { session_id }) => {
                    ExperimentInfo { session_id, ..old(self).experiment }
                },
                _ => old(self).experiment,
            }),
    {
        if s2c.api_version != crate::API_VERSION {
            return Err(ProbeError::WrongApiVersion);
        }
        self.note_answer(s2c.seqn_for_rtt, now);
        let sid = self.experiment.session_id;
        match self.phase {
            ProbePhase::Negotiating => match &s2c.reply {
                ExperimentReply::Busy => Err(ProbeError::Busy),
                ExperimentReply::Accepted { session_id, remaining_warmup_time_us } => {
                    if *session_id != sid {
                        return Err(ProbeError::ProtocolViolation);
                    }
                    let t = if now as u128 + *remaining_warmup_time_us as u128 > u64::MAX as u128 {
                        u64::MAX
                    } else {
                        now + *remaining_warmup_time_us as u64
                    };
                    self.phase = ProbePhase::Running { receiver_start: t };
                    Ok(true)
                },
                ExperimentReply::IsOngoing { session_id, elapsed_time_us } => {
                    if *session_id != sid {
                        return Err(ProbeError::ProtocolViolation);
                    }
                    let t = if now >= *elapsed_time_us as u64 {
                        now - *elapsed_time_us as u64
                    } else {
                        0
                    };
                    self.phase = ProbePhase::Running { receiver_start: t };
                    Ok(true)
                },
                ExperimentReply::ResourceLimits { .. } => Err(ProbeError::ParametersOutOfRange),
                ExperimentReply::HereAreResults { .. } => Err(ProbeError::ProtocolViolation),
                ExperimentReply::RetryWithASessionId { session_id } => {
                    self.experiment.session_id = *session_id;
                    Ok(false)
                },
                ExperimentReply::Failed { .. } => Err(ProbeError::ServerFailed),
            },
            ProbePhase::Running { .. } => match &s2c.reply {
                ExperimentReply::Busy => Err(ProbeError::Busy),
                ExperimentReply::Accepted { .. } => Ok(false),
                ExperimentReply::IsOngoing { .. } => Ok(false),
                ExperimentReply::ResourceLimits { .. } => Err(ProbeError::ParametersOutOfRange),
                ExperimentReply::HereAreResults { stats, send_lost } => {
                    match stats {
                        Some(s) => {
                            if *s != sid {
                                return Err(ProbeError::ProtocolViolation);
                            }
                        },
                        None => {},
                    }
                    self.phase = ProbePhase::Done { send_lost: *send_lost };
                    Ok(true)
                },
                ExperimentReply::RetryWithASessionId { .. } => Err(ProbeError::ProtocolViolation),
                ExperimentReply::Failed { .. } => Err(ProbeError::ServerFailed),
            },
            ProbePhase::Done { .. } => Ok(false),
        }
    }

    /// Called at `now` while running, before each read: whether to start
    /// asking for the results, and whether they are overdue. `last_seqn` is
    /// the sequence number of the last packet the probe's receiver got, if it
    /// has one; `max_wait_us` is how long the results may take.
    pub fn poll(&mut self, now: u64, last_seqn: Option<u32>, max_wait_us: u64) -> (r: Result<
        bool,
        ProbeError,
    >)
        requires
            old(self).wf(),
        ensures
            final(self).wf(),
            final(self).experiment == old(self).experiment,
            final(self).phase == old(self).phase,
            final(self).start == old(self).start,
            final(self).end == old(self).end,
            final(self).seqn_for_rtt == old(self).seqn_for_rtt,
            final(self).sent@ == old(self).sent@,
            final(self).answered@ == old(self).answered@,
            ({
                let grace: int = match last_seqn {
                    Some(l) => if old(self).experiment.totalpackets as int - l as int > 4 {
                        LATE_PACKETS_GRACE_US as int
                    } else {
                        0
                    },
                    None => 0,
                };
                let starts = !old(self).request_results && now > old(self).end + grace;
                &&& final(self).request_results == (old(self).request_results || starts)
                &&& final(self).asked_at == if starts {
                    now
                } else {
                    old(self).asked_at
                }
                &&& r == if final(self).request_results && now > final(self).asked_at
                    + max_wait_us {
                    Err::<bool, ProbeError>(ProbeError::ResultsTimeout)
                } else {
                    Ok::<bool, ProbeError>(starts)
                }
            }),
    {
        let grace: u64 = match last_seqn {
            Some(l) => {
                if self.experiment.totalpackets as i64 - l as i64 > 4 {
                    LATE_PACKETS_GRACE_US
                } else {
                    0
                }
            },
            None => 0,
        };
        let mut starts = false;
        if !self.request_results && now as u128 > self.end as u128 + grace as u128 {
            self.request_results = true;
            self.asked_at = now;
            starts = true;
        }
        if self.request_results && now as u128 > self.asked_at as u128 + max_wait_us as u128 {
            return Err(ProbeError::ResultsTimeout);
        }
        Ok(starts)
    }

    /// The mean round trip of the control exchanges, in microseconds, over
    /// the requests that got a reply; zero where none did.
    pub fn rtt_us(&self) -> (r: u64)
        requires
            self.wf(),
        ensures
            r as int == mean_rtt(self.sent@, self.answered@),
    {
        let mut sum: u128 = 0;
        let mut count: u64 = 0;
        let mut i: usize = 0;
        proof {
            lemma_rtt_bounds(self.sent@, self.answered@, self.answered@.len() as int);
        }
        while i < self.answered.len()
            invariant
                i <= self.answered@.len() == self.sent@.len() <= u32::MAX,
                sum as int == rtt_sum(self.sent@, self.answered@, i as int),
                count as int == rtt_count(self.answered@, i as int),
            decreases self.answered@.len() - i,
        {
            proof {
                lemma_rtt_bounds(self.sent@, self.answered@, i as int);
                assert(i * u64::MAX + u64::MAX <= u32::MAX * u64::MAX + u64::MAX) by (nonlinear_arith)
                    requires i < u32::MAX;
            }
            match self.answered[i] {
                Some(t) => {
                    let s = self.sent[i];
                    if t >= s {
                        sum = sum + (t - s) as u128;
                    }
                    count = count + 1;
                },
                None => {},
            }
            i += 1;
        }
        if count == 0 {
            0
        } else {
            proof {
                lemma_rtt_bounds(self.sent@, self.answered@, self.answered@.len() as int);
                assert(sum as int / count as int <= u64::MAX) by (nonlinear_arith)
                    requires
                        count > 0,
                        sum as int <= count as int * u64::MAX,
                ;
            }
            let m = sum / count as u128;
            if m > u64::MAX as u128 {
                u64::MAX
            } else {
                m as u64
            }
        }
    }
}

/// What a reply of the right version means in a phase, for a probe whose
/// session id is `sid`.
pub open spec fn reply_outcome(phase: ProbePhase, sid: u64, reply: ExperimentReply<u64>) -> Result<bool, ProbeError> {
    match phase {
        ProbePhase::Negotiating => match reply {
            ExperimentReply::Busy => Err(ProbeError::Busy),
            ExperimentReply::Accepted { session_id, .. } => if session_id == sid {
                Ok(true)
            } else {
                Err(ProbeError::ProtocolViolation)
            },
            ExperimentReply::IsOngoing { session_id, .. } => if session_id == sid {
                Ok(true)
            } else {
                Err(ProbeError::ProtocolViolation)
            },
            ExperimentReply::ResourceLimits { .. } => Err(ProbeError::ParametersOutOfRange),
            ExperimentReply::HereAreResults { .. } => Err(ProbeError::ProtocolViolation),
            ExperimentReply::RetryWithASessionId { .. } => Ok(false),
            ExperimentReply::Failed { .. } => Err(ProbeError::ServerFailed),
        },
        ProbePhase::Running { .. } => match reply {
            ExperimentReply::Busy => Err(ProbeError::Busy),
            ExperimentReply::Accepted { .. } => Ok(false),
            ExperimentReply::IsOngoing { .. } => Ok(false),
            ExperimentReply::ResourceLimits { .. } => Err(ProbeError::ParametersOutOfRange),
            ExperimentReply::HereAreResults { stats, .. } => if stats matches Some(s) && s != sid {
                Err(ProbeError::ProtocolViolation)
            } else {
                Ok(true)
            },
            ExperimentReply::RetryWithASessionId { .. } => Err(ProbeError::ProtocolViolation),
            ExperimentReply::Failed { .. } => Err(ProbeError::ServerFailed),
        },
        ProbePhase::Done { .. } => Ok(false),
    }
}

/// The phase after a reply that was not a failure: an acceptance anchors the
/// receiver's clock at the end of the server's warm-up, an ongoing experiment
/// at its elapsed time back from `now`; the results end the experiment.
pub open spec fn next_phase(phase: ProbePhase, reply: ExperimentReply<u64>, now: u64) -> ProbePhase {
    match (phase, reply) {
        (ProbePhase::Negotiating, ExperimentReply::Accepted { remaining_warmup_time_us, .. }) => {
            ProbePhase::Running {
                receiver_start: if now + remaining_warmup_time_us > u64::MAX {
                    u64::MAX
                } else {
                    (now + remaining_warmup_time_us) as u64
                },
            }
        },
        (ProbePhase::Negotiating, ExperimentReply::IsOngoing { elapsed_time_us, .. }) => {
            ProbePhase::Running {
                receiver_start: if now >= elapsed_time_us {
                    (now - elapsed_time_us) as u64
                } else {
                    0
                },
            }
        },
        (ProbePhase::Running { .. }, ExperimentReply::HereAreResults { send_lost, .. }) => {
            ProbePhase::Done { send_lost }
        },
        _ => phase,
    }
}

/// Stamps the probe's own analysis with what the server's sender reported as
/// dropped (nothing where it reported nothing).
pub fn stamp_sendside_loss(r: &mut ExperimentResults, send_lost: Option<u32>)
    ensures
        final(r).model() == (crate::results::ResultsModel {
            sendside_lost: match send_lost {
                Some(l) => l as int,
                None => 0,
            },
            ..old(r).model()
        }),
{
    r.loss_model.sendside_lost = match send_lost {
        Some(l) => l,
        None => 0,
    };
}

} // verus!
