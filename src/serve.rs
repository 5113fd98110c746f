//! The server's state machine: at most one experiment at a time, a session-id
//! handshake against spoofed sources, and results that can be asked for again.
//!
//! The machine is driven by what arrives on the socket and by read timeouts;
//! times are microseconds of the local monotonic clock. It tells its driver
//! what to send, when an experiment starts (so that a sender can be launched)
//! and when it has run out (so that the sender can be joined and the
//! experiment completed).
use vstd::prelude::*;
use crate::duration::SmallishDuration;
use crate::analyser::analysis;
use crate::receiver::{PacketReceiver, PacketReceiverParams, ReceiverModel};
use crate::results::{with_session, ExperimentResults, ResultsModel};
use crate::statement::{
    duration_us, first_violation, same_experiment, violation_text, ClientToServer,
    ExperimentInfo, ExperimentReply, PeerAddr, ServerLimits, ServerToClient,
};

verus! {

/// The clock never reaches this many microseconds (about 146000 years).
pub const MAX_CLOCK_US: u64 = 0x4000_0000_0000_0000;

/// Grace time for late packets when few are missing, in microseconds.
pub const SHORT_GRACE_US: u64 = 1_000_000;

/// Grace time for late packets when more than four are missing.
pub const LONG_GRACE_US: u64 = 10_000_000;

/// What the driver made of one inbound payload.
#[derive(Debug, Clone, Copy)]
pub enum Inbound {
    /// A control frame that decoded.
    Control(ClientToServer),
    /// A frame with the control tag that did not decode.
    Undecodable,
    /// A data frame.
    Data { seqn: u32, send_us: u32 },
    /// Anything else: too short, or of unknown kind.
    Other,
}

/// An experiment whose results are kept for the peer to fetch, again if need be.
#[derive(Debug)]
pub struct CompletedExperiment {
    pub info: ExperimentInfo,
    /// Analysis of what the server received, where it received.
    pub rcv: Option<ExperimentResults>,
    /// Packets that the server's sender dropped, where it sent.
    pub snd: Option<u32>,
}

/// A session id issued to a peer that has not yet come back with it.
#[derive(Debug, PartialEq, Eq, Structural, Clone, Copy)]
pub struct PendingExperiment {
    pub cla: PeerAddr,
    pub sid: u64,
}

/// The experiment in progress.
#[derive(Debug)]
pub struct OngoingExperiment {
    pub start_time: u64,
    pub stop_time: u64,
    pub info: ExperimentInfo,
    pub cla: PeerAddr,
    pub rcv: Option<PacketReceiver>,
}

#[derive(Debug)]
pub enum State {
    Idle(Option<CompletedExperiment>, Option<PendingExperiment>),
    ExperimentIsOngoing(OngoingExperiment),
}

/// What the driver is to do after one event.
#[derive(Debug)]
pub struct ServerOutput {
    /// A reply to send, to the peer that sent the frame.
    pub reply: Option<(PeerAddr, ServerToClient<ExperimentResults>)>,
    /// An experiment has started: launch its sender where it has one.
    pub started: bool,
    /// The experiment has run out: join its sender and complete it.
    pub expired: bool,
    /// The experiment was abandoned after a failure: its sender, if any, is
    /// left to finish on its own.
    pub aborted: bool,
}

// ---------------------------------------------------------------------------
// Models
// ---------------------------------------------------------------------------

pub enum ReplyModel {
    Accepted { session_id: u64, remaining_warmup_time_us: u32 },
    IsOngoing { session_id: u64, elapsed_time_us: u32 },
    Busy,
    ResourceLimits { msg: Seq<char> },
    RetryWithASessionId { session_id: u64 },
    HereAreResults { stats: Option<ResultsModel>, send_lost: Option<u32> },
    Failed { msg: Seq<char> },
}

pub open spec fn results_model(r: Option<ExperimentResults>) -> Option<ResultsModel> {
    match r {
        Some(x) => Some(x.model()),
        None => None,
    }
}

pub open spec fn reply_model(r: ExperimentReply<ExperimentResults>) -> ReplyModel {
    match r {
        ExperimentReply::Accepted { session_id, remaining_warmup_time_us } => ReplyModel::Accepted {
            session_id,
            remaining_warmup_time_us,
        },
        ExperimentReply::IsOngoing { session_id, elapsed_time_us } => ReplyModel::IsOngoing {
            session_id,
            elapsed_time_us,
        },
        ExperimentReply::Busy => ReplyModel::Busy,
        ExperimentReply::ResourceLimits { msg } => ReplyModel::ResourceLimits { msg: msg@ },
        ExperimentReply::RetryWithASessionId { session_id } => ReplyModel::RetryWithASessionId {
            session_id,
        },
        ExperimentReply::HereAreResults { stats, send_lost } => ReplyModel::HereAreResults {
            stats: results_model(stats),
            send_lost,
        },
        ExperimentReply::Failed { msg } => ReplyModel::Failed { msg: msg@ },
    }
}

pub struct CompletedModel {
    pub info: ExperimentInfo,
    pub rcv: Option<ResultsModel>,
    pub snd: Option<u32>,
}

pub struct OngoingModel {
    pub start_time: u64,
    pub stop_time: u64,
    pub info: ExperimentInfo,
    pub cla: PeerAddr,
    pub rcv: Option<ReceiverModel>,
}

pub enum ServerModel {
    Idle { last: Option<CompletedModel>, pending: Option<PendingExperiment> },
    Ongoing { oe: OngoingModel },
}

/// A reply to `cla` echoing `seqn`.
pub struct Answer {
    pub to: PeerAddr,
    pub reply: ReplyModel,
    pub seqn_for_rtt: u32,
}

pub struct OutputModel {
    pub answer: Option<Answer>,
    pub started: bool,
    pub expired: bool,
    pub aborted: bool,
}

pub open spec fn no_output() -> OutputModel {
    OutputModel { answer: None, started: false, expired: false, aborted: false }
}

pub open spec fn answer(to: PeerAddr, reply: ReplyModel, seqn: u32) -> OutputModel {
    OutputModel {
        answer: Some(Answer { to, reply, seqn_for_rtt: seqn }),
        started: false,
        expired: false,
        aborted: false,
    }
}

impl CompletedExperiment {
    pub open spec fn model(&self) -> CompletedModel {
        CompletedModel { info: self.info, rcv: results_model(self.rcv), snd: self.snd }
    }
}

impl OngoingExperiment {
    pub open spec fn model(&self) -> OngoingModel {
        OngoingModel {
            start_time: self.start_time,
            stop_time: self.stop_time,
            info: self.info,
            cla: self.cla,
            rcv: match self.rcv {
                Some(r) => Some(r.model()),
                None => None,
            },
        }
    }
}

impl State {
    pub open spec fn model(&self) -> ServerModel {
        match self {
            State::Idle(last, pending) => ServerModel::Idle {
                last: match last {
                    Some(c) => Some(c.model()),
                    None => None,
                },
                pending: *pending,
            },
            State::ExperimentIsOngoing(oe) => ServerModel::Ongoing { oe: oe.model() },
        }
    }

    pub open spec fn wf(&self) -> bool {
        match self {
            State::Idle(_, _) => true,
            State::ExperimentIsOngoing(oe) => {
                &&& oe.start_time <= oe.stop_time
                &&& oe.rcv matches Some(r) ==> r.wf()
            },
        }
    }
}

impl ServerOutput {
    pub open spec fn model(&self) -> OutputModel {
        OutputModel {
            answer: match self.reply {
                Some((to, s2c)) => Some(
                    Answer { to, reply: reply_model(s2c.reply), seqn_for_rtt: s2c.seqn_for_rtt },
                ),
                None => None,
            },
            started: self.started,
            expired: self.expired,
            aborted: self.aborted,
        }
    }

    pub open spec fn well_versioned(&self) -> bool {
        self.reply matches Some((_, s2c)) ==> s2c.api_version == crate::API_VERSION
    }
}

// ---------------------------------------------------------------------------
// Transitions
// ---------------------------------------------------------------------------

/// A freshly drawn session id, made non-zero: zero is what a probe sends
/// before it has been issued an id.
pub open spec fn nonzero_sid(fresh: u64) -> u64 {
    if fresh == 0 {
        1
    } else {
        fresh
    }
}

/// The time after which an experiment's results are delivered: one second
/// after its end, or ten seconds where more than four of the packets to the
/// server have not arrived yet.
pub open spec fn results_due(oe: OngoingModel) -> int {
    match oe.rcv {
        Some(r) => {
            let last = if r.received.len() == 0 {
                0
            } else {
                r.received.last().seqn as int
            };
            if oe.info.totalpackets as int - last > 4 {
                oe.stop_time + LONG_GRACE_US
            } else {
                oe.stop_time + SHORT_GRACE_US
            }
        },
        None => oe.stop_time + SHORT_GRACE_US,
    }
}

/// The experiment that a request accepted at `now` starts.
pub open spec fn started(rq: ExperimentInfo, cla: PeerAddr, now: u64) -> OngoingModel {
    let start = (now + rq.pending_start_in_microseconds) as u64;
    OngoingModel {
        start_time: start,
        stop_time: (start + duration_us(rq)) as u64,
        info: rq,
        cla,
        rcv: if rq.direction.client_sends() {
            Some(
                ReceiverModel {
                    received: Seq::empty(),
                    capacity: rq.totalpackets as nat,
                    start,
                    session: rq.session_id,
                    estimate: 0,
                },
            )
        } else {
            None
        },
    }
}

pub open spec fn us32(x: int) -> u32 {
    (x % 0x1_0000_0000) as u32
}

pub open spec fn failed(msg: Seq<char>) -> ReplyModel {
    ReplyModel::Failed { msg }
}

/// Text of the reply to a control frame that did not decode.
pub open spec fn undecodable_text() -> Seq<char> {
    "undecodable control frame"@
}

/// Text of the reply to a control frame of another protocol version.
pub open spec fn version_text() -> Seq<char> {
    "Invalid API version"@
}

/// The server's answer to one inbound payload from `cla` at `now`; `fresh` is
/// a random number to draw a session id from.
pub open spec fn server_step(
    s: ServerModel,
    cla: PeerAddr,
    inb: Inbound,
    now: u64,
    fresh: u64,
    limits: ServerLimits,
) -> (ServerModel, OutputModel) {
    match s {
        ServerModel::Idle { last, pending } => match inb {
            Inbound::Control(c) => {
                let rq = c.experiment;
                let seqn = c.seqn_for_rtt;
                if c.api_version != crate::API_VERSION {
                    (s, no_output())
                } else if last is Some && same_experiment(last->0.info, rq) {
                    (
                        s,
                        answer(
                            cla,
                            ReplyModel::HereAreResults {
                                stats: last->0.rcv,
                                send_lost: last->0.snd,
                            },
                            seqn,
                        ),
                    )
                } else if first_violation(rq, limits) is Some {
                    (
                        s,
                        answer(
                            cla,
                            ReplyModel::ResourceLimits {
                                msg: violation_text(first_violation(rq, limits)->0),
                            },
                            seqn,
                        ),
                    )
                } else if pending == Some(PendingExperiment { cla, sid: rq.session_id }) {
                    (
                        ServerModel::Ongoing { oe: started(rq, cla, now) },
                        OutputModel {
                            started: true,
                            ..answer(
                                cla,
                                ReplyModel::Accepted {
                                    session_id: rq.session_id,
                                    remaining_warmup_time_us: rq.pending_start_in_microseconds,
                                },
                                seqn,
                            )
                        },
                    )
                } else {
                    let p = if pending is None || pending->0.cla != cla {
                        PendingExperiment { cla, sid: nonzero_sid(fresh) }
                    } else {
                        pending->0
                    };
                    (
                        ServerModel::Idle { last, pending: Some(p) },
                        answer(cla, ReplyModel::RetryWithASessionId { session_id: p.sid }, seqn),
                    )
                }
            },
            Inbound::Undecodable => (s, answer(cla, failed(undecodable_text()), 0)),
            _ => (s, no_output()),
        },
        ServerModel::Ongoing { oe } => {
            if cla != oe.cla {
                (s, answer(cla, ReplyModel::Busy, 0))
            } else {
                match inb {
                    Inbound::Control(c) => {
                        if c.api_version != crate::API_VERSION {
                            (
                                ServerModel::Idle { last: None, pending: None },
                                OutputModel {
                                    aborted: true,
                                    ..answer(cla, failed(version_text()), 0)
                                },
                            )
                        } else {
                            let reply = if same_experiment(c.experiment, oe.info) {
                                if now >= oe.start_time {
                                    ReplyModel::IsOngoing {
                                        session_id: oe.info.session_id,
                                        elapsed_time_us: us32(now - oe.start_time),
                                    }
                                } else {
                                    ReplyModel::Accepted {
                                        session_id: oe.info.session_id,
                                        remaining_warmup_time_us: us32(oe.start_time - now),
                                    }
                                }
                            } else {
                                ReplyModel::Busy
                            };
                            (
                                s,
                                OutputModel {
                                    expired: now > results_due(oe),
                                    ..answer(cla, reply, c.seqn_for_rtt)
                                },
                            )
                        }
                    },
                    Inbound::Undecodable => (
                        ServerModel::Idle { last: None, pending: None },
                        OutputModel { aborted: true, ..answer(cla, failed(undecodable_text()), 0) },
                    ),
                    Inbound::Data { seqn, send_us } => (
                        ServerModel::Ongoing {
                            oe: OngoingModel {
                                rcv: match oe.rcv {
                                    Some(r) => Some(crate::receiver::recorded(r, seqn, send_us, now)),
                                    None => None,
                                },
                                ..oe
                            },
                        },
                        no_output(),
                    ),
                    Inbound::Other => (s, no_output()),
                }
            }
        },
    }
}

/// The state after the running experiment has been completed: its
/// receiver's records are analysed and kept, with the sender's losses, for
/// the peer to fetch.
pub open spec fn completed(oe: OngoingModel, snd: Option<u32>) -> ServerModel {
    ServerModel::Idle {
        last: Some(
            CompletedModel {
                info: oe.info,
                rcv: match oe.rcv {
                    Some(r) => Some(
                        with_session(analysis(r.received, r.capacity as int), r.session as int),
                    ),
                    None => None,
                },
                snd,
            },
        ),
        pending: None,
    }
}

fn text_of(s: &str) -> (r: String)
    ensures
        r@ == s@,
{
    s.to_owned()
}

impl State {
    pub fn new() -> (r: State)
        ensures
            r.wf(),
            r.model() == (ServerModel::Idle { last: None, pending: None }),
    {
        State::Idle(None, None)
    }

    /// Handles one payload from `cla` that arrived at `now`; `fresh` is a
    /// random number that a new session id is drawn from.
    pub fn handle(
        &mut self,
        cla: PeerAddr,
        inb: &Inbound,
        now: u64,
        fresh: u64,
        limits: &ServerLimits,
    ) -> (out: ServerOutput)
        requires
            old(self).wf(),
            now <= MAX_CLOCK_US,
        ensures
            final(self).wf(),
            out.well_versioned(),
            (final(self).model(), out.model()) == server_step(
                old(self).model(),
                cla,
                *inb,
                now,
                fresh,
                *limits,
            ),
    {
        let ghost s0 = self.model();
        match self {
            State::Idle(last, pending) => {
                match inb {
                    Inbound::Control(c) => {
                        let rq = c.experiment;
                        let seqn = c.seqn_for_rtt;
                        if c.api_version != crate::API_VERSION {
                            return ServerOutput {
                                reply: None,
                                started: false,
                                expired: false,
                                aborted: false,
                            };
                        }
                        let mut hit = false;
                        match last {
                            Some(l) => {
                                if l.info == rq {
                                    hit = true;
                                }
                            },
                            None => {},
                        }
                        if hit {
                            let l = last.as_ref().unwrap();
                            let stats = match &l.rcv {
                                Some(r) => Some(r.duplicate()),
                                None => None,
                            };
                            let reply = ExperimentReply::HereAreResults { stats, send_lost: l.snd };
                            return ServerOutput {
                                reply: Some((cla, ServerToClient::new(reply, seqn))),
                                started: false,
                                expired: false,
                                aborted: false,
                            };
                        }
                        match rq.check_limits(limits) {
                            Err(v) => {
                                let reply = ExperimentReply::ResourceLimits {
                                    msg: text_of(v.message()),
                                };
                                return ServerOutput {
                                    reply: Some((cla, ServerToClient::new(reply, seqn))),
                                    started: false,
                                    expired: false,
                                    aborted: false,
                                };
                            },
                            Ok(()) => {},
                        }
                        let wanted = PendingExperiment { cla, sid: rq.session_id };
                        let matches_pending = match pending {
                            Some(p) => *p == wanted,
                            None => false,
                        };
                        if matches_pending {
                            let start = now + rq.pending_start_in_microseconds as u64;
                            let d = rq.duration();
                            assert(d <= limits.timelimit as int * 1_000_000);
                            let stop = start + d as u64;
                            let rcv = if rq.direction.server_needs_receiver() {
                                Some(
                                    PacketReceiver::new(
                                        PacketReceiverParams {
                                            num_packets: rq.totalpackets,
                                            session_id: rq.session_id,
                                            experiment_start: start,
                                        },
                                    ),
                                )
                            } else {
                                None
                            };
                            *self = State::ExperimentIsOngoing(
                                OngoingExperiment {
                                    start_time: start,
                                    stop_time: stop,
                                    info: rq,
                                    cla,
                                    rcv,
                                },
                            );
                            let reply = ExperimentReply::Accepted {
                                session_id: rq.session_id,
                                remaining_warmup_time_us: rq.pending_start_in_microseconds,
                            };
                            return ServerOutput {
                                reply: Some((cla, ServerToClient::new(reply, seqn))),
                                started: true,
                                expired: false,
                                aborted: false,
                            };
                        }
                        let renew = match pending {
                            Some(p) => p.cla != cla,
                            None => true,
                        };
                        if renew {
                            let sid = if fresh == 0 {
                                1
                            } else {
                                fresh
                            };
                            *pending = Some(PendingExperiment { cla, sid });
                        }
                        let sid = pending.unwrap().sid;
                        let reply = ExperimentReply::RetryWithASessionId { session_id: sid };
                        ServerOutput {
                            reply: Some((cla, ServerToClient::new(reply, seqn))),
                            started: false,
                            expired: false,
                            aborted: false,
                        }
                    },
                    Inbound::Undecodable => {
                        let reply = ExperimentReply::Failed {
                            msg: text_of("undecodable control frame"),
                        };
                        ServerOutput {
                            reply: Some((cla, ServerToClient::new(reply, 0))),
                            started: false,
                            expired: false,
                            aborted: false,
                        }
                    },
                    _ => ServerOutput { reply: None, started: false, expired: false, aborted: false },
                }
            },
            State::ExperimentIsOngoing(oe) => {
                if oe.cla != cla {
                    return ServerOutput {
                        reply: Some((cla, ServerToClient::new(ExperimentReply::Busy, 0))),
                        started: false,
                        expired: false,
                        aborted: false,
                    };
                }
                match inb {
                    Inbound::Control(c) => {
                        if c.api_version != crate::API_VERSION {
                            *self = State::Idle(None, None);
                            let reply = ExperimentReply::Failed {
                                msg: text_of("Invalid API version"),
                            };
                            return ServerOutput {
                                reply: Some((cla, ServerToClient::new(reply, 0))),
                                started: false,
                                expired: false,
                                aborted: true,
                            };
                        }
                        let reply = if c.experiment == oe.info {
                            if now >= oe.start_time {
                                ExperimentReply::IsOngoing {
                                    session_id: oe.info.session_id,
                                    elapsed_time_us: (now - oe.start_time).as_us(),
                                }
                            } else {
                                ExperimentReply::Accepted {
                                    session_id: oe.info.session_id,
                                    remaining_warmup_time_us: (oe.start_time - now).as_us(),
                                }
                            }
                        } else {
                            ExperimentReply::Busy
                        };
                        let expired = oe.results_overdue(now);
                        ServerOutput {
                            reply: Some((cla, ServerToClient::new(reply, c.seqn_for_rtt))),
                            started: false,
                            expired,
                            aborted: false,
                        }
                    },
                    Inbound::Undecodable => {
                        *self = State::Idle(None, None);
                        let reply = ExperimentReply::Failed {
                            msg: text_of("undecodable control frame"),
                        };
                        ServerOutput {
                            reply: Some((cla, ServerToClient::new(reply, 0))),
                            started: false,
                            expired: false,
                            aborted: true,
                        }
                    },
                    Inbound::Data { seqn, send_us } => {
                        match &mut oe.rcv {
                            Some(r) => {
                                r.record(*seqn, *send_us, now);
                            },
                            None => {},
                        }
                        ServerOutput { reply: None, started: false, expired: false, aborted: false }
                    },
                    Inbound::Other => ServerOutput {
                        reply: None,
                        started: false,
                        expired: false,
                        aborted: false,
                    },
                }
            },
        }
    }

    /// On a read timeout: whether the running experiment is over, so that
    /// its sender should be joined and the experiment completed.
    pub fn tick(&self, now: u64) -> (r: bool)
        ensures
            r == (self.model() matches ServerModel::Ongoing { oe } && now > oe.stop_time),
    {
        match self {
            State::ExperimentIsOngoing(oe) => now > oe.stop_time,
            State::Idle(_, _) => false,
        }
    }

    /// Completes the running experiment; `snd` is what its sender reported
    /// as dropped, where there was one. Does nothing when idle.
    pub fn complete_experiment(&mut self, snd: Option<u32>)
        requires
            old(self).wf(),
        ensures
            final(self).wf(),
            old(self).model() matches ServerModel::Ongoing { oe } ==> final(self).model()
                == completed(oe, snd),
            old(self).model() is Idle ==> final(self).model() == old(self).model(),
    {
        if let State::ExperimentIsOngoing(oe) = self {
            let rcv = match &oe.rcv {
                Some(r) => Some(r.analyse()),
                None => None,
            };
            *self = State::Idle(Some(CompletedExperiment { info: oe.info, rcv, snd }), None);
        }
    }
}

impl OngoingExperiment {
    /// Whether the grace time for late packets is over at `now`.
    pub fn results_overdue(&self, now: u64) -> (r: bool)
        requires
            self.rcv matches Some(r) ==> r.wf(),
        ensures
            r == (now > results_due(self.model())),
    {
        let grace = match &self.rcv {
            Some(r) => {
                if self.info.totalpackets as i64 - r.last_sqn() as i64 > 4 {
                    LONG_GRACE_US
                } else {
                    SHORT_GRACE_US
                }
            },
            None => SHORT_GRACE_US,
        };
        now as u128 > self.stop_time as u128 + grace as u128
    }
}

// ---------------------------------------------------------------------------
// Laws of the server
// ---------------------------------------------------------------------------

/// Asking again for the results of the last completed experiment gets the
/// same answer again: the state does not change, and two requests for that
/// experiment get equal replies, whatever the time, the random draw and the
/// warm-up countdown they carry.
pub proof fn lemma_results_redelivery_idempotent(
    s: ServerModel,
    cla: PeerAddr,
    c1: ClientToServer,
    c2: ClientToServer,
    now1: u64,
    now2: u64,
    fresh1: u64,
    fresh2: u64,
    limits: ServerLimits,
)
    requires
        s matches ServerModel::Idle { last: Some(l), pending: _ } && same_experiment(
            l.info,
            c1.experiment,
        ) && same_experiment(l.info, c2.experiment),
        c1.api_version == crate::API_VERSION,
        c2.api_version == crate::API_VERSION,
        c1.seqn_for_rtt == c2.seqn_for_rtt,
    ensures
        ({
            let (s1, o1) = server_step(s, cla, Inbound::Control(c1), now1, fresh1, limits);
            let (s2, o2) = server_step(s1, cla, Inbound::Control(c2), now2, fresh2, limits);
            &&& s1 == s && s2 == s
            &&& o1 == o2
            &&& o1.answer matches Some(a) && a.reply is HereAreResults
        }),
{
}

/// While an experiment runs, no event replaces it with another: the peer,
/// the parameters and the session id stay those it was accepted with.
pub proof fn lemma_ongoing_keeps_session(
    s: ServerModel,
    cla: PeerAddr,
    inb: Inbound,
    now: u64,
    fresh: u64,
    limits: ServerLimits,
)
    requires
        s is Ongoing,
    ensures
        ({
            let (s1, _o) = server_step(s, cla, inb, now, fresh, limits);
            s1 matches ServerModel::Ongoing { oe } ==> {
                &&& oe.info == s->oe.info
                &&& oe.cla == s->oe.cla
                &&& oe.info.session_id == s->oe.info.session_id
            }
        }),
{
}

/// An experiment starts only for the peer and the session id that the
/// server issued last, and a freshly issued id is never zero, the id of a
/// probe that has not been issued one.
pub proof fn lemma_start_needs_issued_session(
    s: ServerModel,
    cla: PeerAddr,
    c: ClientToServer,
    now: u64,
    fresh: u64,
    limits: ServerLimits,
)
    requires
        s is Idle,
    ensures
        ({
            let (s1, o) = server_step(s, cla, Inbound::Control(c), now, fresh, limits);
            &&& o.started ==> s->pending == Some(
                PendingExperiment { cla, sid: c.experiment.session_id },
            )
            &&& o.started ==> (s1 matches ServerModel::Ongoing { oe } && oe.cla == cla
                && oe.info == c.experiment)
            &&& s1 is Idle && s1->pending is Some && s1->pending != s->pending ==> {
                &&& s1->pending->0.sid != 0
                &&& s1->pending->0.cla == cla
            }
        }),
{
}

} // verus!
