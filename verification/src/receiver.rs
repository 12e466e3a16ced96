//! The receiver's scheduler: when a trigger goes out, which frame closes
//! which measurement, and what the caller has to do next.
//!
//! The scheduler never waits and never talks to the transport. The caller
//! hands it what happened (a frame arrived, a sample was collected, a trigger
//! went out, the stream ended) and gets back what to do next.

use crate::ledger::{close_newest_of, newest_is_pending, pending_entry, Ledger, MeasurementEntry};
use crate::stats::{empty_snapshot, frame_rate, observed_rate, StatsSnapshot};
use crate::watermark::{carries_mark, detect};
use vstd::prelude::*;

verus! {

/// The cadence and thresholds of a measuring session.
#[derive(Clone, Copy, Debug, PartialEq, Eq)]
pub struct ProbeConfig {
    /// A trigger goes out every this many inbound frames.
    pub trigger_interval: u64,
    /// Frames at the start of the session in which no watermark is accepted.
    pub warmup_frames: u64,
    /// How many luma samples of a frame are looked at.
    pub sample_len: usize,
    /// How many of them must equal the sentinel for the frame to count as marked.
    pub threshold: usize,
    /// How long the caller waits for a frame before it ends the session, in milliseconds.
    pub inactivity_timeout_ms: u64,
}

impl ProbeConfig {
    /// A trigger interval of 0 would never let a frame pass.
    pub open spec fn wf(self) -> bool {
        self.trigger_interval > 0
    }

    /// The usual session: a trigger every 150 frames, 500 frames of warm-up,
    /// 200 samples looked at, 100 of them needed, 10 seconds of patience.
    pub open spec fn standard_spec() -> ProbeConfig {
        ProbeConfig {
            trigger_interval: 150,
            warmup_frames: 500,
            sample_len: 200,
            threshold: 100,
            inactivity_timeout_ms: 10_000,
        }
    }

    /// The usual session.
    pub fn standard() -> (config: ProbeConfig)
        ensures
            config == Self::standard_spec(),
            config.wf(),
    {
        ProbeConfig {
            trigger_interval: 150,
            warmup_frames: 500,
            sample_len: 200,
            threshold: 100,
            inactivity_timeout_ms: 10_000,
        }
    }

    /// A session with the given cadence and thresholds, unless the trigger
    /// interval is 0.
    pub fn new(
        trigger_interval: u64,
        warmup_frames: u64,
        sample_len: usize,
        threshold: usize,
        inactivity_timeout_ms: u64,
    ) -> (config: Option<ProbeConfig>)
        ensures
            config == (if trigger_interval > 0 {
                Some(
                    ProbeConfig {
                        trigger_interval,
                        warmup_frames,
                        sample_len,
                        threshold,
                        inactivity_timeout_ms,
                    },
                )
            } else {
                None
            }),
    {
        if trigger_interval > 0 {
            Some(
                ProbeConfig {
                    trigger_interval,
                    warmup_frames,
                    sample_len,
                    threshold,
                    inactivity_timeout_ms,
                },
            )
        } else {
            None
        }
    }
}

/// Why a session stopped. Neither is a failure: the report is written.
#[derive(Clone, Copy, Debug, PartialEq, Eq)]
pub enum SessionEnd {
    /// The frame stream or the signaling channel closed.
    TransportEnded,
    /// No frame arrived within the inactivity window.
    InactivityTimeout,
}

/// Something that went wrong with one sample and did not stop the session.
#[derive(Clone, Copy, Debug, PartialEq, Eq)]
pub enum Warning {
    /// The process was not found; the record's processor load is 0.
    ProcessLookupFailure { entry_id: u64 },
    /// The statistics query failed; the record's metrics are at their defaults.
    StatsQueryFailure { entry_id: u64 },
}

/// What the scheduler is waiting for.
#[derive(Clone, Copy, Debug, PartialEq, Eq)]
pub enum Phase {
    /// The next inbound frame.
    AwaitingFrame,
    /// The sample for the watermark seen at `received_at`.
    AwaitingSample { received_at: u128 },
    /// Word that the trigger of the current frame has gone out.
    AwaitingTrigger,
    /// Nothing: the session is over.
    Finished { reason: SessionEnd },
}

/// What the caller has to do next.
#[derive(Clone, Copy, Debug, PartialEq, Eq)]
pub enum Command {
    /// Wait for the next frame and hand it in.
    NextFrame,
    /// Query the transport statistics and the processor load, and hand them in.
    CollectSample,
    /// Send the trigger over the signaling channel, and say when it went out.
    SendTrigger,
    /// Write the report.
    Finish,
}

/// What happened outside.
#[derive(Clone, Copy, Debug, PartialEq, Eq)]
pub enum Event {
    /// A frame arrived at `at`; `marked` says whether it carries the watermark.
    Frame { marked: bool, at: u128 },
    /// The sample was collected at `at`. `None` stands for a query that failed.
    Sample { stats: Option<StatsSnapshot>, cpu_usage: Option<u64>, at: u128 },
    /// The trigger went out at `at`.
    TriggerSent { at: u128 },
    /// The stream is over.
    Ended { reason: SessionEnd },
}

/// The state of a session as contracts see it.
pub struct SessionState {
    pub config: ProbeConfig,
    pub phase: Phase,
    /// Inbound frames dealt with so far.
    pub frames: nat,
    /// The ledger's records.
    pub entries: Seq<MeasurementEntry>,
    /// The frame count at the last match, or 0.
    pub rate_frame_mark: nat,
    /// The time of the last match, or of the session's start.
    pub rate_time_mark: u128,
    /// The warnings recorded so far, oldest first.
    pub warnings: Seq<Warning>,
}

/// The command that a phase stands for.
pub open spec fn command_of(phase: Phase) -> Command {
    match phase {
        Phase::AwaitingFrame => Command::NextFrame,
        Phase::AwaitingSample { .. } => Command::CollectSample,
        Phase::AwaitingTrigger => Command::SendTrigger,
        Phase::Finished { .. } => Command::Finish,
    }
}

/// A session that starts at `started_at` and has seen nothing yet.
pub open spec fn initial_state(config: ProbeConfig, started_at: u128) -> SessionState {
    SessionState {
        config,
        phase: Phase::AwaitingFrame,
        frames: 0,
        entries: Seq::empty(),
        rate_frame_mark: 0,
        rate_time_mark: started_at,
        warnings: Seq::empty(),
    }
}

/// Whether the frame now being dealt with may close a measurement: it is
/// marked, the warm-up is over, and the newest record is still pending.
pub open spec fn closes_measurement(s: SessionState, marked: bool) -> bool {
    marked && s.frames >= s.config.warmup_frames && newest_is_pending(s.entries)
}

/// Whether the frame now being dealt with is one on which a trigger goes out.
pub open spec fn trigger_due(s: SessionState) -> bool {
    s.frames % (s.config.trigger_interval as nat) == 0
}

/// The sequence number of the trigger that goes out on the current frame.
pub open spec fn next_id(s: SessionState) -> u64 {
    (s.frames / (s.config.trigger_interval as nat) + 1) as u64
}

/// Once detection is done with a frame: either its trigger has to go out,
/// or the frame is done.
pub open spec fn after_detection(s: SessionState) -> SessionState {
    if trigger_due(s) {
        SessionState { phase: Phase::AwaitingTrigger, ..s }
    } else {
        SessionState { phase: Phase::AwaitingFrame, frames: s.frames + 1, ..s }
    }
}

/// The time between the last match (or the start) and `at`; 0 if the clock
/// went back.
pub open spec fn elapsed_since_mark(s: SessionState, at: u128) -> u128 {
    if at >= s.rate_time_mark {
        (at - s.rate_time_mark) as u128
    } else {
        0
    }
}

/// The metrics stored with a match: those the transport gave, or the
/// defaults if the query failed, with the frame rate replaced by the one
/// seen locally since the last match.
pub open spec fn stored_snapshot(
    s: SessionState,
    stats: Option<StatsSnapshot>,
    at: u128,
) -> StatsSnapshot {
    let base = match stats {
        Some(snapshot) => snapshot,
        None => empty_snapshot(),
    };
    StatsSnapshot {
        frames_per_second: observed_rate(
            (s.frames - s.rate_frame_mark) as u64,
            elapsed_since_mark(s, at),
        ),
        ..base
    }
}

/// The processor load stored with a match: 0 if the process was not found.
pub open spec fn stored_cpu_usage(cpu_usage: Option<u64>) -> u64 {
    match cpu_usage {
        Some(load) => load,
        None => 0,
    }
}

/// The warnings that a sample adds for the record `entry_id`.
pub open spec fn sample_warnings(
    entry_id: u64,
    stats: Option<StatsSnapshot>,
    cpu_usage: Option<u64>,
) -> Seq<Warning> {
    let for_stats = if stats is None {
        seq![Warning::StatsQueryFailure { entry_id }]
    } else {
        Seq::<Warning>::empty()
    };
    let for_cpu = if cpu_usage is None {
        seq![Warning::ProcessLookupFailure { entry_id }]
    } else {
        Seq::<Warning>::empty()
    };
    for_stats + for_cpu
}

/// The session after one event. An event that the phase does not wait for
/// changes nothing, and nothing happens after the end.
pub open spec fn step(s: SessionState, event: Event) -> SessionState {
    match (s.phase, event) {
        (Phase::Finished { .. }, _) => s,
        (_, Event::Ended { reason }) => SessionState { phase: Phase::Finished { reason }, ..s },
        (Phase::AwaitingFrame, Event::Frame { marked, at }) => {
            if closes_measurement(s, marked) {
                SessionState { phase: Phase::AwaitingSample { received_at: at }, ..s }
            } else {
                after_detection(s)
            }
        },
        (Phase::AwaitingSample { received_at }, Event::Sample { stats, cpu_usage, at }) => {
            after_detection(
                SessionState {
                    entries: close_newest_of(
                        s.entries,
                        received_at,
                        stored_snapshot(s, stats, at),
                        stored_cpu_usage(cpu_usage),
                    ),
                    rate_frame_mark: s.frames,
                    rate_time_mark: at,
                    warnings: s.warnings + sample_warnings(s.entries.last().id, stats, cpu_usage),
                    ..s
                },
            )
        },
        (Phase::AwaitingTrigger, Event::TriggerSent { at }) => SessionState {
            phase: Phase::AwaitingFrame,
            frames: s.frames + 1,
            entries: s.entries.push(pending_entry(next_id(s), at)),
            ..s
        },
        _ => s,
    }
}

/// Everything that one frame brings with it: whether it is marked, when it
/// arrived, what a sample taken for it gives and when, and when its trigger
/// would go out.
#[derive(Clone, Copy, Debug, PartialEq, Eq)]
pub struct FrameInput {
    pub marked: bool,
    pub at: u128,
    pub stats: Option<StatsSnapshot>,
    pub cpu_usage: Option<u64>,
    pub sampled_at: u128,
    pub trigger_at: u128,
}

/// The session after one frame, with every command that the frame leads to
/// carried out: the sample collected if the frame closes a measurement, the
/// trigger sent if one is due.
pub open spec fn drive_frame(s: SessionState, frame: FrameInput) -> SessionState {
    let seen = step(s, Event::Frame { marked: frame.marked, at: frame.at });
    let sampled = if seen.phase is AwaitingSample {
        step(
            seen,
            Event::Sample { stats: frame.stats, cpu_usage: frame.cpu_usage, at: frame.sampled_at },
        )
    } else {
        seen
    };
    if sampled.phase is AwaitingTrigger {
        step(sampled, Event::TriggerSent { at: frame.trigger_at })
    } else {
        sampled
    }
}

impl SessionState {
    /// What holds of every session that the scheduler has run.
    pub open spec fn wf(self) -> bool {
        &&& self.config.wf()
        &&& forall|i: int| 0 <= i < self.entries.len() ==> (#[trigger] self.entries[i]).wf()
        &&& self.rate_frame_mark <= self.frames
        &&& self.phase is AwaitingSample ==> newest_is_pending(self.entries)
    }
}

/// The receiver's scheduler.
pub struct Receiver {
    config: ProbeConfig,
    phase: Phase,
    frames: u64,
    ledger: Ledger,
    rate_frame_mark: u64,
    rate_time_mark: u128,
    warnings: Vec<Warning>,
}

impl View for Receiver {
    type V = SessionState;

    closed spec fn view(&self) -> SessionState {
        SessionState {
            config: self.config,
            phase: self.phase,
            frames: self.frames as nat,
            entries: self.ledger@,
            rate_frame_mark: self.rate_frame_mark as nat,
            rate_time_mark: self.rate_time_mark,
            warnings: self.warnings@,
        }
    }
}

impl Receiver {
    /// The session is well formed.
    pub open spec fn wf(&self) -> bool {
        self@.wf()
    }

    /// Starts a session at `started_at`, in milliseconds since the epoch.
    pub fn new(config: ProbeConfig, started_at: u128) -> (receiver: Receiver)
        requires
            config.wf(),
        ensures
            receiver@ == initial_state(config, started_at),
            receiver.wf(),
    {
        Receiver {
            config,
            phase: Phase::AwaitingFrame,
            frames: 0,
            ledger: Ledger::new(),
            rate_frame_mark: 0,
            rate_time_mark: started_at,
            warnings: Vec::new(),
        }
    }

    /// What the caller has to do next.
    pub fn command(&self) -> (command: Command)
        ensures
            command == command_of(self@.phase),
    {
        match self.phase {
            Phase::AwaitingFrame => Command::NextFrame,
            Phase::AwaitingSample { .. } => Command::CollectSample,
            Phase::AwaitingTrigger => Command::SendTrigger,
            Phase::Finished { .. } => Command::Finish,
        }
    }

    /// Inbound frames dealt with so far.
    pub fn frames_seen(&self) -> (frames: u64)
        ensures
            frames == self@.frames,
    {
        self.frames
    }

    /// The session's records.
    pub fn ledger(&self) -> (ledger: &Ledger)
        ensures
            ledger@ == self@.entries,
            self.wf() ==> ledger.wf(),
    {
        assert(self.ledger@ =~= self@.entries);
        &self.ledger
    }

    /// The warnings recorded so far, oldest first.
    pub fn warnings(&self) -> (warnings: &Vec<Warning>)
        ensures
            warnings@ == self@.warnings,
    {
        &self.warnings
    }

    fn finish_detection(&mut self)
        requires
            old(self).wf(),
            old(self)@.frames < u64::MAX,
            !(old(self)@.phase is AwaitingSample),
        ensures
            final(self)@ == after_detection(old(self)@),
            final(self).wf(),
    {
        if self.frames % self.config.trigger_interval == 0 {
            self.phase = Phase::AwaitingTrigger;
        } else {
            self.phase = Phase::AwaitingFrame;
            self.frames = self.frames + 1;
        }
    }

    /// Takes one event and says what to do next.
    ///
    /// The frame counter has to have room for one more frame.
    pub fn handle(&mut self, event: Event) -> (command: Command)
        requires
            old(self).wf(),
            old(self)@.frames < u64::MAX,
        ensures
            final(self)@ == step(old(self)@, event),
            final(self).wf(),
            command == command_of(final(self)@.phase),
    {
        match (self.phase, event) {
            (Phase::Finished { .. }, _) => {},
            (_, Event::Ended { reason }) => {
                self.phase = Phase::Finished { reason };
            },
            (Phase::AwaitingFrame, Event::Frame { marked, at }) => {
                if marked && self.frames >= self.config.warmup_frames
                    && self.ledger.has_pending_newest() {
                    self.phase = Phase::AwaitingSample { received_at: at };
                } else {
                    self.finish_detection();
                }
            },
            (Phase::AwaitingSample { received_at }, Event::Sample { stats, cpu_usage, at }) => {
                let elapsed: u128 = if at >= self.rate_time_mark {
                    at - self.rate_time_mark
                } else {
                    0
                };
                let rate = frame_rate(self.frames - self.rate_frame_mark, elapsed);
                let base = match stats {
                    Some(snapshot) => snapshot,
                    None => StatsSnapshot::empty(),
                };
                let load: u64 = match cpu_usage {
                    Some(load) => load,
                    None => 0,
                };
                let entry_id = match self.ledger.get(self.ledger.len() - 1) {
                    Some(entry) => entry.id,
                    None => 0,
                };
                if stats.is_none() {
                    self.warnings.push(Warning::StatsQueryFailure { entry_id });
                }
                if cpu_usage.is_none() {
                    self.warnings.push(Warning::ProcessLookupFailure { entry_id });
                }
                assert(self.warnings@ =~= old(self)@.warnings + sample_warnings(
                    entry_id,
                    stats,
                    cpu_usage,
                ));
                self.ledger.close_newest(received_at, base.with_frame_rate(rate), load);
                self.rate_frame_mark = self.frames;
                self.rate_time_mark = at;
                self.phase = Phase::AwaitingFrame;
                self.finish_detection();
            },
            (Phase::AwaitingTrigger, Event::TriggerSent { at }) => {
                let id: u64 = self.frames / self.config.trigger_interval + 1;
                self.ledger.open(id, at);
                self.frames = self.frames + 1;
                self.phase = Phase::AwaitingFrame;
            },
            _ => {},
        }
        self.command()
    }

    /// Takes a frame together with everything it brings, and carries out
    /// every command that the frame leads to. This replays a recorded frame;
    /// a live session hands in its events one by one.
    pub fn replay(&mut self, frame: FrameInput) -> (command: Command)
        requires
            old(self).wf(),
            old(self)@.frames < u64::MAX,
        ensures
            final(self)@ == drive_frame(old(self)@, frame),
            final(self).wf(),
            command == command_of(final(self)@.phase),
    {
        let mut command = self.handle(Event::Frame { marked: frame.marked, at: frame.at });
        if let Command::CollectSample = command {
            command =
            self.handle(
                Event::Sample {
                    stats: frame.stats,
                    cpu_usage: frame.cpu_usage,
                    at: frame.sampled_at,
                },
            );
        }
        if let Command::SendTrigger = command {
            command = self.handle(Event::TriggerSent { at: frame.trigger_at });
        }
        command
    }

    /// Takes the frame whose luma plane is `luma`, arrived at `at`, and says
    /// what to do next.
    pub fn on_frame(&mut self, luma: &[u8], at: u128) -> (command: Command)
        requires
            old(self).wf(),
            old(self)@.frames < u64::MAX,
        ensures
            final(self)@ == step(
                old(self)@,
                Event::Frame {
                    marked: carries_mark(
                        luma@,
                        old(self)@.config.sample_len as nat,
                        old(self)@.config.threshold as nat,
                    ),
                    at,
                },
            ),
            final(self).wf(),
            command == command_of(final(self)@.phase),
    {
        let marked = detect(luma, self.config.sample_len, self.config.threshold);
        self.handle(Event::Frame { marked, at })
    }
}

} // verus!
