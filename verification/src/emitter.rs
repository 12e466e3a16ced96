//! The emitter: the watermark budget that a trigger arms and produced frames
//! use up, and the emitter's own sampling cadence and report.

use crate::stats::{bytes_sent, bytes_sent_of, StatRecord};
use crate::text::{decimal, push_decimal, push_two_places, two_places};
use crate::watermark::{stamp, stamped};
use vstd::prelude::*;
use vstd::string::*;

verus! {

/// How much of how many frames a trigger marks.
#[derive(Clone, Copy, Debug, PartialEq, Eq)]
pub struct EmitterConfig {
    /// Frames marked after a trigger.
    pub burst: u32,
    /// Rows at the top of the luma plane that the mark covers.
    pub rows: usize,
    /// Produced frames between two samples of the emitter's own statistics.
    pub sample_interval: u64,
    /// How long the capture loop waits for a command before it captures the
    /// next frame, in milliseconds.
    pub tick_ms: u64,
}

impl EmitterConfig {
    /// A sample interval of 0 would never come round.
    pub open spec fn wf(self) -> bool {
        self.sample_interval > 0
    }

    /// The usual emitter: 15 frames marked over 50 rows, a sample every 150
    /// frames, a frame every 16 milliseconds.
    pub open spec fn standard_spec() -> EmitterConfig {
        EmitterConfig { burst: 15, rows: 50, sample_interval: 150, tick_ms: 16 }
    }

    /// The usual emitter.
    pub fn standard() -> (config: EmitterConfig)
        ensures
            config == Self::standard_spec(),
            config.wf(),
    {
        EmitterConfig { burst: 15, rows: 50, sample_interval: 150, tick_ms: 16 }
    }
}

/// The frames that remain to be marked.
///
/// The budget is the only state that the signal path and the frame path of
/// an emitter share. Both methods that change it take it exclusively, so a
/// reset can never fall between the test and the decrement of a frame.
#[derive(Debug)]
pub struct WatermarkBudget {
    remaining: u32,
    burst: u32,
    rows: usize,
}

/// The budget as contracts see it.
pub struct BudgetState {
    pub remaining: u32,
    pub burst: u32,
    pub rows: usize,
}

impl View for WatermarkBudget {
    type V = BudgetState;

    closed spec fn view(&self) -> BudgetState {
        BudgetState { remaining: self.remaining, burst: self.burst, rows: self.rows }
    }
}

impl BudgetState {
    /// The budget after a trigger: set to a full burst, whatever was left.
    pub open spec fn armed(self) -> BudgetState {
        BudgetState { remaining: self.burst, ..self }
    }

    /// Whether the next produced frame is marked.
    pub open spec fn marks_next(self) -> bool {
        self.remaining > 0
    }

    /// The budget after one produced frame.
    pub open spec fn spent(self) -> BudgetState {
        BudgetState {
            remaining: if self.remaining > 0 {
                (self.remaining - 1) as u32
            } else {
                0
            },
            ..self
        }
    }

    /// The budget after `n` produced frames and no trigger.
    pub open spec fn after_frames(self, n: nat) -> BudgetState
        decreases n,
    {
        if n == 0 {
            self
        } else {
            self.after_frames((n - 1) as nat).spent()
        }
    }
}

/// The luma plane that leaves the emitter: marked over the first `rows`
/// rows while the budget lasts, untouched otherwise.
pub open spec fn produced_plane(budget: BudgetState, luma: Seq<u8>, stride: usize) -> Seq<u8> {
    if budget.marks_next() {
        stamped(luma, (budget.rows * stride) as nat)
    } else {
        luma
    }
}

/// A trigger marks exactly one burst: of the frames produced after a
/// trigger and before the next, the first `burst` are marked and no other.
pub proof fn lemma_trigger_marks_one_burst(budget: BudgetState, n: nat)
    ensures
        budget.armed().after_frames(n).remaining == (if n < budget.burst {
            budget.burst - n
        } else {
            0
        }),
        budget.armed().after_frames(n).marks_next() <==> n < budget.burst,
        budget.armed().after_frames(n).burst == budget.burst,
        budget.armed().after_frames(n).rows == budget.rows,
    decreases n,
{
    if n > 0 {
        lemma_trigger_marks_one_burst(budget, (n - 1) as nat);
    }
}

/// Triggers do not add up: a trigger that arrives while a burst is still
/// running starts the burst again and does not lengthen it.
pub proof fn lemma_triggers_do_not_accumulate(budget: BudgetState, n: nat)
    ensures
        budget.armed().after_frames(n).armed() == budget.armed(),
{
    lemma_trigger_marks_one_burst(budget, n);
}

impl WatermarkBudget {
    /// A budget with nothing left to mark.
    pub fn new(config: EmitterConfig) -> (budget: WatermarkBudget)
        ensures
            budget@ == (BudgetState { remaining: 0, burst: config.burst, rows: config.rows }),
    {
        WatermarkBudget { remaining: 0, burst: config.burst, rows: config.rows }
    }

    /// The frames that remain to be marked.
    pub fn remaining(&self) -> (remaining: u32)
        ensures
            remaining == self@.remaining,
    {
        self.remaining
    }

    /// A trigger arrived: the next `burst` frames are marked. The budget is
    /// set, not added to, so a trigger that arrives during a burst does not
    /// lengthen it beyond `burst` frames from now.
    pub fn on_trigger(&mut self)
        ensures
            final(self)@ == old(self)@.armed(),
    {
        self.remaining = self.burst;
    }

    /// A frame was produced, with luma plane `luma` of `stride` bytes a row.
    /// While the budget lasts, the first `rows` rows of the plane are
    /// overwritten with the sentinel and the budget goes down by one;
    /// otherwise the frame passes untouched. Says whether the frame was marked.
    pub fn on_frame_produced(&mut self, luma: &mut [u8], stride: usize) -> (marked: bool)
        ensures
            marked == old(self)@.marks_next(),
            final(luma)@ == produced_plane(old(self)@, old(luma)@, stride),
            final(self)@ == old(self)@.spent(),
    {
        if self.remaining > 0 {
            self.remaining = self.remaining - 1;
            match self.rows.checked_mul(stride) {
                Some(region) => {
                    stamp(luma, region);
                },
                None => {
                    let len = luma.len();
                    stamp(luma, len);
                    assert(luma@ =~= stamped(old(luma)@, (self.rows * stride) as nat));
                },
            }
            true
        } else {
            false
        }
    }
}

/// One sample of the emitter's own statistics.
#[derive(Clone, Copy, Debug, PartialEq, Eq)]
pub struct EmitterSample {
    /// Processor load, in millionths of a percent; 0 if the process was not found.
    pub cpu_usage: u64,
    /// Bytes sent over the connection so far.
    pub bytes_sent: u64,
}

/// The sample made of a processor reading and a statistics query.
pub open spec fn sample_of(cpu_usage: Option<u64>, records: Seq<StatRecord>) -> EmitterSample {
    EmitterSample {
        cpu_usage: match cpu_usage {
            Some(load) => load,
            None => 0,
        },
        bytes_sent: bytes_sent_of(records),
    }
}

/// The emitter's capture loop as contracts see it.
pub struct CaptureState {
    pub sample_interval: u64,
    /// Frames produced since the last sample was due.
    pub since_sample: u64,
    /// The samples taken so far, oldest first.
    pub samples: Seq<EmitterSample>,
}

/// The bookkeeping of the emitter's capture loop: when a sample of the
/// emitter's own statistics is due, and the samples taken.
pub struct CaptureLoop {
    sample_interval: u64,
    since_sample: u64,
    samples: Vec<EmitterSample>,
}

impl View for CaptureLoop {
    type V = CaptureState;

    closed spec fn view(&self) -> CaptureState {
        CaptureState {
            sample_interval: self.sample_interval,
            since_sample: self.since_sample,
            samples: self.samples@,
        }
    }
}

impl CaptureLoop {
    /// The count since the last sample stays below the interval.
    pub open spec fn wf(&self) -> bool {
        self@.since_sample < self@.sample_interval
    }

    /// A loop that has produced no frame.
    pub fn new(config: EmitterConfig) -> (capture: CaptureLoop)
        requires
            config.wf(),
        ensures
            capture@ == (CaptureState {
                sample_interval: config.sample_interval,
                since_sample: 0,
                samples: Seq::empty(),
            }),
            capture.wf(),
    {
        CaptureLoop {
            sample_interval: config.sample_interval,
            since_sample: 0,
            samples: Vec::new(),
        }
    }

    /// A frame was captured. Says whether a sample is due, which it is on
    /// every `sample_interval`-th frame, whatever the watermark does.
    pub fn frame_captured(&mut self) -> (sample_due: bool)
        requires
            old(self).wf(),
        ensures
            final(self).wf(),
            final(self)@ == (CaptureState {
                since_sample: ((old(self)@.since_sample + 1) % (old(self)@.sample_interval
                    as int)) as u64,
                ..old(self)@
            }),
            sample_due == (final(self)@.since_sample == 0),
    {
        if self.since_sample + 1 == self.sample_interval {
            self.since_sample = 0;
            proof {
                vstd::arithmetic::div_mod::lemma_mod_self_0(old(self)@.sample_interval as int);
            }
            true
        } else {
            self.since_sample = self.since_sample + 1;
            assert((old(self)@.since_sample + 1) % (old(self)@.sample_interval as int) == old(
                self,
            )@.since_sample + 1) by {
                vstd::arithmetic::div_mod::lemma_small_mod(
                    (old(self)@.since_sample + 1) as nat,
                    old(self)@.sample_interval as nat,
                );
            }
            false
        }
    }

    /// Records a sample: the processor load, or 0 if the process was not
    /// found, and the bytes sent according to the statistics query. Says
    /// whether the process lookup had failed, which is worth a warning and
    /// nothing more.
    pub fn record_sample(&mut self, cpu_usage: Option<u64>, records: &Vec<StatRecord>) -> (lookup_failed:
        bool)
        ensures
            final(self)@ == (CaptureState {
                samples: old(self)@.samples.push(sample_of(cpu_usage, records@)),
                ..old(self)@
            }),
            lookup_failed == (cpu_usage is None),
    {
        let load: u64 = match cpu_usage {
            Some(load) => load,
            None => 0,
        };
        self.samples.push(EmitterSample { cpu_usage: load, bytes_sent: bytes_sent(records) });
        cpu_usage.is_none()
    }

    /// The samples taken so far, as the emitter's report.
    pub fn report(&self) -> (text: String)
        ensures
            text@ == emitter_report_text(self@.samples),
    {
        render_emitter_report(&self.samples)
    }
}

/// The header line of the emitter's report, with its line break.
pub open spec fn emitter_header_line() -> Seq<char> {
    "frame,cpu_usage,bytes_sent\n"@
}

/// The line of the sample at `index`, with its line break: the index, the
/// processor load in percent rounded to two decimal places, the bytes sent.
pub open spec fn emitter_row_text(index: nat, sample: EmitterSample) -> Seq<char> {
    decimal(index) + seq![','] + two_places(sample.cpu_usage as nat) + seq![','] + decimal(
        sample.bytes_sent as nat,
    ) + seq!['\n']
}

/// The emitter's report: the header, then one line per sample, in order.
pub open spec fn emitter_report_text(samples: Seq<EmitterSample>) -> Seq<char>
    decreases samples.len(),
{
    if samples.len() == 0 {
        emitter_header_line()
    } else {
        emitter_report_text(samples.drop_last()) + emitter_row_text(
            (samples.len() - 1) as nat,
            samples.last(),
        )
    }
}

/// Writes the emitter's report.
pub fn render_emitter_report(samples: &Vec<EmitterSample>) -> (text: String)
    ensures
        text@ == emitter_report_text(samples@),
{
    let mut out = String::from_str("frame,cpu_usage,bytes_sent\n");
    let mut i: usize = 0;
    while i < samples.len()
        invariant
            i <= samples@.len(),
            out@ == emitter_report_text(samples@.take(i as int)),
        decreases samples@.len() - i,
    {
        let ghost before = out@;
        let sample = samples[i];
        proof {
            reveal_strlit(",");
            reveal_strlit("\n");
            assert(samples@.take(i + 1).drop_last() =~= samples@.take(i as int));
        }
        push_decimal(&mut out, i as u128);
        out.append(",");
        push_two_places(&mut out, sample.cpu_usage);
        out.append(",");
        push_decimal(&mut out, sample.bytes_sent as u128);
        out.append("\n");
        assert(out@ =~= before + emitter_row_text(i as nat, sample));
        i = i + 1;
    }
    assert(samples@.take(i as int) =~= samples@);
    out
}

/// The name of the file that the emitter's report goes to.
pub open spec fn stats_file_name_of(
    encoder: Seq<char>,
    resolution: Seq<char>,
    bitrate: u64,
    name: Seq<char>,
) -> Seq<char> {
    encoder + seq!['_'] + resolution + seq!['_'] + decimal(bitrate as nat) + seq!['_'] + name
        + ".csv"@
}

/// Makes the name of the emitter's report file from what the stop command
/// carries: encoder, resolution label, bitrate in kbps, and the run's name.
pub fn stats_file_name(encoder: &str, resolution: &str, bitrate: u64, name: &str) -> (file_name:
    String)
    ensures
        file_name@ == stats_file_name_of(encoder@, resolution@, bitrate, name@),
{
    proof {
        reveal_strlit("_");
    }
    let mut out = String::from_str(encoder);
    out.append("_");
    out.append(resolution);
    out.append("_");
    push_decimal(&mut out, bitrate as u128);
    out.append("_");
    out.append(name);
    out.append(".csv");
    assert(out@ =~= stats_file_name_of(encoder@, resolution@, bitrate, name@));
    out
}

} // verus!
