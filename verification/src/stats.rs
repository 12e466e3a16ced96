//! Transport statistics: which record is read, and what is derived from it.
//!
//! Every quantity that is not a whole number is kept in millionths of its
//! unit: durations arrive as whole nanoseconds and leave as millionths of a
//! millisecond, which is the same; rates are in millionths of a frame per
//! second; processor load is in millionths of a percent.

use vstd::prelude::*;

verus! {

/// The cumulative counters of one inbound-media record.
#[derive(Clone, Copy, Debug, PartialEq, Eq)]
pub struct InboundCounters {
    /// Time spent processing frames since the stream started, in nanoseconds.
    pub total_processing_delay_ns: u64,
    /// Frames decoded since the stream started.
    pub frames_decoded: u64,
    /// Time frames spent in the jitter buffer, in nanoseconds.
    pub jitter_buffer_delay_ns: u64,
    /// Accumulated target delay of the jitter buffer, in nanoseconds.
    pub jitter_buffer_target_delay_ns: u64,
    /// Accumulated minimum delay of the jitter buffer, in nanoseconds.
    pub jitter_buffer_minimum_delay_ns: u64,
    /// Samples that have left the jitter buffer.
    pub jitter_buffer_emitted_count: u64,
    /// The transport's own frame rate, in millionths of a frame per second.
    pub frames_per_second: u64,
    /// Frames received since the stream started.
    pub frames_received: u64,
    /// Freezes counted since the stream started.
    pub freeze_count: u64,
    /// Bytes received since the stream started.
    pub bytes_received: u64,
    /// Frames dropped since the stream started.
    pub frames_dropped: u64,
}

/// One statistics record of the media session, tagged by kind.
#[derive(Clone, Copy, Debug, PartialEq, Eq)]
pub enum StatRecord {
    /// A received media stream.
    InboundMedia(InboundCounters),
    /// A sent media stream.
    OutboundMedia,
    /// The connection pair in use, with the bytes sent over it so far.
    ConnectionPair { bytes_sent: u64 },
    /// The local media source.
    MediaSource,
    /// Any other kind.
    Other,
}

/// The metrics stored with a matched measurement.
#[derive(Clone, Copy, Debug, PartialEq, Eq)]
pub struct StatsSnapshot {
    /// Average processing time per decoded frame, in millionths of a millisecond.
    pub processing_delay: u64,
    /// Average jitter-buffer delay per emitted sample, in millionths of a millisecond.
    pub jitter_buffer_delay: u64,
    /// Average jitter-buffer target delay, in millionths of a millisecond.
    pub jitter_buffer_target_delay: u64,
    /// Average jitter-buffer minimum delay, in millionths of a millisecond.
    pub jitter_buffer_min_delay: u64,
    /// Frame rate, in millionths of a frame per second.
    pub frames_per_second: u64,
    /// Frames received, cumulative.
    pub total_frames: u64,
    /// Freezes, last cumulative value.
    pub freeze_count: u64,
    /// Bytes received, cumulative.
    pub total_bytes: u64,
    /// Frames dropped, cumulative.
    pub dropped_frames: u64,
}

/// The snapshot of a session that has reported nothing.
pub open spec fn empty_snapshot() -> StatsSnapshot {
    StatsSnapshot {
        processing_delay: 0,
        jitter_buffer_delay: 0,
        jitter_buffer_target_delay: 0,
        jitter_buffer_min_delay: 0,
        frames_per_second: 0,
        total_frames: 0,
        freeze_count: 0,
        total_bytes: 0,
        dropped_frames: 0,
    }
}

/// The running average since the stream started: a cumulative duration in
/// nanoseconds over the number of items it was accumulated for. This is
/// seconds / count x 1000, the average in milliseconds, kept to the
/// millionth and cut off there: 2 s over 256 frames is 7812500, which
/// reads 7.8125 ms. Nothing counted gives 0.
pub open spec fn running_average(cumulative_ns: u64, count: u64) -> u64 {
    if count == 0 {
        0
    } else {
        cumulative_ns / count
    }
}

/// What an inbound record gives: averages since the stream started, not
/// since the last sample, and the latest cumulative counts as they are.
pub open spec fn snapshot_of(c: InboundCounters) -> StatsSnapshot {
    StatsSnapshot {
        processing_delay: running_average(c.total_processing_delay_ns, c.frames_decoded),
        jitter_buffer_delay: running_average(
            c.jitter_buffer_delay_ns,
            c.jitter_buffer_emitted_count,
        ),
        jitter_buffer_target_delay: running_average(
            c.jitter_buffer_target_delay_ns,
            c.jitter_buffer_emitted_count,
        ),
        jitter_buffer_min_delay: running_average(
            c.jitter_buffer_minimum_delay_ns,
            c.jitter_buffer_emitted_count,
        ),
        frames_per_second: c.frames_per_second,
        total_frames: c.frames_received,
        freeze_count: c.freeze_count,
        total_bytes: c.bytes_received,
        dropped_frames: c.frames_dropped,
    }
}

/// The last inbound-media record of `records`, if there is one.
pub open spec fn latest_inbound(records: Seq<StatRecord>) -> Option<InboundCounters>
    decreases records.len(),
{
    if records.len() == 0 {
        None
    } else {
        match records.last() {
            StatRecord::InboundMedia(c) => Some(c),
            _ => latest_inbound(records.drop_last()),
        }
    }
}

/// The receiver's snapshot of a statistics query: that of the last
/// inbound-media record, or the empty one.
pub open spec fn inbound_snapshot_of(records: Seq<StatRecord>) -> StatsSnapshot {
    match latest_inbound(records) {
        Some(c) => snapshot_of(c),
        None => empty_snapshot(),
    }
}

/// The bytes sent according to the last connection-pair record, or 0.
pub open spec fn bytes_sent_of(records: Seq<StatRecord>) -> u64
    decreases records.len(),
{
    if records.len() == 0 {
        0
    } else {
        match records.last() {
            StatRecord::ConnectionPair { bytes_sent } => bytes_sent,
            _ => bytes_sent_of(records.drop_last()),
        }
    }
}

/// The frame rate seen locally: `frames` frames in `elapsed_ms`
/// milliseconds, in millionths of a frame per second, cut off there. No
/// time elapsed gives 0, and a rate too large to write down gives the
/// largest value.
pub open spec fn observed_rate(frames: u64, elapsed_ms: u128) -> u64 {
    if elapsed_ms == 0 {
        0
    } else if frames * 1_000_000_000 / (elapsed_ms as int) > u64::MAX {
        u64::MAX
    } else {
        (frames * 1_000_000_000 / (elapsed_ms as int)) as u64
    }
}

impl StatsSnapshot {
    /// The snapshot with every field at its default.
    pub fn empty() -> (snapshot: StatsSnapshot)
        ensures
            snapshot == empty_snapshot(),
    {
        StatsSnapshot {
            processing_delay: 0,
            jitter_buffer_delay: 0,
            jitter_buffer_target_delay: 0,
            jitter_buffer_min_delay: 0,
            frames_per_second: 0,
            total_frames: 0,
            freeze_count: 0,
            total_bytes: 0,
            dropped_frames: 0,
        }
    }

    /// Derives the stored metrics from the counters of one inbound record.
    pub fn from_inbound(counters: &InboundCounters) -> (snapshot: StatsSnapshot)
        ensures
            snapshot == snapshot_of(*counters),
    {
        StatsSnapshot {
            processing_delay: average(
                counters.total_processing_delay_ns,
                counters.frames_decoded,
            ),
            jitter_buffer_delay: average(
                counters.jitter_buffer_delay_ns,
                counters.jitter_buffer_emitted_count,
            ),
            jitter_buffer_target_delay: average(
                counters.jitter_buffer_target_delay_ns,
                counters.jitter_buffer_emitted_count,
            ),
            jitter_buffer_min_delay: average(
                counters.jitter_buffer_minimum_delay_ns,
                counters.jitter_buffer_emitted_count,
            ),
            frames_per_second: counters.frames_per_second,
            total_frames: counters.frames_received,
            freeze_count: counters.freeze_count,
            total_bytes: counters.bytes_received,
            dropped_frames: counters.frames_dropped,
        }
    }

    /// The same snapshot with the frame rate replaced by `rate`.
    pub fn with_frame_rate(self, rate: u64) -> (snapshot: StatsSnapshot)
        ensures
            snapshot == (StatsSnapshot { frames_per_second: rate, ..self }),
    {
        StatsSnapshot { frames_per_second: rate, ..self }
    }
}

/// The running average of a cumulative duration over a count.
pub fn average(cumulative_ns: u64, count: u64) -> (mean: u64)
    ensures
        mean == running_average(cumulative_ns, count),
{
    if count == 0 {
        0
    } else {
        cumulative_ns / count
    }
}

/// Extracts the receiver's snapshot from the records of one statistics query.
pub fn inbound_snapshot(records: &Vec<StatRecord>) -> (snapshot: StatsSnapshot)
    ensures
        snapshot == inbound_snapshot_of(records@),
{
    let mut latest: Option<InboundCounters> = None;
    let mut i: usize = 0;
    while i < records.len()
        invariant
            i <= records@.len(),
            latest == latest_inbound(records@.take(i as int)),
        decreases records@.len() - i,
    {
        assert(records@.take(i + 1).drop_last() =~= records@.take(i as int));
        match records[i] {
            StatRecord::InboundMedia(c) => {
                latest = Some(c);
            },
            _ => {},
        }
        i = i + 1;
    }
    assert(records@.take(i as int) =~= records@);
    match latest {
        Some(c) => StatsSnapshot::from_inbound(&c),
        None => StatsSnapshot::empty(),
    }
}

/// Extracts the bytes sent from the records of one statistics query.
pub fn bytes_sent(records: &Vec<StatRecord>) -> (sent: u64)
    ensures
        sent == bytes_sent_of(records@),
{
    let mut sent: u64 = 0;
    let mut i: usize = 0;
    while i < records.len()
        invariant
            i <= records@.len(),
            sent == bytes_sent_of(records@.take(i as int)),
        decreases records@.len() - i,
    {
        assert(records@.take(i + 1).drop_last() =~= records@.take(i as int));
        match records[i] {
            StatRecord::ConnectionPair { bytes_sent } => {
                sent = bytes_sent;
            },
            _ => {},
        }
        i = i + 1;
    }
    assert(records@.take(i as int) =~= records@);
    sent
}

/// The locally observed frame rate over a window of frames and time.
pub fn frame_rate(frames: u64, elapsed_ms: u128) -> (rate: u64)
    ensures
        rate == observed_rate(frames, elapsed_ms),
{
    if elapsed_ms == 0 {
        0
    } else {
        assert(frames * 1_000_000_000 <= u128::MAX) by (nonlinear_arith)
            requires
                frames <= u64::MAX,
        ;
        let scaled: u128 = (frames as u128) * 1_000_000_000 / elapsed_ms;
        if scaled > u64::MAX as u128 {
            u64::MAX
        } else {
            scaled as u64
        }
    }
}

} // verus!
