//! Whole sessions: what the scheduler does over any run of events.

use crate::ledger::{
    lemma_matched_entries, matched_count, matched_entries, newest_is_pending, pending_entry,
    receive_time, MeasurementEntry,
};
use crate::receiver::{
    closes_measurement, drive_frame, initial_state, step, Event, FrameInput, Phase, ProbeConfig,
    SessionState, Warning,
};
use crate::stats::StatsSnapshot;
use vstd::prelude::*;

verus! {

/// The session after a run of events, oldest first.
pub open spec fn run(s: SessionState, events: Seq<Event>) -> SessionState
    decreases events.len(),
{
    if events.len() == 0 {
        s
    } else {
        step(run(s, events.drop_last()), events.last())
    }
}

/// A record is settled once it is matched or a newer record exists.
pub open spec fn is_settled(entries: Seq<MeasurementEntry>, i: int) -> bool {
    0 <= i < entries.len() && (entries[i].is_matched() || i < entries.len() - 1)
}

/// One event never removes a record, never touches a settled one, and
/// changes the newest one only by matching it.
pub proof fn lemma_step_is_append_only(s: SessionState, event: Event)
    ensures
        s.entries.len() <= step(s, event).entries.len() <= s.entries.len() + 1,
        forall|i: int|
            is_settled(s.entries, i) ==> #[trigger] step(s, event).entries[i] == s.entries[i],
        forall|i: int|
            0 <= i < s.entries.len() ==> (#[trigger] step(s, event).entries[i]).id
                == s.entries[i].id && step(s, event).entries[i].emit_timestamp
                == s.entries[i].emit_timestamp,
        step(s, event).config == s.config,
{
}

/// Over any run of events the session keeps its cadence and thresholds, the
/// ledger only grows, and a settled record stays as it is: a receive time
/// is set at most once, and never reset.
pub proof fn lemma_run_is_append_only(s: SessionState, events: Seq<Event>)
    ensures
        run(s, events).config == s.config,
        s.entries.len() <= run(s, events).entries.len(),
        forall|i: int|
            is_settled(s.entries, i) ==> #[trigger] run(s, events).entries[i] == s.entries[i],
        forall|i: int|
            0 <= i < s.entries.len() ==> (#[trigger] run(s, events).entries[i]).id
                == s.entries[i].id && run(s, events).entries[i].emit_timestamp
                == s.entries[i].emit_timestamp,
    decreases events.len(),
{
    if events.len() > 0 {
        let before = run(s, events.drop_last());
        lemma_run_is_append_only(s, events.drop_last());
        lemma_step_is_append_only(before, events.last());
        assert forall|i: int| is_settled(s.entries, i) implies #[trigger] run(
            s,
            events,
        ).entries[i] == s.entries[i] by {
            assert(before.entries[i] == s.entries[i]);
            assert(is_settled(before.entries, i));
        }
        assert forall|i: int| 0 <= i < s.entries.len() implies (#[trigger] run(
            s,
            events,
        ).entries[i]).id == s.entries[i].id && run(s, events).entries[i].emit_timestamp
            == s.entries[i].emit_timestamp by {
            assert(before.entries[i].id == s.entries[i].id);
            assert(step(before, events.last()).entries[i].id == before.entries[i].id);
        }
    }
}

/// Only the newest record can be matched. A record that was still pending
/// when a later trigger opened the next one stays pending whatever happens
/// afterwards, and is not among the matched records that the report shows.
pub proof fn lemma_overtaken_record_never_matches(s: SessionState, events: Seq<Event>, i: int)
    requires
        0 <= i < s.entries.len() - 1,
        !s.entries[i].is_matched(),
    ensures
        i < run(s, events).entries.len(),
        run(s, events).entries[i] == s.entries[i],
        !run(s, events).entries[i].is_matched(),
        !matched_entries(run(s, events).entries).contains(s.entries[i]),
{
    lemma_run_is_append_only(s, events);
    assert(is_settled(s.entries, i));
    let after = run(s, events).entries;
    lemma_matched_entries(after);
    if matched_entries(after).contains(s.entries[i]) {
        let k = choose|k: int|
            0 <= k < matched_entries(after).len() && matched_entries(after)[k] == s.entries[i];
        assert(matched_entries(after)[k].is_matched());
    }
}

/// A process that cannot be found does not end the session. The sample is
/// taken all the same: the newest record is matched with a processor load
/// of 0, a warning that names the record is added to the session's
/// warnings, and the session goes on to the next frame or trigger.
pub proof fn lemma_process_lookup_failure_is_not_fatal(
    s: SessionState,
    stats: Option<StatsSnapshot>,
    at: u128,
)
    requires
        s.wf(),
        s.phase is AwaitingSample,
    ensures
        ({
            let after = step(s, Event::Sample { stats, cpu_usage: None, at });
            &&& after.entries.len() == s.entries.len()
            &&& after.entries.last().is_matched()
            &&& after.entries.last().cpu_usage == 0
            &&& after.warnings.len() > s.warnings.len()
            &&& after.warnings.last() == (Warning::ProcessLookupFailure {
                entry_id: s.entries.last().id,
            })
            &&& (after.phase is AwaitingFrame || after.phase is AwaitingTrigger)
        }),
{
}

/// The session after a sequence of frames, first frame first.
pub open spec fn drive(s: SessionState, frames: Seq<FrameInput>) -> SessionState
    decreases frames.len(),
{
    if frames.len() == 0 {
        s
    } else {
        drive_frame(drive(s, frames.drop_last()), frames.last())
    }
}

/// How many triggers have gone out once `n` frames are done: one on the
/// first frame and one every `interval` frames after it.
pub open spec fn triggers_within(n: int, interval: int) -> int {
    if n <= 0 {
        0
    } else {
        (n - 1) / interval + 1
    }
}

/// Whether the frame at `index` (from 0) is one of the `burst` frames that
/// follow a trigger.
pub open spec fn in_burst(config: ProbeConfig, burst: int, index: int) -> bool {
    1 <= index % (config.trigger_interval as int) <= burst
}

/// The first frame that could close the record of trigger `k` (from 0): the
/// frame after the trigger, or the first frame after the warm-up if that
/// comes later.
pub open spec fn first_chance(config: ProbeConfig, k: int) -> int {
    if k * config.trigger_interval + 1 >= config.warmup_frames {
        k * config.trigger_interval + 1
    } else {
        config.warmup_frames as int
    }
}

/// Whether, once `n` frames are done, the record of trigger `k` is matched:
/// its first chance has come and fell within the burst.
pub open spec fn is_due(config: ProbeConfig, burst: int, n: int, k: int) -> bool {
    first_chance(config, k) <= k * config.trigger_interval + burst && first_chance(config, k) < n
}

/// The frames are marked exactly in the bursts that follow the triggers.
pub open spec fn bursts_follow_triggers(
    config: ProbeConfig,
    burst: int,
    frames: Seq<FrameInput>,
) -> bool {
    forall|j: int|
        0 <= j < frames.len() ==> ((#[trigger] frames[j]).marked <==> in_burst(config, burst, j))
}

/// The clock reads after the epoch and does not run backwards between a
/// trigger and the frames that follow it.
pub open spec fn clock_runs_forward(frames: Seq<FrameInput>) -> bool {
    &&& forall|j: int| 0 <= j < frames.len() ==> (#[trigger] frames[j]).at > 0
    &&& forall|i: int, j: int|
        0 <= i < j < frames.len() ==> (#[trigger] frames[i]).trigger_at <= (
        #[trigger] frames[j]).at
}

/// What the ledger holds once the first `n` of `frames` are done, if every
/// trigger is answered by a burst: one record per trigger, numbered from 1
/// as far as numbers go, and each matched on its first chance or not at
/// all. A matched record holds the receive time of the frame of its first
/// chance.
pub open spec fn follows_schedule(
    config: ProbeConfig,
    burst: int,
    frames: Seq<FrameInput>,
    n: int,
    s: SessionState,
) -> bool {
    &&& s.config == config
    &&& s.phase == Phase::AwaitingFrame
    &&& s.frames == n
    &&& s.entries.len() == triggers_within(n, config.trigger_interval as int)
    &&& forall|k: int|
        0 <= k < s.entries.len() ==> {
            &&& k < u64::MAX ==> (#[trigger] s.entries[k]).id == k + 1
            &&& s.entries[k].emit_timestamp == frames[k * config.trigger_interval].trigger_at
            &&& s.entries[k].receive_timestamp == (if is_due(config, burst, n, k) {
                receive_time(
                    frames[k * config.trigger_interval].trigger_at,
                    frames[first_chance(config, k)].at,
                )
            } else {
                0
            })
        }
}

proof fn lemma_quotient(n: int, interval: int, k: int, r: int)
    requires
        interval > 0,
        0 <= r < interval,
        n == k * interval + r,
    ensures
        n / interval == k,
        n % interval == r,
{
    vstd::arithmetic::div_mod::lemma_fundamental_div_mod_converse(n, interval, k, r);
}

proof fn lemma_split(n: int, interval: int)
    requires
        interval > 0,
        n >= 0,
    ensures
        n == (n / interval) * interval + n % interval,
        0 <= n % interval < interval,
        0 <= n / interval <= n,
{
    vstd::arithmetic::div_mod::lemma_fundamental_div_mod(n, interval);
    vstd::arithmetic::div_mod::lemma_mod_pos_bound(n, interval);
    assert((n / interval) * interval == interval * (n / interval)) by (nonlinear_arith);
    vstd::arithmetic::div_mod::lemma_div_pos_is_pos(n, interval);
    vstd::arithmetic::div_mod::lemma_div_nonincreasing(n, interval);
}

proof fn lemma_triggers_step(n: int, interval: int)
    requires
        interval > 0,
        n >= 0,
    ensures
        triggers_within(n + 1, interval) == n / interval + 1,
        n % interval == 0 ==> triggers_within(n, interval) == n / interval,
        n % interval != 0 ==> triggers_within(n, interval) == n / interval + 1,
{
    lemma_split(n, interval);
    let q = n / interval;
    let r = n % interval;
    if n > 0 {
        if r == 0 {
            assert(n - 1 == (q - 1) * interval + (interval - 1)) by (nonlinear_arith)
                requires
                    n == q * interval + r,
                    r == 0,
            ;
            lemma_quotient(n - 1, interval, q - 1, interval - 1);
        } else {
            lemma_quotient(n - 1, interval, q, r - 1);
        }
    }
}

proof fn lemma_burst_window(config: ProbeConfig, burst: int, n: int, k: int)
    requires
        config.wf(),
        1 <= burst < config.trigger_interval,
        0 <= k,
        k * config.trigger_interval + 1 <= n <= k * config.trigger_interval + burst,
    ensures
        n / (config.trigger_interval as int) == k,
        in_burst(config, burst, n),
{
    lemma_quotient(n, config.trigger_interval as int, k, n - k * config.trigger_interval);
}

proof fn lemma_frame_keeps_schedule(
    config: ProbeConfig,
    burst: int,
    frames: Seq<FrameInput>,
    n: int,
    s: SessionState,
)
    requires
        config.wf(),
        1 <= burst < config.trigger_interval,
        bursts_follow_triggers(config, burst, frames),
        0 <= n < frames.len(),
        follows_schedule(config, burst, frames, n, s),
    ensures
        follows_schedule(config, burst, frames, n + 1, drive_frame(s, frames[n])),
{
    let interval = config.trigger_interval as int;
    let frame = frames[n];
    let t = drive_frame(s, frame);
    lemma_triggers_step(n, interval);
    lemma_split(n, interval);
    let q = n / interval;
    let r = n % interval;
    assert(frame.marked <==> in_burst(config, burst, n));
    // A record whose first chance is this very frame is the newest one, and
    // the frame is marked and past the warm-up.
    assert forall|k: int|
        0 <= k < s.entries.len() && first_chance(config, k) == n && n <= k * interval
            + burst implies k == s.entries.len() - 1 && frame.marked && n >= config.warmup_frames
        && newest_is_pending(s.entries) by {
        lemma_burst_window(config, burst, n, k);
        assert(!is_due(config, burst, n, k));
        assert(s.entries[k].receive_timestamp == 0);
    }
    if closes_measurement(s, frame.marked) {
        let newest = s.entries.len() - 1;
        assert(r >= 1);
        assert(newest == q);
        assert(n == newest * interval + r);
        assert(s.entries[newest].receive_timestamp == 0);
        assert(!is_due(config, burst, n, newest));
        assert(first_chance(config, newest) == n);
        assert(t.entries.len() == s.entries.len());
        assert forall|k: int| 0 <= k < t.entries.len() implies {
            &&& k < u64::MAX ==> (#[trigger] t.entries[k]).id == k + 1
            &&& t.entries[k].emit_timestamp == frames[k * interval].trigger_at
            &&& t.entries[k].receive_timestamp == (if is_due(config, burst, n + 1, k) {
                receive_time(frames[k * interval].trigger_at, frames[first_chance(config, k)].at)
            } else {
                0
            })
        } by {
            assert(k < u64::MAX ==> s.entries[k].id == k + 1);
            if k == newest {
                assert(is_due(config, burst, n + 1, k));
            } else {
                assert(t.entries[k] == s.entries[k]);
                assert(is_due(config, burst, n + 1, k) == is_due(config, burst, n, k));
            }
        }
    } else {
        assert forall|k: int| 0 <= k < s.entries.len() implies is_due(config, burst, n + 1, k)
            == is_due(config, burst, n, k) by {
            if first_chance(config, k) == n && n <= k * interval + burst {
                assert(closes_measurement(s, frame.marked));
            }
        }
        if r == 0 {
            assert(n == q * interval);
            assert(t.entries == s.entries.push(pending_entry((q + 1) as u64, frame.trigger_at)));
            assert(s.entries.len() == q);
            assert forall|k: int| 0 <= k < t.entries.len() implies {
                &&& k < u64::MAX ==> (#[trigger] t.entries[k]).id == k + 1
                &&& t.entries[k].emit_timestamp == frames[k * interval].trigger_at
                &&& t.entries[k].receive_timestamp == (if is_due(config, burst, n + 1, k) {
                    receive_time(
                        frames[k * interval].trigger_at,
                        frames[first_chance(config, k)].at,
                    )
                } else {
                    0
                })
            } by {
                if k < s.entries.len() {
                    assert(t.entries[k] == s.entries[k]);
                    assert(k < u64::MAX ==> s.entries[k].id == k + 1);
                } else {
                    assert(k == q);
                    assert(!is_due(config, burst, n + 1, k));
                }
            }
        } else {
            assert(t.entries == s.entries);
            assert forall|k: int| 0 <= k < t.entries.len() implies {
                &&& k < u64::MAX ==> (#[trigger] t.entries[k]).id == k + 1
                &&& t.entries[k].emit_timestamp == frames[k * interval].trigger_at
                &&& t.entries[k].receive_timestamp == (if is_due(config, burst, n + 1, k) {
                    receive_time(
                        frames[k * interval].trigger_at,
                        frames[first_chance(config, k)].at,
                    )
                } else {
                    0
                })
            } by {
                assert(k < u64::MAX ==> s.entries[k].id == k + 1);
            }
        }
    }
}

proof fn lemma_prefix_follows_schedule(
    config: ProbeConfig,
    started_at: u128,
    burst: int,
    frames: Seq<FrameInput>,
    n: int,
)
    requires
        config.wf(),
        1 <= burst < config.trigger_interval,
        bursts_follow_triggers(config, burst, frames),
        0 <= n <= frames.len(),
    ensures
        follows_schedule(
            config,
            burst,
            frames,
            n,
            drive(initial_state(config, started_at), frames.take(n)),
        ),
    decreases n,
{
    if n > 0 {
        lemma_prefix_follows_schedule(config, started_at, burst, frames, n - 1);
        assert(frames.take(n).drop_last() =~= frames.take(n - 1));
        assert(frames.take(n).last() == frames[n - 1]);
        lemma_frame_keeps_schedule(
            config,
            burst,
            frames,
            n - 1,
            drive(initial_state(config, started_at), frames.take(n - 1)),
        );
    }
}

/// What ties the ledger to the frame count in a session that started from
/// nothing: the records are numbered from 1 without a gap, and there is one
/// for each trigger that has gone out.
pub open spec fn counts_triggers(s: SessionState) -> bool {
    &&& s.config.wf()
    &&& forall|k: int| 0 <= k < s.entries.len() ==> (#[trigger] s.entries[k]).id == k + 1
    &&& match s.phase {
        Phase::AwaitingFrame | Phase::AwaitingSample { .. } => s.entries.len() == triggers_within(
            s.frames as int,
            s.config.trigger_interval as int,
        ),
        Phase::AwaitingTrigger => s.frames % (s.config.trigger_interval as nat) == 0
            && s.entries.len() == s.frames / (s.config.trigger_interval as nat),
        Phase::Finished { .. } => true,
    }
}

proof fn lemma_step_counts_triggers(s: SessionState, event: Event)
    requires
        counts_triggers(s),
        s.frames < u64::MAX,
    ensures
        counts_triggers(step(s, event)),
        step(s, event).frames <= s.frames + 1,
{
    let after = step(s, event);
    lemma_triggers_step(s.frames as int, s.config.trigger_interval as int);
    lemma_split(s.frames as int, s.config.trigger_interval as int);
    assert forall|k: int| 0 <= k < after.entries.len() implies (#[trigger] after.entries[k]).id
        == k + 1 by {
        if k < s.entries.len() {
            lemma_step_is_append_only(s, event);
            assert(s.entries[k].id == k + 1);
        }
    }
}

/// Records are opened in the order in which their triggers are sent.
/// Whatever happens in a session, it keeps its cadence and thresholds, its
/// records are numbered 1, 2, 3 and so on in the order of the ledger, and
/// no frame is counted that no event brought.
pub proof fn lemma_records_are_numbered_in_trigger_order(
    config: ProbeConfig,
    started_at: u128,
    events: Seq<Event>,
)
    requires
        config.wf(),
        events.len() <= u64::MAX,
    ensures
        run(initial_state(config, started_at), events).config == config,
        counts_triggers(run(initial_state(config, started_at), events)),
        run(initial_state(config, started_at), events).frames <= events.len(),
        forall|k: int|
            0 <= k < run(initial_state(config, started_at), events).entries.len() ==> (
            #[trigger] run(initial_state(config, started_at), events).entries[k]).id == k + 1,
    decreases events.len(),
{
    if events.len() > 0 {
        lemma_records_are_numbered_in_trigger_order(config, started_at, events.drop_last());
        lemma_step_counts_triggers(
            run(initial_state(config, started_at), events.drop_last()),
            events.last(),
        );
    }
}

/// The first marked frame wins. Take any sequence of frames in which the
/// `burst` frames that follow each trigger are marked and no others, with
/// `burst` shorter than the trigger interval. Then the ledger holds one
/// record per trigger, in the order of the triggers, and each record is
/// matched exactly if its first chance (the frame after its trigger, or
/// after the warm-up if that is later) lies within its burst and within the
/// sequence. It is matched once, with the receive time of that frame, and
/// no later marked frame changes it.
pub proof fn lemma_first_marked_frame_wins(
    config: ProbeConfig,
    started_at: u128,
    burst: int,
    frames: Seq<FrameInput>,
)
    requires
        config.wf(),
        1 <= burst < config.trigger_interval,
        bursts_follow_triggers(config, burst, frames),
    ensures
        follows_schedule(
            config,
            burst,
            frames,
            frames.len() as int,
            drive(initial_state(config, started_at), frames),
        ),
{
    lemma_prefix_follows_schedule(config, started_at, burst, frames, frames.len() as int);
    assert(frames.take(frames.len() as int) =~= frames);
}

/// With bursts as above and a clock that runs forward, a matched record
/// holds the clock reading taken when the first marked frame arrived, and
/// a record whose whole burst was delivered after the warm-up is matched.
pub proof fn lemma_match_holds_the_first_reading(
    config: ProbeConfig,
    started_at: u128,
    burst: int,
    frames: Seq<FrameInput>,
    k: int,
)
    requires
        config.wf(),
        1 <= burst < config.trigger_interval,
        bursts_follow_triggers(config, burst, frames),
        clock_runs_forward(frames),
        0 <= k < drive(initial_state(config, started_at), frames).entries.len(),
    ensures
        ({
            let record = drive(initial_state(config, started_at), frames).entries[k];
            let first_marked = k * config.trigger_interval + 1;
            &&& record.is_matched() <==> is_due(config, burst, frames.len() as int, k)
            &&& record.is_matched() ==> record.receive_timestamp == frames[first_chance(
                config,
                k,
            )].at
            &&& first_marked >= config.warmup_frames && first_marked < frames.len()
                ==> record.receive_timestamp == frames[first_marked].at
        }),
{
    lemma_first_marked_frame_wins(config, started_at, burst, frames);
    let after = drive(initial_state(config, started_at), frames);
    let interval = config.trigger_interval as int;
    let record = after.entries[k];
    assert(record.emit_timestamp == frames[k * interval].trigger_at);
    assert(0 <= k * interval) by (nonlinear_arith)
        requires
            0 <= k,
            0 < interval,
    ;
    if is_due(config, burst, frames.len() as int, k) {
        let chance = first_chance(config, k);
        assert(k * interval < chance < frames.len());
        assert(frames[k * interval].trigger_at <= frames[chance].at);
        assert(frames[chance].at > 0);
    }
}

/// Once the newest record is matched, a frame asks for no sample and
/// changes no record, marked or not: the marked frames that follow the
/// first one of a burst leave the measurement as it is.
pub proof fn lemma_later_marked_frames_change_nothing(s: SessionState, marked: bool, at: u128)
    requires
        s.phase == Phase::AwaitingFrame,
        !newest_is_pending(s.entries),
    ensures
        step(s, Event::Frame { marked, at }).entries == s.entries,
        !(step(s, Event::Frame { marked, at }).phase is AwaitingSample),
        step(s, Event::Frame { marked, at }).warnings == s.warnings,
{
}

proof fn lemma_all_matched_counts_all(entries: Seq<MeasurementEntry>)
    requires
        forall|k: int| 0 <= k < entries.len() ==> (#[trigger] entries[k]).is_matched(),
    ensures
        matched_count(entries) == entries.len(),
    decreases entries.len(),
{
    if entries.len() > 0 {
        assert forall|k: int| 0 <= k < entries.drop_last().len() implies (
        #[trigger] entries.drop_last()[k]).is_matched() by {
            assert(entries.drop_last()[k] == entries[k]);
        }
        lemma_all_matched_counts_all(entries.drop_last());
    }
}

/// One match per trigger. With bursts as above, no warm-up left to wait
/// for, and the frame after the last trigger delivered, every record of
/// the ledger is matched: as many matched records as triggers sent, none
/// missed and none matched twice.
pub proof fn lemma_one_match_per_trigger(
    config: ProbeConfig,
    started_at: u128,
    burst: int,
    frames: Seq<FrameInput>,
)
    requires
        config.wf(),
        1 <= burst < config.trigger_interval,
        bursts_follow_triggers(config, burst, frames),
        config.warmup_frames <= 1,
        frames.len() > 0 ==> (frames.len() - 1) % (config.trigger_interval as int) != 0,
    ensures
        ({
            let records = drive(initial_state(config, started_at), frames).entries;
            &&& records.len() == triggers_within(
                frames.len() as int,
                config.trigger_interval as int,
            )
            &&& forall|k: int| 0 <= k < records.len() ==> (#[trigger] records[k]).is_matched()
            &&& matched_count(records) == records.len()
        }),
{
    lemma_first_marked_frame_wins(config, started_at, burst, frames);
    let records = drive(initial_state(config, started_at), frames).entries;
    let interval = config.trigger_interval as int;
    let n = frames.len() as int;
    assert forall|k: int| 0 <= k < records.len() implies (#[trigger] records[k]).is_matched() by {
        lemma_split(n - 1, interval);
        let q = (n - 1) / interval;
        assert(k <= q);
        assert(k * interval <= q * interval) by (nonlinear_arith)
            requires
                0 <= k <= q,
                0 < interval,
        ;
        assert(0 <= k * interval) by (nonlinear_arith)
            requires
                0 <= k,
                0 < interval,
        ;
        assert(first_chance(config, k) == k * interval + 1);
        assert(is_due(config, burst, n, k));
    }
    lemma_all_matched_counts_all(records);
}

} // verus!
