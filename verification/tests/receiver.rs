use latency_probe::emitter::{EmitterConfig, WatermarkBudget};
use latency_probe::ledger::MeasurementEntry;
use latency_probe::receiver::{
    Command, Event, FrameInput, ProbeConfig, Receiver, SessionEnd, Warning,
};
use latency_probe::report::render_report;
use latency_probe::stats::StatsSnapshot;

fn snapshot() -> StatsSnapshot {
    StatsSnapshot {
        processing_delay: 25_000_000,
        jitter_buffer_delay: 12_345_000,
        jitter_buffer_target_delay: 10_000_000,
        jitter_buffer_min_delay: 5_000,
        frames_per_second: 30_000_000,
        total_frames: 900,
        freeze_count: 2,
        total_bytes: 1_234_567,
        dropped_frames: 3,
    }
}

fn quick(trigger_interval: u64, warmup_frames: u64) -> ProbeConfig {
    ProbeConfig::new(trigger_interval, warmup_frames, 200, 100, 10_000).unwrap()
}

fn plain_frame(marked: bool, at: u128) -> FrameInput {
    FrameInput {
        marked,
        at,
        stats: Some(snapshot()),
        cpu_usage: Some(12_340_000),
        sampled_at: at + 1,
        trigger_at: at + 2,
    }
}

fn entries(receiver: &Receiver) -> Vec<MeasurementEntry> {
    let ledger = receiver.ledger();
    (0..ledger.len()).map(|i| ledger.get(i).unwrap()).collect()
}

#[test]
fn standard_config_values() {
    let config = ProbeConfig::standard();
    assert_eq!(config.trigger_interval, 150);
    assert_eq!(config.warmup_frames, 500);
    assert_eq!(config.sample_len, 200);
    assert_eq!(config.threshold, 100);
    assert_eq!(config.inactivity_timeout_ms, 10_000);
}

#[test]
fn config_rejects_a_zero_interval() {
    assert_eq!(ProbeConfig::new(0, 500, 200, 100, 10_000), None);
    assert!(ProbeConfig::new(1, 0, 0, 0, 0).is_some());
}

#[test]
fn new_session_waits_for_a_frame() {
    let receiver = Receiver::new(ProbeConfig::standard(), 1_000);
    assert_eq!(receiver.command(), Command::NextFrame);
    assert_eq!(receiver.frames_seen(), 0);
    assert_eq!(receiver.ledger().len(), 0);
    assert!(receiver.warnings().is_empty());
}

#[test]
fn first_frame_sends_the_first_trigger() {
    let mut receiver = Receiver::new(ProbeConfig::standard(), 1_000);
    assert_eq!(receiver.handle(Event::Frame { marked: false, at: 1_010 }), Command::SendTrigger);
    assert_eq!(receiver.frames_seen(), 0);
    assert_eq!(receiver.ledger().len(), 0);
    assert_eq!(receiver.handle(Event::TriggerSent { at: 1_020 }), Command::NextFrame);
    assert_eq!(receiver.frames_seen(), 1);
    assert_eq!(
        entries(&receiver),
        vec![MeasurementEntry {
            id: 1,
            emit_timestamp: 1_020,
            receive_timestamp: 0,
            snapshot: None,
            cpu_usage: 0,
        }]
    );
}

#[test]
fn trigger_every_interval_frames_with_growing_ids() {
    let mut receiver = Receiver::new(quick(150, 500), 1_000);
    let mut trigger_frames = Vec::new();
    for i in 0..451u128 {
        let before = receiver.ledger().len();
        receiver.replay(plain_frame(false, 2_000 + i));
        if receiver.ledger().len() > before {
            trigger_frames.push(i);
        }
    }
    assert_eq!(trigger_frames, vec![0, 150, 300, 450]);
    let ids: Vec<u64> = entries(&receiver).iter().map(|e| e.id).collect();
    assert_eq!(ids, vec![1, 2, 3, 4]);
    assert_eq!(receiver.frames_seen(), 451);
}

#[test]
fn marked_frame_during_warmup_is_ignored() {
    let mut receiver = Receiver::new(quick(150, 500), 1_000);
    for i in 0..500u128 {
        assert_eq!(receiver.replay(plain_frame(true, 2_000 + i)), Command::NextFrame);
    }
    assert!(entries(&receiver).iter().all(|e| e.receive_timestamp == 0));
    // The first frame after the warm-up is accepted.
    assert_eq!(receiver.handle(Event::Frame { marked: true, at: 9_000 }), Command::CollectSample);
}

#[test]
fn warmup_skips_exactly_the_first_frames() {
    let mut receiver = Receiver::new(quick(10, 3), 1_000);
    receiver.replay(plain_frame(true, 2_000));
    receiver.replay(plain_frame(true, 2_001));
    receiver.replay(plain_frame(true, 2_002));
    assert_eq!(entries(&receiver)[0].receive_timestamp, 0);
    receiver.replay(plain_frame(true, 2_003));
    assert_eq!(entries(&receiver)[0].receive_timestamp, 2_003);
}

#[test]
fn match_fills_the_newest_record() {
    let mut receiver = Receiver::new(quick(150, 0), 1_000);
    receiver.handle(Event::Frame { marked: false, at: 1_100 });
    receiver.handle(Event::TriggerSent { at: 1_101 });
    assert_eq!(receiver.handle(Event::Frame { marked: true, at: 1_151 }), Command::CollectSample);
    // Nothing is stored before the sample is in.
    assert_eq!(entries(&receiver)[0].receive_timestamp, 0);
    let command = receiver.handle(Event::Sample {
        stats: Some(snapshot()),
        cpu_usage: Some(12_340_000),
        at: 2_000,
    });
    assert_eq!(command, Command::NextFrame);
    // One frame since the start, 1000 ms ago: 1 frame per second.
    assert_eq!(
        entries(&receiver),
        vec![MeasurementEntry {
            id: 1,
            emit_timestamp: 1_101,
            receive_timestamp: 1_151,
            snapshot: Some(StatsSnapshot { frames_per_second: 1_000_000, ..snapshot() }),
            cpu_usage: 12_340_000,
        }]
    );
    assert!(receiver.warnings().is_empty());
    assert_eq!(receiver.frames_seen(), 2);
}

#[test]
fn frame_rate_is_local_and_resets_at_each_match() {
    let mut receiver = Receiver::new(quick(100, 0), 10_000);
    receiver.replay(plain_frame(false, 10_000));
    for i in 1..60u128 {
        receiver.replay(plain_frame(false, 10_000 + i));
    }
    // Frame 60 is marked; its sample comes in 2 s after the start.
    let mut frame = plain_frame(true, 11_900);
    frame.sampled_at = 12_000;
    receiver.replay(frame);
    assert_eq!(entries(&receiver)[0].snapshot.unwrap().frames_per_second, 30_000_000);
    for i in 61..100u128 {
        receiver.replay(plain_frame(false, 12_000 + i));
    }
    receiver.replay(plain_frame(false, 12_500));
    for i in 101..110u128 {
        receiver.replay(plain_frame(false, 12_500 + i));
    }
    // Frame 110 is marked: 50 frames since the last match, 5 s since then.
    let mut frame = plain_frame(true, 16_900);
    frame.sampled_at = 17_000;
    receiver.replay(frame);
    assert_eq!(entries(&receiver)[1].id, 2);
    assert_eq!(entries(&receiver)[1].snapshot.unwrap().frames_per_second, 10_000_000);
}

#[test]
fn first_match_wins_over_later_marked_frames() {
    let mut receiver = Receiver::new(quick(150, 0), 1_000);
    receiver.replay(plain_frame(false, 1_100));
    for i in 1..=15u128 {
        receiver.replay(plain_frame(true, 1_100 + 10 * i));
    }
    let all = entries(&receiver);
    assert_eq!(all.len(), 1);
    assert_eq!(all[0].receive_timestamp, 1_110);
    assert_eq!(all[0].emit_timestamp, 1_102);
}

#[test]
fn marked_frame_without_any_record_is_ignored() {
    let mut receiver = Receiver::new(quick(150, 0), 1_000);
    // The very first frame is looked at before its trigger goes out.
    assert_eq!(receiver.handle(Event::Frame { marked: true, at: 1_100 }), Command::SendTrigger);
    assert_eq!(receiver.ledger().len(), 0);
}

#[test]
fn match_and_trigger_on_the_same_frame() {
    let mut receiver = Receiver::new(quick(2, 0), 1_000);
    receiver.replay(plain_frame(false, 1_100));
    receiver.replay(plain_frame(false, 1_200));
    // Frame 2 is marked and is a trigger frame: the match goes to record 1,
    // then record 2 is opened.
    assert_eq!(receiver.handle(Event::Frame { marked: true, at: 1_300 }), Command::CollectSample);
    let command = receiver.handle(Event::Sample {
        stats: Some(snapshot()),
        cpu_usage: Some(1),
        at: 1_310,
    });
    assert_eq!(command, Command::SendTrigger);
    assert_eq!(receiver.handle(Event::TriggerSent { at: 1_320 }), Command::NextFrame);
    let all = entries(&receiver);
    assert_eq!(all.len(), 2);
    assert_eq!((all[0].id, all[0].receive_timestamp), (1, 1_300));
    assert_eq!((all[1].id, all[1].emit_timestamp, all[1].receive_timestamp), (2, 1_320, 0));
}

#[test]
fn overtaken_record_stays_pending_and_out_of_the_report() {
    let mut receiver = Receiver::new(quick(5, 0), 1_000);
    // Triggers on frames 0 and 5; the first marked frame is frame 7.
    for i in 0..7u128 {
        receiver.replay(plain_frame(false, 2_000 + 10 * i));
    }
    for i in 7..20u128 {
        receiver.replay(plain_frame(true, 2_000 + 10 * i));
    }
    let all = entries(&receiver);
    assert_eq!(all.len(), 4);
    assert_eq!(all[0].receive_timestamp, 0);
    assert_eq!(all[0].snapshot, None);
    assert_eq!(all[1].receive_timestamp, 2_070);
    assert_eq!(all[2].receive_timestamp, 2_110);
    assert_eq!(all[3].receive_timestamp, 2_160);
    let report = render_report(receiver.ledger(), 1_000);
    let ids: Vec<String> =
        report.lines().skip(1).map(|line| line.split(',').next().unwrap().to_string()).collect();
    assert_eq!(ids, vec!["2", "3", "4"]);
}

#[test]
fn unknown_process_gives_zero_load_and_a_warning() {
    let mut receiver = Receiver::new(quick(150, 0), 1_000);
    receiver.replay(plain_frame(false, 1_100));
    assert_eq!(receiver.handle(Event::Frame { marked: true, at: 1_200 }), Command::CollectSample);
    let command =
        receiver.handle(Event::Sample { stats: Some(snapshot()), cpu_usage: None, at: 1_210 });
    assert_eq!(command, Command::NextFrame);
    let all = entries(&receiver);
    assert_eq!(all[0].cpu_usage, 0);
    assert_eq!(all[0].receive_timestamp, 1_200);
    assert_eq!(receiver.warnings(), &vec![Warning::ProcessLookupFailure { entry_id: 1 }]);
    // The session goes on.
    assert_eq!(receiver.handle(Event::Frame { marked: false, at: 1_300 }), Command::NextFrame);
    let report = render_report(receiver.ledger(), 500_000);
    assert!(report.ends_with(",0.5,0\n"));
}

#[test]
fn failed_stats_query_leaves_defaults_and_a_warning() {
    let mut receiver = Receiver::new(quick(150, 0), 1_000);
    receiver.replay(plain_frame(false, 1_100));
    receiver.handle(Event::Frame { marked: true, at: 1_200 });
    let command =
        receiver.handle(Event::Sample { stats: None, cpu_usage: Some(2_500_000), at: 3_000 });
    assert_eq!(command, Command::NextFrame);
    let all = entries(&receiver);
    assert_eq!(
        all[0].snapshot,
        Some(StatsSnapshot { frames_per_second: 500_000, ..StatsSnapshot::empty() })
    );
    assert_eq!(all[0].cpu_usage, 2_500_000);
    assert_eq!(receiver.warnings(), &vec![Warning::StatsQueryFailure { entry_id: 1 }]);
}

#[test]
fn both_failures_give_both_warnings_in_order() {
    let mut receiver = Receiver::new(quick(150, 0), 1_000);
    receiver.replay(plain_frame(false, 1_100));
    receiver.handle(Event::Frame { marked: true, at: 1_200 });
    receiver.handle(Event::Sample { stats: None, cpu_usage: None, at: 1_300 });
    assert_eq!(
        receiver.warnings(),
        &vec![
            Warning::StatsQueryFailure { entry_id: 1 },
            Warning::ProcessLookupFailure { entry_id: 1 }
        ]
    );
}

#[test]
fn events_out_of_turn_change_nothing() {
    let mut receiver = Receiver::new(quick(150, 0), 1_000);
    assert_eq!(receiver.handle(Event::TriggerSent { at: 1 }), Command::NextFrame);
    let sample = Event::Sample { stats: None, cpu_usage: None, at: 1 };
    assert_eq!(receiver.handle(sample), Command::NextFrame);
    assert_eq!(receiver.ledger().len(), 0);
    assert_eq!(receiver.frames_seen(), 0);
    assert!(receiver.warnings().is_empty());
    assert_eq!(receiver.handle(Event::Frame { marked: false, at: 2 }), Command::SendTrigger);
    assert_eq!(receiver.handle(Event::Frame { marked: false, at: 3 }), Command::SendTrigger);
    assert_eq!(receiver.handle(sample), Command::SendTrigger);
    assert_eq!(receiver.frames_seen(), 0);
}

#[test]
fn end_of_stream_finishes_the_session() {
    let mut receiver = Receiver::new(quick(150, 0), 1_000);
    receiver.replay(plain_frame(false, 1_100));
    let ended = Event::Ended { reason: SessionEnd::InactivityTimeout };
    assert_eq!(receiver.handle(ended), Command::Finish);
    assert_eq!(receiver.command(), Command::Finish);
    // Nothing happens after the end.
    assert_eq!(receiver.handle(Event::Frame { marked: true, at: 5_000 }), Command::Finish);
    assert_eq!(
        receiver.handle(Event::Ended { reason: SessionEnd::TransportEnded }),
        Command::Finish
    );
    assert_eq!(receiver.frames_seen(), 1);
    assert_eq!(entries(&receiver).len(), 1);
}

#[test]
fn end_of_stream_while_a_trigger_is_due() {
    let mut receiver = Receiver::new(quick(150, 0), 1_000);
    assert_eq!(receiver.handle(Event::Frame { marked: false, at: 1_100 }), Command::SendTrigger);
    let ended = Event::Ended { reason: SessionEnd::TransportEnded };
    assert_eq!(receiver.handle(ended), Command::Finish);
    assert_eq!(receiver.handle(Event::TriggerSent { at: 1_200 }), Command::Finish);
    assert_eq!(receiver.ledger().len(), 0);
}

#[test]
fn clock_running_backwards_gives_zero_latency() {
    let mut receiver = Receiver::new(quick(150, 0), 1_000);
    receiver.handle(Event::Frame { marked: false, at: 5_000 });
    receiver.handle(Event::TriggerSent { at: 5_000 });
    receiver.handle(Event::Frame { marked: true, at: 4_000 });
    receiver.handle(Event::Sample { stats: None, cpu_usage: Some(0), at: 900 });
    let all = entries(&receiver);
    assert_eq!(all[0].receive_timestamp, 5_000);
    assert_eq!(all[0].latency_ms(), Some(0));
    // No time has passed since the start as far as the clock says.
    assert_eq!(all[0].snapshot.unwrap().frames_per_second, 0);
}

#[test]
fn match_at_the_epoch_is_not_left_pending() {
    let mut receiver = Receiver::new(quick(150, 0), 0);
    receiver.handle(Event::Frame { marked: false, at: 0 });
    receiver.handle(Event::TriggerSent { at: 0 });
    receiver.handle(Event::Frame { marked: true, at: 0 });
    receiver.handle(Event::Sample { stats: None, cpu_usage: Some(0), at: 0 });
    let all = entries(&receiver);
    assert_eq!(all[0].receive_timestamp, 1);
    assert!(all[0].matched());
}

#[test]
fn on_frame_reads_the_luma_plane() {
    let mut receiver = Receiver::new(quick(150, 0), 1_000);
    let clean = vec![0u8; 640];
    let mut marked = vec![0u8; 640];
    for i in 0..100 {
        marked[i] = 0x0a;
    }
    assert_eq!(receiver.on_frame(&marked, 1_100), Command::SendTrigger);
    assert_eq!(receiver.handle(Event::TriggerSent { at: 1_101 }), Command::NextFrame);
    assert_eq!(receiver.on_frame(&clean, 1_150), Command::NextFrame);
    marked[99] = 0;
    assert_eq!(receiver.on_frame(&marked, 1_160), Command::NextFrame);
    marked[199] = 0x0a;
    assert_eq!(receiver.on_frame(&marked, 1_170), Command::CollectSample);
}

/// Runs emitter and receiver against each other: every trigger arms the
/// emitter's budget, and every frame goes through both.
fn loop_back(config: ProbeConfig, frames: u128) -> Receiver {
    let mut budget = WatermarkBudget::new(EmitterConfig::standard());
    let mut receiver = Receiver::new(config, 1_000_000);
    for i in 0..frames {
        let now = 1_000_000 + 33 * i;
        let mut luma = vec![0x80u8; 64 * 48];
        budget.on_frame_produced(&mut luma, 64);
        let mut command = receiver.on_frame(&luma, now + 5);
        if command == Command::CollectSample {
            command = receiver.handle(Event::Sample {
                stats: Some(snapshot()),
                cpu_usage: Some(12_340_000),
                at: now + 6,
            });
        }
        if command == Command::SendTrigger {
            budget.on_trigger();
            command = receiver.handle(Event::TriggerSent { at: now + 7 });
        }
        assert_eq!(command, Command::NextFrame);
    }
    receiver
}

#[test]
fn four_hundred_fifty_frames_give_three_rows() {
    let receiver = loop_back(quick(150, 0), 450);
    let all = entries(&receiver);
    assert_eq!(all.len(), 3);
    let report = render_report(receiver.ledger(), 14_850);
    let rows: Vec<&str> = report.lines().skip(1).collect();
    assert_eq!(rows.len(), 3);
    let ids: Vec<&str> = rows.iter().map(|row| row.split(',').next().unwrap()).collect();
    assert_eq!(ids, vec!["1", "2", "3"]);
    // Each record is matched on the frame after its trigger: 33 ms later,
    // less the 2 ms between frame arrival and trigger.
    for (k, entry) in all.iter().enumerate() {
        let trigger_frame = 150 * k as u128;
        assert_eq!(entry.id, k as u64 + 1);
        assert_eq!(entry.emit_timestamp, 1_000_000 + 33 * trigger_frame + 7);
        assert_eq!(entry.receive_timestamp, 1_000_000 + 33 * (trigger_frame + 1) + 5);
        assert_eq!(entry.latency_ms(), Some(31));
    }
}

#[test]
fn one_match_per_trigger_after_the_warmup() {
    let receiver = loop_back(ProbeConfig::standard(), 1_210);
    let all = entries(&receiver);
    // Triggers on frames 0, 150, ..., 1200.
    assert_eq!(all.len(), 9);
    for (k, entry) in all.iter().enumerate() {
        let trigger_frame = 150 * k as u128;
        assert_eq!(entry.id, k as u64 + 1);
        if trigger_frame + 1 >= 500 {
            // Matched on the first marked frame, not on one of the 14 that follow.
            assert_eq!(entry.receive_timestamp, 1_000_000 + 33 * (trigger_frame + 1) + 5);
        } else {
            assert_eq!(entry.receive_timestamp, 0);
        }
    }
    let report = render_report(receiver.ledger(), 40_000);
    assert_eq!(report.lines().count(), 1 + 5);
}

#[test]
fn burst_across_the_end_of_the_warmup_matches_on_the_first_frame_after_it() {
    // Trigger on frame 490, marks on frames 491..=505, warm-up of 500 frames.
    let mut receiver = Receiver::new(quick(490, 500), 1_000);
    for i in 0..520u128 {
        let marked = (491..=505).contains(&i) || (1..=15).contains(&i);
        receiver.replay(plain_frame(marked, 2_000 + i));
    }
    let all = entries(&receiver);
    assert_eq!(all.len(), 2);
    assert_eq!(all[0].receive_timestamp, 0);
    assert_eq!(all[1].receive_timestamp, 2_500);
}
