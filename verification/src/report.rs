//! The receiver's report: one header line, then one line per matched record.

use crate::ledger::{
    lemma_matched_entries, matched_count, matched_entries, Ledger, MeasurementEntry,
};
use crate::stats::{empty_snapshot, StatsSnapshot};
use crate::text::{decimal, millionths, push_decimal, push_millionths, push_two_places, two_places};
use vstd::prelude::*;
use vstd::string::*;

verus! {

/// The header line, with its line break.
pub open spec fn header_line() -> Seq<char> {
    "id,latency,processing_delay,jitter_buffer_delay,jitter_buffer_target_delay,jitter_buffer_minimum_delay,frames_per_second,freeze_count,total_bytes,dropped_frames,duration,cpu_usage\n"@
}

/// The metrics that a record's line shows: its own, or the defaults.
pub open spec fn shown_snapshot(entry: MeasurementEntry) -> StatsSnapshot {
    match entry.snapshot {
        Some(snapshot) => snapshot,
        None => empty_snapshot(),
    }
}

/// A cell that is not the first of its line: a comma, then the cell's text.
pub open spec fn after_comma(cell: Seq<char>) -> Seq<char> {
    seq![','] + cell
}

/// The line of one matched record, without its line break. Columns, in
/// order: id; latency in milliseconds, which is receive time minus emit
/// time; the four running averages in milliseconds and the frame rate; the
/// cumulative counts of freezes, bytes and dropped frames; the session's
/// duration in seconds; the processor load in percent. Every number is
/// written in its shortest form, without separators.
pub open spec fn row_text(entry: MeasurementEntry, session_duration_us: u64) -> Seq<char> {
    let shown = shown_snapshot(entry);
    decimal(entry.id as nat) + after_comma(decimal(entry.latency() as nat)) + after_comma(
        millionths(shown.processing_delay as nat),
    ) + after_comma(millionths(shown.jitter_buffer_delay as nat)) + after_comma(
        millionths(shown.jitter_buffer_target_delay as nat),
    ) + after_comma(millionths(shown.jitter_buffer_min_delay as nat)) + after_comma(
        millionths(shown.frames_per_second as nat),
    ) + after_comma(decimal(shown.freeze_count as nat)) + after_comma(
        decimal(shown.total_bytes as nat),
    ) + after_comma(decimal(shown.dropped_frames as nat)) + after_comma(
        millionths(session_duration_us as nat),
    ) + after_comma(millionths(entry.cpu_usage as nat))
}

/// The lines of the report below the header: one per matched record, in the
/// ledger's order.
pub open spec fn report_rows(entries: Seq<MeasurementEntry>, session_duration_us: u64) -> Seq<
    Seq<char>,
> {
    Seq::new(
        matched_entries(entries).len(),
        |k: int| row_text(matched_entries(entries)[k], session_duration_us),
    )
}

/// `lines`, each followed by a line break.
pub open spec fn join_lines(lines: Seq<Seq<char>>) -> Seq<char>
    decreases lines.len(),
{
    if lines.len() == 0 {
        Seq::empty()
    } else {
        join_lines(lines.drop_last()) + lines.last() + seq!['\n']
    }
}

/// The whole report.
pub open spec fn report_text(entries: Seq<MeasurementEntry>, session_duration_us: u64) -> Seq<
    char,
> {
    header_line() + join_lines(report_rows(entries, session_duration_us))
}

/// The start of a record's line: its id, a comma, its latency.
pub open spec fn row_lead(entry: MeasurementEntry) -> Seq<char> {
    decimal(entry.id as nat) + after_comma(decimal(entry.latency() as nat))
}

/// The report's lines are exactly the matched records: there are as many
/// lines as matched records, line `k` is the line of the `k`-th matched
/// record, every line is the line of a matched record of the ledger, and
/// every matched record of the ledger has its line. A pending record has
/// none.
pub proof fn lemma_rows_are_the_matched_records(
    entries: Seq<MeasurementEntry>,
    session_duration_us: u64,
)
    ensures
        report_rows(entries, session_duration_us).len() == matched_count(entries),
        forall|k: int|
            0 <= k < report_rows(entries, session_duration_us).len() ==> #[trigger] report_rows(
                entries,
                session_duration_us,
            )[k] == row_text(matched_entries(entries)[k], session_duration_us),
        forall|k: int|
            0 <= k < matched_entries(entries).len() ==> (#[trigger] matched_entries(
                entries,
            )[k]).is_matched() && entries.contains(matched_entries(entries)[k]),
        forall|i: int|
            0 <= i < entries.len() && (#[trigger] entries[i]).is_matched() ==> report_rows(
                entries,
                session_duration_us,
            ).contains(row_text(entries[i], session_duration_us)),
{
    lemma_matched_entries(entries);
    let rows = report_rows(entries, session_duration_us);
    assert forall|i: int| 0 <= i < entries.len() && (#[trigger] entries[i]).is_matched()
        implies rows.contains(row_text(entries[i], session_duration_us)) by {
        assert(matched_entries(entries).contains(entries[i]));
        let k = choose|k: int|
            0 <= k < matched_entries(entries).len() && matched_entries(entries)[k] == entries[i];
        assert(rows[k] == row_text(entries[i], session_duration_us));
    }
}

/// The latency that a line shows is the record's receive time minus its
/// emit time, and is never negative: the line of a matched record starts
/// with the record's id, a comma, and that difference.
pub proof fn lemma_row_shows_latency(entry: MeasurementEntry, session_duration_us: u64)
    requires
        entry.wf(),
        entry.is_matched(),
    ensures
        entry.latency() == entry.receive_timestamp - entry.emit_timestamp,
        entry.latency() >= 0,
        row_text(entry, session_duration_us).len() >= row_lead(entry).len(),
        row_text(entry, session_duration_us).subrange(0, row_lead(entry).len() as int)
            == row_lead(entry),
{
    assert(row_text(entry, session_duration_us).subrange(0, row_lead(entry).len() as int)
        =~= row_lead(entry));
}

/// Every line of the report of a well-formed ledger shows a latency that
/// is its record's receive time minus its emit time, and none is negative.
pub proof fn lemma_every_row_shows_latency(
    entries: Seq<MeasurementEntry>,
    session_duration_us: u64,
)
    requires
        forall|i: int| 0 <= i < entries.len() ==> (#[trigger] entries[i]).wf(),
    ensures
        forall|k: int|
            0 <= k < report_rows(entries, session_duration_us).len() ==> {
                let entry = matched_entries(entries)[k];
                let row = #[trigger] report_rows(entries, session_duration_us)[k];
                &&& entry.latency() == entry.receive_timestamp - entry.emit_timestamp
                &&& entry.latency() >= 0
                &&& row.len() >= row_lead(entry).len()
                &&& row.subrange(0, row_lead(entry).len() as int) == row_lead(entry)
            },
{
    lemma_matched_entries(entries);
    assert forall|k: int| 0 <= k < report_rows(entries, session_duration_us).len() implies {
        let entry = matched_entries(entries)[k];
        let row = #[trigger] report_rows(entries, session_duration_us)[k];
        &&& entry.latency() == entry.receive_timestamp - entry.emit_timestamp
        &&& entry.latency() >= 0
        &&& row.len() >= row_lead(entry).len()
        &&& row.subrange(0, row_lead(entry).len() as int) == row_lead(entry)
    } by {
        let entry = matched_entries(entries)[k];
        assert(entries.contains(entry));
        let i = choose|i: int| 0 <= i < entries.len() && entries[i] == entry;
        assert(entries[i].wf());
        lemma_row_shows_latency(entry, session_duration_us);
    }
}

/// Writing the report again gives the same text: the text depends on the
/// ledger's records and the session's duration and on nothing else, so two
/// ledgers with the same records give reports that agree to the byte.
pub proof fn lemma_report_is_repeatable(first: Ledger, second: Ledger, session_duration_us: u64)
    requires
        first@ == second@,
    ensures
        report_text(first@, session_duration_us) == report_text(second@, session_duration_us),
{
}

proof fn lemma_rows_extend(entries: Seq<MeasurementEntry>, session_duration_us: u64)
    requires
        entries.len() > 0,
    ensures
        report_rows(entries, session_duration_us) == (if entries.last().is_matched() {
            report_rows(entries.drop_last(), session_duration_us).push(
                row_text(entries.last(), session_duration_us),
            )
        } else {
            report_rows(entries.drop_last(), session_duration_us)
        }),
{
    let front = report_rows(entries.drop_last(), session_duration_us);
    if entries.last().is_matched() {
        assert(report_rows(entries, session_duration_us) =~= front.push(
            row_text(entries.last(), session_duration_us),
        ));
    } else {
        assert(report_rows(entries, session_duration_us) =~= front);
    }
}

fn comma_decimal(out: &mut String, n: u128)
    ensures
        final(out)@ == old(out)@ + after_comma(decimal(n as nat)),
{
    proof {
        reveal_strlit(",");
    }
    out.append(",");
    push_decimal(out, n);
    assert(out@ =~= old(out)@ + after_comma(decimal(n as nat)));
}

fn comma_millionths(out: &mut String, n: u64)
    ensures
        final(out)@ == old(out)@ + after_comma(millionths(n as nat)),
{
    proof {
        reveal_strlit(",");
    }
    out.append(",");
    push_millionths(out, n);
    assert(out@ =~= old(out)@ + after_comma(millionths(n as nat)));
}

/// The line of one matched record, without its line break.
fn render_row(entry: &MeasurementEntry, session_duration_us: u64) -> (row: String)
    requires
        entry.wf(),
        entry.is_matched(),
    ensures
        row@ == row_text(*entry, session_duration_us),
{
    let shown = match entry.snapshot {
        Some(snapshot) => snapshot,
        None => StatsSnapshot::empty(),
    };
    let mut row = String::new();
    push_decimal(&mut row, entry.id as u128);
    assert(row@ =~= decimal(entry.id as nat));
    comma_decimal(&mut row, entry.receive_timestamp - entry.emit_timestamp);
    comma_millionths(&mut row, shown.processing_delay);
    comma_millionths(&mut row, shown.jitter_buffer_delay);
    comma_millionths(&mut row, shown.jitter_buffer_target_delay);
    comma_millionths(&mut row, shown.jitter_buffer_min_delay);
    comma_millionths(&mut row, shown.frames_per_second);
    comma_decimal(&mut row, shown.freeze_count as u128);
    comma_decimal(&mut row, shown.total_bytes as u128);
    comma_decimal(&mut row, shown.dropped_frames as u128);
    comma_millionths(&mut row, session_duration_us);
    comma_millionths(&mut row, entry.cpu_usage);
    row
}

/// A value after its label.
pub open spec fn labelled(label: Seq<char>, value: Seq<char>) -> Seq<char> {
    label + value
}

/// The metrics of a snapshot in words, as a log line shows them: each in
/// its shortest form, but the frame rate with two decimal places.
pub open spec fn snapshot_description(snapshot: StatsSnapshot) -> Seq<char> {
    labelled("processing_delay: "@, millionths(snapshot.processing_delay as nat)) + labelled(
        ", jitter_buffer_delay: "@,
        millionths(snapshot.jitter_buffer_delay as nat),
    ) + labelled(
        ", jitter_buffer_target_delay: "@,
        millionths(snapshot.jitter_buffer_target_delay as nat),
    ) + labelled(
        ", jitter_buffer_minimum_delay: "@,
        millionths(snapshot.jitter_buffer_min_delay as nat),
    ) + labelled(", frames_per_second: "@, two_places(snapshot.frames_per_second as nat))
        + labelled(", total_frames: "@, decimal(snapshot.total_frames as nat)) + labelled(
        ", freeze_count: "@,
        decimal(snapshot.freeze_count as nat),
    ) + labelled(", total_bytes: "@, decimal(snapshot.total_bytes as nat)) + labelled(
        ", dropped_frames: "@,
        decimal(snapshot.dropped_frames as nat),
    )
}

/// A record in words, as a log line shows it: its id and its latency, then
/// its metrics and its processor load, or the remark that it has no metrics.
pub open spec fn entry_description(entry: MeasurementEntry) -> Seq<char> {
    let lead = decimal(entry.id as nat) + labelled(
        " latency: "@,
        decimal(entry.latency() as nat),
    );
    match entry.snapshot {
        Some(snapshot) => lead + labelled(" stats: "@, snapshot_description(snapshot)) + labelled(
            ", cpu_usage: "@,
            millionths(entry.cpu_usage as nat),
        ),
        None => lead + " stats: no stats available"@,
    }
}

fn push_labelled_decimal(out: &mut String, label: &str, n: u128)
    ensures
        final(out)@ == old(out)@ + labelled(label@, decimal(n as nat)),
{
    out.append(label);
    push_decimal(out, n);
    assert(out@ =~= old(out)@ + labelled(label@, decimal(n as nat)));
}

fn push_labelled_millionths(out: &mut String, label: &str, n: u64)
    ensures
        final(out)@ == old(out)@ + labelled(label@, millionths(n as nat)),
{
    out.append(label);
    push_millionths(out, n);
    assert(out@ =~= old(out)@ + labelled(label@, millionths(n as nat)));
}

fn push_labelled_two_places(out: &mut String, label: &str, n: u64)
    ensures
        final(out)@ == old(out)@ + labelled(label@, two_places(n as nat)),
{
    out.append(label);
    push_two_places(out, n);
    assert(out@ =~= old(out)@ + labelled(label@, two_places(n as nat)));
}

/// Describes a snapshot in words, for a log line.
pub fn describe_snapshot(snapshot: &StatsSnapshot) -> (text: String)
    ensures
        text@ == snapshot_description(*snapshot),
{
    let mut out = String::new();
    push_labelled_millionths(&mut out, "processing_delay: ", snapshot.processing_delay);
    assert(out@ =~= labelled("processing_delay: "@, millionths(snapshot.processing_delay as nat)));
    push_labelled_millionths(&mut out, ", jitter_buffer_delay: ", snapshot.jitter_buffer_delay);
    push_labelled_millionths(
        &mut out,
        ", jitter_buffer_target_delay: ",
        snapshot.jitter_buffer_target_delay,
    );
    push_labelled_millionths(
        &mut out,
        ", jitter_buffer_minimum_delay: ",
        snapshot.jitter_buffer_min_delay,
    );
    push_labelled_two_places(&mut out, ", frames_per_second: ", snapshot.frames_per_second);
    push_labelled_decimal(&mut out, ", total_frames: ", snapshot.total_frames as u128);
    push_labelled_decimal(&mut out, ", freeze_count: ", snapshot.freeze_count as u128);
    push_labelled_decimal(&mut out, ", total_bytes: ", snapshot.total_bytes as u128);
    push_labelled_decimal(&mut out, ", dropped_frames: ", snapshot.dropped_frames as u128);
    out
}

/// Describes a record in words, for a log line: its id, its latency, and
/// either its metrics and its processor load or the remark that it has no
/// metrics. The record's receive time must not lie before its emit time.
pub fn describe_entry(entry: &MeasurementEntry) -> (text: String)
    requires
        entry.emit_timestamp <= entry.receive_timestamp,
    ensures
        text@ == entry_description(*entry),
{
    let mut out = String::new();
    push_decimal(&mut out, entry.id as u128);
    assert(out@ =~= decimal(entry.id as nat));
    push_labelled_decimal(
        &mut out,
        " latency: ",
        entry.receive_timestamp - entry.emit_timestamp,
    );
    match entry.snapshot {
        Some(snapshot) => {
            let stats = describe_snapshot(&snapshot);
            out.append(" stats: ");
            out.append(stats.as_str());
            assert(out@ =~= decimal(entry.id as nat) + labelled(
                " latency: "@,
                decimal(entry.latency() as nat),
            ) + labelled(" stats: "@, snapshot_description(snapshot)));
            push_labelled_millionths(&mut out, ", cpu_usage: ", entry.cpu_usage);
        },
        None => {
            out.append(" stats: no stats available");
        },
    }
    out
}

/// Writes the report of a session that lasted `session_duration_us`
/// microseconds: the header, then the matched records. Pending records are
/// left out.
pub fn render_report(ledger: &Ledger, session_duration_us: u64) -> (text: String)
    requires
        ledger.wf(),
    ensures
        text@ == report_text(ledger@, session_duration_us),
{
    let mut out = String::from_str(
        "id,latency,processing_delay,jitter_buffer_delay,jitter_buffer_target_delay,jitter_buffer_minimum_delay,frames_per_second,freeze_count,total_bytes,dropped_frames,duration,cpu_usage\n",
    );
    let n = ledger.len();
    let mut i: usize = 0;
    assert(report_rows(ledger@.take(0), session_duration_us) =~= Seq::<Seq<char>>::empty());
    while i < n
        invariant
            n == ledger@.len(),
            i <= n,
            ledger.wf(),
            out@ == header_line() + join_lines(
                report_rows(ledger@.take(i as int), session_duration_us),
            ),
        decreases n - i,
    {
        proof {
            let next = ledger@.take(i + 1);
            assert(next.drop_last() =~= ledger@.take(i as int));
            assert(next.last() == ledger@[i as int]);
            lemma_rows_extend(next, session_duration_us);
        }
        if let Some(entry) = ledger.get(i) {
            if entry.matched() {
                let row = render_row(&entry, session_duration_us);
                out.append(row.as_str());
                out.append("\n");
                proof {
                    reveal_strlit("\n");
                }
                assert(out@ =~= header_line() + join_lines(
                    report_rows(ledger@.take(i + 1), session_duration_us),
                )) by {
                    let rows = report_rows(ledger@.take(i + 1), session_duration_us);
                    assert(rows.drop_last() =~= report_rows(
                        ledger@.take(i as int),
                        session_duration_us,
                    ));
                }
            }
        }
        i = i + 1;
    }
    assert(ledger@.take(i as int) =~= ledger@);
    out
}

} // verus!
