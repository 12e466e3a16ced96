//! The ledger: the measurement records of one session, in the order in which
//! their triggers were sent.

use crate::stats::StatsSnapshot;
use vstd::prelude::*;

verus! {

/// One measurement: a trigger that was sent and, once its watermark has come
/// back, what was measured then.
#[derive(Clone, Copy, Debug, PartialEq, Eq)]
pub struct MeasurementEntry {
    /// Sequence number of the trigger.
    pub id: u64,
    /// When the trigger was sent, in milliseconds since the epoch.
    pub emit_timestamp: u128,
    /// When the watermark was seen, in milliseconds since the epoch; 0 while pending.
    pub receive_timestamp: u128,
    /// The transport metrics taken at the match.
    pub snapshot: Option<StatsSnapshot>,
    /// Processor load at the match, in millionths of a percent.
    pub cpu_usage: u64,
}

/// The record that a trigger opens.
pub open spec fn pending_entry(id: u64, emit_timestamp: u128) -> MeasurementEntry {
    MeasurementEntry { id, emit_timestamp, receive_timestamp: 0, snapshot: None, cpu_usage: 0 }
}

/// The receive time stored for a watermark seen at `at`: the time itself,
/// but never before the trigger and never 0, which would read as pending.
pub open spec fn receive_time(emit_timestamp: u128, at: u128) -> u128 {
    if at < emit_timestamp {
        emit_timestamp
    } else if at == 0 {
        1
    } else {
        at
    }
}

/// A pending record after its match.
pub open spec fn matched_entry(
    entry: MeasurementEntry,
    at: u128,
    snapshot: StatsSnapshot,
    cpu_usage: u64,
) -> MeasurementEntry {
    MeasurementEntry {
        receive_timestamp: receive_time(entry.emit_timestamp, at),
        snapshot: Some(snapshot),
        cpu_usage,
        ..entry
    }
}

impl MeasurementEntry {
    /// Whether the watermark of this record's trigger has been seen.
    pub open spec fn is_matched(self) -> bool {
        self.receive_timestamp != 0
    }

    /// Glass-to-glass latency in milliseconds (meaningful once matched).
    pub open spec fn latency(self) -> int {
        self.receive_timestamp - self.emit_timestamp
    }

    /// A record is either pending, with nothing measured, or matched, with a
    /// receive time not before its trigger and with its metrics.
    pub open spec fn wf(self) -> bool {
        if self.receive_timestamp == 0 {
            self.snapshot is None && self.cpu_usage == 0
        } else {
            self.emit_timestamp <= self.receive_timestamp && self.snapshot is Some
        }
    }

    /// Whether the watermark of this record's trigger has been seen.
    pub fn matched(&self) -> (m: bool)
        ensures
            m == self.is_matched(),
    {
        self.receive_timestamp != 0
    }

    /// The measured latency in milliseconds, once matched.
    pub fn latency_ms(&self) -> (latency: Option<u128>)
        requires
            self.wf(),
        ensures
            latency == (if self.is_matched() {
                Some((self.receive_timestamp - self.emit_timestamp) as u128)
            } else {
                None
            }),
    {
        if self.receive_timestamp != 0 {
            Some(self.receive_timestamp - self.emit_timestamp)
        } else {
            None
        }
    }
}

/// Whether the newest record of `entries` exists and is still pending.
pub open spec fn newest_is_pending(entries: Seq<MeasurementEntry>) -> bool {
    entries.len() > 0 && !entries.last().is_matched()
}

/// `entries` after a watermark was seen: the newest record is matched if it
/// was pending; no other record is ever touched.
pub open spec fn close_newest_of(
    entries: Seq<MeasurementEntry>,
    at: u128,
    snapshot: StatsSnapshot,
    cpu_usage: u64,
) -> Seq<MeasurementEntry> {
    if newest_is_pending(entries) {
        entries.update(entries.len() - 1, matched_entry(entries.last(), at, snapshot, cpu_usage))
    } else {
        entries
    }
}

/// The matched records of `entries`, in order.
pub open spec fn matched_entries(entries: Seq<MeasurementEntry>) -> Seq<MeasurementEntry>
    decreases entries.len(),
{
    if entries.len() == 0 {
        Seq::empty()
    } else if entries.last().is_matched() {
        matched_entries(entries.drop_last()).push(entries.last())
    } else {
        matched_entries(entries.drop_last())
    }
}

/// How many records of `entries` are matched.
pub open spec fn matched_count(entries: Seq<MeasurementEntry>) -> nat
    decreases entries.len(),
{
    if entries.len() == 0 {
        0
    } else if entries.last().is_matched() {
        matched_count(entries.drop_last()) + 1
    } else {
        matched_count(entries.drop_last())
    }
}

/// The matched records are the ledger's records that are matched, each once
/// and in the ledger's order: `matched_entries(entries)[k]` is the record at
/// a position that grows with `k`, every record in it is matched, and every
/// matched record of the ledger is in it.
pub proof fn lemma_matched_entries(entries: Seq<MeasurementEntry>)
    ensures
        matched_entries(entries).len() == matched_count(entries),
        matched_entries(entries).len() <= entries.len(),
        forall|k: int|
            0 <= k < matched_entries(entries).len() ==> (#[trigger] matched_entries(
                entries,
            )[k]).is_matched() && entries.contains(matched_entries(entries)[k]),
        forall|i: int|
            0 <= i < entries.len() && (#[trigger] entries[i]).is_matched() ==> matched_entries(
                entries,
            ).contains(entries[i]),
    decreases entries.len(),
{
    if entries.len() > 0 {
        let front = entries.drop_last();
        lemma_matched_entries(front);
        let found = matched_entries(entries);
        assert forall|k: int| 0 <= k < found.len() implies (#[trigger] found[k]).is_matched()
            && entries.contains(found[k]) by {
            if k < matched_entries(front).len() {
                let e = matched_entries(front)[k];
                assert(front.contains(e));
                let i = choose|i: int| 0 <= i < front.len() && front[i] == e;
                assert(entries[i] == e);
            } else {
                assert(found[k] == entries[entries.len() - 1]);
            }
        }
        assert forall|i: int| 0 <= i < entries.len() && (#[trigger] entries[i]).is_matched()
            implies found.contains(entries[i]) by {
            if i < front.len() {
                assert(front[i] == entries[i]);
                assert(matched_entries(front).contains(front[i]));
                let k = choose|k: int|
                    0 <= k < matched_entries(front).len() && matched_entries(front)[k] == front[i];
                assert(found[k] == entries[i]);
            } else {
                assert(found[found.len() - 1] == entries[i]);
            }
        }
    }
}

/// The append-only collection of one session's measurement records.
pub struct Ledger {
    entries: Vec<MeasurementEntry>,
}

impl View for Ledger {
    type V = Seq<MeasurementEntry>;

    closed spec fn view(&self) -> Seq<MeasurementEntry> {
        self.entries@
    }
}

impl Ledger {
    /// Every record is well formed.
    pub open spec fn wf(&self) -> bool {
        forall|i: int| 0 <= i < self@.len() ==> (#[trigger] self@[i]).wf()
    }

    /// A ledger without records.
    pub fn new() -> (ledger: Ledger)
        ensures
            ledger@ == Seq::<MeasurementEntry>::empty(),
            ledger.wf(),
    {
        Ledger { entries: Vec::new() }
    }

    /// The number of records, matched or not.
    pub fn len(&self) -> (n: usize)
        ensures
            n == self@.len(),
    {
        self.entries.len()
    }

    /// The record at `index`, if there is one.
    pub fn get(&self, index: usize) -> (entry: Option<MeasurementEntry>)
        ensures
            entry == (if index < self@.len() {
                Some(self@[index as int])
            } else {
                None
            }),
    {
        if index < self.entries.len() {
            Some(self.entries[index])
        } else {
            None
        }
    }

    /// Whether a watermark seen now would be attributed to a record.
    pub fn has_pending_newest(&self) -> (pending: bool)
        ensures
            pending == newest_is_pending(self@),
    {
        let n = self.entries.len();
        n > 0 && self.entries[n - 1].receive_timestamp == 0
    }

    /// Opens the record of a trigger sent at `emit_timestamp`.
    pub fn open(&mut self, id: u64, emit_timestamp: u128)
        requires
            old(self).wf(),
        ensures
            final(self)@ == old(self)@.push(pending_entry(id, emit_timestamp)),
            final(self).wf(),
    {
        self.entries.push(
            MeasurementEntry {
                id,
                emit_timestamp,
                receive_timestamp: 0,
                snapshot: None,
                cpu_usage: 0,
            },
        );
        assert forall|i: int| 0 <= i < self@.len() implies (#[trigger] self@[i]).wf() by {
            if i < old(self)@.len() {
                assert(self@[i] == old(self)@[i]);
            }
        }
    }

    /// Attributes a watermark seen at `at` to the newest record, if that
    /// record is still pending, and stores what was measured. Says whether a
    /// record was matched.
    pub fn close_newest(&mut self, at: u128, snapshot: StatsSnapshot, cpu_usage: u64) -> (closed:
        bool)
        requires
            old(self).wf(),
        ensures
            closed == newest_is_pending(old(self)@),
            final(self)@ == close_newest_of(old(self)@, at, snapshot, cpu_usage),
            final(self).wf(),
    {
        let n = self.entries.len();
        if n == 0 {
            return false;
        }
        let newest = self.entries[n - 1];
        if newest.receive_timestamp != 0 {
            return false;
        }
        let received: u128 = if at < newest.emit_timestamp {
            newest.emit_timestamp
        } else if at == 0 {
            1
        } else {
            at
        };
        self.entries.set(
            n - 1,
            MeasurementEntry {
                id: newest.id,
                emit_timestamp: newest.emit_timestamp,
                receive_timestamp: received,
                snapshot: Some(snapshot),
                cpu_usage,
            },
        );
        assert(self@ =~= close_newest_of(old(self)@, at, snapshot, cpu_usage));
        true
    }
}

} // verus!
