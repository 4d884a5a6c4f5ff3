use vstd::prelude::*;

use crate::signal::Severity;

verus! {

/// One observation recorded in the ship's log.
#[derive(Clone, Debug, PartialEq)]
pub struct LogEntry {
    pub timestamp: u64,
    pub source: String,
    pub message: String,
    pub severity: Severity,
}

/// A log entry, with its texts as character sequences.
pub struct LogEntryView {
    pub timestamp: u64,
    pub source: Seq<char>,
    pub message: Seq<char>,
    pub severity: Severity,
}

impl View for LogEntry {
    type V = LogEntryView;

    open spec fn view(&self) -> LogEntryView {
        LogEntryView {
            timestamp: self.timestamp,
            source: self.source@,
            message: self.message@,
            severity: self.severity,
        }
    }
}

/// The entries of a log, each by its view.
pub open spec fn entry_views(entries: Seq<LogEntry>) -> Seq<LogEntryView> {
    entries.map_values(|e: LogEntry| e@)
}

/// Entries are in chronological order: each one's timestamp is its position.
pub open spec fn chronological(entries: Seq<LogEntryView>) -> bool {
    forall|i: int| 0 <= i < entries.len() ==> #[trigger] entries[i].timestamp == i
}

/// The entries at least as severe as `min`, in their order.
pub open spec fn at_least_severity(entries: Seq<LogEntryView>, min: Severity) -> Seq<LogEntryView> {
    entries.filter(|e: LogEntryView| e.severity.level() >= min.level())
}

/// The last `count` entries, or all of them when there are fewer.
pub open spec fn last_entries(entries: Seq<LogEntryView>, count: int) -> Seq<LogEntryView> {
    if count >= entries.len() {
        entries
    } else {
        entries.subrange(entries.len() - count, entries.len() as int)
    }
}

/// Ship log: persistent record of observations, in the order they were made.
#[derive(Debug)]
pub struct ShipLog {
    entries: Vec<LogEntry>,
    next_timestamp: u64,
}

impl ShipLog {
    #[verifier::type_invariant]
    spec fn inv(self) -> bool {
        &&& self.next_timestamp == self.entries@.len()
        &&& chronological(entry_views(self.entries@))
    }
}

impl View for ShipLog {
    type V = Seq<LogEntryView>;

    closed spec fn view(&self) -> Seq<LogEntryView> {
        entry_views(self.entries@)
    }
}

impl LogEntry {
    /// A copy of the entry.
    fn duplicate(&self) -> (r: LogEntry)
        ensures
            r@ == self@,
    {
        LogEntry {
            timestamp: self.timestamp,
            source: self.source.clone(),
            message: self.message.clone(),
            severity: self.severity,
        }
    }
}

impl ShipLog {
    pub fn new() -> (r: Self)
        ensures
            r@ == Seq::<LogEntryView>::empty(),
    {
        ShipLog { entries: Vec::new(), next_timestamp: 0 }
    }

    /// Records an observation, stamped with the next timestamp, and returns
    /// the entry. The timestamp counter is a `u64`, so a log can hold at most
    /// `u64::MAX` entries.
    pub fn record(&mut self, source: &str, message: &str, severity: Severity) -> (r: LogEntry)
        requires
            old(self)@.len() < u64::MAX,
        ensures
            r@ == (LogEntryView {
                timestamp: old(self)@.len() as u64,
                source: source@,
                message: message@,
                severity,
            }),
            final(self)@ == old(self)@.push(r@),
    {
        proof {
            use_type_invariant(&*self);
        }
        let mut taken = ShipLog::new();
        std::mem::swap(self, &mut taken);
        proof {
            use_type_invariant(&taken);
        }
        let ShipLog { mut entries, next_timestamp } = taken;
        let entry = LogEntry {
            timestamp: next_timestamp,
            source: source.to_owned(),
            message: message.to_owned(),
            severity,
        };
        let copy = entry.duplicate();
        entries.push(entry);
        assert(entry_views(entries@) =~= entry_views(old(self).entries@).push(copy@));
        *self = ShipLog { entries, next_timestamp: next_timestamp + 1 };
        copy
    }

    pub fn entries(&self) -> (r: &[LogEntry])
        ensures
            entry_views(r@) == self@,
            chronological(self@),
    {
        proof {
            use_type_invariant(self);
        }
        self.entries.as_slice()
    }

    pub fn len(&self) -> (r: usize)
        ensures
            r == self@.len(),
    {
        self.entries.len()
    }

    pub fn is_empty(&self) -> (r: bool)
        ensures
            r == (self@.len() == 0),
    {
        self.entries.len() == 0
    }

    /// Filter entries by minimum severity.
    pub fn filter_severity(&self, min_severity: Severity) -> (r: Vec<&LogEntry>)
        ensures
            r@.map_values(|e: &LogEntry| e@) == at_least_severity(self@, min_severity),
    {
        let ghost all = self@;
        let ghost pred = |e: LogEntryView| e.severity.level() >= min_severity.level();
        let mut out: Vec<&LogEntry> = Vec::new();
        let n = self.entries.len();
        for i in 0..n
            invariant
                n == self.entries@.len(),
                all == entry_views(self.entries@),
                pred == (|e: LogEntryView| e.severity.level() >= min_severity.level()),
                out@.map_values(|e: &LogEntry| e@) == all.take(i as int).filter(pred),
        {
            reveal_with_fuel(Seq::<_>::filter, 1);
            assert(all.take(i + 1).drop_last() =~= all.take(i as int));
            assert(all.take(i + 1).last() == self.entries@[i as int]@);
            let e = &self.entries[i];
            if e.severity.at_least(min_severity) {
                out.push(e);
                assert(out@.map_values(|e: &LogEntry| e@) =~= all.take(i as int).filter(pred).push(
                    e@,
                ));
            }
        }
        assert(all.take(n as int) =~= all);
        out
    }

    /// Get the most recent `count` entries.
    pub fn recent(&self, count: usize) -> (r: &[LogEntry])
        ensures
            entry_views(r@) == last_entries(self@, count as int),
    {
        let start = self.entries.len().saturating_sub(count);
        let (_, tail) = self.entries.as_slice().split_at(start);
        assert(entry_views(tail@) =~= last_entries(self@, count as int));
        tail
    }
}

impl Clone for ShipLog {
    fn clone(&self) -> (r: Self)
        ensures
            r@ == self@,
    {
        proof {
            use_type_invariant(self);
        }
        let mut entries: Vec<LogEntry> = Vec::new();
        let n = self.entries.len();
        for i in 0..n
            invariant
                n == self.entries@.len(),
                entries@.len() == i,
                forall|j: int| 0 <= j < i ==> #[trigger] entries@[j]@ == self.entries@[j]@,
        {
            entries.push(self.entries[i].duplicate());
        }
        assert(entry_views(entries@) =~= entry_views(self.entries@));
        ShipLog { entries, next_timestamp: self.next_timestamp }
    }
}

impl Default for ShipLog {
    fn default() -> (r: Self)
        ensures
            r@ == Seq::<LogEntryView>::empty(),
    {
        ShipLog::new()
    }
}

/// Recording keeps the log chronological: an entry stamped with the number of
/// entries before it, appended to a chronological log, leaves it
/// chronological.
pub proof fn lemma_record_keeps_chronological(entries: Seq<LogEntryView>, entry: LogEntryView)
    requires
        chronological(entries),
        entry.timestamp == entries.len(),
    ensures
        chronological(entries.push(entry)),
{
    assert forall|i: int| 0 <= i < entries.push(entry).len() implies #[trigger] entries.push(
        entry,
    )[i].timestamp == i by {
        if i < entries.len() {
            assert(entries.push(entry)[i] == entries[i]);
        }
    }
}

/// The most recent `count` entries are the last `min(count, len)` entries of
/// the log, in order; the newest of them is the newest entry of the log.
pub proof fn lemma_recent_entries(entries: Seq<LogEntryView>, count: int)
    requires
        0 <= count,
    ensures
        last_entries(entries, count).len() == if count <= entries.len() {
            count
        } else {
            entries.len() as int
        },
        forall|i: int|
            0 <= i < last_entries(entries, count).len() ==> #[trigger] last_entries(entries, count)[i]
                == entries[entries.len() - last_entries(entries, count).len() + i],
        count > 0 && entries.len() > 0 ==> last_entries(entries, count).last() == entries.last(),
{
}

/// Filtering by severity keeps exactly the entries at least as severe as the
/// minimum, in their order; filtering at the lowest level keeps every entry.
pub proof fn lemma_filter_severity(entries: Seq<LogEntryView>, min: Severity)
    ensures
        forall|i: int|
            0 <= i < at_least_severity(entries, min).len() ==> (#[trigger] at_least_severity(
                entries,
                min,
            )[i]).severity.level() >= min.level() && entries.contains(
                at_least_severity(entries, min)[i],
            ),
        forall|i: int|
            0 <= i < entries.len() && (#[trigger] entries[i]).severity.level() >= min.level()
                ==> at_least_severity(entries, min).contains(entries[i]),
        at_least_severity(entries, min).len() <= entries.len(),
        at_least_severity(entries, Severity::Low) == entries,
{
    let pred = |e: LogEntryView| e.severity.level() >= min.level();
    broadcast use vstd::seq_lib::group_filter_ensures;

    let kept = at_least_severity(entries, min);
    assert forall|i: int| 0 <= i < kept.len() implies (#[trigger] kept[i]).severity.level()
        >= min.level() && entries.contains(kept[i]) by {
        entries.lemma_filter_pred(pred, i);
        assert(kept.contains(kept[i]));
        entries.lemma_filter_contains_rev(pred, kept[i]);
    }

    assert forall|i: int|
        0 <= i < entries.len() && (#[trigger] entries[i]).severity.level() >= min.level()
        implies at_least_severity(entries, min).contains(entries[i]) by {
        entries.lemma_filter_contains(pred, i);
    }
    lemma_filter_low_keeps_all(entries);
}

proof fn lemma_filter_low_keeps_all(entries: Seq<LogEntryView>)
    ensures
        at_least_severity(entries, Severity::Low) == entries,
    decreases entries.len(),
{
    reveal_with_fuel(Seq::<_>::filter, 1);
    if entries.len() > 0 {
        lemma_filter_low_keeps_all(entries.drop_last());
        assert(entries.drop_last().push(entries.last()) =~= entries);
    }
}

} // verus!
