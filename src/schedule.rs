//! The decisions of the unending synchronisation loop: when to wait, which
//! records to send, and how a cycle is summed up.
use vstd::prelude::*;
use crate::config::LogType;
use crate::record::DNSRecord;
use crate::text::{decimal, decimal_text};
use crate::update::SyncOutcome;

verus! {

/// Where the loop stands: before its first cycle, or between cycles.
#[derive(Clone, Copy, Debug, PartialEq, Eq, Structural)]
pub enum LoopPhase {
    Startup,
    Waiting,
}

/// What the loop does next.
#[derive(Clone, Copy, Debug, PartialEq, Eq, Structural)]
pub enum CycleStep {
    /// Sleep this many seconds, then resolve the public address.
    Sleep(u32),
    /// Ask for the machine's public address.
    ResolveIp,
    /// Fetch the provider's records (until a fetch succeeds), reconcile and store them.
    Reconcile,
    /// Send an update for every record opted into synchronisation, then sum up.
    UpdateRecords,
}

/// What came of the step just done.
#[derive(Clone, Copy, Debug, PartialEq, Eq, Structural)]
pub enum CycleEvent {
    Slept,
    IpResolved,
    IpMissing,
    Reconciled,
    RecordsUpdated,
}

/// The step a cycle begins with: no wait before the first cycle, the configured
/// interval before every later one.
pub fn cycle_begin(phase: LoopPhase, seconds_to_wait: u32) -> (r: CycleStep)
    ensures
        phase == LoopPhase::Startup ==> r == CycleStep::ResolveIp,
        phase == LoopPhase::Waiting ==> r == CycleStep::Sleep(seconds_to_wait),
{
    match phase {
        LoopPhase::Startup => CycleStep::ResolveIp,
        LoopPhase::Waiting => CycleStep::Sleep(seconds_to_wait),
    }
}

/// The loop's next phase and step after `event`. Once anything has happened
/// the loop waits between cycles, forever. A cycle without a public address
/// ends at once and the next one still waits the full interval; the records
/// are always reconciled before any update is sent.
pub fn next_step(seconds_to_wait: u32, event: CycleEvent) -> (r: (LoopPhase, CycleStep))
    ensures
        r.0 == LoopPhase::Waiting,
        event == CycleEvent::Slept ==> r.1 == CycleStep::ResolveIp,
        event == CycleEvent::IpResolved ==> r.1 == CycleStep::Reconcile,
        event == CycleEvent::IpMissing ==> r.1 == CycleStep::Sleep(seconds_to_wait),
        event == CycleEvent::Reconciled ==> r.1 == CycleStep::UpdateRecords,
        event == CycleEvent::RecordsUpdated ==> r.1 == CycleStep::Sleep(seconds_to_wait),
{
    let step = match event {
        CycleEvent::Slept => CycleStep::ResolveIp,
        CycleEvent::IpResolved => CycleStep::Reconcile,
        CycleEvent::Reconciled => CycleStep::UpdateRecords,
        CycleEvent::IpMissing => cycle_begin(LoopPhase::Waiting, seconds_to_wait),
        CycleEvent::RecordsUpdated => cycle_begin(LoopPhase::Waiting, seconds_to_wait),
    };
    (LoopPhase::Waiting, step)
}

/// The positions of the records to send in a cycle, in list order: exactly
/// the records opted into synchronisation, each once.
pub fn records_to_sync(records: &Vec<DNSRecord>) -> (r: Vec<usize>)
    ensures
        forall|k: int| 0 <= k < r@.len() ==> (#[trigger] r@[k]) < records@.len() && records@[r@[k] as int].sync == Some(true),
        forall|a: int, b: int| 0 <= a < b < r@.len() ==> #[trigger] r@[a] < #[trigger] r@[b],
        forall|i: int| 0 <= i < records@.len() && (#[trigger] records@[i]).sync == Some(true) ==> r@.contains(i as usize),
{
    let mut out: Vec<usize> = Vec::new();
    let mut i: usize = 0;
    while i < records.len()
        invariant
            i <= records@.len(),
            forall|k: int| 0 <= k < out@.len() ==> (#[trigger] out@[k]) < i && records@[out@[k] as int].sync == Some(true),
            forall|a: int, b: int| 0 <= a < b < out@.len() ==> #[trigger] out@[a] < #[trigger] out@[b],
            forall|j: int| 0 <= j < i && (#[trigger] records@[j]).sync == Some(true) ==> out@.contains(j as usize),
        decreases records@.len() - i,
    {
        if records[i].is_sync_enabled() {
            let ghost before = out@;
            out.push(i);
            assert forall|j: int| 0 <= j < i + 1 && (#[trigger] records@[j]).sync == Some(true) implies out@.contains(
                j as usize,
            ) by {
                if j < i {
                    let k = choose|k: int| 0 <= k < before.len() && before[k] == j as usize;
                    assert(out@[k] == j as usize);
                } else {
                    assert(out@[out@.len() - 1] == i);
                }
            }
        }
        i = i + 1;
    }
    out
}

/// The successes and failures of the updates sent in one cycle.
#[derive(Clone, Copy, Debug, PartialEq, Eq, Structural)]
pub struct CycleTally {
    pub succeeded: u64,
    pub failed: u64,
}

impl CycleTally {
    /// A cycle in which nothing was sent yet.
    pub fn new() -> (r: CycleTally)
        ensures
            r.succeeded == 0 && r.failed == 0,
    {
        CycleTally { succeeded: 0, failed: 0 }
    }

    /// Counts the outcome of one record: an update counts as a success, a
    /// failure as a failure, a skipped record not at all. A count that has
    /// reached its largest value stays there.
    pub fn record(&mut self, outcome: &SyncOutcome)
        ensures
            outcome is Updated ==> final(self).succeeded == (if old(self).succeeded == u64::MAX {
                u64::MAX
            } else {
                (old(self).succeeded + 1) as u64
            }) && final(self).failed == old(self).failed,
            outcome is Failed ==> final(self).failed == (if old(self).failed == u64::MAX {
                u64::MAX
            } else {
                (old(self).failed + 1) as u64
            }) && final(self).succeeded == old(self).succeeded,
            outcome is Skipped ==> *final(self) == *old(self),
    {
        match outcome {
            SyncOutcome::Updated => self.succeeded = self.succeeded.saturating_add(1),
            SyncOutcome::Failed(_) => self.failed = self.failed.saturating_add(1),
            SyncOutcome::Skipped => {},
        }
    }
}

/// The line that sums up a cycle in which `succeeded` updates went through and
/// `failed` did not, out of a list of `record_count` records.
pub open spec fn summary_text(succeeded: nat, failed: nat, record_count: nat) -> Seq<char> {
    if failed == 0 && succeeded == 0 {
        "No records were changed"@
    } else if failed == 0 {
        "All records changed successfully!"@
    } else if succeeded == 0 {
        "All record changes failed"@
    } else {
        "Only "@ + decimal(succeeded) + " out of "@ + decimal(record_count)
            + " records were changed successfully"@
    }
}

/// The severity of that line: a warning when anything failed.
pub open spec fn summary_severity(failed: nat) -> LogType {
    if failed == 0 {
        LogType::Log
    } else {
        LogType::Warn
    }
}

/// Sums up a cycle for the log, from its tally and the number of records in the list.
pub fn cycle_summary(tally: &CycleTally, record_count: u64) -> (r: (String, LogType))
    ensures
        r.0@ == summary_text(tally.succeeded as nat, tally.failed as nat, record_count as nat),
        r.1 == summary_severity(tally.failed as nat),
{
    if tally.failed == 0 {
        if tally.succeeded == 0 {
            (String::from_str("No records were changed"), LogType::Log)
        } else {
            (String::from_str("All records changed successfully!"), LogType::Log)
        }
    } else if tally.succeeded == 0 {
        (String::from_str("All record changes failed"), LogType::Warn)
    } else {
        let mut line = String::from_str("Only ");
        line.append(decimal_text(tally.succeeded).as_str());
        line.append(" out of ");
        line.append(decimal_text(record_count).as_str());
        line.append(" records were changed successfully");
        (line, LogType::Warn)
    }
}

} // verus!
