use cf_dns_sync::config::LogType;
use cf_dns_sync::record::DNSRecord;
use cf_dns_sync::schedule::{
    cycle_begin, cycle_summary, next_step, records_to_sync, CycleEvent, CycleStep, CycleTally, LoopPhase,
};
use cf_dns_sync::update::{SyncOutcome, UpdateFailure};

fn rec(id: &str, sync: Option<bool>) -> DNSRecord {
    DNSRecord {
        record_type: "A".to_string(),
        name: id.to_string(),
        content: "1.1.1.1".to_string(),
        proxy_status: Some(false),
        ttl: 1,
        id: id.to_string(),
        sync,
    }
}

#[test]
fn summary_when_nothing_was_attempted() {
    let (line, kind) = cycle_summary(&CycleTally::new(), 4);
    assert_eq!(line, "No records were changed");
    assert_eq!(kind, LogType::Log);
}

#[test]
fn summary_when_all_succeeded() {
    let (line, kind) = cycle_summary(&CycleTally { succeeded: 3, failed: 0 }, 4);
    assert_eq!(line, "All records changed successfully!");
    assert_eq!(kind, LogType::Log);
}

#[test]
fn summary_when_some_failed() {
    let (line, kind) = cycle_summary(&CycleTally { succeeded: 2, failed: 1 }, 5);
    assert_eq!(line, "Only 2 out of 5 records were changed successfully");
    assert_eq!(kind, LogType::Warn);
}

#[test]
fn summary_when_all_failed() {
    let (line, kind) = cycle_summary(&CycleTally { succeeded: 0, failed: 2 }, 2);
    assert_eq!(line, "All record changes failed");
    assert_eq!(kind, LogType::Warn);
}

#[test]
fn tally_counts_outcomes() {
    let mut t = CycleTally::new();
    t.record(&SyncOutcome::Updated);
    t.record(&SyncOutcome::Skipped);
    t.record(&SyncOutcome::Failed(UpdateFailure::Transport("down".to_string())));
    t.record(&SyncOutcome::Updated);
    assert_eq!(t, CycleTally { succeeded: 2, failed: 1 });
    let mut full = CycleTally { succeeded: u64::MAX, failed: 0 };
    full.record(&SyncOutcome::Updated);
    assert_eq!(full.succeeded, u64::MAX);
}

#[test]
fn only_enabled_records_are_sent_in_order() {
    let records = vec![rec("a", None), rec("b", Some(true)), rec("c", Some(false)), rec("d", Some(true))];
    assert_eq!(records_to_sync(&records), vec![1, 3]);
    assert!(records_to_sync(&vec![rec("a", Some(false))]).is_empty());
    assert!(records_to_sync(&vec![]).is_empty());
}

#[test]
fn first_cycle_does_not_wait() {
    assert_eq!(cycle_begin(LoopPhase::Startup, 300), CycleStep::ResolveIp);
    assert_eq!(cycle_begin(LoopPhase::Waiting, 300), CycleStep::Sleep(300));
}

#[test]
fn cycle_steps_follow_each_other() {
    assert_eq!(next_step(60, CycleEvent::Slept), (LoopPhase::Waiting, CycleStep::ResolveIp));
    assert_eq!(next_step(60, CycleEvent::IpResolved), (LoopPhase::Waiting, CycleStep::Reconcile));
    assert_eq!(next_step(60, CycleEvent::Reconciled), (LoopPhase::Waiting, CycleStep::UpdateRecords));
    assert_eq!(next_step(60, CycleEvent::RecordsUpdated), (LoopPhase::Waiting, CycleStep::Sleep(60)));
}

#[test]
fn cycle_without_address_waits_full_interval() {
    assert_eq!(next_step(45, CycleEvent::IpMissing), (LoopPhase::Waiting, CycleStep::Sleep(45)));
}
