use cf_dns_sync::record::DNSRecord;
use cf_dns_sync::reconcile::{merge_fetched_records, records_needing_decision, resolve_new_records, update_dns_list};
use cf_dns_sync::config::{AuthenticationConfig, Config, LogConfig};

fn rec(id: &str, name: &str, content: &str, sync: Option<bool>) -> DNSRecord {
    DNSRecord {
        record_type: "A".to_string(),
        name: name.to_string(),
        content: content.to_string(),
        proxy_status: None,
        ttl: 1,
        id: id.to_string(),
        sync,
    }
}

fn config_with(records: Vec<DNSRecord>) -> Config {
    let mut c = Config::new(
        AuthenticationConfig {
            email: "me@example.com".to_string(),
            api_key: "key".to_string(),
            zone_id: "zone".to_string(),
        },
        LogConfig::with_folder("/tmp".to_string()),
    );
    c.dns_config = records;
    c
}

#[test]
fn decision_follows_id_across_renames() {
    let previous = vec![rec("1", "old.example.com", "1.1.1.1", Some(true)), rec("2", "b", "2.2.2.2", Some(false))];
    let fetched = vec![rec("2", "b", "9.9.9.9", None), rec("1", "new.example.com", "9.9.9.9", None)];
    let merged = merge_fetched_records(&previous, fetched);
    assert_eq!(merged.len(), 2);
    assert_eq!(merged[0].id, "2");
    assert_eq!(merged[0].sync, Some(false));
    assert_eq!(merged[1].id, "1");
    assert_eq!(merged[1].name, "new.example.com");
    assert_eq!(merged[1].sync, Some(true));
}

#[test]
fn decisions_do_not_leak_between_ids() {
    let previous = vec![rec("1", "same", "1.1.1.1", Some(true))];
    let fetched = vec![rec("9", "same", "1.1.1.1", None)];
    let merged = merge_fetched_records(&previous, fetched);
    assert_eq!(merged[0].sync, None);
}

#[test]
fn records_gone_from_provider_are_dropped() {
    let previous = vec![rec("1", "a", "x", Some(true)), rec("2", "b", "x", Some(true))];
    let fetched = vec![rec("2", "b", "x", None)];
    let merged = merge_fetched_records(&previous, fetched);
    assert_eq!(merged.len(), 1);
    assert_eq!(merged[0].id, "2");
}

#[test]
fn undecided_records_are_listed_in_order() {
    let records = vec![rec("1", "a", "x", None), rec("2", "b", "x", Some(true)), rec("3", "c", "x", None)];
    let pending = records_needing_decision(&records);
    assert_eq!(pending.len(), 2);
    assert_eq!(pending[0].id, "1");
    assert_eq!(pending[1].id, "3");
}

#[test]
fn choice_decides_every_record() {
    let mut records = vec![rec("1", "a", "x", None), rec("2", "b", "x", Some(false)), rec("3", "c", "x", None)];
    resolve_new_records(&mut records, &vec!["3".to_string(), "2".to_string()]);
    assert_eq!(records[0].sync, Some(false));
    assert_eq!(records[1].sync, Some(false));
    assert_eq!(records[2].sync, Some(true));
}

#[test]
fn empty_choice_disables_every_new_record() {
    let mut records = vec![rec("1", "a", "x", None), rec("2", "b", "x", Some(true))];
    resolve_new_records(&mut records, &vec![]);
    assert_eq!(records[0].sync, Some(false));
    assert_eq!(records[1].sync, Some(true));
}

#[test]
fn update_without_choice_leaves_new_records_undecided() {
    let mut config = config_with(vec![rec("1", "a", "x", Some(true))]);
    update_dns_list(&mut config, vec![rec("1", "a", "y", None), rec("2", "b", "y", None)], None);
    assert_eq!(config.dns_config.len(), 2);
    assert_eq!(config.dns_config[0].sync, Some(true));
    assert_eq!(config.dns_config[0].content, "y");
    assert_eq!(config.dns_config[1].sync, None);
    assert_eq!(config.seconds_to_wait_per_restart, 300);
}

#[test]
fn update_with_choice_decides_new_records() {
    let mut config = config_with(vec![rec("1", "a", "x", Some(true))]);
    let chosen = vec!["2".to_string()];
    update_dns_list(&mut config, vec![rec("1", "a", "y", None), rec("2", "b", "y", None), rec("3", "c", "y", None)], Some(&chosen));
    let syncs: Vec<Option<bool>> = config.dns_config.iter().map(|r| r.sync).collect();
    assert_eq!(syncs, vec![Some(true), Some(true), Some(false)]);
}

#[test]
fn reconciling_again_after_reload_changes_nothing() {
    let mut config = config_with(vec![rec("1", "a", "x", Some(false))]);
    let fetched = vec![rec("1", "a", "y", None), rec("2", "b", "y", None)];
    update_dns_list(&mut config, fetched.clone(), None);
    let first: Vec<Option<bool>> = config.dns_config.iter().map(|r| r.sync).collect();
    update_dns_list(&mut config, fetched, None);
    let second: Vec<Option<bool>> = config.dns_config.iter().map(|r| r.sync).collect();
    assert_eq!(first, second);
    assert_eq!(second, vec![Some(false), None]);
}
