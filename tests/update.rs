use cf_dns_sync::config::AuthenticationConfig;
use cf_dns_sync::update::{classify_update_reply, list_endpoint, record_endpoint, SyncOutcome, UpdateFailure, UpdateReply};

fn auth() -> AuthenticationConfig {
    AuthenticationConfig { email: "me@example.com".to_string(), api_key: "k".to_string(), zone_id: "z1".to_string() }
}

#[test]
fn endpoints_name_zone_and_record() {
    assert_eq!(list_endpoint(&auth()), "https://api.cloudflare.com/client/v4/zones/z1/dns_records");
    assert_eq!(record_endpoint(&auth(), "r9"), "https://api.cloudflare.com/client/v4/zones/z1/dns_records/r9");
}

#[test]
fn successful_reply_means_updated() {
    let r = classify_update_reply(UpdateReply::Body("{\"success\":true,\"result\":{}}".to_string()));
    assert!(matches!(r, SyncOutcome::Updated));
}

#[test]
fn reply_without_indicator_is_rejected_with_laid_out_body() {
    let r = classify_update_reply(UpdateReply::Body("{\"success\":false}".to_string()));
    match r {
        SyncOutcome::Failed(UpdateFailure::ProviderRejected(body)) => {
            assert_eq!(body, "{\n\t\"success\": false\n}\n")
        }
        _ => panic!("expected a rejection"),
    }
}

#[test]
fn transport_and_decode_failures_are_kept_apart() {
    match classify_update_reply(UpdateReply::TransportFailed("timeout".to_string())) {
        SyncOutcome::Failed(UpdateFailure::Transport(e)) => assert_eq!(e, "timeout"),
        _ => panic!("expected a transport failure"),
    }
    match classify_update_reply(UpdateReply::UnreadableBody("utf8".to_string())) {
        SyncOutcome::Failed(UpdateFailure::BodyDecode(e)) => assert_eq!(e, "utf8"),
        _ => panic!("expected a decode failure"),
    }
}
