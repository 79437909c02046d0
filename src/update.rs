//! Requests to the provider: their addresses, and what an update's reply means.
use vstd::prelude::*;
use crate::config::AuthenticationConfig;
use crate::fetch::{has_success_flag, reply_succeeded};
use crate::json::{format_json_tab, tab_formatted};

verus! {

/// Why one record could not be updated.
#[derive(Debug)]
pub enum UpdateFailure {
    /// The request did not reach the provider or no reply came back.
    Transport(String),
    /// The reply's body could not be read as text.
    BodyDecode(String),
    /// The provider answered without the success indicator; the laid-out body is kept.
    ProviderRejected(String),
}

/// What became of one record in one cycle.
#[derive(Debug)]
pub enum SyncOutcome {
    Updated,
    /// The record is not opted into synchronisation and was not sent.
    Skipped,
    Failed(UpdateFailure),
}

/// What the transport gave back for an update request.
pub enum UpdateReply {
    TransportFailed(String),
    UnreadableBody(String),
    Body(String),
}

/// The address under which the provider lists the zone's records.
pub open spec fn list_url(zone_id: Seq<char>) -> Seq<char> {
    "https://api.cloudflare.com/client/v4/zones/"@ + zone_id + "/dns_records"@
}

/// The address of one record of the zone.
pub open spec fn record_url(zone_id: Seq<char>, id: Seq<char>) -> Seq<char> {
    "https://api.cloudflare.com/client/v4/zones/"@ + zone_id + "/dns_records/"@ + id
}

/// The address to send the list request to.
pub fn list_endpoint(authentication: &AuthenticationConfig) -> (r: String)
    ensures
        r@ == list_url(authentication.zone_id@),
{
    let mut url = String::from_str("https://api.cloudflare.com/client/v4/zones/");
    url.append(authentication.zone_id.as_str());
    url.append("/dns_records");
    url
}

/// The address to send the update of record `id` to.
pub fn record_endpoint(authentication: &AuthenticationConfig, id: &str) -> (r: String)
    ensures
        r@ == record_url(authentication.zone_id@, id@),
{
    let mut url = String::from_str("https://api.cloudflare.com/client/v4/zones/");
    url.append(authentication.zone_id.as_str());
    url.append("/dns_records/");
    url.append(id);
    url
}

/// Classifies the reply to an update request: a transport failure, a body that
/// could not be read, or a body without the success indicator is a failure of
/// that kind; a body with the indicator means the record was updated.
pub fn classify_update_reply(reply: UpdateReply) -> (r: SyncOutcome)
    ensures
        match reply {
            UpdateReply::TransportFailed(e) => r is Failed && r->Failed_0 is Transport
                && r->Failed_0->Transport_0 == e,
            UpdateReply::UnreadableBody(e) => r is Failed && r->Failed_0 is BodyDecode
                && r->Failed_0->BodyDecode_0 == e,
            UpdateReply::Body(b) => if reply_succeeded(b@) {
                r is Updated
            } else {
                r is Failed && r->Failed_0 is ProviderRejected && r->Failed_0->ProviderRejected_0@
                    == tab_formatted(b@)
            },
        },
{
    match reply {
        UpdateReply::TransportFailed(e) => SyncOutcome::Failed(UpdateFailure::Transport(e)),
        UpdateReply::UnreadableBody(e) => SyncOutcome::Failed(UpdateFailure::BodyDecode(e)),
        UpdateReply::Body(b) => {
            let formatted = format_json_tab(b.as_str());
            if has_success_flag(formatted.as_str()) {
                SyncOutcome::Updated
            } else {
                SyncOutcome::Failed(UpdateFailure::ProviderRejected(formatted))
            }
        },
    }
}

} // verus!
