//! One fire of the crawl: a fresh transaction and a root page-one search
//! request, ready for delivery to the adapter's search endpoint.

use vstd::prelude::*;
use crate::config::AppConfig;
use crate::external::{new_uuid_string, now_rfc3339};
use crate::text::{concat2, join_url, spec_join_url};
use crate::utils::payload_generator::{build_profile_beckn_request, search_message,
    spec_origin_payload, spec_search_message};
use crate::json::{JsonSpec, JsonValue};

verus! {

/// One root search request: a fresh transaction, its first page.
pub struct RootSearchRequest {
    pub txn_id: String,
    pub message_id: String,
    pub url: String,
    pub payload: JsonValue,
}

/// Mathematical model of a root search request.
pub struct RootSearchSpec {
    pub txn: Seq<char>,
    pub mid: Seq<char>,
    pub url: Seq<char>,
    pub payload: JsonSpec,
}

impl View for RootSearchRequest {
    type V = RootSearchSpec;

    open spec fn view(&self) -> RootSearchSpec {
        RootSearchSpec {
            txn: self.txn_id@,
            mid: self.message_id@,
            url: self.url@,
            payload: self.payload@,
        }
    }
}

/// What one fire issues: a fresh crawl transaction and message id, the
/// adapter's search endpoint, and an originated page-one request with an
/// empty filter.
pub open spec fn root_search_post(
    config: AppConfig,
    txn_uuid: Seq<char>,
    msg_uuid: Seq<char>,
    now_iso: Seq<char>,
    r: RootSearchSpec,
) -> bool {
    r.txn == "cron-profile-"@ + txn_uuid
    && r.mid == "msg-profile-"@ + msg_uuid
    && r.url == spec_join_url(config.bap.caller_uri@, "search"@)
    && r.payload == spec_origin_payload(
        config, r.txn, r.mid, "search"@, now_iso, spec_search_message(1, 50),
    )
}

/// Builds the root search request of one fire, deterministically in the
/// fresh ids and timestamp it is given.
pub fn run(config: &AppConfig, txn_uuid: &str, msg_uuid: &str, now_iso: &str)
    -> (r: RootSearchRequest)
    ensures
        root_search_post(*config, txn_uuid@, msg_uuid@, now_iso@, r@),
{
    let txn_id = concat2("cron-profile-", txn_uuid);
    let message_id = concat2("msg-profile-", msg_uuid);
    let msg = search_message(1, 50);
    let payload = build_profile_beckn_request(
        config, txn_id.as_str(), message_id.as_str(), &msg, "search", now_iso,
    );
    let url = join_url(config.bap.caller_uri.as_str(), "search");
    RootSearchRequest { txn_id, message_id, url, payload }
}

/// Builds the root search request of one fire at the present instant, with
/// fresh ids. Whatever ids and instant come back, the request is the one
/// the deterministic builder gives for them.
pub fn run_now(config: &AppConfig) -> (r: RootSearchRequest)
    ensures
        exists|txn_uuid: Seq<char>, msg_uuid: Seq<char>, now_iso: Seq<char>|
            #[trigger] root_search_post(*config, txn_uuid, msg_uuid, now_iso, r@),
{
    let txn_uuid = new_uuid_string();
    let msg_uuid = new_uuid_string();
    let now_iso = now_rfc3339();
    let r = run(config, txn_uuid.as_str(), msg_uuid.as_str(), now_iso.as_str());
    proof {
        assert(root_search_post(*config, txn_uuid@, msg_uuid@, now_iso@, r@));
    }
    r
}

} // verus!
