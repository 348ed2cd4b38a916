use bpp_onest_lite::config::{AppConfig, Bap, Bpp, CronConfig, HttpConfig, JobConfig,
    ProviderDb};
use bpp_onest_lite::json::JsonValue;
use bpp_onest_lite::models::webhook::Context;
use bpp_onest_lite::utils::payload_generator::{build_beckn_payload,
    build_profile_beckn_request, generate_context, search_message};
use bpp_onest_lite::utils::shared::{bpp_caller_url, provider_db_url};

fn config() -> AppConfig {
    AppConfig::new(
        false,
        false,
        Bpp {
            id: "bpp.example".to_string(),
            caller_uri: "http://bpp.example/callback/".to_string(),
            domain: "example-domain".to_string(),
            version: "1.1.0".to_string(),
            ttl: "PT10S".to_string(),
        },
        HttpConfig { address: "0.0.0.0".to_string(), port: "8080".to_string() },
        ProviderDb { db_uri: "http://backend.example/".to_string() },
        Bap { caller_uri: "http://adapter.example".to_string() },
        CronConfig { fetch_profiles: JobConfig { seconds: 300 } },
    )
}

fn inbound_context() -> Context {
    Context {
        domain: "example-domain".to_string(),
        action: "search".to_string(),
        version: "1.1.0".to_string(),
        bap_id: "bap.example".to_string(),
        bap_uri: "http://bap.example".to_string(),
        transaction_id: "txn-1".to_string(),
        message_id: "msg-1".to_string(),
        timestamp: "2024-01-01T00:00:00Z".to_string(),
        bpp_id: None,
        bpp_uri: None,
        ttl: "PT30S".to_string(),
    }
}

fn get_str(v: &JsonValue, key: &str) -> String {
    v.get(key)
        .and_then(|m| m.as_str())
        .cloned()
        .unwrap_or_else(|| panic!("{} should be a string member", key))
}

#[test]
fn reply_context_swaps_identities_and_renames_the_action() {
    let c = generate_context(&config(), &inbound_context(), "2024-02-02T00:00:00Z");
    assert_eq!(get_str(&c, "action"), "on_search");
    assert_eq!(get_str(&c, "bap_id"), "bap.example");
    assert_eq!(get_str(&c, "bap_uri"), "http://bap.example");
    assert_eq!(get_str(&c, "bpp_id"), "bpp.example");
    assert_eq!(get_str(&c, "bpp_uri"), "http://bpp.example/callback/");
    assert_eq!(get_str(&c, "transaction_id"), "txn-1");
    assert_eq!(get_str(&c, "message_id"), "msg-1");
    assert_eq!(get_str(&c, "timestamp"), "2024-02-02T00:00:00Z");
    assert_eq!(get_str(&c, "ttl"), "PT30S");
    assert_eq!(get_str(&c, "domain"), "example-domain");
    assert_eq!(get_str(&c, "version"), "1.1.0");
}

#[test]
fn reply_payload_folds_pagination_into_the_message() {
    let db_response = JsonValue::Obj(vec![
        ("message".to_string(), JsonValue::Obj(vec![
            ("catalog".to_string(), JsonValue::Obj(vec![])),
        ])),
        ("pagination".to_string(), JsonValue::Obj(vec![
            ("page".to_string(), JsonValue::Int(1)),
            ("total".to_string(), JsonValue::Int(120)),
        ])),
    ]);
    let reply = build_beckn_payload(
        &config(), &inbound_context(), &db_response, "2024-02-02T00:00:00Z",
    );
    let message = reply.get("message").expect("message bound");
    assert!(message.get("catalog").is_some());
    let pagination = message.get("pagination").expect("pagination folded in");
    assert_eq!(pagination.get("total").and_then(|v| v.as_u64()), Some(120));
    let context = reply.get("context").expect("context bound");
    assert_eq!(
        context.get("action").and_then(|v| v.as_str()).map(|s| s.as_str()),
        Some("on_search"),
    );
}

#[test]
fn reply_payload_without_a_backend_message_is_empty() {
    let db_response = JsonValue::Obj(vec![]);
    let reply = build_beckn_payload(
        &config(), &inbound_context(), &db_response, "2024-02-02T00:00:00Z",
    );
    assert_eq!(reply.get("message"), Some(&JsonValue::Obj(vec![])));
}

#[test]
fn originated_request_binds_no_responder() {
    let msg = search_message(1, 50);
    let payload = build_profile_beckn_request(
        &config(), "txn-9", "msg-9", &msg, "search", "2024-02-02T00:00:00Z",
    );
    let context = payload.get("context").expect("context bound");
    assert_eq!(get_str(context, "action"), "search");
    assert_eq!(get_str(context, "bap_id"), "bpp.example");
    assert_eq!(get_str(context, "transaction_id"), "txn-9");
    assert_eq!(get_str(context, "message_id"), "msg-9");
    assert_eq!(get_str(context, "ttl"), "PT10S");
    assert!(context.get("bpp_id").is_none());
    assert!(context.get("bpp_uri").is_none());
    assert_eq!(payload.get("message"), Some(&msg));
}

#[test]
fn search_message_carries_the_page_selector() {
    let msg = search_message(4, 50);
    let pagination = msg.get("pagination").expect("pagination bound");
    assert_eq!(pagination.get("page").and_then(|v| v.as_u64()), Some(4));
    assert_eq!(pagination.get("limit").and_then(|v| v.as_u64()), Some(50));
    let intent = msg.get("intent").expect("intent bound");
    assert!(intent.get("item").map(|v| v.is_null()).unwrap_or(false));
}

#[test]
fn outbound_addresses_join_cleanly() {
    let config = config();
    assert_eq!(
        bpp_caller_url(&config, "confirm"),
        "http://bpp.example/callback/on_confirm",
    );
    assert_eq!(
        provider_db_url(&config, "/beckn/search"),
        "http://backend.example/beckn/search",
    );
}
