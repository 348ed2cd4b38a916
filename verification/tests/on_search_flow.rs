use bpp_onest_lite::config::{AppConfig, Bap, Bpp, CronConfig, HttpConfig, JobConfig,
    ProviderDb};
use bpp_onest_lite::coordination::CoordinationStore;
use bpp_onest_lite::cron::fetch_profiles::{run, run_now};
use bpp_onest_lite::external::{new_uuid_string, now_rfc3339};
use bpp_onest_lite::json::JsonValue;
use bpp_onest_lite::models::webhook::{Context, WebhookPayload};
use bpp_onest_lite::profile_store::ProfileStore;
use bpp_onest_lite::services::profile::{extract_profiles_from_on_search, handle_on_search,
    on_search_callback, pagination_field, total_pages_of};

fn config() -> AppConfig {
    AppConfig::new(
        false,
        false,
        Bpp {
            id: "bpp.example".to_string(),
            caller_uri: "http://bpp.example/callback".to_string(),
            domain: "example-domain".to_string(),
            version: "1.1.0".to_string(),
            ttl: "PT10S".to_string(),
        },
        HttpConfig { address: "0.0.0.0".to_string(), port: "8080".to_string() },
        ProviderDb { db_uri: "http://backend.example".to_string() },
        Bap { caller_uri: "http://adapter.example".to_string() },
        CronConfig { fetch_profiles: JobConfig { seconds: 300 } },
    )
}

fn results_context() -> Context {
    Context {
        domain: "example-domain".to_string(),
        action: "on_search".to_string(),
        version: "1.1.0".to_string(),
        bap_id: "bap.example".to_string(),
        bap_uri: "http://bap.example".to_string(),
        transaction_id: "txn-1".to_string(),
        message_id: "msg-1".to_string(),
        timestamp: "2024-01-01T00:00:00Z".to_string(),
        bpp_id: Some("bpp.example".to_string()),
        bpp_uri: Some("http://bpp.example".to_string()),
        ttl: "PT30S".to_string(),
    }
}

fn item(id: &str, name: &str) -> JsonValue {
    JsonValue::Obj(vec![
        ("id".to_string(), JsonValue::Str(id.to_string())),
        ("name".to_string(), JsonValue::Str(name.to_string())),
    ])
}

fn results_page(page: i64, limit: i64, total: i64, items: Vec<JsonValue>) -> WebhookPayload {
    let provider = JsonValue::Obj(vec![
        ("id".to_string(), JsonValue::Str("provider-1".to_string())),
        ("items".to_string(), JsonValue::Arr(items)),
    ]);
    let message = JsonValue::Obj(vec![
        ("catalog".to_string(), JsonValue::Obj(vec![
            ("providers".to_string(), JsonValue::Arr(vec![provider])),
        ])),
        ("pagination".to_string(), JsonValue::Obj(vec![
            ("page".to_string(), JsonValue::Int(page)),
            ("limit".to_string(), JsonValue::Int(limit)),
            ("total".to_string(), JsonValue::Int(total)),
        ])),
    ]);
    WebhookPayload { context: results_context(), message }
}

#[test]
fn extraction_reads_ids_and_stamps_the_batch() {
    let payload = results_page(1, 50, 120, vec![
        item("p-1", "Alice"),
        JsonValue::Obj(vec![("name".to_string(), JsonValue::Str("NoId".to_string()))]),
        item("p-2", "Bob"),
    ]);
    let profiles = extract_profiles_from_on_search(&payload, "txn-1", "2024-01-01T00:00:00Z");
    assert_eq!(profiles.len(), 2);
    assert_eq!(profiles[0].profile_id, "p-1");
    assert_eq!(profiles[1].profile_id, "p-2");
    assert_eq!(profiles[0].transaction_id, "txn-1");
    assert_eq!(profiles[0].bpp_id, "bpp.example");
    assert_eq!(profiles[0].hash.len(), 64);
    assert_eq!(profiles[0].beckn_structure, Some(item("p-1", "Alice")));
}

#[test]
fn first_page_triggers_the_second() {
    let mut coord = CoordinationStore::new(1800);
    let mut store = ProfileStore::new();
    let config = config();
    let payload = results_page(1, 50, 120, vec![item("p-1", "Alice")]);

    let (ackr, trigger) = handle_on_search(
        &mut coord, &mut store, &config, &payload, "txn-1",
        100, "2024-01-01T00:00:00Z", "uuid-1",
    );
    assert_eq!(ackr.message.ack.status, "ACK");
    let trigger = trigger.expect("the second page should be claimed");
    assert_eq!(trigger.next_page, 2);
    assert_eq!(trigger.url, "http://adapter.example/search");
    let context = trigger.payload.get("context").expect("context bound");
    assert_eq!(
        context.get("transaction_id").and_then(|v| v.as_str()).map(|s| s.as_str()),
        Some("txn-1"),
    );
    assert_eq!(
        context.get("message_id").and_then(|v| v.as_str()).map(|s| s.as_str()),
        Some("msg-profile-uuid-1"),
    );
    let message = trigger.payload.get("message").expect("message bound");
    let pagination = message.get("pagination").expect("pagination bound");
    assert_eq!(pagination.get("page").and_then(|v| v.as_u64()), Some(2));
    assert_eq!(pagination.get("limit").and_then(|v| v.as_u64()), Some(50));

    // The page's entity was ingested.
    assert_eq!(store.stored_structure("p-1"), Some(item("p-1", "Alice")));
}

#[test]
fn redelivered_page_is_ingested_but_claims_nothing() {
    let mut coord = CoordinationStore::new(1800);
    let mut store = ProfileStore::new();
    let config = config();
    let payload = results_page(1, 50, 120, vec![item("p-1", "Alice")]);

    let (_, first) = handle_on_search(
        &mut coord, &mut store, &config, &payload, "txn-1",
        100, "2024-01-01T00:00:00Z", "uuid-1",
    );
    assert!(first.is_some());
    let hash_before = store.stored_hash("p-1").expect("stored");

    let (_, second) = handle_on_search(
        &mut coord, &mut store, &config, &payload, "txn-1",
        150, "2024-01-01T00:01:00Z", "uuid-2",
    );
    assert!(second.is_none());
    // Idempotent redelivery: the stored content is untouched.
    assert_eq!(store.stored_hash("p-1"), Some(hash_before));
    assert_eq!(store.stored_structure("p-1"), Some(item("p-1", "Alice")));
}

#[test]
fn three_page_exchange_claims_each_page_once() {
    let mut coord = CoordinationStore::new(1800);
    let mut store = ProfileStore::new();
    let config = config();

    let p1 = results_page(1, 50, 150, vec![item("p-1", "Alice")]);
    let p2 = results_page(2, 50, 150, vec![item("p-2", "Bob")]);
    let p3 = results_page(3, 50, 150, vec![item("p-3", "Cora")]);

    let (_, t1) = handle_on_search(&mut coord, &mut store, &config, &p1, "txn-1",
        100, "2024-01-01T00:00:00Z", "uuid-1");
    assert_eq!(t1.map(|t| t.next_page), Some(2));
    let (_, t2) = handle_on_search(&mut coord, &mut store, &config, &p2, "txn-1",
        110, "2024-01-01T00:00:10Z", "uuid-2");
    assert_eq!(t2.map(|t| t.next_page), Some(3));
    let (_, t3) = handle_on_search(&mut coord, &mut store, &config, &p3, "txn-1",
        120, "2024-01-01T00:00:20Z", "uuid-3");
    assert!(t3.is_none());

    assert!(store.stored_hash("p-1").is_some());
    assert!(store.stored_hash("p-2").is_some());
    assert!(store.stored_hash("p-3").is_some());
}

#[test]
fn out_of_order_pages_claim_page_three_once() {
    let mut coord = CoordinationStore::new(1800);
    let mut store = ProfileStore::new();
    let config = config();

    let p1 = results_page(1, 50, 150, vec![item("p-1", "Alice")]);
    let p2 = results_page(2, 50, 150, vec![item("p-2", "Bob")]);

    let (_, t2) = handle_on_search(&mut coord, &mut store, &config, &p2, "txn-1",
        100, "2024-01-01T00:00:00Z", "uuid-1");
    assert_eq!(t2.map(|t| t.next_page), Some(3));
    let (_, t1) = handle_on_search(&mut coord, &mut store, &config, &p1, "txn-1",
        101, "2024-01-01T00:00:01Z", "uuid-2");
    assert!(t1.is_none());
}

#[test]
fn zero_total_page_is_only_ingested() {
    let mut coord = CoordinationStore::new(1800);
    let mut store = ProfileStore::new();
    let config = config();
    let payload = results_page(1, 50, 0, vec![item("p-1", "Alice")]);
    let (ackr, trigger) = handle_on_search(
        &mut coord, &mut store, &config, &payload, "txn-1",
        100, "2024-01-01T00:00:00Z", "uuid-1",
    );
    assert_eq!(ackr.message.ack.status, "ACK");
    assert!(trigger.is_none());
    assert!(store.stored_hash("p-1").is_some());
}

#[test]
fn live_callback_entry_point_runs_the_same_step() {
    let mut coord = CoordinationStore::new(1800);
    let mut store = ProfileStore::new();
    let config = config();
    let payload = results_page(1, 50, 120, vec![item("p-1", "Alice")]);
    let (ackr, trigger) = on_search_callback(
        &mut coord, &mut store, &config, &payload, "txn-1",
    );
    assert_eq!(ackr.message.ack.status, "ACK");
    let trigger = trigger.expect("the second page should be claimed");
    assert_eq!(trigger.next_page, 2);
    assert!(store.stored_hash("p-1").is_some());
}

#[test]
fn crawl_fire_builds_a_page_one_request() {
    let config = config();
    let r = run(&config, "aaa", "bbb", "2024-01-01T00:00:00Z");
    assert_eq!(r.txn_id, "cron-profile-aaa");
    assert_eq!(r.message_id, "msg-profile-bbb");
    assert_eq!(r.url, "http://adapter.example/search");
    let message = r.payload.get("message").expect("message bound");
    let pagination = message.get("pagination").expect("pagination bound");
    assert_eq!(pagination.get("page").and_then(|v| v.as_u64()), Some(1));
    assert_eq!(pagination.get("limit").and_then(|v| v.as_u64()), Some(50));
}

#[test]
fn live_crawl_fire_uses_fresh_ids() {
    let config = config();
    let r = run_now(&config);
    assert!(r.txn_id.starts_with("cron-profile-"));
    assert!(r.message_id.starts_with("msg-profile-"));
    assert_eq!(r.txn_id.len(), "cron-profile-".len() + 36);
    assert_eq!(r.url, "http://adapter.example/search");
}

#[test]
fn fresh_ids_and_timestamps_have_their_shapes() {
    let a = new_uuid_string();
    let b = new_uuid_string();
    assert_eq!(a.len(), 36);
    assert_eq!(a.as_bytes()[8], b'-');
    assert_eq!(a.as_bytes()[13], b'-');
    assert_eq!(a.as_bytes()[18], b'-');
    assert_eq!(a.as_bytes()[23], b'-');
    assert_ne!(a, b);
    let now = now_rfc3339();
    assert!(chrono::DateTime::parse_from_rfc3339(&now).is_ok());
}

#[test]
fn page_arithmetic_is_exact() {
    assert_eq!(total_pages_of(150, 50), 3);
    assert_eq!(total_pages_of(151, 50), 4);
    assert_eq!(total_pages_of(1, 50), 1);
    assert_eq!(total_pages_of(0, 50), 0);
    assert_eq!(total_pages_of(50, 50), 1);

    let payload = results_page(2, 25, 99, vec![]);
    assert_eq!(pagination_field(&payload.message, "page"), Some(2));
    assert_eq!(pagination_field(&payload.message, "limit"), Some(25));
    assert_eq!(pagination_field(&payload.message, "total"), Some(99));
    assert_eq!(pagination_field(&payload.message, "missing"), None);
}
