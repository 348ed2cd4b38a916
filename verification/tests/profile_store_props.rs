use bpp_onest_lite::json::JsonValue;
use bpp_onest_lite::models::profiles::ProfileSearchRequest;
use bpp_onest_lite::services::profile::handle_search;
use bpp_onest_lite::models::search::Pagination;
use bpp_onest_lite::profile_store::{NewProfile, ProfileStore};

fn structure(name: &str) -> JsonValue {
    JsonValue::Obj(vec![
        ("id".to_string(), JsonValue::Str("p-1".to_string())),
        ("name".to_string(), JsonValue::Str(name.to_string())),
    ])
}

fn record(pid: &str, body: JsonValue, hash: &str, txn: &str) -> NewProfile {
    NewProfile {
        profile_id: pid.to_string(),
        beckn_structure: Some(body),
        metadata: None,
        hash: hash.to_string(),
        last_synced_at: Some("2024-01-01T00:00:00Z".to_string()),
        transaction_id: txn.to_string(),
        bpp_id: "bpp-1".to_string(),
        bpp_uri: "http://bpp.example".to_string(),
    }
}

#[test]
fn first_sighting_creates_the_row() {
    let mut store = ProfileStore::new();
    store.upsert(&record("p-1", structure("Alice"), "h-1", "txn-1"));
    assert_eq!(store.stored_hash("p-1").as_deref(), Some("h-1"));
    assert_eq!(store.stored_structure("p-1"), Some(structure("Alice")));
    assert_eq!(store.stored_transaction("p-1").as_deref(), Some("txn-1"));
    assert_eq!(store.stored_hash("p-2"), None);
}

#[test]
fn unchanged_content_keeps_structure_and_hash() {
    let mut store = ProfileStore::new();
    store.upsert(&record("p-1", structure("Alice"), "h-1", "txn-1"));
    // The same entity again, same content hash, later transaction: the
    // stored structure and hash stay identical, the bookkeeping follows.
    store.upsert(&record("p-1", structure("Alice"), "h-1", "txn-2"));
    assert_eq!(store.stored_hash("p-1").as_deref(), Some("h-1"));
    assert_eq!(store.stored_structure("p-1"), Some(structure("Alice")));
    assert_eq!(store.stored_transaction("p-1").as_deref(), Some("txn-2"));
}

#[test]
fn changed_content_updates_structure_and_hash() {
    let mut store = ProfileStore::new();
    store.upsert(&record("p-1", structure("Alice"), "h-1", "txn-1"));
    store.upsert(&record("p-1", structure("Alicia"), "h-2", "txn-2"));
    assert_eq!(store.stored_hash("p-1").as_deref(), Some("h-2"));
    assert_eq!(store.stored_structure("p-1"), Some(structure("Alicia")));
}

#[test]
fn batch_upserts_every_record() {
    let mut store = ProfileStore::new();
    let batch = vec![
        record("p-1", structure("Alice"), "h-1", "txn-1"),
        record("p-2", structure("Bob"), "h-2", "txn-1"),
    ];
    store.store_profiles(&batch);
    assert_eq!(store.stored_hash("p-1").as_deref(), Some("h-1"));
    assert_eq!(store.stored_hash("p-2").as_deref(), Some("h-2"));
}

#[test]
fn listing_pages_through_the_store() {
    let mut store = ProfileStore::new();
    store.upsert(&record("p-1", structure("Alice"), "h-1", "txn-1"));
    store.upsert(&record("p-2", structure("Bob"), "h-2", "txn-1"));
    store.upsert(&record("p-3", structure("Cora"), "h-3", "txn-1"));

    let first = store.fetch_profiles(Pagination { page: Some(1), limit: Some(2) });
    assert_eq!(first.total, 3);
    assert_eq!(first.page, 1);
    assert_eq!(first.limit, 2);
    assert_eq!(first.items.len(), 2);

    let second = store.fetch_profiles(Pagination { page: Some(2), limit: Some(2) });
    assert_eq!(second.items.len(), 1);

    let third = store.fetch_profiles(Pagination { page: Some(3), limit: Some(2) });
    assert_eq!(third.items.len(), 0);

    match &first.items[0] {
        JsonValue::Obj(ms) => {
            assert_eq!(ms[0].0, "profile_id");
            assert_eq!(ms[0].1, JsonValue::Str("p-1".to_string()));
        },
        other => panic!("expected an object, got {:?}", other),
    }
}

#[test]
fn listing_clamps_the_selector() {
    let mut store = ProfileStore::new();
    store.upsert(&record("p-1", structure("Alice"), "h-1", "txn-1"));
    let page = store.fetch_profiles(Pagination { page: Some(0), limit: Some(0) });
    assert_eq!(page.page, 1);
    assert_eq!(page.limit, 1);
    let page = store.fetch_profiles(Pagination { page: None, limit: Some(9999) });
    assert_eq!(page.page, 1);
    assert_eq!(page.limit, 1000);
    let page = store.fetch_profiles(Pagination { page: None, limit: None });
    assert_eq!(page.limit, 20);
}

#[test]
fn rows_without_structure_are_not_listed() {
    let mut store = ProfileStore::new();
    let mut bare = record("p-1", structure("Alice"), "h-1", "txn-1");
    bare.beckn_structure = None;
    store.upsert(&bare);
    let page = store.fetch_profiles(Pagination { page: None, limit: None });
    assert_eq!(page.total, 0);
    assert_eq!(page.items.len(), 0);
}

#[test]
fn listing_endpoint_wraps_one_page() {
    let mut store = ProfileStore::new();
    store.upsert(&record("p-1", structure("Alice"), "h-1", "txn-1"));
    store.upsert(&record("p-2", structure("Bob"), "h-2", "txn-1"));

    let response = handle_search(&store, &ProfileSearchRequest {
        query: None,
        pagination: Some(Pagination { page: Some(1), limit: Some(1) }),
    });
    assert_eq!(response.get("total").and_then(|v| v.as_u64()), Some(2));
    assert_eq!(response.get("page").and_then(|v| v.as_u64()), Some(1));
    assert_eq!(response.get("limit").and_then(|v| v.as_u64()), Some(1));
    let items = match response.get("items") {
        Some(JsonValue::Arr(items)) => items,
        other => panic!("items should be an array, got {:?}", other),
    };
    assert_eq!(items.len(), 1);

    let response = handle_search(&store, &ProfileSearchRequest {
        query: None,
        pagination: None,
    });
    assert_eq!(response.get("limit").and_then(|v| v.as_u64()), Some(20));
}
