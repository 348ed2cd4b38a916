use bpp_onest_lite::coordination::{CoordinationStore, PageKey, next_page_to_try};

fn key(txn: &str, counterpart: &str, page_size: u64) -> PageKey {
    PageKey {
        txn_id: txn.to_string(),
        counterpart_id: counterpart.to_string(),
        page_size,
    }
}

#[test]
fn first_delivery_claims_the_next_page() {
    let mut store = CoordinationStore::new(1800);
    let k = key("txn-1", "bpp-1", 50);
    assert_eq!(store.record_page(&k, 1, 3, 100), Some(2));
    assert_eq!(store.total_pages(&k, 100), Some(3));
    assert!(store.has_received(&k, 1, 100));
    assert!(!store.has_received(&k, 2, 100));
}

#[test]
fn identical_redelivery_changes_nothing_and_claims_nothing() {
    let mut store = CoordinationStore::new(1800);
    let k = key("txn-1", "bpp-1", 50);
    assert_eq!(store.record_page(&k, 1, 3, 100), Some(2));
    // The same page-of-results callback again: no second claim, the page
    // count keeps its first recorded value, the received set is unchanged.
    assert_eq!(store.record_page(&k, 1, 3, 150), None);
    assert_eq!(store.total_pages(&k, 150), Some(3));
    assert!(store.has_received(&k, 1, 150));
    assert!(!store.has_received(&k, 2, 150));
}

#[test]
fn page_count_first_write_wins() {
    let mut store = CoordinationStore::new(1800);
    let k = key("txn-1", "bpp-1", 50);
    store.record_page(&k, 1, 3, 100);
    // A later delivery reporting another count does not overwrite it.
    store.record_page(&k, 2, 7, 110);
    assert_eq!(store.total_pages(&k, 120), Some(3));
}

#[test]
fn pages_in_order_claim_each_following_page() {
    let mut store = CoordinationStore::new(1800);
    let k = key("txn-1", "bpp-1", 50);
    assert_eq!(store.record_page(&k, 1, 3, 100), Some(2));
    assert_eq!(store.record_page(&k, 2, 3, 110), Some(3));
    // The last page arrives: the next page would be past the total.
    assert_eq!(store.record_page(&k, 3, 3, 120), None);
}

#[test]
fn pages_out_of_order_claim_page_three_once() {
    let mut store = CoordinationStore::new(1800);
    let k = key("txn-1", "bpp-1", 50);
    // Page two processed first claims page three at once.
    assert_eq!(store.record_page(&k, 2, 3, 100), Some(3));
    // Page one processed second finds page three already claimed.
    assert_eq!(store.record_page(&k, 1, 3, 101), None);
    // Page three delivered: nothing further.
    assert_eq!(store.record_page(&k, 3, 3, 102), None);
}

#[test]
fn zero_total_claims_nothing() {
    let mut store = CoordinationStore::new(1800);
    let k = key("txn-1", "bpp-1", 50);
    assert_eq!(store.record_page(&k, 1, 0, 100), None);
}

#[test]
fn state_expires_after_the_window() {
    let mut store = CoordinationStore::new(1800);
    let k = key("txn-1", "bpp-1", 50);
    store.record_page(&k, 1, 3, 100);
    // Readable up to, but not at, the end of the window.
    assert!(store.live(&k, 1899));
    assert_eq!(store.total_pages(&k, 1899), Some(3));
    assert!(!store.live(&k, 1900));
    assert_eq!(store.total_pages(&k, 1900), None);
    assert!(!store.has_received(&k, 1, 1900));
}

#[test]
fn activity_slides_the_window_forward() {
    let mut store = CoordinationStore::new(1800);
    let k = key("txn-1", "bpp-1", 50);
    store.record_page(&k, 1, 3, 100);
    store.record_page(&k, 2, 3, 1000);
    assert!(store.live(&k, 2799));
    assert!(!store.live(&k, 2800));
}

#[test]
fn expired_state_starts_afresh() {
    let mut store = CoordinationStore::new(1800);
    let k = key("txn-1", "bpp-1", 50);
    assert_eq!(store.record_page(&k, 1, 3, 100), Some(2));
    // Long after expiry the same delivery is a first delivery again.
    assert_eq!(store.record_page(&k, 1, 3, 5000), Some(2));
}

#[test]
fn keys_are_isolated() {
    let mut store = CoordinationStore::new(1800);
    let k1 = key("txn-1", "bpp-1", 50);
    let k2 = key("txn-2", "bpp-1", 50);
    let k3 = key("txn-1", "bpp-1", 20);
    assert_eq!(store.record_page(&k1, 1, 3, 100), Some(2));
    assert_eq!(store.record_page(&k2, 1, 3, 100), Some(2));
    assert_eq!(store.record_page(&k3, 1, 5, 100), Some(2));
    assert_eq!(store.total_pages(&k1, 100), Some(3));
    assert_eq!(store.total_pages(&k3, 100), Some(5));
}

#[test]
fn next_page_rule_follows_the_largest_received() {
    assert_eq!(next_page_to_try(&vec![], 3), Some(1));
    assert_eq!(next_page_to_try(&vec![], 0), None);
    assert_eq!(next_page_to_try(&vec![1, 2], 3), Some(3));
    assert_eq!(next_page_to_try(&vec![2, 1], 3), Some(3));
    assert_eq!(next_page_to_try(&vec![3], 3), None);
    assert_eq!(next_page_to_try(&vec![2], 3), Some(3));
    assert_eq!(next_page_to_try(&vec![1, 3], 3), None);
}
