//! The pagination coordination store: per (transaction, counterpart,
//! page-size) tuple it tracks how many pages exist, which pages have
//! arrived, and which "fetch next page" requests have been claimed, under a
//! sliding time-to-live window.
//!
//! This is an in-memory store whose operations mirror the per-key atomic
//! primitives of a shared key/value store (first-write-wins put, set add,
//! test-and-set claim, expiry refresh); a deployment may put any store with
//! the same per-key semantics behind it. Every mutation goes through
//! [`CoordinationStore::record_page`], whose contract is the transition
//! relation that the laws at the bottom of this module are proved from.

use vstd::prelude::*;
use vstd::pervasive::VecAdditionalExecFns;
use crate::json::str_eq;

verus! {

broadcast use {
    vstd::std_specs::vec::group_vec_axioms,
    vstd::seq::group_seq_axioms,
    vstd::set::group_set_axioms,
};

/// The tuple a pagination exchange is keyed by.
pub struct PageKey {
    pub txn_id: String,
    pub counterpart_id: String,
    pub page_size: u64,
}

impl View for PageKey {
    type V = (Seq<char>, Seq<char>, u64);

    open spec fn view(&self) -> (Seq<char>, Seq<char>, u64) {
        (self.txn_id@, self.counterpart_id@, self.page_size)
    }
}

/// Mathematical model of the coordination state held for one key.
pub struct EntrySpec {
    /// The page count recorded by the first delivery that reported one.
    pub total_pages: Option<u64>,
    /// The page numbers seen so far.
    pub received: Set<u64>,
    /// The page numbers whose fetch has been claimed.
    pub triggered: Set<u64>,
    /// The first instant at which the entry is no longer readable.
    pub expires_at: u64,
}

struct PageEntry {
    txn_id: String,
    counterpart_id: String,
    page_size: u64,
    total_pages: Option<u64>,
    received: Vec<u64>,
    triggered: Vec<u64>,
    expires_at: u64,
}

impl PageEntry {
    spec fn key(&self) -> (Seq<char>, Seq<char>, u64) {
        (self.txn_id@, self.counterpart_id@, self.page_size)
    }

    spec fn entry_spec(&self) -> EntrySpec {
        EntrySpec {
            total_pages: self.total_pages,
            received: self.received@.to_set(),
            triggered: self.triggered@.to_set(),
            expires_at: self.expires_at,
        }
    }
}

/// The state never written to: nothing recorded, already expired.
pub open spec fn fresh_entry() -> EntrySpec {
    EntrySpec {
        total_pages: None,
        received: Set::empty(),
        triggered: Set::empty(),
        expires_at: 0,
    }
}

/// Whether `m` is the largest element of `s`.
pub open spec fn is_max_of(m: u64, s: Set<u64>) -> bool {
    s.contains(m) && forall|x: u64| s.contains(x) ==> x <= m
}

/// The largest element of a nonempty finite set.
pub open spec fn spec_set_max(s: Set<u64>) -> u64 {
    choose|m: u64| is_max_of(m, s)
}

/// When a write at `now` under time-to-live `ttl` stops being readable.
pub open spec fn spec_expiry(now: u64, ttl: u64) -> u64 {
    if now + ttl > u64::MAX {
        u64::MAX
    } else {
        (now + ttl) as u64
    }
}

/// The state a delivery starts from: the live entry, or a fresh one.
pub open spec fn base_of(prior: Option<EntrySpec>) -> EntrySpec {
    match prior {
        Some(e) => e,
        None => fresh_entry(),
    }
}

/// The page count after a delivery reporting `total`: first write wins.
pub open spec fn spec_total_after(prior: Option<EntrySpec>, total: u64) -> u64 {
    match base_of(prior).total_pages {
        Some(t) => t,
        None => total,
    }
}

/// The received set after a delivery of `page`.
pub open spec fn spec_received_after(prior: Option<EntrySpec>, page: u64) -> Set<u64> {
    base_of(prior).received.insert(page)
}

/// The page a delivery estimates as next: one past the largest received.
pub open spec fn spec_next_page(prior: Option<EntrySpec>, page: u64) -> int {
    spec_set_max(spec_received_after(prior, page)) + 1
}

/// The claim a delivery obtains: the next page, when it lies within the
/// recorded total and nobody has claimed it yet.
pub open spec fn spec_step_trigger(prior: Option<EntrySpec>, page: u64, total: u64)
    -> Option<u64>
{
    let next = spec_next_page(prior, page);
    if next <= spec_total_after(prior, total)
        && !base_of(prior).triggered.contains(next as u64) {
        Some(next as u64)
    } else {
        None
    }
}

/// The state one delivery leaves for its key.
pub open spec fn spec_step_entry(
    prior: Option<EntrySpec>,
    page: u64,
    total: u64,
    now: u64,
    ttl: u64,
) -> EntrySpec {
    EntrySpec {
        total_pages: Some(spec_total_after(prior, total)),
        received: spec_received_after(prior, page),
        triggered: match spec_step_trigger(prior, page, total) {
            Some(n) => base_of(prior).triggered.insert(n),
            None => base_of(prior).triggered,
        },
        expires_at: spec_expiry(now, ttl),
    }
}

/// Coordination state for every pagination exchange in flight.
pub struct CoordinationStore {
    ttl_secs: u64,
    entries: Vec<PageEntry>,
}

impl CoordinationStore {
    /// Distinct slots hold distinct keys.
    pub closed spec fn wf(&self) -> bool {
        forall|i: int, j: int|
            0 <= i < self.entries@.len() && 0 <= j < self.entries@.len() && i != j
                ==> (#[trigger] self.entries@[i]).key() != (#[trigger] self.entries@[j]).key()
    }

    /// The time-to-live window the store was built with.
    pub closed spec fn ttl(&self) -> u64 {
        self.ttl_secs
    }

    /// Whether any state is held under `k`, readable or not.
    pub closed spec fn spec_has(&self, k: (Seq<char>, Seq<char>, u64)) -> bool {
        exists|i: int| 0 <= i < self.entries@.len()
            && (#[trigger] self.entries@[i]).key() == k
    }

    spec fn spec_idx(&self, k: (Seq<char>, Seq<char>, u64)) -> int {
        choose|i: int| 0 <= i < self.entries@.len()
            && (#[trigger] self.entries@[i]).key() == k
    }

    /// The state held under `k`.
    pub closed spec fn spec_entry(&self, k: (Seq<char>, Seq<char>, u64)) -> EntrySpec {
        self.entries@[self.spec_idx(k)].entry_spec()
    }

    /// Whether state under `k` is still readable at `now`.
    pub open spec fn spec_live(&self, k: (Seq<char>, Seq<char>, u64), now: u64) -> bool {
        self.spec_has(k) && now < self.spec_entry(k).expires_at
    }

    /// The live entry under `k`, if any: what one delivery starts from.
    pub open spec fn spec_prior(&self, k: (Seq<char>, Seq<char>, u64), now: u64)
        -> Option<EntrySpec>
    {
        if self.spec_live(k, now) {
            Some(self.spec_entry(k))
        } else {
            None
        }
    }

    proof fn lemma_idx_unique(&self, i: int, k: (Seq<char>, Seq<char>, u64))
        requires
            self.wf(),
            0 <= i < self.entries@.len(),
            self.entries@[i].key() == k,
        ensures
            self.spec_has(k),
            self.spec_idx(k) == i,
    {
        assert(self.spec_has(k));
        let c = self.spec_idx(k);
        assert(0 <= c < self.entries@.len() && self.entries@[c].key() == k);
        if c != i {
            assert(self.entries@[c].key() != self.entries@[i].key());
        }
    }

    /// An empty store with the given time-to-live window.
    pub fn new(ttl_secs: u64) -> (r: CoordinationStore)
        ensures
            r.wf(),
            r.ttl() == ttl_secs,
            forall|k: (Seq<char>, Seq<char>, u64)| !r.spec_has(k),
    {
        CoordinationStore { ttl_secs, entries: Vec::new() }
    }

    fn find_index(&self, key: &PageKey) -> (r: Option<usize>)
        ensures
            match r {
                Some(i) => i < self.entries@.len() && self.entries@[i as int].key() == key@,
                None => !self.spec_has(key@),
            },
    {
        let n = self.entries.len();
        for i in 0..n
            invariant
                n == self.entries@.len(),
                forall|j: int| 0 <= j < i ==> (#[trigger] self.entries@[j]).key() != key@,
        {
            let e = &self.entries[i];
            if str_eq(e.txn_id.as_str(), key.txn_id.as_str())
                && str_eq(e.counterpart_id.as_str(), key.counterpart_id.as_str())
                && e.page_size == key.page_size {
                return Some(i);
            }
        }
        None
    }

    /// Whether the state under `key` is still readable at `now`.
    pub fn live(&self, key: &PageKey, now: u64) -> (r: bool)
        requires
            self.wf(),
        ensures
            r == self.spec_live(key@, now),
    {
        match self.find_index(key) {
            Some(i) => {
                proof {
                    self.lemma_idx_unique(i as int, key@);
                }
                now < self.entries[i].expires_at
            },
            None => false,
        }
    }

    /// The recorded page count under `key`, when readable at `now`.
    pub fn total_pages(&self, key: &PageKey, now: u64) -> (r: Option<u64>)
        requires
            self.wf(),
        ensures
            r == if self.spec_live(key@, now) {
                self.spec_entry(key@).total_pages
            } else {
                None::<u64>
            },
    {
        match self.find_index(key) {
            Some(i) => {
                proof {
                    self.lemma_idx_unique(i as int, key@);
                }
                if now < self.entries[i].expires_at {
                    self.entries[i].total_pages
                } else {
                    None
                }
            },
            None => None,
        }
    }

    /// Whether `page` is recorded as received under `key` and readable at
    /// `now`.
    pub fn has_received(&self, key: &PageKey, page: u64, now: u64) -> (r: bool)
        requires
            self.wf(),
        ensures
            r == (self.spec_live(key@, now) && self.spec_entry(key@).received.contains(page)),
    {
        match self.find_index(key) {
            Some(i) => {
                proof {
                    self.lemma_idx_unique(i as int, key@);
                }
                if now < self.entries[i].expires_at {
                    contains_u64(&self.entries[i].received, page)
                } else {
                    false
                }
            },
            None => false,
        }
    }

    /// Records one delivered page of results under `key` at time `now`:
    /// keeps the first reported page count, adds the page to the received
    /// set, slides the expiry window forward, and claims the fetch of the
    /// page after the largest received one when it is within the total and
    /// unclaimed. Returns the claimed page number, at most once per page
    /// and key within one window.
    pub fn record_page(&mut self, key: &PageKey, page: u64, total_pages: u64, now: u64)
        -> (r: Option<u64>)
        requires
            old(self).wf(),
        ensures
            final(self).wf(),
            final(self).ttl() == old(self).ttl(),
            r == spec_step_trigger(old(self).spec_prior(key@, now), page, total_pages),
            final(self).spec_has(key@),
            final(self).spec_entry(key@) == spec_step_entry(
                old(self).spec_prior(key@, now),
                page,
                total_pages,
                now,
                old(self).ttl(),
            ),
            forall|k2: (Seq<char>, Seq<char>, u64)| k2 != key@
                ==> final(self).spec_has(k2) == old(self).spec_has(k2),
            forall|k2: (Seq<char>, Seq<char>, u64)| k2 != key@ && old(self).spec_has(k2)
                ==> final(self).spec_entry(k2) == old(self).spec_entry(k2),
    {
        let ghost k = key@;
        let ghost prior = self.spec_prior(k, now);
        let ghost base = base_of(prior);

        let found = self.find_index(key);

        let mut work: PageEntry = match found {
            Some(j) => {
                proof {
                    self.lemma_idx_unique(j as int, k);
                }
                let e = &self.entries[j];
                if now < e.expires_at {
                    PageEntry {
                        txn_id: e.txn_id.clone(),
                        counterpart_id: e.counterpart_id.clone(),
                        page_size: e.page_size,
                        total_pages: e.total_pages,
                        received: copy_u64_vec(&e.received),
                        triggered: copy_u64_vec(&e.triggered),
                        expires_at: e.expires_at,
                    }
                } else {
                    PageEntry {
                        txn_id: key.txn_id.clone(),
                        counterpart_id: key.counterpart_id.clone(),
                        page_size: key.page_size,
                        total_pages: None,
                        received: Vec::new(),
                        triggered: Vec::new(),
                        expires_at: 0,
                    }
                }
            },
            None => PageEntry {
                txn_id: key.txn_id.clone(),
                counterpart_id: key.counterpart_id.clone(),
                page_size: key.page_size,
                total_pages: None,
                received: Vec::new(),
                triggered: Vec::new(),
                expires_at: 0,
            },
        };
        proof {
            assert(work.key() == k);
            assert(work.entry_spec().total_pages == base.total_pages);
            assert(work.entry_spec().received =~= base.received);
            assert(work.entry_spec().triggered =~= base.triggered);
        }

        // First write of the page count wins.
        if work.total_pages.is_none() {
            work.total_pages = Some(total_pages);
        }
        proof {
            assert(work.total_pages == Some(spec_total_after(prior, total_pages)));
        }

        // Record the page as received.
        if !contains_u64(&work.received, page) {
            let ghost before = work.received@;
            work.received.push(page);
            proof {
                assert(work.received@ =~= before + seq![page]);
                Seq::<u64>::lemma_to_set_insert_commutes(before, page);
                assert(work.received@.to_set() =~= before.to_set().insert(page));
            }
        } else {
            proof {
                assert(work.received@.to_set().contains(page));
                assert(work.received@.to_set() =~= work.received@.to_set().insert(page));
            }
        }
        proof {
            assert(work.received@.to_set() =~= spec_received_after(prior, page));
        }

        // Slide the expiry window forward.
        work.expires_at = if now >= u64::MAX - self.ttl_secs {
            u64::MAX
        } else {
            now + self.ttl_secs
        };
        proof {
            assert(work.expires_at == spec_expiry(now, self.ttl_secs));
        }

        // Estimate the next page and claim its fetch if it is still owed
        // and unclaimed.
        let m = max_u64(&work.received);
        proof {
            let s = work.received@.to_set();
            let gm = spec_set_max(s);
            assert(is_max_of(gm, s)) by {
                assert(is_max_of(m, s));
            }
            assert(gm == m);
        }
        let mut r: Option<u64> = None;
        if m < u64::MAX {
            let next = m + 1;
            let within = match work.total_pages {
                Some(t) => next <= t,
                None => false,
            };
            if within && !contains_u64(&work.triggered, next) {
                let ghost before = work.triggered@;
                work.triggered.push(next);
                proof {
                    assert(work.triggered@ =~= before + seq![next]);
                    Seq::<u64>::lemma_to_set_insert_commutes(before, next);
                    assert(work.triggered@.to_set() =~= before.to_set().insert(next));
                }
                r = Some(next);
            }
        }
        proof {
            assert(r == spec_step_trigger(prior, page, total_pages));
            match spec_step_trigger(prior, page, total_pages) {
                Some(n) => {
                    assert(work.triggered@.to_set() =~= base.triggered.insert(n));
                },
                None => {
                    assert(work.triggered@.to_set() =~= base.triggered);
                },
            }
            assert(work.entry_spec() == spec_step_entry(
                prior, page, total_pages, now, self.ttl_secs,
            ));
        }

        // Write the updated entry back.
        match found {
            Some(j) => {
                self.entries.set(j, work);
                proof {
                    assert(self.entries@[j as int].key() == k);
                    assert forall|i1: int, i2: int|
                        0 <= i1 < self.entries@.len() && 0 <= i2 < self.entries@.len()
                            && i1 != i2
                        implies (#[trigger] self.entries@[i1]).key()
                            != (#[trigger] self.entries@[i2]).key() by {
                        assert(old(self).entries@[i1].key() == self.entries@[i1].key()
                            || i1 == j as int);
                        assert(old(self).entries@[i2].key() == self.entries@[i2].key()
                            || i2 == j as int);
                    }
                    self.lemma_idx_unique(j as int, k);
                }
            },
            None => {
                let ghost oldlen = self.entries@.len();
                self.entries.push(work);
                proof {
                    assert(self.entries@[oldlen as int].key() == k);
                    assert forall|i1: int, i2: int|
                        0 <= i1 < self.entries@.len() && 0 <= i2 < self.entries@.len()
                            && i1 != i2
                        implies (#[trigger] self.entries@[i1]).key()
                            != (#[trigger] self.entries@[i2]).key() by {
                        if i1 < oldlen && i2 < oldlen {
                            assert(old(self).entries@[i1].key() != old(self).entries@[i2].key());
                        }
                    }
                    self.lemma_idx_unique(oldlen as int, k);
                }
            },
        }

        // Every other key's state is untouched.
        proof {
            assert forall|k2: (Seq<char>, Seq<char>, u64)| k2 != k
                implies self.spec_has(k2) == old(self).spec_has(k2) by {
                if self.spec_has(k2) {
                    let i = self.spec_idx(k2);
                    assert(0 <= i < self.entries@.len() && self.entries@[i].key() == k2);
                    assert(old(self).entries@[i].key() == k2);
                    assert(old(self).spec_has(k2));
                }
                if old(self).spec_has(k2) {
                    let i = old(self).spec_idx(k2);
                    assert(0 <= i < old(self).entries@.len()
                        && old(self).entries@[i].key() == k2);
                    assert(self.entries@[i].key() == k2);
                    assert(self.spec_has(k2));
                }
            }
            assert forall|k2: (Seq<char>, Seq<char>, u64)| k2 != k && old(self).spec_has(k2)
                implies self.spec_entry(k2) == old(self).spec_entry(k2) by {
                let i = old(self).spec_idx(k2);
                assert(0 <= i < old(self).entries@.len() && old(self).entries@[i].key() == k2);
                assert(self.entries@[i].key() == k2);
                self.lemma_idx_unique(i, k2);
                old(self).lemma_idx_unique(i, k2);
                assert(self.entries@[i].entry_spec() == old(self).entries@[i].entry_spec());
            }
        }

        r
    }
}

/// The next page a delivery should try to claim, given the received page
/// numbers read back from a shared store and the recorded page count: one
/// past the largest received page, when that still lies within the count.
/// A deployment backed by a shared store reads the set, asks this, and
/// attempts the atomic claim only for the returned page.
pub fn next_page_to_try(received: &Vec<u64>, total_pages: u64) -> (r: Option<u64>)
    ensures
        ({
            let next = if received@.len() == 0 {
                1int
            } else {
                spec_set_max(received@.to_set()) + 1
            };
            if 1 <= next <= total_pages {
                r == Some(next as u64)
            } else {
                r is None
            }
        }),
{
    if received.len() == 0 {
        if 1 <= total_pages {
            Some(1)
        } else {
            None
        }
    } else {
        let m = max_u64(received);
        proof {
            lemma_set_max(received@.to_set(), m);
        }
        if m < u64::MAX && m + 1 <= total_pages {
            Some(m + 1)
        } else {
            None
        }
    }
}

/// The largest element of a set is unique, so witnessing one pins
/// `spec_set_max` down.
pub proof fn lemma_set_max(s: Set<u64>, m: u64)
    requires
        is_max_of(m, s),
    ensures
        spec_set_max(s) == m,
{
    let gm = spec_set_max(s);
    assert(is_max_of(gm, s)) by {
        assert(is_max_of(m, s));
    }
}

/// Redelivering the same page with the same reported total onto the state
/// the first delivery left (still within its window) changes neither the
/// recorded page count, nor the received set, nor the claimed set, and
/// obtains no claim: redelivery is idempotent but for the expiry sliding
/// forward.
pub proof fn lemma_redelivery_idempotent(
    prior: Option<EntrySpec>,
    page: u64,
    total: u64,
    t1: u64,
    t2: u64,
    ttl: u64,
)
    ensures
        ({
            let e1 = spec_step_entry(prior, page, total, t1, ttl);
            let e2 = spec_step_entry(Some(e1), page, total, t2, ttl);
            e2.total_pages == e1.total_pages
                && e2.received == e1.received
                && e2.triggered == e1.triggered
                && spec_step_trigger(Some(e1), page, total) is None
        }),
{
    let e1 = spec_step_entry(prior, page, total, t1, ttl);
    let e2 = spec_step_entry(Some(e1), page, total, t2, ttl);
    let base = base_of(prior);
    assert(e1.received.contains(page));
    assert(e2.received =~= e1.received);
    assert(spec_next_page(Some(e1), page) == spec_next_page(prior, page));
    let next = spec_next_page(prior, page);
    match spec_step_trigger(prior, page, total) {
        Some(n) => {
            assert(n == next as u64);
            assert(e1.triggered.contains(n));
            assert(spec_step_trigger(Some(e1), page, total) is None);
        },
        None => {
            assert(e1.triggered == base.triggered);
            assert(spec_step_trigger(Some(e1), page, total) is None);
        },
    }
    assert(e2.triggered =~= e1.triggered);
}

/// A delivery only ever adds to the claimed set, and what it returns is a
/// claim that did not exist before and exists afterwards.
pub proof fn lemma_trigger_monotone(prior: Option<EntrySpec>, page: u64, total: u64, now: u64, ttl: u64)
    ensures
        base_of(prior).triggered.subset_of(
            spec_step_entry(prior, page, total, now, ttl).triggered,
        ),
        match spec_step_trigger(prior, page, total) {
            Some(n) => !base_of(prior).triggered.contains(n)
                && spec_step_entry(prior, page, total, now, ttl).triggered.contains(n),
            None => spec_step_entry(prior, page, total, now, ttl).triggered
                == base_of(prior).triggered,
        },
{
}

/// The state a run of deliveries leaves for one key, each starting from the
/// state the previous one left: a delivery event is (page, reported total,
/// time).
pub open spec fn replay(e: EntrySpec, evs: Seq<(u64, u64, u64)>, ttl: u64) -> EntrySpec
    decreases evs,
{
    if evs.len() == 0 {
        e
    } else {
        replay(
            spec_step_entry(Some(e), evs[0].0, evs[0].1, evs[0].2, ttl),
            evs.drop_first(),
            ttl,
        )
    }
}

/// The claim the `i`-th delivery of a run obtains.
pub open spec fn replay_trigger(e: EntrySpec, evs: Seq<(u64, u64, u64)>, i: int, ttl: u64)
    -> Option<u64>
{
    spec_step_trigger(Some(replay(e, evs.take(i), ttl)), evs[i].0, evs[i].1)
}

proof fn lemma_replay_split(e: EntrySpec, s1: Seq<(u64, u64, u64)>, s2: Seq<(u64, u64, u64)>, ttl: u64)
    ensures
        replay(e, s1 + s2, ttl) == replay(replay(e, s1, ttl), s2, ttl),
    decreases s1,
{
    if s1.len() == 0 {
        assert(s1 + s2 =~= s2);
    } else {
        let e1 = spec_step_entry(Some(e), s1[0].0, s1[0].1, s1[0].2, ttl);
        assert((s1 + s2)[0] == s1[0]);
        assert((s1 + s2).drop_first() =~= s1.drop_first() + s2);
        lemma_replay_split(e1, s1.drop_first(), s2, ttl);
    }
}

proof fn lemma_replay_triggered_monotone(e: EntrySpec, evs: Seq<(u64, u64, u64)>, ttl: u64)
    ensures
        e.triggered.subset_of(replay(e, evs, ttl).triggered),
    decreases evs,
{
    if evs.len() > 0 {
        let e1 = spec_step_entry(Some(e), evs[0].0, evs[0].1, evs[0].2, ttl);
        lemma_trigger_monotone(Some(e), evs[0].0, evs[0].1, evs[0].2, ttl);
        lemma_replay_triggered_monotone(e1, evs.drop_first(), ttl);
    }
}

/// Over any run of deliveries for one key within one window, the fetch of a
/// given page number is claimed at most once: two distinct deliveries never
/// obtain the same claim.
pub proof fn lemma_at_most_one_trigger(
    e: EntrySpec,
    evs: Seq<(u64, u64, u64)>,
    i: int,
    j: int,
    n: u64,
    ttl: u64,
)
    requires
        0 <= i < j < evs.len(),
        replay_trigger(e, evs, i, ttl) == Some(n),
    ensures
        replay_trigger(e, evs, j, ttl) != Some(n),
{
    let si = replay(e, evs.take(i), ttl);
    let si1 = spec_step_entry(Some(si), evs[i].0, evs[i].1, evs[i].2, ttl);
    lemma_trigger_monotone(Some(si), evs[i].0, evs[i].1, evs[i].2, ttl);
    assert(si1.triggered.contains(n));

    assert(evs.take(i).push(evs[i]) =~= evs.take(i + 1));
    assert(evs.take(i) + seq![evs[i]] =~= evs.take(i + 1));
    lemma_replay_split(e, evs.take(i), seq![evs[i]], ttl);
    assert(replay(si, seq![evs[i]], ttl) == si1) by {
        let one = seq![evs[i]];
        assert(one.len() == 1);
        assert(one[0] == evs[i]);
        let empty = one.drop_first();
        assert(empty.len() == 0);
        assert(replay(si, one, ttl) == replay(si1, empty, ttl));
        assert(replay(si1, empty, ttl) == si1);
    }
    assert(replay(e, evs.take(i + 1), ttl) == si1);

    assert(evs.take(i + 1) + evs.take(j).skip(i + 1) =~= evs.take(j));
    lemma_replay_split(e, evs.take(i + 1), evs.take(j).skip(i + 1), ttl);
    let sj = replay(e, evs.take(j), ttl);
    lemma_replay_triggered_monotone(si1, evs.take(j).skip(i + 1), ttl);
    assert(sj.triggered.contains(n));
}

/// With three pages in total, pages one and two delivered in either order
/// onto a fresh exchange: exactly one of the two deliveries claims the fetch
/// of page three — the second to run, whichever it is — and a delivery of
/// page three afterwards claims nothing, the total being reached.
pub proof fn lemma_two_deliveries_one_claim(t1: u64, t2: u64, t3: u64, ttl: u64)
    ensures
        ({
            // Page one runs first, then page two.
            let e1 = spec_step_entry(None, 1, 3, t1, ttl);
            let r1 = spec_step_trigger(None, 1, 3);
            let e2 = spec_step_entry(Some(e1), 2, 3, t2, ttl);
            let r2 = spec_step_trigger(Some(e1), 2, 3);
            let r3 = spec_step_trigger(Some(e2), 3, 3);
            r1 == Some(2u64) && r2 == Some(3u64) && r3 is None
        }),
        ({
            // Page two runs first, then page one.
            let e1 = spec_step_entry(None, 2, 3, t1, ttl);
            let r1 = spec_step_trigger(None, 2, 3);
            let e2 = spec_step_entry(Some(e1), 1, 3, t2, ttl);
            let r2 = spec_step_trigger(Some(e1), 1, 3);
            let r3 = spec_step_trigger(Some(e2), 3, 3);
            r1 == Some(3u64) && r2 is None && r3 is None
        }),
{
    let s1 = Set::<u64>::empty().insert(1u64);
    let s2 = Set::<u64>::empty().insert(2u64);
    let s12a = s1.insert(2u64);
    let s12b = s2.insert(1u64);
    let s123a = s12a.insert(3u64);
    let s123b = s12b.insert(3u64);
    lemma_set_max(s1, 1u64);
    lemma_set_max(s2, 2u64);
    lemma_set_max(s12a, 2u64);
    lemma_set_max(s12b, 2u64);
    lemma_set_max(s123a, 3u64);
    lemma_set_max(s123b, 3u64);
    let f = fresh_entry();
    assert(f.received.insert(1u64) =~= s1);
    assert(f.received.insert(2u64) =~= s2);

    // First order.
    let e1 = spec_step_entry(None, 1, 3, t1, ttl);
    assert(e1.received =~= s1);
    assert(spec_step_trigger(None, 1, 3) == Some(2u64));
    assert(e1.triggered =~= Set::<u64>::empty().insert(2u64));
    assert(e1.received.insert(2u64) =~= s12a);
    let e2 = spec_step_entry(Some(e1), 2, 3, t2, ttl);
    assert(spec_step_trigger(Some(e1), 2, 3) == Some(3u64));
    assert(e2.received =~= s12a);
    assert(e2.received.insert(3u64) =~= s123a);
    assert(spec_step_trigger(Some(e2), 3, 3) is None);

    // Second order.
    let e1b = spec_step_entry(None, 2, 3, t1, ttl);
    assert(e1b.received =~= s2);
    assert(spec_step_trigger(None, 2, 3) == Some(3u64));
    assert(e1b.triggered =~= Set::<u64>::empty().insert(3u64));
    assert(e1b.received.insert(1u64) =~= s12b);
    let e2b = spec_step_entry(Some(e1b), 1, 3, t2, ttl);
    assert(spec_step_trigger(Some(e1b), 1, 3) is None);
    assert(e2b.received =~= s12b);
    assert(e2b.triggered =~= e1b.triggered);
    assert(e2b.received.insert(3u64) =~= s123b);
    assert(spec_step_trigger(Some(e2b), 3, 3) is None);
}

/// Coordination state left by a delivery at `now` stops being readable once
/// the time-to-live window has elapsed with no further activity.
pub proof fn lemma_ttl_expiry(
    prior: Option<EntrySpec>,
    page: u64,
    total: u64,
    now: u64,
    ttl: u64,
    later: u64,
)
    requires
        later >= now + ttl,
    ensures
        later >= spec_step_entry(prior, page, total, now, ttl).expires_at,
{
}

fn contains_u64(v: &Vec<u64>, x: u64) -> (r: bool)
    ensures
        r == v@.contains(x),
{
    let n = v.len();
    for i in 0..n
        invariant
            n == v@.len(),
            forall|j: int| 0 <= j < i ==> v@[j] != x,
    {
        if v[i] == x {
            return true;
        }
    }
    false
}

fn copy_u64_vec(v: &Vec<u64>) -> (r: Vec<u64>)
    ensures
        r@ == v@,
{
    let mut out: Vec<u64> = Vec::new();
    let n = v.len();
    for i in 0..n
        invariant
            n == v@.len(),
            out@.len() == i,
            forall|j: int| 0 <= j < i ==> out@[j] == v@[j],
    {
        out.push(v[i]);
    }
    proof {
        assert(out@ =~= v@);
    }
    out
}

fn max_u64(v: &Vec<u64>) -> (r: u64)
    requires
        v@.len() > 0,
    ensures
        is_max_of(r, v@.to_set()),
{
    let mut m = v[0];
    let n = v.len();
    proof {
        assert(v@.subrange(0, 1)[0] == v@[0]);
    }
    for i in 1..n
        invariant
            n == v@.len(),
            v@.len() > 0,
            v@.subrange(0, i as int).contains(m),
            forall|j: int| 0 <= j < i ==> v@[j] <= m,
    {
        if v[i] > m {
            m = v[i];
            proof {
                assert(v@.subrange(0, i + 1)[i as int] == v@[i as int]);
            }
        } else {
            proof {
                let pre = v@.subrange(0, i as int);
                let cur = v@.subrange(0, i + 1);
                let w = choose|w: int| 0 <= w < pre.len() && pre[w] == m;
                assert(cur[w] == m);
            }
        }
    }
    proof {
        assert(v@.subrange(0, v@.len() as int) =~= v@);
        assert(v@.to_set().contains(m));
        assert forall|x: u64| v@.to_set().contains(x) implies x <= m by {
            let w = choose|w: int| 0 <= w < v@.len() && v@[w] == x;
        }
    }
    m
}

} // verus!
