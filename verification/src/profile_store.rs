//! The profile store: catalog entities keyed by a stable profile id, with
//! the hash-conditional upsert the ingestor relies on. The stored structure
//! and content hash change only when the incoming hash differs from the
//! stored one; bookkeeping fields follow every delivery.
//!
//! This is an in-memory store with the same upsert-by-id contract a SQL
//! profile table gives a deployment; the laws at the bottom are proved from
//! the transition function `spec_apply`.

use vstd::prelude::*;
use vstd::pervasive::VecAdditionalExecFns;
use vstd::string::StringExecFns;
use crate::json::{JsonSpec, JsonValue, json_view, json_view_arr};
use crate::models::search::Pagination;

verus! {

broadcast use {
    vstd::std_specs::vec::group_vec_axioms,
    vstd::seq::group_seq_axioms,
    vstd::set::group_set_axioms,
    vstd::map::group_map_axioms,
};

/// A catalog entity as one page of search results delivers it.
pub struct NewProfile {
    pub profile_id: String,
    pub beckn_structure: Option<JsonValue>,
    pub metadata: Option<JsonValue>,
    pub hash: String,
    pub last_synced_at: Option<String>,
    pub transaction_id: String,
    pub bpp_id: String,
    pub bpp_uri: String,
}

/// Mathematical model of one delivered entity.
pub struct ProfileRec {
    pub profile_id: Seq<char>,
    pub structure: Option<JsonSpec>,
    pub metadata: Option<JsonSpec>,
    pub hash: Seq<char>,
    pub last_synced_at: Option<Seq<char>>,
    pub transaction_id: Seq<char>,
    pub bpp_id: Seq<char>,
    pub bpp_uri: Seq<char>,
}

/// Mathematical model of one stored profile.
pub struct RowSpec {
    pub structure: Option<JsonSpec>,
    pub metadata: Option<JsonSpec>,
    pub hash: Seq<char>,
    pub last_synced_at: Option<Seq<char>>,
    pub transaction_id: Seq<char>,
    pub bpp_id: Seq<char>,
    pub bpp_uri: Seq<char>,
}

pub open spec fn opt_json_view(o: Option<JsonValue>) -> Option<JsonSpec> {
    match o {
        Some(v) => Some(v@),
        None => None,
    }
}

pub open spec fn opt_str_view(o: Option<String>) -> Option<Seq<char>> {
    match o {
        Some(s) => Some(s@),
        None => None,
    }
}

impl View for NewProfile {
    type V = ProfileRec;

    open spec fn view(&self) -> ProfileRec {
        ProfileRec {
            profile_id: self.profile_id@,
            structure: opt_json_view(self.beckn_structure),
            metadata: opt_json_view(self.metadata),
            hash: self.hash@,
            last_synced_at: opt_str_view(self.last_synced_at),
            transaction_id: self.transaction_id@,
            bpp_id: self.bpp_id@,
            bpp_uri: self.bpp_uri@,
        }
    }
}

/// The views of a batch, in order.
pub open spec fn views_of(s: Seq<NewProfile>) -> Seq<ProfileRec>
    decreases s,
{
    if s.len() == 0 {
        Seq::empty()
    } else {
        seq![s[0]@] + views_of(s.subrange(1, s.len() as int))
    }
}

/// The view of a batch is its pointwise view.
pub proof fn lemma_views_of(s: Seq<NewProfile>)
    ensures
        views_of(s).len() == s.len(),
        forall|i: int| 0 <= i < s.len() ==> views_of(s)[i] == s[i]@,
    decreases s,
{
    if s.len() > 0 {
        lemma_views_of(s.subrange(1, s.len() as int));
        assert forall|i: int| 0 <= i < s.len() implies views_of(s)[i] == s[i]@ by {
            if i > 0 {
                assert(s.subrange(1, s.len() as int)[i - 1] == s[i]);
            }
        }
    }
}

/// The model of a delivered entity, were it stored as it came.
pub open spec fn row_of_new(rec: ProfileRec) -> RowSpec {
    RowSpec {
        structure: rec.structure,
        metadata: rec.metadata,
        hash: rec.hash,
        last_synced_at: rec.last_synced_at,
        transaction_id: rec.transaction_id,
        bpp_id: rec.bpp_id,
        bpp_uri: rec.bpp_uri,
    }
}

/// What one delivered entity leaves stored under its id: content fields
/// change only when the hash differs from the stored one, the stored
/// metadata is never overwritten, and the bookkeeping fields always follow
/// the delivery.
pub open spec fn row_after(rec: ProfileRec, prior: Option<RowSpec>) -> RowSpec {
    match prior {
        None => row_of_new(rec),
        Some(p) => RowSpec {
            structure: if p.hash != rec.hash {
                rec.structure
            } else {
                p.structure
            },
            hash: if p.hash != rec.hash { rec.hash } else { p.hash },
            metadata: p.metadata,
            last_synced_at: rec.last_synced_at,
            transaction_id: rec.transaction_id,
            bpp_id: rec.bpp_id,
            bpp_uri: rec.bpp_uri,
        },
    }
}

/// The store contents after one delivered entity is upserted.
pub open spec fn spec_apply(m: Map<Seq<char>, RowSpec>, rec: ProfileRec)
    -> Map<Seq<char>, RowSpec>
{
    m.insert(
        rec.profile_id,
        row_after(
            rec,
            if m.dom().contains(rec.profile_id) {
                Some(m[rec.profile_id])
            } else {
                None
            },
        ),
    )
}

/// The store contents after a batch is upserted, in order.
pub open spec fn spec_apply_batch(m: Map<Seq<char>, RowSpec>, recs: Seq<ProfileRec>)
    -> Map<Seq<char>, RowSpec>
    decreases recs,
{
    if recs.len() == 0 {
        m
    } else {
        spec_apply_batch(spec_apply(m, recs[0]), recs.drop_first())
    }
}

struct StoredRow {
    profile_id: String,
    beckn_structure: Option<JsonValue>,
    metadata: Option<JsonValue>,
    hash: String,
    last_synced_at: Option<String>,
    transaction_id: String,
    bpp_id: String,
    bpp_uri: String,
}

impl StoredRow {
    spec fn row_spec(&self) -> RowSpec {
        RowSpec {
            structure: opt_json_view(self.beckn_structure),
            metadata: opt_json_view(self.metadata),
            hash: self.hash@,
            last_synced_at: opt_str_view(self.last_synced_at),
            transaction_id: self.transaction_id@,
            bpp_id: self.bpp_id@,
            bpp_uri: self.bpp_uri@,
        }
    }
}

/// Every profile the adapter has ingested, keyed by profile id.
pub struct ProfileStore {
    rows: Vec<StoredRow>,
}

impl ProfileStore {
    /// Distinct slots hold distinct profile ids.
    pub closed spec fn wf(&self) -> bool {
        forall|i: int, j: int|
            0 <= i < self.rows@.len() && 0 <= j < self.rows@.len() && i != j
                ==> (#[trigger] self.rows@[i]).profile_id@
                    != (#[trigger] self.rows@[j]).profile_id@
    }

    pub closed spec fn spec_has(&self, pid: Seq<char>) -> bool {
        exists|i: int| 0 <= i < self.rows@.len()
            && (#[trigger] self.rows@[i]).profile_id@ == pid
    }

    spec fn spec_idx(&self, pid: Seq<char>) -> int {
        choose|i: int| 0 <= i < self.rows@.len()
            && (#[trigger] self.rows@[i]).profile_id@ == pid
    }

    pub closed spec fn spec_row(&self, pid: Seq<char>) -> RowSpec {
        self.rows@[self.spec_idx(pid)].row_spec()
    }

    /// The whole store as a map from profile id to stored row.
    pub open spec fn contents(&self) -> Map<Seq<char>, RowSpec> {
        Map::new(|pid: Seq<char>| self.spec_has(pid), |pid: Seq<char>| self.spec_row(pid))
    }

    proof fn lemma_idx_unique(&self, i: int, pid: Seq<char>)
        requires
            self.wf(),
            0 <= i < self.rows@.len(),
            self.rows@[i].profile_id@ == pid,
        ensures
            self.spec_has(pid),
            self.spec_idx(pid) == i,
    {
        assert(self.spec_has(pid));
        let c = self.spec_idx(pid);
        if c != i {
            assert(self.rows@[c].profile_id@ != self.rows@[i].profile_id@);
        }
    }

    /// An empty store.
    pub fn new() -> (r: ProfileStore)
        ensures
            r.wf(),
            r.contents() == Map::<Seq<char>, RowSpec>::empty(),
    {
        let r = ProfileStore { rows: Vec::new() };
        proof {
            assert(r.contents() =~= Map::<Seq<char>, RowSpec>::empty());
        }
        r
    }

    fn find_index(&self, pid: &str) -> (r: Option<usize>)
        ensures
            match r {
                Some(i) => i < self.rows@.len() && self.rows@[i as int].profile_id@ == pid@,
                None => !self.spec_has(pid@),
            },
    {
        let n = self.rows.len();
        for i in 0..n
            invariant
                n == self.rows@.len(),
                forall|j: int| 0 <= j < i ==> (#[trigger] self.rows@[j]).profile_id@ != pid@,
        {
            if crate::json::str_eq(self.rows[i].profile_id.as_str(), pid) {
                return Some(i);
            }
        }
        None
    }

    /// Upserts one delivered entity.
    pub fn upsert(&mut self, rec: &NewProfile)
        requires
            old(self).wf(),
        ensures
            final(self).wf(),
            final(self).contents() == spec_apply(old(self).contents(), rec@),
    {
        let ghost pid = rec.profile_id@;
        let found = self.find_index(rec.profile_id.as_str());
        match found {
            Some(i) => {
                proof {
                    self.lemma_idx_unique(i as int, pid);
                }
                let changed = !crate::json::str_eq(
                    self.rows[i].hash.as_str(),
                    rec.hash.as_str(),
                );
                let row = StoredRow {
                    profile_id: rec.profile_id.clone(),
                    beckn_structure: if changed {
                        clone_opt_json(&rec.beckn_structure)
                    } else {
                        clone_opt_json(&self.rows[i].beckn_structure)
                    },
                    metadata: clone_opt_json(&self.rows[i].metadata),
                    hash: if changed {
                        rec.hash.clone()
                    } else {
                        self.rows[i].hash.clone()
                    },
                    last_synced_at: clone_opt_string(&rec.last_synced_at),
                    transaction_id: rec.transaction_id.clone(),
                    bpp_id: rec.bpp_id.clone(),
                    bpp_uri: rec.bpp_uri.clone(),
                };
                proof {
                    assert(row.row_spec() == row_after(
                        rec@,
                        Some(old(self).spec_row(pid)),
                    ));
                }
                self.rows.set(i, row);
                proof {
                    assert forall|i1: int, i2: int|
                        0 <= i1 < self.rows@.len() && 0 <= i2 < self.rows@.len() && i1 != i2
                        implies (#[trigger] self.rows@[i1]).profile_id@
                            != (#[trigger] self.rows@[i2]).profile_id@ by {
                        assert(old(self).rows@[i1].profile_id@ == self.rows@[i1].profile_id@
                            || i1 == i as int);
                        assert(old(self).rows@[i2].profile_id@ == self.rows@[i2].profile_id@
                            || i2 == i as int);
                    }
                    self.lemma_frame(old(self), i as int, pid);
                }
            },
            None => {
                let row = StoredRow {
                    profile_id: rec.profile_id.clone(),
                    beckn_structure: clone_opt_json(&rec.beckn_structure),
                    metadata: clone_opt_json(&rec.metadata),
                    hash: rec.hash.clone(),
                    last_synced_at: clone_opt_string(&rec.last_synced_at),
                    transaction_id: rec.transaction_id.clone(),
                    bpp_id: rec.bpp_id.clone(),
                    bpp_uri: rec.bpp_uri.clone(),
                };
                proof {
                    assert(row.row_spec() == row_after(rec@, None::<RowSpec>));
                }
                let ghost oldlen = self.rows@.len();
                self.rows.push(row);
                proof {
                    assert forall|i1: int, i2: int|
                        0 <= i1 < self.rows@.len() && 0 <= i2 < self.rows@.len() && i1 != i2
                        implies (#[trigger] self.rows@[i1]).profile_id@
                            != (#[trigger] self.rows@[i2]).profile_id@ by {
                        if i1 < oldlen && i2 < oldlen {
                            assert(old(self).rows@[i1].profile_id@
                                != old(self).rows@[i2].profile_id@);
                        }
                    }
                    self.lemma_frame(old(self), oldlen as int, pid);
                }
            },
        }
    }

    /// After writing the row for `pid` at index `i` (in place or appended),
    /// the contents are the old contents with `pid` rebound to that row.
    proof fn lemma_frame(&self, prev: &ProfileStore, i: int, pid: Seq<char>)
        requires
            self.wf(),
            0 <= i < self.rows@.len(),
            self.rows@[i].profile_id@ == pid,
            self.rows@.len() == prev.rows@.len() || self.rows@.len() == prev.rows@.len() + 1,
            forall|j: int| 0 <= j < self.rows@.len() && j != i
                ==> j < prev.rows@.len() && self.rows@[j] == prev.rows@[j],
            i < prev.rows@.len() ==> prev.rows@[i].profile_id@ == pid,
        ensures
            self.contents() == prev.contents().insert(pid, self.rows@[i].row_spec()),
    {
        self.lemma_idx_unique(i, pid);
        assert forall|p2: Seq<char>| p2 != pid
            implies self.spec_has(p2) == prev.spec_has(p2) by {
            if self.spec_has(p2) {
                let j = self.spec_idx(p2);
                assert(j != i);
                assert(prev.rows@[j].profile_id@ == p2);
            }
            if prev.spec_has(p2) {
                let j = prev.spec_idx(p2);
                assert(0 <= j < prev.rows@.len() && prev.rows@[j].profile_id@ == p2);
                if j == i {
                    assert(prev.rows@[i].profile_id@ == pid);
                    assert(false);
                }
                assert(self.rows@[j].profile_id@ == p2);
                assert(self.spec_has(p2));
            }
        }
        assert forall|p2: Seq<char>| p2 != pid && prev.spec_has(p2)
            implies self.contents()[p2] == prev.contents()[p2] by {
            let j = prev.spec_idx(p2);
            if j == i {
                assert(prev.rows@[i].profile_id@ == pid);
                assert(false);
            }
            assert(self.rows@[j].profile_id@ == p2);
            self.lemma_idx_unique(j, p2);
            assert(prev.rows@[j].profile_id@ == p2);
        }
        assert(self.contents() =~= prev.contents().insert(pid, self.rows@[i].row_spec()));
    }

    /// Upserts one page's batch of entities, in order, all in one call.
    pub fn store_profiles(&mut self, profiles: &Vec<NewProfile>)
        requires
            old(self).wf(),
        ensures
            final(self).wf(),
            final(self).contents() == spec_apply_batch(
                old(self).contents(),
                views_of(profiles@),
            ),
    {
        let ghost recs = views_of(profiles@);
        proof {
            lemma_views_of(profiles@);
        }
        let n = profiles.len();
        proof {
            assert(recs.skip(0) =~= recs);
        }
        for i in 0..n
            invariant
                n == profiles@.len(),
                recs == views_of(profiles@),
                recs.len() == profiles@.len(),
                forall|j: int| 0 <= j < profiles@.len() ==> recs[j] == profiles@[j]@,
                self.wf(),
                spec_apply_batch(old(self).contents(), recs)
                    == spec_apply_batch(self.contents(), recs.skip(i as int)),
        {
            proof {
                assert(recs.skip(i as int)[0] == recs[i as int]);
            }
            self.upsert(&profiles[i]);
            proof {
                assert(recs.skip(i as int).drop_first() =~= recs.skip(i + 1));
            }
        }
        proof {
            assert(recs.skip(n as int).len() == 0);
        }
    }

    /// The stored hash under `pid`, when present.
    pub fn stored_hash(&self, pid: &str) -> (r: Option<String>)
        requires
            self.wf(),
        ensures
            match r {
                Some(h) => self.contents().dom().contains(pid@)
                    && h@ == self.contents()[pid@].hash,
                None => !self.contents().dom().contains(pid@),
            },
    {
        match self.find_index(pid) {
            Some(i) => {
                proof {
                    self.lemma_idx_unique(i as int, pid@);
                }
                Some(self.rows[i].hash.clone())
            },
            None => None,
        }
    }

    /// The stored structure under `pid`, when present.
    pub fn stored_structure(&self, pid: &str) -> (r: Option<JsonValue>)
        requires
            self.wf(),
        ensures
            match r {
                Some(v) => self.contents().dom().contains(pid@)
                    && self.contents()[pid@].structure == Some(v@),
                None => !self.contents().dom().contains(pid@)
                    || self.contents()[pid@].structure is None,
            },
    {
        match self.find_index(pid) {
            Some(i) => {
                proof {
                    self.lemma_idx_unique(i as int, pid@);
                }
                match &self.rows[i].beckn_structure {
                    Some(v) => Some(v.deep_clone()),
                    None => None,
                }
            },
            None => None,
        }
    }

    /// The stored transaction id under `pid`, when present.
    pub fn stored_transaction(&self, pid: &str) -> (r: Option<String>)
        requires
            self.wf(),
        ensures
            match r {
                Some(t) => self.contents().dom().contains(pid@)
                    && t@ == self.contents()[pid@].transaction_id,
                None => !self.contents().dom().contains(pid@),
            },
    {
        match self.find_index(pid) {
            Some(i) => {
                proof {
                    self.lemma_idx_unique(i as int, pid@);
                }
                Some(self.rows[i].transaction_id.clone())
            },
            None => None,
        }
    }

    /// The stored rows with their ids, in store order.
    pub closed spec fn entries(&self) -> Seq<(Seq<char>, RowSpec)> {
        rows_view(self.rows@)
    }

    /// The ordered view carries exactly the contents: each listed row is the
    /// stored one, the listed ids are distinct, and every stored id is
    /// listed.
    pub proof fn lemma_entries_agree(&self)
        requires
            self.wf(),
        ensures
            forall|i: int| 0 <= i < self.entries().len()
                ==> self.contents().dom().contains((#[trigger] self.entries()[i]).0)
                    && self.contents()[self.entries()[i].0] == self.entries()[i].1,
            forall|i: int, j: int|
                0 <= i < self.entries().len() && 0 <= j < self.entries().len() && i != j
                    ==> (#[trigger] self.entries()[i]).0 != (#[trigger] self.entries()[j]).0,
            forall|pid: Seq<char>| #[trigger] self.contents().dom().contains(pid)
                ==> exists|i: int| 0 <= i < self.entries().len()
                    && (#[trigger] self.entries()[i]).0 == pid,
    {
        lemma_rows_view(self.rows@);
        assert(self.entries().len() == self.rows@.len());
        assert forall|i: int| 0 <= i < self.entries().len()
            implies self.contents().dom().contains((#[trigger] self.entries()[i]).0)
                && self.contents()[self.entries()[i].0] == self.entries()[i].1 by {
            self.lemma_idx_unique(i, self.rows@[i].profile_id@);
        }
        assert forall|pid: Seq<char>| #[trigger] self.contents().dom().contains(pid)
            implies exists|i: int| 0 <= i < self.entries().len()
                && (#[trigger] self.entries()[i]).0 == pid by {
            let i = self.spec_idx(pid);
            assert(0 <= i < self.entries().len() && self.entries()[i].0 == pid);
        }
    }

    /// Lists one page of the stored profiles that hold a structure: the
    /// selector is clamped, and the returned items are the matching slice of
    /// the store, each shaped as a listing entry.
    pub fn fetch_profiles(&self, pagination: Pagination) -> (r: PaginatedItems)
        requires
            self.wf(),
        ensures
            r.page == spec_norm_page(pagination.page),
            r.limit == spec_norm_limit(pagination.limit),
            r.total == spec_items_all(self.entries()).len(),
            ({
                let all = spec_items_all(self.entries());
                let start = spec_min(
                    (r.page - 1) as int * r.limit as int,
                    all.len() as int,
                );
                let end = spec_min(
                    (r.page - 1) as int * r.limit as int + r.limit as int,
                    all.len() as int,
                );
                json_view_arr(r.items@) == all.subrange(start, end)
            }),
    {
        let page: u32 = match pagination.page {
            Some(p) => if p < 1 { 1 } else { p },
            None => 1,
        };
        let limit: u32 = match pagination.limit {
            Some(l) => if l < 1 { 1 } else if l > 1000 { 1000 } else { l },
            None => 20,
        };
        proof {
            assert(page >= 1);
            assert(limit >= 1 && limit <= 1000);
        }
        proof {
            assert((page as int - 1) * (limit as int) <= (u32::MAX as int) * 1000)
                by (nonlinear_arith)
                requires
                    1 <= page as int <= u32::MAX as int + 1,
                    0 <= limit as int <= 1000,
            {
            }
        }
        let offset: u64 = (page as u64 - 1) * limit as u64;

        let ghost all = spec_items_all(self.entries());
        proof {
            lemma_rows_view(self.rows@);
        }

        // Gather the listing entry of every row holding a structure.
        let mut gathered: Vec<JsonValue> = Vec::new();
        let n = self.rows.len();
        for i in 0..n
            invariant
                n == self.rows@.len(),
                all == spec_items_all(self.entries()),
                self.entries() == rows_view(self.rows@),
                self.entries().len() == self.rows@.len(),
                forall|k: int| 0 <= k < self.rows@.len()
                    ==> rows_view(self.rows@)[k]
                        == (self.rows@[k].profile_id@, self.rows@[k].row_spec()),
                json_view_arr(gathered@)
                    == spec_items_all(self.entries().take(i as int)),
        {
            let row = &self.rows[i];
            let ghost pre = gathered@;
            match &row.beckn_structure {
                Some(_) => {
                    gathered.push(row_item_json(row));
                    proof {
                        crate::json::lemma_view_arr(pre);
                        crate::json::lemma_view_arr(gathered@);
                        assert(json_view_arr(gathered@)
                            =~= json_view_arr(pre).push(gathered@.last()@));
                        assert(self.entries().take(i + 1).drop_last()
                            =~= self.entries().take(i as int));
                        assert(self.entries().take(i + 1).last()
                            == self.entries()[i as int]);
                        assert(json_view_arr(gathered@)
                            =~= spec_items_all(self.entries().take(i + 1)));
                    }
                },
                None => {
                    proof {
                        assert(self.entries().take(i + 1).drop_last()
                            =~= self.entries().take(i as int));
                        assert(self.entries().take(i + 1).last()
                            == self.entries()[i as int]);
                        assert(json_view_arr(gathered@)
                            =~= spec_items_all(self.entries().take(i + 1)));
                    }
                },
            }
        }
        proof {
            assert(self.entries().take(self.entries().len() as int) =~= self.entries());
            crate::json::lemma_view_arr(gathered@);
        }

        let total: u64 = gathered.len() as u64;

        // Slice the requested page out.
        let glen: u64 = gathered.len() as u64;
        let start: u64 = if offset < glen { offset } else { glen };
        let end_unclamped: u64 = offset + limit as u64;
        let end: u64 = if end_unclamped < glen { end_unclamped } else { glen };
        let mut items: Vec<JsonValue> = Vec::new();
        let mut j: u64 = start;
        while j < end
            invariant
                start <= j <= end,
                end <= gathered@.len(),
                glen == gathered@.len(),
                all == json_view_arr(gathered@),
                items@.len() == j - start,
                forall|k: int| 0 <= k < items@.len()
                    ==> json_view(items@[k]) == json_view(gathered@[start + k]),
            decreases end - j,
        {
            items.push(gathered[j as usize].deep_clone());
            j = j + 1;
        }
        proof {
            crate::json::lemma_view_arr(items@);
            crate::json::lemma_view_arr(gathered@);
            assert(json_view_arr(items@) =~= all.subrange(start as int, end as int));
        }

        PaginatedItems { items, total, page, limit }
    }
}

/// The stored rows with their ids, in order.
spec fn rows_view(s: Seq<StoredRow>) -> Seq<(Seq<char>, RowSpec)>
    decreases s,
{
    if s.len() == 0 {
        Seq::empty()
    } else {
        seq![(s[0].profile_id@, s[0].row_spec())] + rows_view(s.subrange(1, s.len() as int))
    }
}

proof fn lemma_rows_view(s: Seq<StoredRow>)
    ensures
        rows_view(s).len() == s.len(),
        forall|i: int| 0 <= i < s.len() ==> rows_view(s)[i]
            == (s[i].profile_id@, s[i].row_spec()),
    decreases s,
{
    if s.len() > 0 {
        lemma_rows_view(s.subrange(1, s.len() as int));
        assert forall|i: int| 0 <= i < s.len() implies rows_view(s)[i]
            == (s[i].profile_id@, s[i].row_spec()) by {
            if i > 0 {
                assert(s.subrange(1, s.len() as int)[i - 1] == s[i]);
            }
        }
    }
}

/// The smaller of two numbers.
pub open spec fn spec_min(a: int, b: int) -> int {
    if a < b { a } else { b }
}

/// The page a selector asks for: at least the first.
pub open spec fn spec_norm_page(page: Option<u32>) -> u32 {
    match page {
        Some(p) => if p < 1 { 1 } else { p },
        None => 1,
    }
}

/// The page size a selector asks for: between one and a thousand, twenty
/// when unsaid.
pub open spec fn spec_norm_limit(limit: Option<u32>) -> u32 {
    match limit {
        Some(l) => if l < 1 { 1 } else if l > 1000 { 1000 } else { l },
        None => 20,
    }
}

/// The listing entry of one stored row.
pub open spec fn spec_row_item(pid: Seq<char>, row: RowSpec) -> JsonSpec {
    JsonSpec::Obj(seq![
        ("profile_id"@, JsonSpec::Str(pid)),
        ("beckn_structure"@, match row.structure {
            Some(v) => v,
            None => JsonSpec::Null,
        }),
        ("transaction_id"@, JsonSpec::Str(row.transaction_id)),
        ("bpp_id"@, JsonSpec::Str(row.bpp_id)),
        ("bpp_url"@, JsonSpec::Str(row.bpp_uri)),
        ("updated_at"@, match row.last_synced_at {
            Some(s) => JsonSpec::Str(s),
            None => JsonSpec::Null,
        }),
    ])
}

/// The listing entries of the stored rows that hold a structure, in store
/// order.
pub open spec fn spec_items_all(rows: Seq<(Seq<char>, RowSpec)>) -> Seq<JsonSpec>
    decreases rows,
{
    if rows.len() == 0 {
        Seq::empty()
    } else {
        spec_items_all(rows.drop_last()) + if rows.last().1.structure is Some {
            seq![spec_row_item(rows.last().0, rows.last().1)]
        } else {
            Seq::empty()
        }
    }
}

fn row_item_json(row: &StoredRow) -> (r: JsonValue)
    ensures
        r@ == spec_row_item(row.profile_id@, row.row_spec()),
{
    let mut ms: Vec<(String, JsonValue)> = Vec::new();
    ms.push((String::from_str("profile_id"), JsonValue::Str(row.profile_id.clone())));
    ms.push((String::from_str("beckn_structure"), match &row.beckn_structure {
        Some(v) => v.deep_clone(),
        None => JsonValue::Null,
    }));
    ms.push((String::from_str("transaction_id"),
        JsonValue::Str(row.transaction_id.clone())));
    ms.push((String::from_str("bpp_id"), JsonValue::Str(row.bpp_id.clone())));
    ms.push((String::from_str("bpp_url"), JsonValue::Str(row.bpp_uri.clone())));
    ms.push((String::from_str("updated_at"), match &row.last_synced_at {
        Some(s) => JsonValue::Str(s.clone()),
        None => JsonValue::Null,
    }));
    let r = JsonValue::Obj(ms);
    proof {
        crate::json::lemma_view_obj(r->Obj_0@);
        assert(r@->Obj_0 =~= spec_row_item(row.profile_id@, row.row_spec())->Obj_0);
    }
    r
}

/// One page of the profile listing.
pub struct PaginatedItems {
    pub items: Vec<JsonValue>,
    pub total: u64,
    pub page: u32,
    pub limit: u32,
}

fn clone_opt_json(o: &Option<JsonValue>) -> (r: Option<JsonValue>)
    ensures
        opt_json_view(r) == opt_json_view(*o),
{
    match o {
        Some(v) => Some(v.deep_clone()),
        None => None,
    }
}

fn clone_opt_string(o: &Option<String>) -> (r: Option<String>)
    ensures
        opt_str_view(r) == opt_str_view(*o),
{
    match o {
        Some(s) => Some(s.clone()),
        None => None,
    }
}

/// Upserting an entity whose hash equals the stored one leaves the stored
/// structure and hash exactly as they were; only the bookkeeping fields
/// follow the delivery.
pub proof fn lemma_unchanged_content_keeps_row(m: Map<Seq<char>, RowSpec>, rec: ProfileRec)
    requires
        m.dom().contains(rec.profile_id),
        m[rec.profile_id].hash == rec.hash,
    ensures
        spec_apply(m, rec)[rec.profile_id].structure == m[rec.profile_id].structure,
        spec_apply(m, rec)[rec.profile_id].hash == m[rec.profile_id].hash,
        spec_apply(m, rec)[rec.profile_id].metadata == m[rec.profile_id].metadata,
        spec_apply(m, rec)[rec.profile_id].transaction_id == rec.transaction_id,
        spec_apply(m, rec)[rec.profile_id].bpp_id == rec.bpp_id,
        spec_apply(m, rec)[rec.profile_id].bpp_uri == rec.bpp_uri,
        spec_apply(m, rec)[rec.profile_id].last_synced_at == rec.last_synced_at,
{
}

/// Upserting the same entity twice in a row is the same as upserting it
/// once: redelivery of an identical record does not perturb the store.
pub proof fn lemma_upsert_idempotent(m: Map<Seq<char>, RowSpec>, rec: ProfileRec)
    ensures
        spec_apply(spec_apply(m, rec), rec) == spec_apply(m, rec),
{
    let m1 = spec_apply(m, rec);
    let m2 = spec_apply(m1, rec);
    assert(m1.dom().contains(rec.profile_id));
    assert(m1[rec.profile_id].hash == rec.hash);
    assert(m2 =~= m1);
}

/// Upserting an entity whose hash differs from the stored one replaces the
/// stored structure and hash with the delivered ones.
pub proof fn lemma_changed_content_updates_row(m: Map<Seq<char>, RowSpec>, rec: ProfileRec)
    requires
        m.dom().contains(rec.profile_id),
        m[rec.profile_id].hash != rec.hash,
    ensures
        spec_apply(m, rec)[rec.profile_id].structure == rec.structure,
        spec_apply(m, rec)[rec.profile_id].hash == rec.hash,
{
}

} // verus!
