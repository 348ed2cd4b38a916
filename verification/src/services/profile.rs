//! Ingestion of search-results pages and coordination of the next fetch:
//! what the search-results reply callback leads to. Entities are extracted
//! from the page, hashed and upserted; the page is recorded with the
//! coordinator, which claims at most one "fetch next page" request; the
//! claimed request's payload is built and handed back for delivery.

use vstd::prelude::*;
use vstd::string::StringExecFns;
use vstd::arithmetic::div_mod::lemma_fundamental_div_mod;
use crate::config::AppConfig;
use crate::coordination::{CoordinationStore, PageKey, spec_step_entry, spec_step_trigger};
use crate::hashing::{hash_json, spec_hash_json};
use crate::json::{JsonSpec, JsonValue, json_view, json_view_arr, lemma_view_arr, spec_as_u64,
    spec_get};
use crate::models::webhook::{AckResponse, WebhookPayload, ack};
use crate::profile_store::{NewProfile, ProfileRec, ProfileStore, RowSpec, spec_apply_batch,
    views_of, lemma_views_of, spec_items_all, spec_min, spec_norm_limit, spec_norm_page};
use crate::models::profiles::ProfileSearchRequest;
use crate::models::search::Pagination;
use crate::text::{concat2, join_url, spec_join_url};
use crate::utils::payload_generator::{build_profile_beckn_request, search_message,
    spec_origin_payload, spec_search_message};
use crate::external::{new_uuid_string, now_epoch_secs, now_rfc3339};

verus! {

broadcast use {vstd::std_specs::vec::group_vec_axioms, vstd::seq::group_seq_axioms};

/// The fields every entity of one page is stamped with.
pub struct IngestMeta {
    pub txn: Seq<char>,
    pub stamp: Seq<char>,
    pub bpp_id: Seq<char>,
    pub bpp_uri: Seq<char>,
}

/// The stamp fields a page's delivery carries.
pub open spec fn spec_meta(payload: WebhookPayload, txn: Seq<char>, stamp: Seq<char>)
    -> IngestMeta
{
    IngestMeta {
        txn,
        stamp,
        bpp_id: match payload.context.bpp_id {
            Some(s) => s@,
            None => Seq::empty(),
        },
        bpp_uri: match payload.context.bpp_uri {
            Some(s) => s@,
            None => Seq::empty(),
        },
    }
}

/// The providers listed in a page of search results.
pub open spec fn spec_providers(m: JsonSpec) -> Seq<JsonSpec> {
    match spec_get(m, "catalog"@) {
        Some(c) => match spec_get(c, "providers"@) {
            Some(JsonSpec::Arr(ps)) => ps,
            _ => Seq::empty(),
        },
        None => Seq::empty(),
    }
}

/// The items one provider lists.
pub open spec fn spec_items(p: JsonSpec) -> Seq<JsonSpec> {
    match spec_get(p, "items"@) {
        Some(JsonSpec::Arr(items)) => items,
        _ => Seq::empty(),
    }
}

/// The entity one item yields: only items carrying a string id count.
pub open spec fn spec_item_rec(item: JsonSpec, g: IngestMeta) -> Option<ProfileRec> {
    match spec_get(item, "id"@) {
        Some(JsonSpec::Str(id)) => Some(ProfileRec {
            profile_id: id,
            structure: Some(item),
            metadata: None,
            hash: spec_hash_json(item),
            last_synced_at: Some(g.stamp),
            transaction_id: g.txn,
            bpp_id: g.bpp_id,
            bpp_uri: g.bpp_uri,
        }),
        _ => None,
    }
}

/// The entities a run of items yields, in order.
pub open spec fn spec_extract_items(items: Seq<JsonSpec>, g: IngestMeta) -> Seq<ProfileRec>
    decreases items,
{
    if items.len() == 0 {
        Seq::empty()
    } else {
        spec_extract_items(items.drop_last(), g) + match spec_item_rec(items.last(), g) {
            Some(r) => seq![r],
            None => Seq::empty(),
        }
    }
}

/// The entities a run of providers yields, in order.
pub open spec fn spec_extract_providers(ps: Seq<JsonSpec>, g: IngestMeta) -> Seq<ProfileRec>
    decreases ps,
{
    if ps.len() == 0 {
        Seq::empty()
    } else {
        spec_extract_providers(ps.drop_last(), g) + spec_extract_items(spec_items(ps.last()), g)
    }
}

/// The entities one page of search results yields.
pub open spec fn spec_extract(m: JsonSpec, g: IngestMeta) -> Seq<ProfileRec> {
    spec_extract_providers(spec_providers(m), g)
}

/// Extracts the catalog entities of one page, each with its content hash.
pub fn extract_profiles_from_on_search(payload: &WebhookPayload, txn_id: &str, stamp: &str)
    -> (r: Vec<NewProfile>)
    ensures
        views_of(r@) == spec_extract(payload.message@, spec_meta(*payload, txn_id@, stamp@)),
{
    let ghost g = spec_meta(*payload, txn_id@, stamp@);
    let bpp_id: String = match &payload.context.bpp_id {
        Some(s) => s.clone(),
        None => String::new(),
    };
    let bpp_uri: String = match &payload.context.bpp_uri {
        Some(s) => s.clone(),
        None => String::new(),
    };
    let mut profiles: Vec<NewProfile> = Vec::new();

    let providers: Option<&Vec<JsonValue>> = match payload.message.get("catalog") {
        Some(c) => match c.get("providers") {
            Some(p) => p.as_array(),
            None => None,
        },
        None => None,
    };

    let providers = match providers {
        Some(ps) => ps,
        None => {
            proof {
                lemma_views_of(profiles@);
                assert(views_of(profiles@) =~= spec_extract(payload.message@, g));
            }
            return profiles;
        },
    };

    let ghost pspec = json_view_arr(providers@);
    proof {
        lemma_view_arr(providers@);
        assert(spec_providers(payload.message@) == pspec);
    }

    let np = providers.len();
    for i in 0..np
        invariant
            np == providers@.len(),
            pspec == json_view_arr(providers@),
            pspec.len() == providers@.len(),
            forall|k: int| 0 <= k < providers@.len() ==> pspec[k] == json_view(providers@[k]),
            g == spec_meta(*payload, txn_id@, stamp@),
            bpp_id@ == g.bpp_id,
            bpp_uri@ == g.bpp_uri,
            views_of(profiles@) == spec_extract_providers(pspec.take(i as int), g),
    {
        let ghost before_provider = views_of(profiles@);
        let items: Option<&Vec<JsonValue>> = match providers[i].get("items") {
            Some(v) => v.as_array(),
            None => None,
        };
        match items {
            Some(items) => {
                let ghost ispec = json_view_arr(items@);
                proof {
                    lemma_view_arr(items@);
                    assert(spec_items(pspec[i as int]) == ispec);
                }
                let ni = items.len();
                for j in 0..ni
                    invariant
                        ni == items@.len(),
                        ispec == json_view_arr(items@),
                        ispec.len() == items@.len(),
                        forall|k: int| 0 <= k < items@.len() ==> ispec[k] == json_view(items@[k]),
                        g == spec_meta(*payload, txn_id@, stamp@),
                        bpp_id@ == g.bpp_id,
                        bpp_uri@ == g.bpp_uri,
                        views_of(profiles@) == before_provider
                            + spec_extract_items(ispec.take(j as int), g),
                {
                    let item = &items[j];
                    let id: Option<&String> = match item.get("id") {
                        Some(v) => v.as_str(),
                        None => None,
                    };
                    match id {
                        Some(id) => {
                            let ghost pre = profiles@;
                            let structure = item.deep_clone();
                            let hash = hash_json(item);
                            profiles.push(NewProfile {
                                profile_id: id.clone(),
                                beckn_structure: Some(structure),
                                metadata: None,
                                hash,
                                last_synced_at: Some(stamp.to_owned()),
                                transaction_id: txn_id.to_owned(),
                                bpp_id: bpp_id.clone(),
                                bpp_uri: bpp_uri.clone(),
                            });
                            proof {
                                lemma_views_of(pre);
                                lemma_views_of(profiles@);
                                let rec = spec_item_rec(ispec[j as int], g);
                                assert(profiles@.last()@ == rec->Some_0);
                                assert(views_of(profiles@)
                                    =~= views_of(pre).push(rec->Some_0));
                                assert(ispec.take(j + 1).drop_last() =~= ispec.take(j as int));
                                assert(ispec.take(j + 1).last() == ispec[j as int]);
                                assert(views_of(profiles@) =~= before_provider
                                    + spec_extract_items(ispec.take(j + 1), g));
                            }
                        },
                        None => {
                            proof {
                                assert(spec_item_rec(ispec[j as int], g) is None);
                                assert(ispec.take(j + 1).drop_last() =~= ispec.take(j as int));
                                assert(ispec.take(j + 1).last() == ispec[j as int]);
                                assert(views_of(profiles@) =~= before_provider
                                    + spec_extract_items(ispec.take(j + 1), g));
                            }
                        },
                    }
                }
                proof {
                    assert(ispec.take(ni as int) =~= ispec);
                    assert(pspec.take(i + 1).drop_last() =~= pspec.take(i as int));
                    assert(pspec.take(i + 1).last() == pspec[i as int]);
                    assert(views_of(profiles@)
                        =~= spec_extract_providers(pspec.take(i + 1), g));
                }
            },
            None => {
                proof {
                    assert(spec_items(pspec[i as int]) =~= Seq::<JsonSpec>::empty());
                    assert(spec_extract_items(Seq::<JsonSpec>::empty(), g)
                        =~= Seq::<ProfileRec>::empty());
                    assert(pspec.take(i + 1).drop_last() =~= pspec.take(i as int));
                    assert(pspec.take(i + 1).last() == pspec[i as int]);
                    assert(views_of(profiles@)
                        =~= spec_extract_providers(pspec.take(i + 1), g));
                }
            },
        }
    }
    proof {
        assert(pspec.take(np as int) =~= pspec);
    }
    profiles
}

/// A numeric field of the page selector carried by a page of results.
pub open spec fn spec_pagination_field(m: JsonSpec, key: Seq<char>) -> Option<u64> {
    match spec_get(m, "pagination"@) {
        Some(p) => match spec_get(p, key) {
            Some(v) => spec_as_u64(v),
            None => None,
        },
        None => None,
    }
}

/// The page number a delivery reports; first page when unsaid.
pub open spec fn spec_page(m: JsonSpec) -> u64 {
    match spec_pagination_field(m, "page"@) {
        Some(v) => v,
        None => 1,
    }
}

/// The page size a delivery reports; fifty when unsaid.
pub open spec fn spec_limit(m: JsonSpec) -> u64 {
    match spec_pagination_field(m, "limit"@) {
        Some(v) => v,
        None => 50,
    }
}

/// The total entity count a delivery reports; zero when unsaid.
pub open spec fn spec_total(m: JsonSpec) -> u64 {
    match spec_pagination_field(m, "total"@) {
        Some(v) => v,
        None => 0,
    }
}

/// Reads one numeric field of the page selector a delivery carries.
pub fn pagination_field(m: &JsonValue, key: &str) -> (r: Option<u64>)
    ensures
        r == spec_pagination_field(m@, key@),
{
    match m.get("pagination") {
        Some(p) => match p.get(key) {
            Some(v) => v.as_u64(),
            None => None,
        },
        None => None,
    }
}

/// How many pages a total of `total` entities fills at `limit` a page: the
/// least count whose pages hold them all.
pub open spec fn spec_total_pages(total: u64, limit: u64) -> u64 {
    ((total as int) / (limit as int)
        + if (total as int) % (limit as int) != 0 { 1int } else { 0int }) as u64
}

/// Computes how many pages a reported total fills.
pub fn total_pages_of(total: u64, limit: u64) -> (r: u64)
    requires
        limit > 0,
    ensures
        r == spec_total_pages(total, limit),
{
    let q = total / limit;
    let rem = total % limit;
    if rem != 0 {
        proof {
            lemma_fundamental_div_mod(total as int, limit as int);
            if limit == 1 {
                assert(rem == 0);
            }
            assert(q < u64::MAX) by (nonlinear_arith)
                requires
                    limit >= 2,
                    total as int == limit as int * (q as int) + (rem as int),
                    0 <= rem < limit,
                    total <= u64::MAX,
                    q >= 0,
            {
            }
        }
        q + 1
    } else {
        q
    }
}

/// One claimed "fetch next page" request, ready for delivery.
pub struct TriggerRequest {
    pub next_page: u64,
    pub url: String,
    pub payload: JsonValue,
}

/// Mathematical model of a claimed fetch request.
pub struct TriggerSpec {
    pub next_page: u64,
    pub url: Seq<char>,
    pub payload: JsonSpec,
}

impl View for TriggerRequest {
    type V = TriggerSpec;

    open spec fn view(&self) -> TriggerSpec {
        TriggerSpec {
            next_page: self.next_page,
            url: self.url@,
            payload: self.payload@,
        }
    }
}

pub open spec fn view_trigger(r: Option<TriggerRequest>) -> Option<TriggerSpec> {
    match r {
        Some(t) => Some(t@),
        None => None,
    }
}

/// Everything one search-results delivery does, given the instant it runs
/// at, the timestamp it stamps, and the message id its trigger carries: the
/// page's entities are upserted; when the page selector is usable, the page
/// is recorded under its key and the claimed next fetch, if any, is the
/// returned request; every other key's coordination state is untouched.
pub open spec fn on_search_post(
    coord0: CoordinationStore,
    coord1: CoordinationStore,
    store0: ProfileStore,
    store1: ProfileStore,
    config: AppConfig,
    payload: WebhookPayload,
    txn: Seq<char>,
    now_secs: u64,
    now_iso: Seq<char>,
    mid: Seq<char>,
    r: Option<TriggerSpec>,
) -> bool {
    let m = payload.message@;
    let g = spec_meta(payload, txn, now_iso);
    let total = spec_total(m);
    let limit = spec_limit(m);
    let page = spec_page(m);
    let key = (txn, g.bpp_id, limit);
    let prior = coord0.spec_prior(key, now_secs);
    let tp = spec_total_pages(total, limit);
    let trig = spec_step_trigger(prior, page, tp);

    store1.contents() == spec_apply_batch(store0.contents(), spec_extract(m, g))
    && coord1.ttl() == coord0.ttl()
    && if total == 0 || limit == 0 {
        coord1 == coord0 && r is None
    } else {
        coord1.spec_has(key)
        && coord1.spec_entry(key) == spec_step_entry(prior, page, tp, now_secs, coord0.ttl())
        && (forall|k2: (Seq<char>, Seq<char>, u64)| k2 != key
            ==> coord1.spec_has(k2) == coord0.spec_has(k2))
        && (forall|k2: (Seq<char>, Seq<char>, u64)| k2 != key && coord0.spec_has(k2)
            ==> coord1.spec_entry(k2) == coord0.spec_entry(k2))
        && match trig {
            Some(n) => r == Some(TriggerSpec {
                next_page: n,
                url: spec_join_url(config.bap.caller_uri@, "search"@),
                payload: spec_origin_payload(
                    config,
                    txn,
                    "msg-profile-"@ + mid,
                    "search"@,
                    now_iso,
                    spec_search_message(n, limit),
                ),
            }),
            None => r is None,
        }
    }
}

/// Redelivering one and the same page of results a second time, while the
/// first delivery's coordination state is still readable, obtains no claim
/// and leaves the recorded page count and received set exactly as the first
/// delivery left them; only the expiry window slides and the bookkeeping of
/// the ingested entities follows the redelivery.
pub proof fn lemma_redelivered_page_claims_nothing(
    coord0: CoordinationStore,
    coord1: CoordinationStore,
    coord2: CoordinationStore,
    store0: ProfileStore,
    store1: ProfileStore,
    store2: ProfileStore,
    config: AppConfig,
    payload: WebhookPayload,
    txn: Seq<char>,
    t1: u64,
    t2: u64,
    iso1: Seq<char>,
    iso2: Seq<char>,
    mid1: Seq<char>,
    mid2: Seq<char>,
    r1: Option<TriggerSpec>,
    r2: Option<TriggerSpec>,
)
    requires
        on_search_post(coord0, coord1, store0, store1, config, payload, txn, t1, iso1,
            mid1, r1),
        on_search_post(coord1, coord2, store1, store2, config, payload, txn, t2, iso2,
            mid2, r2),
        spec_total(payload.message@) > 0,
        spec_limit(payload.message@) > 0,
        coord1.spec_live(
            (txn, spec_meta(payload, txn, iso1).bpp_id, spec_limit(payload.message@)),
            t2,
        ),
    ensures
        r2 is None,
        ({
            let key = (txn, spec_meta(payload, txn, iso1).bpp_id, spec_limit(payload.message@));
            coord2.spec_entry(key).total_pages == coord1.spec_entry(key).total_pages
                && coord2.spec_entry(key).received == coord1.spec_entry(key).received
                && coord2.spec_entry(key).triggered == coord1.spec_entry(key).triggered
        }),
{
    let m = payload.message@;
    let total = spec_total(m);
    let limit = spec_limit(m);
    let page = spec_page(m);
    let tp = spec_total_pages(total, limit);
    let key = (txn, spec_meta(payload, txn, iso1).bpp_id, limit);
    assert(spec_meta(payload, txn, iso2).bpp_id == spec_meta(payload, txn, iso1).bpp_id);
    let prior1 = coord0.spec_prior(key, t1);
    let e1 = coord1.spec_entry(key);
    assert(e1 == spec_step_entry(prior1, page, tp, t1, coord0.ttl()));
    assert(coord1.spec_prior(key, t2) == Some(e1));
    crate::coordination::lemma_redelivery_idempotent(
        prior1, page, tp, t1, t2, coord0.ttl(),
    );
    assert(spec_step_trigger(Some(e1), page, tp) is None);
}

/// Services one search-results delivery at instant `now_secs`, stamping
/// `now_iso` and naming the trigger message with `trigger_msg_id`.
/// Deterministic in its arguments; the callback entry point supplies the
/// instant, stamp and id.
pub fn handle_on_search(
    coord: &mut CoordinationStore,
    store: &mut ProfileStore,
    config: &AppConfig,
    payload: &WebhookPayload,
    txn_id: &str,
    now_secs: u64,
    now_iso: &str,
    trigger_msg_id: &str,
) -> (r: (AckResponse, Option<TriggerRequest>))
    requires
        old(coord).wf(),
        old(store).wf(),
    ensures
        final(coord).wf(),
        final(store).wf(),
        r.0.message.ack.status@ == "ACK"@,
        on_search_post(
            *old(coord), *final(coord), *old(store), *final(store),
            *config, *payload, txn_id@, now_secs, now_iso@, trigger_msg_id@,
            view_trigger(r.1),
        ),
{
    let profiles = extract_profiles_from_on_search(payload, txn_id, now_iso);
    store.store_profiles(&profiles);

    let page = match pagination_field(&payload.message, "page") {
        Some(v) => v,
        None => 1,
    };
    let limit = match pagination_field(&payload.message, "limit") {
        Some(v) => v,
        None => 50,
    };
    let total = match pagination_field(&payload.message, "total") {
        Some(v) => v,
        None => 0,
    };

    if total == 0 || limit == 0 {
        return (ack(), None);
    }

    let total_pages = total_pages_of(total, limit);
    let bpp_id: String = match &payload.context.bpp_id {
        Some(s) => s.clone(),
        None => String::new(),
    };
    let key = PageKey {
        txn_id: txn_id.to_owned(),
        counterpart_id: bpp_id,
        page_size: limit,
    };

    match coord.record_page(&key, page, total_pages, now_secs) {
        Some(next) => {
            let msg = search_message(next, limit);
            let message_id = concat2("msg-profile-", trigger_msg_id);
            let trigger_payload = build_profile_beckn_request(
                config, txn_id, message_id.as_str(), &msg, "search", now_iso,
            );
            let url = join_url(config.bap.caller_uri.as_str(), "search");
            (ack(), Some(TriggerRequest { next_page: next, url, payload: trigger_payload }))
        },
        None => (ack(), None),
    }
}

/// The response of the profile listing: the requested page of stored
/// profiles with its selector and the store's total, as JSON.
pub open spec fn spec_profile_listing(
    entries: Seq<(Seq<char>, RowSpec)>,
    page_opt: Option<u32>,
    limit_opt: Option<u32>,
) -> JsonSpec {
    let page = spec_norm_page(page_opt);
    let limit = spec_norm_limit(limit_opt);
    let all = spec_items_all(entries);
    let start = spec_min((page - 1) as int * limit as int, all.len() as int);
    let end = spec_min((page - 1) as int * limit as int + limit as int, all.len() as int);
    JsonSpec::Obj(seq![
        ("items"@, JsonSpec::Arr(all.subrange(start, end))),
        ("total"@, JsonSpec::Int(((all.len() as u64) as i64) as int)),
        ("page"@, JsonSpec::Int(page as int)),
        ("limit"@, JsonSpec::Int(limit as int)),
    ])
}

/// Lists one page of the ingested profiles.
pub fn handle_search(store: &ProfileStore, req: &ProfileSearchRequest) -> (r: JsonValue)
    requires
        store.wf(),
    ensures
        r@ == spec_profile_listing(
            store.entries(),
            match req.pagination {
                Some(p) => p.page,
                None => None,
            },
            match req.pagination {
                Some(p) => p.limit,
                None => None,
            },
        ),
{
    let pagination = match req.pagination {
        Some(p) => p,
        None => Pagination { page: None, limit: None },
    };
    let result = store.fetch_profiles(pagination);
    let total_json: i64 = #[verifier::truncate] (result.total as i64);
    let mut ms: Vec<(String, JsonValue)> = Vec::new();
    ms.push((String::from_str("items"), JsonValue::Arr(result.items)));
    ms.push((String::from_str("total"), JsonValue::Int(total_json)));
    ms.push((String::from_str("page"), JsonValue::Int(result.page as i64)));
    ms.push((String::from_str("limit"), JsonValue::Int(result.limit as i64)));
    let r = JsonValue::Obj(ms);
    proof {
        crate::json::lemma_view_obj(r->Obj_0@);
        assert(r@->Obj_0 =~= spec_profile_listing(
            store.entries(),
            match req.pagination {
                Some(p) => p.page,
                None => None,
            },
            match req.pagination {
                Some(p) => p.limit,
                None => None,
            },
        )->Obj_0);
    }
    r
}

/// Services one search-results delivery at the present instant, with a
/// fresh message id for the trigger. Whatever instant and id come back from
/// the clock and the generator, the outcome is one step of the verified
/// transition.
pub fn on_search_callback(
    coord: &mut CoordinationStore,
    store: &mut ProfileStore,
    config: &AppConfig,
    payload: &WebhookPayload,
    txn_id: &str,
) -> (r: (AckResponse, Option<TriggerRequest>))
    requires
        old(coord).wf(),
        old(store).wf(),
    ensures
        final(coord).wf(),
        final(store).wf(),
        r.0.message.ack.status@ == "ACK"@,
        exists|now_secs: u64, now_iso: Seq<char>, mid: Seq<char>|
            #[trigger] on_search_post(
                *old(coord), *final(coord), *old(store), *final(store),
                *config, *payload, txn_id@, now_secs, now_iso, mid,
                view_trigger(r.1),
            ),
{
    let now_secs = now_epoch_secs();
    let now_iso = now_rfc3339();
    let mid = new_uuid_string();
    let r = handle_on_search(
        coord, store, config, payload, txn_id, now_secs, now_iso.as_str(), mid.as_str(),
    );
    proof {
        assert(on_search_post(
            *old(coord), *coord, *old(store), *store,
            *config, *payload, txn_id@, now_secs, now_iso@, mid@,
            view_trigger(r.1),
        ));
    }
    r
}

} // verus!
