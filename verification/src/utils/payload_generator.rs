//! The context translator: deriving the outbound protocol context for a
//! reply or for a newly originated request, and wrapping message bodies into
//! the payloads that travel out. Pure but for the timestamp and message id,
//! which every function takes as arguments.

use vstd::prelude::*;
use vstd::string::StringExecFns;
use crate::config::AppConfig;
use crate::json::{JsonSpec, JsonValue, json_view_obj, lemma_view_obj, obj_set, spec_get,
    spec_obj_set};
use crate::models::webhook::Context;
use crate::text::concat2;

verus! {

/// The context stamped on a reply: requester identity carried over, the
/// local system bound as responder, the action renamed to its reply form,
/// ids carried unchanged, and a fresh timestamp.
pub open spec fn spec_reply_context(config: AppConfig, ctx: Context, now: Seq<char>)
    -> JsonSpec
{
    JsonSpec::Obj(seq![
        ("action"@, JsonSpec::Str("on_"@ + ctx.action@)),
        ("bap_id"@, JsonSpec::Str(ctx.bap_id@)),
        ("bap_uri"@, JsonSpec::Str(ctx.bap_uri@)),
        ("bpp_id"@, JsonSpec::Str(config.bpp.id@)),
        ("bpp_uri"@, JsonSpec::Str(config.bpp.caller_uri@)),
        ("domain"@, JsonSpec::Str(config.bpp.domain@)),
        ("message_id"@, JsonSpec::Str(ctx.message_id@)),
        ("transaction_id"@, JsonSpec::Str(ctx.transaction_id@)),
        ("timestamp"@, JsonSpec::Str(now)),
        ("ttl"@, JsonSpec::Str("PT30S"@)),
        ("version"@, JsonSpec::Str(config.bpp.version@)),
    ])
}

/// Derives the context of the reply to an inbound callback.
pub fn generate_context(config: &AppConfig, context: &Context, now: &str) -> (r: JsonValue)
    ensures
        r@ == spec_reply_context(*config, *context, now@),
{
    let mut ms: Vec<(String, JsonValue)> = Vec::new();
    ms.push((String::from_str("action"),
        JsonValue::Str(concat2("on_", context.action.as_str()))));
    ms.push((String::from_str("bap_id"), JsonValue::Str(context.bap_id.clone())));
    ms.push((String::from_str("bap_uri"), JsonValue::Str(context.bap_uri.clone())));
    ms.push((String::from_str("bpp_id"), JsonValue::Str(config.bpp.id.clone())));
    ms.push((String::from_str("bpp_uri"), JsonValue::Str(config.bpp.caller_uri.clone())));
    ms.push((String::from_str("domain"), JsonValue::Str(config.bpp.domain.clone())));
    ms.push((String::from_str("message_id"),
        JsonValue::Str(context.message_id.clone())));
    ms.push((String::from_str("transaction_id"),
        JsonValue::Str(context.transaction_id.clone())));
    ms.push((String::from_str("timestamp"), JsonValue::Str(now.to_owned())));
    ms.push((String::from_str("ttl"), JsonValue::Str(String::from_str("PT30S"))));
    ms.push((String::from_str("version"), JsonValue::Str(config.bpp.version.clone())));
    let r = JsonValue::Obj(ms);
    proof {
        lemma_view_obj(r->Obj_0@);
        assert(r@->Obj_0 =~= spec_reply_context(*config, *context, now@)->Obj_0);
    }
    r
}

/// The message of a reply: the backend's `message` member (an empty object
/// when it sent none), with the backend's `pagination` member folded in when
/// the message is an object.
pub open spec fn spec_reply_message(resp: JsonSpec) -> JsonSpec {
    let inner = match spec_get(resp, "message"@) {
        Some(m) => m,
        None => JsonSpec::Obj(Seq::empty()),
    };
    match spec_get(resp, "pagination"@) {
        Some(p) => match inner {
            JsonSpec::Obj(ms) => JsonSpec::Obj(spec_obj_set(ms, "pagination"@, p)),
            _ => inner,
        },
        None => inner,
    }
}

/// The payload of a reply: the derived reply context and the reshaped
/// backend message.
pub open spec fn spec_build_beckn_payload(
    config: AppConfig,
    ctx: Context,
    resp: JsonSpec,
    now: Seq<char>,
) -> JsonSpec {
    JsonSpec::Obj(seq![
        ("context"@, spec_reply_context(config, ctx, now)),
        ("message"@, spec_reply_message(resp)),
    ])
}

/// Shapes a backend response into the reply payload for the counterpart.
pub fn build_beckn_payload(
    config: &AppConfig,
    context: &Context,
    db_response: &JsonValue,
    now: &str,
) -> (r: JsonValue)
    ensures
        r@ == spec_build_beckn_payload(*config, *context, db_response@, now@),
{
    let context_json = generate_context(config, context, now);

    let inner: JsonValue = match db_response.get("message") {
        Some(m) => m.deep_clone(),
        None => JsonValue::Obj(Vec::new()),
    };
    proof {
        lemma_view_obj(Seq::<(String, JsonValue)>::empty());
        assert(json_view_obj(Seq::<(String, JsonValue)>::empty())
            =~= Seq::<(Seq<char>, JsonSpec)>::empty());
    }

    let inner = match db_response.get("pagination") {
        Some(p) => {
            let pc = p.deep_clone();
            match inner {
                JsonValue::Obj(mut members) => {
                    obj_set(&mut members, "pagination", pc);
                    JsonValue::Obj(members)
                },
                other => other,
            }
        },
        None => inner,
    };

    let mut ms: Vec<(String, JsonValue)> = Vec::new();
    ms.push((String::from_str("context"), context_json));
    ms.push((String::from_str("message"), inner));
    let r = JsonValue::Obj(ms);
    proof {
        lemma_view_obj(r->Obj_0@);
        assert(r@->Obj_0
            =~= spec_build_beckn_payload(*config, *context, db_response@, now@)->Obj_0);
    }
    r
}

/// The context of a request this system originates: its own identity as
/// requester, no responder bound, fresh ids and timestamp.
pub open spec fn spec_origin_context(
    config: AppConfig,
    txn: Seq<char>,
    message_id: Seq<char>,
    action: Seq<char>,
    now: Seq<char>,
) -> JsonSpec {
    JsonSpec::Obj(seq![
        ("action"@, JsonSpec::Str(action)),
        ("bap_id"@, JsonSpec::Str(config.bpp.id@)),
        ("bap_uri"@, JsonSpec::Str(config.bpp.caller_uri@)),
        ("domain"@, JsonSpec::Str(config.bpp.domain@)),
        ("message_id"@, JsonSpec::Str(message_id)),
        ("transaction_id"@, JsonSpec::Str(txn)),
        ("timestamp"@, JsonSpec::Str(now)),
        ("ttl"@, JsonSpec::Str(config.bpp.ttl@)),
        ("version"@, JsonSpec::Str(config.bpp.version@)),
    ])
}

/// The payload of a request this system originates.
pub open spec fn spec_origin_payload(
    config: AppConfig,
    txn: Seq<char>,
    message_id: Seq<char>,
    action: Seq<char>,
    now: Seq<char>,
    message: JsonSpec,
) -> JsonSpec {
    JsonSpec::Obj(seq![
        ("context"@, spec_origin_context(config, txn, message_id, action, now)),
        ("message"@, message),
    ])
}

/// Builds the payload of an originated request.
pub fn build_profile_beckn_request(
    config: &AppConfig,
    txn_id: &str,
    message_id: &str,
    message: &JsonValue,
    action: &str,
    now: &str,
) -> (r: JsonValue)
    ensures
        r@ == spec_origin_payload(
            *config, txn_id@, message_id@, action@, now@, message@,
        ),
{
    let mut ctx: Vec<(String, JsonValue)> = Vec::new();
    ctx.push((String::from_str("action"), JsonValue::Str(action.to_owned())));
    ctx.push((String::from_str("bap_id"), JsonValue::Str(config.bpp.id.clone())));
    ctx.push((String::from_str("bap_uri"), JsonValue::Str(config.bpp.caller_uri.clone())));
    ctx.push((String::from_str("domain"), JsonValue::Str(config.bpp.domain.clone())));
    ctx.push((String::from_str("message_id"), JsonValue::Str(message_id.to_owned())));
    ctx.push((String::from_str("transaction_id"), JsonValue::Str(txn_id.to_owned())));
    ctx.push((String::from_str("timestamp"), JsonValue::Str(now.to_owned())));
    ctx.push((String::from_str("ttl"), JsonValue::Str(config.bpp.ttl.clone())));
    ctx.push((String::from_str("version"), JsonValue::Str(config.bpp.version.clone())));
    let context_json = JsonValue::Obj(ctx);
    proof {
        lemma_view_obj(context_json->Obj_0@);
        assert(context_json@->Obj_0
            =~= spec_origin_context(*config, txn_id@, message_id@, action@, now@)->Obj_0);
    }

    let mut ms: Vec<(String, JsonValue)> = Vec::new();
    ms.push((String::from_str("context"), context_json));
    ms.push((String::from_str("message"), message.deep_clone()));
    let r = JsonValue::Obj(ms);
    proof {
        lemma_view_obj(r->Obj_0@);
        assert(r@->Obj_0 =~= spec_origin_payload(
            *config, txn_id@, message_id@, action@, now@, message@,
        )->Obj_0);
    }
    r
}

/// The message of a crawl search request: an empty filter and one page
/// selector. Page numbers ride as the protocol's 32-bit page fields.
pub open spec fn spec_search_message(page: u64, limit: u64) -> JsonSpec {
    JsonSpec::Obj(seq![
        ("intent"@, JsonSpec::Obj(seq![
            ("item"@, JsonSpec::Null),
            ("provider"@, JsonSpec::Null),
            ("fulfillment"@, JsonSpec::Null),
        ])),
        ("pagination"@, JsonSpec::Obj(seq![
            ("page"@, JsonSpec::Int((page as u32) as int)),
            ("limit"@, JsonSpec::Int((limit as u32) as int)),
        ])),
    ])
}

/// Builds the message of a crawl search request.
pub fn search_message(page: u64, limit: u64) -> (r: JsonValue)
    ensures
        r@ == spec_search_message(page, limit),
{
    let mut intent: Vec<(String, JsonValue)> = Vec::new();
    intent.push((String::from_str("item"), JsonValue::Null));
    intent.push((String::from_str("provider"), JsonValue::Null));
    intent.push((String::from_str("fulfillment"), JsonValue::Null));
    let intent_json = JsonValue::Obj(intent);

    let page32: u32 = #[verifier::truncate] (page as u32);
    let limit32: u32 = #[verifier::truncate] (limit as u32);
    let mut pagination: Vec<(String, JsonValue)> = Vec::new();
    pagination.push((String::from_str("page"), JsonValue::Int(page32 as i64)));
    pagination.push((String::from_str("limit"), JsonValue::Int(limit32 as i64)));
    let pagination_json = JsonValue::Obj(pagination);

    let mut ms: Vec<(String, JsonValue)> = Vec::new();
    ms.push((String::from_str("intent"), intent_json));
    ms.push((String::from_str("pagination"), pagination_json));
    let r = JsonValue::Obj(ms);
    proof {
        lemma_view_obj(intent_json->Obj_0@);
        lemma_view_obj(pagination_json->Obj_0@);
        lemma_view_obj(r->Obj_0@);
        assert(intent_json@->Obj_0 =~= spec_search_message(page, limit)->Obj_0[0].1->Obj_0);
        assert(pagination_json@->Obj_0 =~= spec_search_message(page, limit)->Obj_0[1].1->Obj_0);
        assert(r@->Obj_0 =~= spec_search_message(page, limit)->Obj_0);
    }
    r
}

} // verus!
