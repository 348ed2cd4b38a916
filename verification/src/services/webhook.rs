//! The action dispatcher: what one inbound callback leads to. A reply-
//! prefixed action is already the answer to a request this system
//! originated, so it is acknowledged and dropped — except the search-results
//! reply, which feeds the ingestor and the pagination coordinator. Any other
//! action is serviced by exactly one backend call, and the backend's answer
//! is shaped into exactly one reply named `on_` plus the inbound action.

use vstd::prelude::*;
use vstd::string::StringExecFns;
use crate::json::{JsonSpec, JsonValue, json_view_obj, lemma_view_obj, spec_get, str_eq};
use crate::models::webhook::Context;
use crate::text::{concat2, has_prefix, spec_has_prefix};
use crate::utils::payload_generator::{spec_build_beckn_payload, spec_reply_context};
use crate::config::AppConfig;

verus! {

/// The operations the backend services.
#[derive(Clone, Copy, PartialEq, Eq, Structural, Debug)]
pub enum Operation {
    Search,
    Select,
    Init,
    Confirm,
    Status,
}

/// Whether an action name is the reply to a request this system originated.
pub open spec fn spec_is_reply(action: Seq<char>) -> bool {
    spec_has_prefix(action, "on_"@)
}

/// The operation an inbound request action names, if any.
pub open spec fn spec_operation(action: Seq<char>) -> Option<Operation> {
    if action == "search"@ {
        Some(Operation::Search)
    } else if action == "select"@ {
        Some(Operation::Select)
    } else if action == "init"@ {
        Some(Operation::Init)
    } else if action == "confirm"@ {
        Some(Operation::Confirm)
    } else if action == "status"@ {
        Some(Operation::Status)
    } else {
        None
    }
}

/// The backend path of an operation.
pub open spec fn spec_backend_path(op: Operation) -> Seq<char> {
    match op {
        Operation::Search => "/beckn/search"@,
        Operation::Select => "/beckn/select"@,
        Operation::Init => "/beckn/init"@,
        Operation::Confirm => "/beckn/confirm"@,
        Operation::Status => "/beckn/status"@,
    }
}

/// An inbound context, shaped as the backend and error replies carry it.
pub open spec fn spec_context_json(ctx: Context) -> JsonSpec {
    JsonSpec::Obj(seq![
        ("domain"@, JsonSpec::Str(ctx.domain@)),
        ("action"@, JsonSpec::Str(ctx.action@)),
        ("version"@, JsonSpec::Str(ctx.version@)),
        ("bap_id"@, JsonSpec::Str(ctx.bap_id@)),
        ("bap_uri"@, JsonSpec::Str(ctx.bap_uri@)),
        ("transaction_id"@, JsonSpec::Str(ctx.transaction_id@)),
        ("message_id"@, JsonSpec::Str(ctx.message_id@)),
        ("timestamp"@, JsonSpec::Str(ctx.timestamp@)),
        ("bpp_id"@, match ctx.bpp_id {
            Some(s) => JsonSpec::Str(s@),
            None => JsonSpec::Null,
        }),
        ("bpp_uri"@, match ctx.bpp_uri {
            Some(s) => JsonSpec::Str(s@),
            None => JsonSpec::Null,
        }),
        ("ttl"@, JsonSpec::Str(ctx.ttl@)),
    ])
}

/// Shapes an inbound context as JSON.
pub fn context_to_json(ctx: &Context) -> (r: JsonValue)
    ensures
        r@ == spec_context_json(*ctx),
{
    let mut ms: Vec<(String, JsonValue)> = Vec::new();
    ms.push((String::from_str("domain"), JsonValue::Str(ctx.domain.clone())));
    ms.push((String::from_str("action"), JsonValue::Str(ctx.action.clone())));
    ms.push((String::from_str("version"), JsonValue::Str(ctx.version.clone())));
    ms.push((String::from_str("bap_id"), JsonValue::Str(ctx.bap_id.clone())));
    ms.push((String::from_str("bap_uri"), JsonValue::Str(ctx.bap_uri.clone())));
    ms.push((String::from_str("transaction_id"),
        JsonValue::Str(ctx.transaction_id.clone())));
    ms.push((String::from_str("message_id"), JsonValue::Str(ctx.message_id.clone())));
    ms.push((String::from_str("timestamp"), JsonValue::Str(ctx.timestamp.clone())));
    ms.push((String::from_str("bpp_id"), match &ctx.bpp_id {
        Some(s) => JsonValue::Str(s.clone()),
        None => JsonValue::Null,
    }));
    ms.push((String::from_str("bpp_uri"), match &ctx.bpp_uri {
        Some(s) => JsonValue::Str(s.clone()),
        None => JsonValue::Null,
    }));
    ms.push((String::from_str("ttl"), JsonValue::Str(ctx.ttl.clone())));
    let r = JsonValue::Obj(ms);
    proof {
        lemma_view_obj(r->Obj_0@);
        assert(r@->Obj_0 =~= spec_context_json(*ctx)->Obj_0);
    }
    r
}

/// The page selector a search is serviced with when the caller sent none.
pub open spec fn spec_default_pagination() -> JsonSpec {
    JsonSpec::Obj(seq![
        ("page"@, JsonSpec::Int(0)),
        ("limit"@, JsonSpec::Int(50)),
    ])
}

fn default_pagination() -> (r: JsonValue)
    ensures
        r@ == spec_default_pagination(),
{
    let mut ms: Vec<(String, JsonValue)> = Vec::new();
    ms.push((String::from_str("page"), JsonValue::Int(0)));
    ms.push((String::from_str("limit"), JsonValue::Int(50)));
    let r = JsonValue::Obj(ms);
    proof {
        lemma_view_obj(r->Obj_0@);
        assert(r@->Obj_0 =~= spec_default_pagination()->Obj_0);
    }
    r
}

/// The body a search request is forwarded with: the message, its page
/// selector (or the default), and its options when it carries any.
pub open spec fn spec_search_backend_body(m: JsonSpec) -> JsonSpec {
    let pagination = match spec_get(m, "pagination"@) {
        Some(p) => if p is Null { spec_default_pagination() } else { p },
        None => spec_default_pagination(),
    };
    let base = seq![("message"@, m), ("pagination"@, pagination)];
    match spec_get(m, "options"@) {
        Some(o) => if o is Null {
            JsonSpec::Obj(base)
        } else {
            JsonSpec::Obj(base.push(("options"@, o)))
        },
        None => JsonSpec::Obj(base),
    }
}

fn search_backend_body(message: &JsonValue) -> (r: JsonValue)
    ensures
        r@ == spec_search_backend_body(message@),
{
    let pagination: JsonValue = match message.get("pagination") {
        Some(p) => {
            if p.is_null() {
                default_pagination()
            } else {
                p.deep_clone()
            }
        },
        None => default_pagination(),
    };
    let mut ms: Vec<(String, JsonValue)> = Vec::new();
    ms.push((String::from_str("message"), message.deep_clone()));
    ms.push((String::from_str("pagination"), pagination));
    match message.get("options") {
        Some(o) => {
            if !o.is_null() {
                ms.push((String::from_str("options"), o.deep_clone()));
            }
        },
        None => {},
    }
    let r = JsonValue::Obj(ms);
    proof {
        lemma_view_obj(r->Obj_0@);
        assert(r@->Obj_0 =~= spec_search_backend_body(message@)->Obj_0);
    }
    r
}

/// The body an operation is forwarded with.
pub open spec fn spec_backend_body(op: Operation, ctx: Context, m: JsonSpec) -> JsonSpec {
    match op {
        Operation::Search => spec_search_backend_body(m),
        Operation::Select => JsonSpec::Obj(seq![("message"@, m)]),
        Operation::Init => JsonSpec::Obj(seq![("message"@, m)]),
        Operation::Confirm => JsonSpec::Obj(seq![
            ("message"@, m),
            ("context"@, spec_context_json(ctx)),
        ]),
        Operation::Status => JsonSpec::Obj(seq![
            ("message"@, m),
            ("context"@, spec_context_json(ctx)),
        ]),
    }
}

/// The error reply for an action nothing services: not a failure, a
/// structured body echoing the unsupported name.
pub open spec fn spec_unsupported_reply(ctx: Context, action: Seq<char>) -> JsonSpec {
    JsonSpec::Obj(seq![
        ("context"@, spec_context_json(ctx)),
        ("message"@, JsonSpec::Obj(seq![
            ("error"@, JsonSpec::Str("Unsupported action: "@ + action)),
        ])),
    ])
}

/// What one inbound callback leads to, beyond its unconditional
/// acknowledgement.
pub enum DispatchDecision {
    /// A reply to a request this system originated: nothing more to do.
    Ignore,
    /// The search-results reply: feed the ingestor and the coordinator.
    SearchResults,
    /// A request to service: one backend call.
    CallBackend { op: Operation, path: String, body: JsonValue },
    /// An action nothing services: one structured error reply.
    Unsupported { reply: JsonValue },
}

/// Mathematical model of a dispatch decision.
pub enum DecisionSpec {
    Ignore,
    SearchResults,
    CallBackend { op: Operation, path: Seq<char>, body: JsonSpec },
    Unsupported { reply: JsonSpec },
}

impl View for DispatchDecision {
    type V = DecisionSpec;

    open spec fn view(&self) -> DecisionSpec {
        match self {
            DispatchDecision::Ignore => DecisionSpec::Ignore,
            DispatchDecision::SearchResults => DecisionSpec::SearchResults,
            DispatchDecision::CallBackend { op, path, body } => DecisionSpec::CallBackend {
                op: *op,
                path: path@,
                body: body@,
            },
            DispatchDecision::Unsupported { reply } => DecisionSpec::Unsupported {
                reply: reply@,
            },
        }
    }
}

/// The decision for one inbound callback.
pub open spec fn spec_dispatch(action: Seq<char>, ctx: Context, m: JsonSpec) -> DecisionSpec {
    if spec_is_reply(action) {
        if action == "on_search"@ {
            DecisionSpec::SearchResults
        } else {
            DecisionSpec::Ignore
        }
    } else {
        match spec_operation(action) {
            Some(op) => DecisionSpec::CallBackend {
                op,
                path: spec_backend_path(op),
                body: spec_backend_body(op, ctx, m),
            },
            None => DecisionSpec::Unsupported { reply: spec_unsupported_reply(ctx, action) },
        }
    }
}

fn backend_path(op: Operation) -> (r: String)
    ensures
        r@ == spec_backend_path(op),
{
    match op {
        Operation::Search => String::from_str("/beckn/search"),
        Operation::Select => String::from_str("/beckn/select"),
        Operation::Init => String::from_str("/beckn/init"),
        Operation::Confirm => String::from_str("/beckn/confirm"),
        Operation::Status => String::from_str("/beckn/status"),
    }
}

fn message_only_body(message: &JsonValue) -> (r: JsonValue)
    ensures
        r@ == JsonSpec::Obj(seq![("message"@, message@)]),
{
    let mut ms: Vec<(String, JsonValue)> = Vec::new();
    ms.push((String::from_str("message"), message.deep_clone()));
    let r = JsonValue::Obj(ms);
    proof {
        lemma_view_obj(r->Obj_0@);
        assert(r@->Obj_0 =~= seq![("message"@, message@)]);
    }
    r
}

fn message_and_context_body(message: &JsonValue, ctx: &Context) -> (r: JsonValue)
    ensures
        r@ == JsonSpec::Obj(seq![
            ("message"@, message@),
            ("context"@, spec_context_json(*ctx)),
        ]),
{
    let mut ms: Vec<(String, JsonValue)> = Vec::new();
    ms.push((String::from_str("message"), message.deep_clone()));
    ms.push((String::from_str("context"), context_to_json(ctx)));
    let r = JsonValue::Obj(ms);
    proof {
        lemma_view_obj(r->Obj_0@);
        assert(r@->Obj_0 =~= seq![
            ("message"@, message@),
            ("context"@, spec_context_json(*ctx)),
        ]);
    }
    r
}

fn unsupported_reply(ctx: &Context, action: &str) -> (r: JsonValue)
    ensures
        r@ == spec_unsupported_reply(*ctx, action@),
{
    let mut inner: Vec<(String, JsonValue)> = Vec::new();
    inner.push((String::from_str("error"),
        JsonValue::Str(concat2("Unsupported action: ", action))));
    let inner_json = JsonValue::Obj(inner);
    let mut ms: Vec<(String, JsonValue)> = Vec::new();
    ms.push((String::from_str("context"), context_to_json(ctx)));
    ms.push((String::from_str("message"), inner_json));
    let r = JsonValue::Obj(ms);
    proof {
        lemma_view_obj(r->Obj_0@);
        lemma_view_obj(r->Obj_0@[1].1->Obj_0@);
        assert(r@->Obj_0[1].1->Obj_0 =~= spec_unsupported_reply(*ctx, action@)->Obj_0[1].1->Obj_0);
        assert(r@->Obj_0 =~= spec_unsupported_reply(*ctx, action@)->Obj_0);
    }
    r
}

/// Decides what one inbound callback leads to.
pub fn dispatch(action: &str, context: &Context, message: &JsonValue)
    -> (r: DispatchDecision)
    ensures
        r@ == spec_dispatch(action@, *context, message@),
{
    if has_prefix(action, "on_") {
        if str_eq(action, "on_search") {
            DispatchDecision::SearchResults
        } else {
            DispatchDecision::Ignore
        }
    } else if str_eq(action, "search") {
        DispatchDecision::CallBackend {
            op: Operation::Search,
            path: backend_path(Operation::Search),
            body: search_backend_body(message),
        }
    } else if str_eq(action, "select") {
        DispatchDecision::CallBackend {
            op: Operation::Select,
            path: backend_path(Operation::Select),
            body: message_only_body(message),
        }
    } else if str_eq(action, "init") {
        DispatchDecision::CallBackend {
            op: Operation::Init,
            path: backend_path(Operation::Init),
            body: message_only_body(message),
        }
    } else if str_eq(action, "confirm") {
        DispatchDecision::CallBackend {
            op: Operation::Confirm,
            path: backend_path(Operation::Confirm),
            body: message_and_context_body(message, context),
        }
    } else if str_eq(action, "status") {
        DispatchDecision::CallBackend {
            op: Operation::Status,
            path: backend_path(Operation::Status),
            body: message_and_context_body(message, context),
        }
    } else {
        DispatchDecision::Unsupported { reply: unsupported_reply(context, action) }
    }
}

/// A valid request action — one that is not reply-prefixed and that names a
/// serviceable operation — is dispatched as exactly one backend call, with
/// that operation's path and body; and the reply composed from a successful
/// backend response carries the reply action name `on_` plus the inbound
/// action, under the reply's context.
pub proof fn lemma_request_action_round_trip(
    action: Seq<char>,
    ctx: Context,
    m: JsonSpec,
    config: AppConfig,
    resp: JsonSpec,
    now: Seq<char>,
)
    requires
        !spec_is_reply(action),
        spec_operation(action) is Some,
        ctx.action@ == action,
    ensures
        ({
            let op = spec_operation(action)->Some_0;
            spec_dispatch(action, ctx, m) == (DecisionSpec::CallBackend {
                op,
                path: spec_backend_path(op),
                body: spec_backend_body(op, ctx, m),
            })
        }),
        spec_get(spec_build_beckn_payload(config, ctx, resp, now), "context"@)
            == Some(spec_reply_context(config, ctx, now)),
        spec_get(spec_reply_context(config, ctx, now), "action"@)
            == Some(JsonSpec::Str("on_"@ + action)),
{
}

/// A reply-prefixed action other than the search-results reply leads to
/// nothing beyond the immediate acknowledgement: no backend call and no
/// further outbound call.
pub proof fn lemma_generic_reply_only_acked(action: Seq<char>, ctx: Context, m: JsonSpec)
    requires
        spec_is_reply(action),
        action != "on_search"@,
    ensures
        spec_dispatch(action, ctx, m) == DecisionSpec::Ignore,
{
}

/// The search-results reply is routed to the ingestor and the coordinator,
/// not to the backend.
pub proof fn lemma_search_reply_routed(action: Seq<char>, ctx: Context, m: JsonSpec)
    requires
        action == "on_search"@,
    ensures
        spec_dispatch(action, ctx, m) == DecisionSpec::SearchResults,
{
    reveal_strlit("on_search");
    reveal_strlit("on_");
    assert(spec_has_prefix(action, "on_"@)) by {
        assert(action.subrange(0, 3) =~= "on_"@);
    }
}

} // verus!
