use bpp_onest_lite::json::JsonValue;
use bpp_onest_lite::models::webhook::{Context, ack};
use bpp_onest_lite::services::webhook::{DispatchDecision, Operation, dispatch};

fn ctx(action: &str) -> Context {
    Context {
        domain: "example-domain".to_string(),
        action: action.to_string(),
        version: "1.1.0".to_string(),
        bap_id: "bap.example".to_string(),
        bap_uri: "http://bap.example".to_string(),
        transaction_id: "txn-1".to_string(),
        message_id: "msg-1".to_string(),
        timestamp: "2024-01-01T00:00:00Z".to_string(),
        bpp_id: Some("bpp.example".to_string()),
        bpp_uri: Some("http://bpp.example".to_string()),
        ttl: "PT30S".to_string(),
    }
}

fn sample_message() -> JsonValue {
    JsonValue::Obj(vec![
        ("intent".to_string(), JsonValue::Obj(vec![])),
    ])
}

#[test]
fn request_actions_route_to_one_backend_call() {
    let cases: Vec<(&str, &str)> = vec![
        ("search", "/beckn/search"),
        ("select", "/beckn/select"),
        ("init", "/beckn/init"),
        ("confirm", "/beckn/confirm"),
        ("status", "/beckn/status"),
    ];
    for (action, expected_path) in cases {
        match dispatch(action, &ctx(action), &sample_message()) {
            DispatchDecision::CallBackend { path, .. } => {
                assert_eq!(path, expected_path);
            },
            _ => panic!("{} should be serviced by the backend", action),
        }
    }
}

#[test]
fn search_body_defaults_the_page_selector() {
    match dispatch("search", &ctx("search"), &sample_message()) {
        DispatchDecision::CallBackend { op, body, .. } => {
            assert!(matches!(op, Operation::Search));
            let pagination = body.get("pagination").expect("pagination bound");
            assert_eq!(pagination.get("page").and_then(|v| v.as_u64()), Some(0));
            assert_eq!(pagination.get("limit").and_then(|v| v.as_u64()), Some(50));
            assert_eq!(body.get("message"), Some(&sample_message()));
            assert!(body.get("options").is_none());
        },
        _ => panic!("search should be serviced by the backend"),
    }
}

#[test]
fn search_body_keeps_a_sent_page_selector() {
    let message = JsonValue::Obj(vec![
        ("pagination".to_string(), JsonValue::Obj(vec![
            ("page".to_string(), JsonValue::Int(2)),
            ("limit".to_string(), JsonValue::Int(10)),
        ])),
        ("options".to_string(), JsonValue::Obj(vec![
            ("breif".to_string(), JsonValue::Bool(true)),
        ])),
    ]);
    match dispatch("search", &ctx("search"), &message) {
        DispatchDecision::CallBackend { body, .. } => {
            let pagination = body.get("pagination").expect("pagination bound");
            assert_eq!(pagination.get("page").and_then(|v| v.as_u64()), Some(2));
            assert!(body.get("options").is_some());
        },
        _ => panic!("search should be serviced by the backend"),
    }
}

#[test]
fn null_page_selector_is_defaulted() {
    let message = JsonValue::Obj(vec![
        ("pagination".to_string(), JsonValue::Null),
    ]);
    match dispatch("search", &ctx("search"), &message) {
        DispatchDecision::CallBackend { body, .. } => {
            let pagination = body.get("pagination").expect("pagination bound");
            assert_eq!(pagination.get("page").and_then(|v| v.as_u64()), Some(0));
        },
        _ => panic!("search should be serviced by the backend"),
    }
}

#[test]
fn confirm_body_carries_the_context() {
    match dispatch("confirm", &ctx("confirm"), &sample_message()) {
        DispatchDecision::CallBackend { body, .. } => {
            let context = body.get("context").expect("context bound");
            assert_eq!(
                context.get("transaction_id").and_then(|v| v.as_str().cloned()),
                Some("txn-1".to_string()),
            );
        },
        _ => panic!("confirm should be serviced by the backend"),
    }
}

#[test]
fn select_body_carries_the_message_alone() {
    match dispatch("select", &ctx("select"), &sample_message()) {
        DispatchDecision::CallBackend { body, .. } => {
            assert_eq!(body.get("message"), Some(&sample_message()));
            assert!(body.get("context").is_none());
        },
        _ => panic!("select should be serviced by the backend"),
    }
}

#[test]
fn generic_replies_are_only_acknowledged() {
    for action in ["on_select", "on_init", "on_confirm", "on_status", "on_anything"] {
        assert!(matches!(
            dispatch(action, &ctx(action), &sample_message()),
            DispatchDecision::Ignore,
        ));
    }
}

#[test]
fn search_results_reply_feeds_the_ingestor() {
    assert!(matches!(
        dispatch("on_search", &ctx("on_search"), &sample_message()),
        DispatchDecision::SearchResults,
    ));
}

#[test]
fn unknown_action_gets_a_structured_error_reply() {
    match dispatch("track", &ctx("track"), &sample_message()) {
        DispatchDecision::Unsupported { reply } => {
            let message = reply.get("message").expect("message bound");
            assert_eq!(
                message.get("error").and_then(|v| v.as_str().cloned()),
                Some("Unsupported action: track".to_string()),
            );
            assert!(reply.get("context").is_some());
        },
        _ => panic!("track is not serviceable"),
    }
}

#[test]
fn acknowledgement_is_unconditional() {
    let r = ack();
    assert_eq!(r.message.ack.status, "ACK");
}
