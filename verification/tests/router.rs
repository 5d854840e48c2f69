use mcp_router::auth::AuthConfig;
use mcp_router::config::{UpstreamCommand, UpstreamKind};
use mcp_router::crypto::KeyManager;
use mcp_router::json::Json;
use mcp_router::jsonrpc::{Id, Request};
use mcp_router::router::{
    aggregate_prompts, aggregate_resources, aggregate_tools, finish_read_resource,
    finish_tool_call, split_namespace, RouteStep, RouterState,
};
use mcp_router::subs::{SubscriptionStore, Tier};
use mcp_router::upstream::{UpstreamRegistration, UpstreamRegistry};

fn obj(fields: Vec<(&str, Json)>) -> Json {
    Json::Obj(fields.into_iter().map(|(k, v)| (k.to_string(), v)).collect())
}

fn s(v: &str) -> Json {
    Json::Str(v.to_string())
}

fn fresh_state() -> RouterState {
    let key = KeyManager::from_bytes(&[1u8; 32]).expect("key");
    RouterState {
        registry: UpstreamRegistry::new(),
        store: SubscriptionStore::new(key),
        auth: AuthConfig::new(None),
    }
}

fn registration(name: &str, kind: &str) -> UpstreamRegistration {
    UpstreamRegistration {
        name: name.to_string(),
        kind: kind.to_string(),
        command: Some("echo".to_string()),
        args: vec![],
        url: Some("http://localhost/mcp".to_string()),
        bearer: None,
        provider_slug: None,
    }
}

#[test]
fn split_namespace_parses() {
    assert_eq!(
        split_namespace("a/b"),
        Some(("a".to_string(), "b".to_string()))
    );
    assert_eq!(split_namespace("a"), None);
}

#[test]
fn split_namespace_splits_at_first_slash() {
    assert_eq!(
        split_namespace("srv/path/deep"),
        Some(("srv".to_string(), "path/deep".to_string()))
    );
}

#[test]
fn encode_resource_uri() {
    let uri = "file:///tmp/example.txt";
    let encoded = mcp_router::util::encode_resource_uri("s", uri);
    assert_eq!(encoded, "mcp+router://s/ZmlsZTovLy90bXAvZXhhbXBsZS50eHQ=");
}

#[test]
fn aggregation_namespaces_every_backend() {
    let contributions = vec![
        (
            "alpha".to_string(),
            Some(obj(vec![("tools", Json::Arr(vec![obj(vec![("name", s("echo"))])]))])),
        ),
        (
            "beta".to_string(),
            Some(obj(vec![("tools", Json::Arr(vec![obj(vec![("name", s("fetch"))])]))])),
        ),
    ];
    let aggregated = aggregate_tools(contributions);
    let Json::Obj(fields) = aggregated else { panic!("object expected") };
    assert_eq!(fields[0].0, "tools");
    let Json::Arr(items) = &fields[0].1 else { panic!("array expected") };
    assert_eq!(items.len(), 2);
    assert_eq!(items[0], obj(vec![("name", s("alpha/echo"))]));
    assert_eq!(items[1], obj(vec![("name", s("beta/fetch"))]));
}

#[test]
fn aggregation_skips_failed_backends() {
    let contributions = vec![
        ("dead".to_string(), None),
        (
            "live".to_string(),
            Some(obj(vec![(
                "prompts",
                Json::Arr(vec![obj(vec![("name", s("greet"))])]),
            )])),
        ),
    ];
    let aggregated = aggregate_prompts(contributions);
    let Json::Obj(fields) = aggregated else { panic!("object expected") };
    let Json::Arr(items) = &fields[0].1 else { panic!("array expected") };
    assert_eq!(items.len(), 1);
    assert_eq!(items[0], obj(vec![("name", s("live/greet"))]));
}

#[test]
fn aggregation_carries_non_integer_numbers_through() {
    let contributions = vec![(
        "alpha".to_string(),
        Some(obj(vec![(
            "tools",
            Json::Arr(vec![obj(vec![
                ("name", s("echo")),
                ("score", Json::Num("1.5".to_string())),
            ])]),
        )])),
    )];
    let aggregated = aggregate_tools(contributions);
    let Json::Obj(fields) = aggregated else { panic!("object expected") };
    let Json::Arr(items) = &fields[0].1 else { panic!("array expected") };
    assert_eq!(
        items[0],
        obj(vec![
            ("name", s("alpha/echo")),
            ("score", Json::Num("1.5".to_string())),
        ])
    );
}

#[test]
fn aggregation_keeps_existing_namespaces() {
    let contributions = vec![(
        "alpha".to_string(),
        Some(obj(vec![(
            "tools",
            Json::Arr(vec![obj(vec![("name", s("other/tool"))])]),
        )])),
    )];
    let aggregated = aggregate_tools(contributions);
    let Json::Obj(fields) = aggregated else { panic!("object expected") };
    let Json::Arr(items) = &fields[0].1 else { panic!("array expected") };
    assert_eq!(items[0], obj(vec![("name", s("other/tool"))]));
}

#[test]
fn resource_aggregation_rewrites_uris() {
    let contributions = vec![(
        "beta".to_string(),
        Some(obj(vec![(
            "resources",
            Json::Arr(vec![obj(vec![("uri", s("file:///tmp/x.txt"))])]),
        )])),
    )];
    let aggregated = aggregate_resources(contributions);
    let Json::Obj(fields) = aggregated else { panic!("object expected") };
    let Json::Arr(items) = &fields[0].1 else { panic!("array expected") };
    assert_eq!(
        items[0],
        obj(vec![("uri", s("mcp+router://beta/ZmlsZTovLy90bXAveC50eHQ="))])
    );
}

#[test]
fn resource_read_forwards_original_uri() {
    let mut state = fresh_state();
    state
        .registry
        .register(registration("beta", "http"))
        .expect("register");
    let wrapped = mcp_router::util::encode_resource_uri("beta", "file:///tmp/x.txt");
    let request = Request {
        jsonrpc: "2.0".to_string(),
        id: Id::Int(4),
        method: "resources/read".to_string(),
        params: obj(vec![("uri", Json::Str(wrapped))]),
    };
    match state.route_request(request) {
        RouteStep::Forward { id, server, request } => {
            assert!(matches!(id, Id::Int(4)));
            assert_eq!(server, "beta");
            assert_eq!(request.method, "resources/read");
            assert_eq!(request.params, obj(vec![("uri", s("file:///tmp/x.txt"))]));
        }
        _ => panic!("expected a forward"),
    }
    let upstream_body = mcp_router::jsonrpc::Response::result(Id::Int(0), s("contents"));
    let finished = finish_read_resource(Id::Int(4), Ok(upstream_body));
    assert_eq!(finished.result, Some(s("contents")));
    assert!(finished.error.is_none());
}

#[test]
fn resource_read_rejects_empty_upstream_result() {
    // An upstream answer that carries no result is an error to the
    // client, never an empty envelope.
    let hollow = mcp_router::jsonrpc::Response {
        jsonrpc: "2.0".to_string(),
        id: Id::Int(0),
        result: None,
        error: None,
    };
    let finished = finish_read_resource(Id::Int(4), Ok(hollow));
    assert!(finished.result.is_none());
    let err = finished.error.expect("error");
    assert_eq!(err.code, -32010);
    assert_eq!(err.message, "resource read failed");
    assert_eq!(
        err.data,
        Some(obj(vec![("error", s("upstream returned empty result"))]))
    );
}

#[test]
fn wrong_version_is_32600() {
    let mut state = fresh_state();
    let request = Request {
        jsonrpc: "1.0".to_string(),
        id: Id::Int(11),
        method: "tools/list".to_string(),
        params: Json::Null,
    };
    match state.route_request(request) {
        RouteStep::Ready(resp) => {
            assert_eq!(resp.jsonrpc, "2.0");
            assert!(matches!(resp.id, Id::Int(11)));
            assert!(resp.result.is_none());
            assert_eq!(resp.error.expect("error").code, -32600);
        }
        _ => panic!("expected a ready refusal"),
    }
}

#[test]
fn resource_read_rejects_foreign_uri() {
    let mut state = fresh_state();
    let request = Request {
        jsonrpc: "2.0".to_string(),
        id: Id::Int(9),
        method: "resources/read".to_string(),
        params: obj(vec![("uri", s("file:///tmp/x.txt"))]),
    };
    match state.route_request(request) {
        RouteStep::Ready(resp) => {
            assert!(matches!(resp.id, Id::Int(9)));
            assert_eq!(resp.error.expect("error").code, -32010);
        }
        _ => panic!("expected a ready error"),
    }
}

#[test]
fn unknown_method_is_32601_with_echoed_id() {
    let mut state = fresh_state();
    let request = Request {
        jsonrpc: "2.0".to_string(),
        id: Id::Int(7),
        method: "does/not-exist".to_string(),
        params: Json::Null,
    };
    match state.route_request(request) {
        RouteStep::Ready(resp) => {
            assert!(matches!(resp.id, Id::Int(7)));
            assert!(resp.result.is_none());
            let err = resp.error.expect("error");
            assert_eq!(err.code, -32601);
            assert_eq!(err.message, "unknown method: does/not-exist");
        }
        _ => panic!("expected a ready response"),
    }
}

#[test]
fn namespaced_dispatch_records_actual_usage() {
    let mut state = fresh_state();
    state
        .registry
        .register(registration("alpha", "http"))
        .expect("register");
    state
        .store
        .upsert_subscription("u1", Tier::Pro, None, None)
        .expect("subscription");
    let request = Request {
        jsonrpc: "2.0".to_string(),
        id: Id::Int(1),
        method: "tools/call".to_string(),
        params: obj(vec![
            ("name", s("alpha/echo")),
            ("user", s("u1")),
            ("usage", obj(vec![("expected_tokens", Json::Int(10))])),
        ]),
    };
    let plan = match state.route_request(request) {
        RouteStep::ToolCall(plan) => plan,
        _ => panic!("expected a tool call"),
    };
    assert_eq!(plan.server, "alpha");
    assert_eq!(plan.tool, "echo");
    assert_eq!(plan.user, "u1");
    assert_eq!(plan.estimate, 10);
    assert!(!plan.stream);
    assert_eq!(
        plan.request.params,
        obj(vec![
            ("name", s("echo")),
            ("user", s("u1")),
            ("usage", obj(vec![("expected_tokens", Json::Int(10))])),
        ])
    );

    let upstream_body = mcp_router::jsonrpc::Response::result(
        Id::Int(0),
        obj(vec![("usage", obj(vec![("total_tokens", Json::Int(12))]))]),
    );
    let (response, report) = finish_tool_call(plan, Ok(upstream_body));
    assert!(response.error.is_none());
    let report = report.expect("usage to record");
    assert_eq!(report.user, "u1");
    assert_eq!(report.provider, "alpha");
    assert_eq!(report.tokens, 12);
    state
        .store
        .try_record_usage(&report.user, report.tokens, &report.provider)
        .expect("record");
    let sub = state.store.get_subscription("u1").expect("subscription");
    assert_eq!(sub.tokens_used, 12);
    assert_eq!(sub.requests_used, 1);
}

#[test]
fn quota_denial_short_circuits() {
    let mut state = fresh_state();
    state
        .registry
        .register(registration("alpha", "http"))
        .expect("register");
    state
        .store
        .upsert_subscription("u1", Tier::Basic, None, Some((100, 50, 1)))
        .expect("subscription");
    state
        .store
        .record_usage("u1", 95, "alpha")
        .expect("seed usage");
    let request = Request {
        jsonrpc: "2.0".to_string(),
        id: Id::Int(2),
        method: "tools/call".to_string(),
        params: obj(vec![
            ("name", s("alpha/echo")),
            ("user", s("u1")),
            ("usage", obj(vec![("expected_tokens", Json::Int(10))])),
        ]),
    };
    match state.route_request(request) {
        RouteStep::Ready(resp) => {
            assert_eq!(resp.error.expect("error").code, -32053);
        }
        _ => panic!("expected denial before any upstream call"),
    }
    let sub = state.store.get_subscription("u1").expect("subscription");
    assert_eq!(sub.tokens_used, 95);
}

#[test]
fn missing_subscription_is_32050() {
    let mut state = fresh_state();
    let request = Request {
        jsonrpc: "2.0".to_string(),
        id: Id::Int(3),
        method: "tools/call".to_string(),
        params: obj(vec![("name", s("alpha/echo"))]),
    };
    match state.route_request(request) {
        RouteStep::Ready(resp) => {
            assert_eq!(resp.error.expect("error").code, -32050);
        }
        _ => panic!("expected a denial"),
    }
}

#[test]
fn unnamespaced_tool_name_is_32602() {
    let mut state = fresh_state();
    let request = Request {
        jsonrpc: "2.0".to_string(),
        id: Id::Int(5),
        method: "tools/call".to_string(),
        params: obj(vec![("name", s("echo"))]),
    };
    match state.route_request(request) {
        RouteStep::Ready(resp) => {
            assert_eq!(resp.error.expect("error").code, -32602);
        }
        _ => panic!("expected a parameter error"),
    }
}

#[test]
fn upstream_failure_wraps_as_32001() {
    let mut state = fresh_state();
    state
        .registry
        .register(registration("alpha", "http"))
        .expect("register");
    state
        .store
        .upsert_subscription("u1", Tier::Pro, None, None)
        .expect("subscription");
    let request = Request {
        jsonrpc: "2.0".to_string(),
        id: Id::Int(6),
        method: "tools/call".to_string(),
        params: obj(vec![("name", s("alpha/echo")), ("user", s("u1"))]),
    };
    let plan = match state.route_request(request) {
        RouteStep::ToolCall(plan) => plan,
        _ => panic!("expected a tool call"),
    };
    let (response, report) = finish_tool_call(plan, Err("connection refused".to_string()));
    assert!(report.is_none());
    let err = response.error.expect("error");
    assert_eq!(err.code, -32001);
    assert_eq!(err.message, "upstream error");
}

#[test]
fn add_upstream_reports_summary() {
    let mut state = fresh_state();
    let command = UpstreamCommand {
        kind: UpstreamKind::Http,
        command: None,
        args: vec![],
        url: Some("http://localhost/mcp".to_string()),
        bearer: Some("tok".to_string()),
        provider_slug: None,
    };
    let summary = state
        .add_upstream("demo-http".to_string(), command)
        .expect("add upstream");
    assert_eq!(summary.name, "demo-http");
    assert!(matches!(summary.kind, UpstreamKind::Http));
    assert!(summary.bearer);
}
