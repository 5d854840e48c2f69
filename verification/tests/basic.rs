use mcp_router::{jsonrpc, util};

#[test]
fn method_not_found_has_code() {
    let response = jsonrpc::method_not_found("unknown");
    assert!(response.error.is_some());
    assert_eq!(response.jsonrpc, "2.0");
}

#[test]
fn resource_uri_round_trip() {
    let encoded = util::encode_resource_uri("srv", "file:///tmp/test.txt");
    let (srv, inner) = util::decode_resource_uri(&encoded).expect("decode");
    assert_eq!(srv, "srv");
    assert_eq!(inner, "file:///tmp/test.txt");
}

#[test]
fn decode_rejects_missing_prefix() {
    assert!(util::decode_resource_uri("https://example.com/x").is_none());
    assert!(util::decode_resource_uri("mcp+router:/short").is_none());
    assert!(util::decode_resource_uri("").is_none());
}

#[test]
fn decode_rejects_missing_separator() {
    assert!(util::decode_resource_uri("mcp+router://onlyserver").is_none());
}

#[test]
fn decode_rejects_bad_base64() {
    assert!(util::decode_resource_uri("mcp+router://srv/!!notbase64!!").is_none());
}

#[test]
fn round_trip_keeps_unicode_uris() {
    let uri = "file:///tmp/\u{00e9}t\u{00e9}.txt";
    let encoded = util::encode_resource_uri("s1", uri);
    let (srv, inner) = util::decode_resource_uri(&encoded).expect("decode");
    assert_eq!(srv, "s1");
    assert_eq!(inner, uri);
}

#[test]
fn error_object_codes() {
    let inv = jsonrpc::ErrorObject::invalid_params("bad");
    assert_eq!(inv.code, -32602);
    assert_eq!(inv.message, "bad");
    let internal = jsonrpc::ErrorObject::internal("oops");
    assert_eq!(internal.code, -32603);
}

#[test]
fn response_envelopes() {
    let ok = jsonrpc::Response::result(jsonrpc::Id::Int(3), mcp_router::Json::Bool(true));
    assert_eq!(ok.jsonrpc, "2.0");
    assert!(matches!(ok.id, jsonrpc::Id::Int(3)));
    assert!(ok.error.is_none());
    let err = jsonrpc::Response::error(
        jsonrpc::Id::Str("a".to_string()),
        jsonrpc::ErrorObject::invalid_params("x"),
    );
    assert!(err.result.is_none());
    assert!(matches!(err.id, jsonrpc::Id::Str(ref s) if s == "a"));
}

#[test]
fn parse_headers_lowercases_keys() {
    let headers = vec![
        ("Content-Type".to_string(), "application/json".to_string()),
        ("X-WEIRD".to_string(), "v".to_string()),
    ];
    let parsed = jsonrpc::parse_headers(&headers);
    assert_eq!(parsed[0].0, "content-type");
    assert_eq!(parsed[0].1, "application/json");
    assert_eq!(parsed[1].0, "x-weird");
}

#[test]
fn parse_headers_keeps_colliding_names_in_order() {
    let headers = vec![
        ("Accept".to_string(), "a".to_string()),
        ("ACCEPT".to_string(), "b".to_string()),
    ];
    let parsed = jsonrpc::parse_headers(&headers);
    assert_eq!(parsed.len(), 2);
    assert_eq!(parsed[0], ("accept".to_string(), "a".to_string()));
    assert_eq!(parsed[1], ("accept".to_string(), "b".to_string()));
}
