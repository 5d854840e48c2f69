use mcp_router::auth::{bearer_from_header, AuthConfig, AuthError};
use mcp_router::config::{Config, UpstreamCommand, UpstreamKind};
use mcp_router::crypto::KeyManager;
use mcp_router::router::RouterState;
use mcp_router::subs::SubscriptionStore;
use mcp_router::upstream::{
    http_headers, stdio_after_read, stdio_prepare, update_session, RegistryError, StdioAction,
    StdioFault, UpstreamRegistration, UpstreamRegistry,
};

fn registration(name: &str, kind: &str, command: Option<&str>, url: Option<&str>) -> UpstreamRegistration {
    UpstreamRegistration {
        name: name.to_string(),
        kind: kind.to_string(),
        command: command.map(|c| c.to_string()),
        args: vec![],
        url: url.map(|u| u.to_string()),
        bearer: None,
        provider_slug: None,
    }
}

#[test]
fn registration_kind_is_case_insensitive() {
    assert!(matches!(
        registration("a", "HTTP", None, Some("u")).kind(),
        UpstreamKind::Http
    ));
    assert!(matches!(
        registration("a", "http", None, Some("u")).kind(),
        UpstreamKind::Http
    ));
    assert!(matches!(
        registration("a", "stdio", Some("c"), None).kind(),
        UpstreamKind::Stdio
    ));
    assert!(matches!(
        registration("a", "anything", Some("c"), None).kind(),
        UpstreamKind::Stdio
    ));
}

#[test]
fn register_validates_per_transport() {
    let mut registry = UpstreamRegistry::new();
    assert!(matches!(
        registry.register(registration("h", "http", None, None)),
        Err(RegistryError::MissingUrl)
    ));
    assert!(matches!(
        registry.register(registration("s", "stdio", None, None)),
        Err(RegistryError::MissingCommand)
    ));
    assert!(matches!(
        registry.register(registration("bad/name", "http", None, Some("u"))),
        Err(RegistryError::BadName)
    ));
    assert!(matches!(
        registry.register(registration("", "http", None, Some("u"))),
        Err(RegistryError::BadName)
    ));
    assert!(registry
        .register(registration("ok-name_1", "http", None, Some("u")))
        .is_ok());
}

#[test]
fn register_replaces_in_place() {
    let mut registry = UpstreamRegistry::new();
    registry
        .register(registration("a", "http", None, Some("http://one")))
        .expect("register");
    registry
        .register(registration("b", "stdio", Some("cmd"), None))
        .expect("register");
    registry
        .register(registration("a", "http", None, Some("http://two")))
        .expect("register");
    let handles = registry.list();
    assert_eq!(handles.len(), 2);
    assert_eq!(handles[0].name, "a");
    assert_eq!(handles[0].url.as_deref(), Some("http://two"));
    assert_eq!(handles[1].name, "b");
    assert!(registry.lookup("a").is_some());
    assert!(registry.lookup("missing").is_none());
}

#[test]
fn http_headers_carry_protocol_and_credentials() {
    let headers = http_headers(&Some("tok".to_string()), &Some("sess".to_string()));
    assert_eq!(
        headers[0],
        ("Content-Type".to_string(), "application/json".to_string())
    );
    assert_eq!(
        headers[1],
        ("Accept".to_string(), "application/json".to_string())
    );
    assert_eq!(
        headers[2],
        ("MCP-Protocol-Version".to_string(), "2024-05-13".to_string())
    );
    assert_eq!(
        headers[3],
        ("Authorization".to_string(), "Bearer tok".to_string())
    );
    assert_eq!(headers[4], ("Mcp-Session-Id".to_string(), "sess".to_string()));
    assert_eq!(http_headers(&None, &None).len(), 3);
}

#[test]
fn session_id_is_cached_until_replaced() {
    assert_eq!(update_session(None, Some("s1".to_string())), Some("s1".to_string()));
    assert_eq!(
        update_session(Some("s1".to_string()), None),
        Some("s1".to_string())
    );
    assert_eq!(
        update_session(Some("s1".to_string()), Some("s2".to_string())),
        Some("s2".to_string())
    );
}

#[test]
fn stdio_lifecycle_decisions() {
    assert!(matches!(stdio_prepare(true), StdioAction::Reuse));
    assert!(matches!(stdio_prepare(false), StdioAction::Spawn));
    assert!(matches!(
        stdio_after_read(0, String::new()),
        Err(StdioFault::ChildClosed)
    ));
    assert_eq!(
        stdio_after_read(9, "{\"id\":1}\n".to_string()).expect("line"),
        "{\"id\":1}\n"
    );
}

#[test]
fn bootstrap_registers_every_configured_upstream() {
    let store = SubscriptionStore::new(KeyManager::from_bytes(&[2u8; 32]).expect("key"));
    let auth = AuthConfig::new(None);
    let state = RouterState::from_config(Config::example(), store, auth).expect("bootstrap");
    let names: Vec<String> = state
        .registry
        .list()
        .into_iter()
        .map(|h| h.name)
        .collect();
    assert_eq!(names, vec!["fs".to_string(), "web".to_string()]);

    // A configuration whose first upstream is invalid is refused with
    // exactly that upstream's fault.
    let mut broken = Config::example();
    broken.upstreams[0].1.command = None;
    let store = SubscriptionStore::new(KeyManager::from_bytes(&[2u8; 32]).expect("key"));
    let auth = AuthConfig::new(None);
    match RouterState::from_config(broken, store, auth) {
        Err(e) => assert!(matches!(e, RegistryError::MissingCommand)),
        Ok(_) => panic!("expected a refusal"),
    }
}

#[test]
fn add_upstream_refusals_leave_registry_alone() {
    let store = SubscriptionStore::new(KeyManager::from_bytes(&[2u8; 32]).expect("key"));
    let mut state = RouterState {
        registry: UpstreamRegistry::new(),
        store,
        auth: AuthConfig::new(None),
    };
    let command = UpstreamCommand {
        kind: UpstreamKind::Http,
        command: None,
        args: vec![],
        url: None,
        bearer: None,
        provider_slug: None,
    };
    match state.add_upstream("demo".to_string(), command) {
        Err(e) => assert!(matches!(e, RegistryError::MissingUrl)),
        Ok(_) => panic!("expected a refusal"),
    }
    assert!(state.registry.list().is_empty());
}

#[test]
fn example_config_shape() {
    let config = Config::example();
    assert_eq!(config.server.bind, "127.0.0.1:8848");
    assert_eq!(config.upstreams.len(), 2);
    assert_eq!(config.upstreams[0].0, "fs");
    assert_eq!(config.upstreams[1].0, "web");
    assert_eq!(config.providers[0].slug, "openai");
    assert_eq!(
        config.server.database_url.as_deref(),
        Some("sqlite://mcp-router.db")
    );
}

#[test]
fn defaults_fill_missing_fields() {
    let mut config = Config::example();
    config.server.allow_origins.clear();
    config.server.database_url = None;
    let filled = config.with_defaults();
    assert_eq!(filled.server.allow_origins, vec!["http://localhost".to_string()]);
    assert_eq!(
        filled.server.database_url.as_deref(),
        Some("sqlite://mcp-router.db")
    );
}

#[test]
fn bearer_gate_requires_exact_token() {
    let auth = AuthConfig::new(Some("secret".to_string()));
    assert!(auth.is_enabled());
    assert!(matches!(auth.validate(None), Err(AuthError::Unauthorized)));
    assert!(matches!(
        auth.validate(Some("wrong")),
        Err(AuthError::Unauthorized)
    ));
    assert!(auth.validate(Some("secret")).is_ok());
    let open = AuthConfig::new(None);
    assert!(!open.is_enabled());
    assert!(open.validate(None).is_ok());
}

#[test]
fn bearer_header_parsing() {
    assert_eq!(
        bearer_from_header(Some("Bearer secret")),
        Some("secret".to_string())
    );
    assert_eq!(bearer_from_header(Some("Basic abc")), None);
    assert_eq!(bearer_from_header(None), None);
}
