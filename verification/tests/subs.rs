use std::time::{SystemTime, UNIX_EPOCH};

use mcp_router::crypto::KeyManager;
use mcp_router::subs::{
    EnforcementError, SubscriptionPreset, SubscriptionRecord, SubscriptionStore, Tier,
    UpstreamRecord,
};

fn now_secs() -> i64 {
    SystemTime::now()
        .duration_since(UNIX_EPOCH)
        .expect("clock")
        .as_secs() as i64
}

fn fresh_store() -> SubscriptionStore {
    let manager = KeyManager::from_bytes(&[9u8; 32]).expect("create key manager");
    SubscriptionStore::new(manager)
}

#[test]
fn subscription_quota_enforcement() {
    let record = SubscriptionRecord {
        user_id: "user".into(),
        tier: Tier::Pro,
        expires_at: Some(now_secs() + 300),
        max_tokens: 100,
        max_requests: 2,
        max_concurrent: 1,
        tokens_used: 50,
        requests_used: 1,
    };
    assert!(record.check_quota(25).is_ok());
    let err = record.check_quota(60).expect_err("tokens exceeded");
    assert!(matches!(err, EnforcementError::TokensExceeded));
}

#[test]
fn quota_precedence_expired_first() {
    let record = SubscriptionRecord {
        user_id: "user".into(),
        tier: Tier::Basic,
        expires_at: Some(5),
        max_tokens: 10,
        max_requests: 1,
        max_concurrent: 1,
        tokens_used: 10,
        requests_used: 1,
    };
    // Expired, out of requests and out of tokens at once: expiry wins.
    assert!(matches!(
        record.check_quota_at(5, 100),
        Err(EnforcementError::Expired)
    ));
    // No longer expired: the request counter is checked next.
    assert!(matches!(
        record.check_quota_at(5, 0),
        Err(EnforcementError::RequestsExceeded)
    ));
}

#[test]
fn quota_token_check_is_exact() {
    let record = SubscriptionRecord {
        user_id: "user".into(),
        tier: Tier::Basic,
        expires_at: None,
        max_tokens: 100,
        max_requests: 10,
        max_concurrent: 1,
        tokens_used: 95,
        requests_used: 0,
    };
    assert!(record.check_quota_at(5, 0).is_ok());
    assert!(matches!(
        record.check_quota_at(6, 0),
        Err(EnforcementError::TokensExceeded)
    ));
}

#[test]
fn store_round_trip_flow() {
    let mut store = fresh_store();

    let provider = store
        .put_provider(&mcp_router::subs::NewProvider {
            slug: "openai".into(),
            display_name: "OpenAI".into(),
            description: Some("LLM provider".into()),
        })
        .expect("provider");

    store
        .store_provider_key(&provider.slug, "api_key", b"super-secret")
        .expect("store key");
    let key = store
        .fetch_provider_key(&provider.slug, "api_key")
        .expect("fetch")
        .expect("key stored");
    assert_eq!(key, b"super-secret");

    let user = store
        .ensure_user("tester@example.com", Some("Tester"))
        .expect("user");
    let subscription = store
        .upsert_subscription(&user.id, Tier::Basic, None, Some((200, 5, 1)))
        .expect("subscription");
    assert_eq!(subscription.tokens_used, 0);

    store
        .record_usage(&user.id, 42, &provider.slug)
        .expect("record usage");
    let updated = store
        .get_subscription(&user.id)
        .expect("subscription exists");
    assert_eq!(updated.tokens_used, 42);
    assert_eq!(updated.requests_used, 1);

    let token = store.issue_token(&user.id, "default").expect("token");
    let tokens = store.list_tokens(None);
    assert_eq!(tokens.len(), 1);
    assert_eq!(tokens[0].id, token.id);

    let record = UpstreamRecord {
        name: "demo".into(),
        kind: "http".into(),
        command: None,
        args: vec![],
        url: Some("http://localhost".into()),
        bearer: None,
        provider_slug: Some(provider.slug.clone()),
    }
    .with_args_vec(&vec!["--flag".into()]);
    store.upsert_upstream(&record).expect("upsert upstream");
    let upstreams = store.list_upstreams();
    assert_eq!(upstreams.len(), 1);
    assert_eq!(upstreams[0].args_vec(), vec!["--flag".to_string()]);
}

#[test]
fn usage_is_visible_to_the_next_fetch() {
    let mut store = fresh_store();
    store
        .upsert_subscription("u9", Tier::Pro, None, None)
        .expect("subscription");
    let before = store.get_subscription("u9").expect("row");
    store.record_usage("u9", 7, "prov").expect("record");
    let after = store.get_subscription("u9").expect("row");
    assert_eq!(after.tokens_used, before.tokens_used + 7);
    assert_eq!(after.requests_used, before.requests_used + 1);
}

#[test]
fn upsert_preserves_counters() {
    let mut store = fresh_store();
    store
        .upsert_subscription("u2", Tier::Basic, None, Some((200, 5, 1)))
        .expect("subscription");
    store.record_usage("u2", 30, "prov").expect("record");
    let updated = store
        .upsert_subscription("u2", Tier::Pro, Some(now_secs() + 600), None)
        .expect("update");
    assert_eq!(updated.tokens_used, 30);
    assert_eq!(updated.requests_used, 1);
    assert!(matches!(updated.tier, Tier::Pro));
    assert_eq!(updated.max_tokens, 1_000_000);
}

#[test]
fn ensure_user_is_idempotent_by_email() {
    let mut store = fresh_store();
    let first = store.ensure_user("a@example.com", Some("A")).expect("user");
    let second = store.ensure_user("a@example.com", None).expect("user");
    assert_eq!(first.id, second.id);
    assert_eq!(store.list_users().len(), 1);
}

#[test]
fn put_provider_updates_in_place() {
    let mut store = fresh_store();
    let first = store
        .put_provider(&mcp_router::subs::NewProvider {
            slug: "openai".into(),
            display_name: "OpenAI".into(),
            description: None,
        })
        .expect("provider");
    let second = store
        .put_provider(&mcp_router::subs::NewProvider {
            slug: "openai".into(),
            display_name: "OpenAI, Inc.".into(),
            description: Some("LLM provider".into()),
        })
        .expect("provider");
    assert_eq!(first.id, second.id);
    assert_eq!(second.display_name, "OpenAI, Inc.");
    assert_eq!(store.list_providers().len(), 1);
}

#[test]
fn stored_key_row_is_ciphertext() {
    let mut store = fresh_store();
    store
        .put_provider(&mcp_router::subs::NewProvider {
            slug: "openai".into(),
            display_name: "OpenAI".into(),
            description: None,
        })
        .expect("provider");
    store
        .store_provider_key("openai", "api_key", b"sk-test")
        .expect("store");
    // The law proved over the store: a fetch right after the store
    // returns the plaintext.
    let fetched =
        mcp_router::subs::store_then_fetch_provider_key(&mut store, "openai", "api_key", b"sk-test");
    assert_eq!(fetched, b"sk-test");
    // The persisted row itself holds ciphertext: the plaintext appears
    // nowhere in it.
    let rows = store.list_provider_keys();
    assert_eq!(rows.len(), 1);
    let stored = &rows[0].encrypted_value;
    assert_ne!(stored.as_slice(), b"sk-test");
    assert!(!stored
        .windows(b"sk-test".len())
        .any(|w| w == b"sk-test"));
}

#[test]
fn fetch_missing_key_is_none() {
    let mut store = fresh_store();
    assert_eq!(store.fetch_provider_key("ghost", "k").expect("ok"), None);
    store
        .put_provider(&mcp_router::subs::NewProvider {
            slug: "p".into(),
            display_name: "P".into(),
            description: None,
        })
        .expect("provider");
    assert_eq!(store.fetch_provider_key("p", "missing").expect("ok"), None);
    assert!(store
        .store_provider_key("ghost", "k", b"v")
        .is_err());
}

#[test]
fn tier_labels_round_trip() {
    assert_eq!(Tier::from_str("pro").as_str(), "pro");
    assert_eq!(Tier::from_str("enterprise").as_str(), "enterprise");
    assert_eq!(Tier::from_str("basic").as_str(), "basic");
    assert_eq!(Tier::from_str("whatever").as_str(), "basic");
}

#[test]
fn tier_presets_are_exact() {
    let presets = SubscriptionPreset::defaults();
    assert_eq!(presets.len(), 3);
    assert!(matches!(presets[0].name, Tier::Basic));
    assert_eq!(
        (presets[0].max_tokens, presets[0].max_requests, presets[0].max_concurrent),
        (100_000, 1_000, 1)
    );
    assert_eq!(
        (presets[1].max_tokens, presets[1].max_requests, presets[1].max_concurrent),
        (1_000_000, 10_000, 3)
    );
    assert_eq!(
        (presets[2].max_tokens, presets[2].max_requests, presets[2].max_concurrent),
        (10_000_000, 100_000, 10)
    );
}

#[test]
fn enforcement_messages() {
    assert_eq!(EnforcementError::NoSubscription.message(), "no active subscription");
    assert_eq!(EnforcementError::Expired.message(), "subscription expired");
    assert_eq!(EnforcementError::RequestsExceeded.message(), "request quota exceeded");
    assert_eq!(EnforcementError::TokensExceeded.message(), "token quota exceeded");
}
