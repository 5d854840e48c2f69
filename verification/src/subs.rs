//! Subscription and catalog store: users, subscriptions, API tokens,
//! providers, encrypted provider keys, upstream records and usage
//! counters, with quota arithmetic and a write-through cache of
//! subscription rows.
//!
//! The durable schema is internal to the gateway; what the rest of the
//! system depends on is the behaviour specified here, so the store is
//! held as plain rows in memory and every operation carries an exact
//! contract. Random identifiers and token strings come from outside
//! and only their shape is assumed.

use rand::distr::SampleString;
use vstd::prelude::*;

use crate::crypto::{aead_open, KeyManager, MAX_PLAINTEXT_LEN};
use crate::json::str_eq;

verus! {

#[derive(Debug, PartialEq, Eq, Structural, Clone, Copy, Hash)]
pub enum Tier {
    Basic,
    Pro,
    Enterprise,
}

/// The tier a label names; anything unknown is `Basic`.
pub open spec fn spec_tier_of(s: Seq<char>) -> Tier {
    if s == "pro"@ {
        Tier::Pro
    } else if s == "enterprise"@ {
        Tier::Enterprise
    } else {
        Tier::Basic
    }
}

/// The default quota triple of a tier:
/// `(max_tokens, max_requests, max_concurrent)`.
pub open spec fn spec_tier_quota(t: Tier) -> (i64, i64, i32) {
    match t {
        Tier::Basic => (100_000i64, 1_000i64, 1i32),
        Tier::Pro => (1_000_000i64, 10_000i64, 3i32),
        Tier::Enterprise => (10_000_000i64, 100_000i64, 10i32),
    }
}

impl Tier {
    pub fn as_str(&self) -> (r: &'static str)
        ensures
            match self {
                Tier::Basic => r@ == "basic"@,
                Tier::Pro => r@ == "pro"@,
                Tier::Enterprise => r@ == "enterprise"@,
            },
    {
        match self {
            Tier::Basic => "basic",
            Tier::Pro => "pro",
            Tier::Enterprise => "enterprise",
        }
    }

    pub fn from_str(value: &str) -> (r: Tier)
        ensures
            r == spec_tier_of(value@),
    {
        if str_eq(value, "pro") {
            Tier::Pro
        } else if str_eq(value, "enterprise") {
            Tier::Enterprise
        } else {
            Tier::Basic
        }
    }
}

/// A subscription row. Timestamps are UTC unix seconds.
#[derive(Debug)]
pub struct SubscriptionRecord {
    pub user_id: String,
    pub tier: Tier,
    pub expires_at: Option<i64>,
    pub max_tokens: i64,
    pub max_requests: i64,
    pub max_concurrent: i32,
    pub tokens_used: i64,
    pub requests_used: i64,
}

/// The mathematical value of a subscription row.
pub struct SubV {
    pub user_id: Seq<char>,
    pub tier: Tier,
    pub expires_at: Option<i64>,
    pub max_tokens: i64,
    pub max_requests: i64,
    pub max_concurrent: i32,
    pub tokens_used: i64,
    pub requests_used: i64,
}

impl SubV {
    /// Counters and bounds are non-negative.
    pub open spec fn wf(self) -> bool {
        &&& 0 <= self.max_tokens
        &&& 0 <= self.max_requests
        &&& 0 <= self.tokens_used
        &&& 0 <= self.requests_used
    }
}

impl View for SubscriptionRecord {
    type V = SubV;

    open spec fn view(&self) -> SubV {
        SubV {
            user_id: self.user_id@,
            tier: self.tier,
            expires_at: self.expires_at,
            max_tokens: self.max_tokens,
            max_requests: self.max_requests,
            max_concurrent: self.max_concurrent,
            tokens_used: self.tokens_used,
            requests_used: self.requests_used,
        }
    }
}

impl Clone for SubscriptionRecord {
    fn clone(&self) -> (r: SubscriptionRecord)
        ensures
            r@ == self@,
    {
        SubscriptionRecord {
            user_id: self.user_id.clone(),
            tier: self.tier,
            expires_at: self.expires_at,
            max_tokens: self.max_tokens,
            max_requests: self.max_requests,
            max_concurrent: self.max_concurrent,
            tokens_used: self.tokens_used,
            requests_used: self.requests_used,
        }
    }
}

#[derive(Debug, PartialEq, Eq, Structural, Clone, Copy)]
pub enum EnforcementError {
    NoSubscription,
    Expired,
    RequestsExceeded,
    TokensExceeded,
}

impl EnforcementError {
    pub fn message(&self) -> (r: &'static str)
        ensures
            match self {
                EnforcementError::NoSubscription => r@ == "no active subscription"@,
                EnforcementError::Expired => r@ == "subscription expired"@,
                EnforcementError::RequestsExceeded => r@ == "request quota exceeded"@,
                EnforcementError::TokensExceeded => r@ == "token quota exceeded"@,
            },
    {
        match self {
            EnforcementError::NoSubscription => "no active subscription",
            EnforcementError::Expired => "subscription expired",
            EnforcementError::RequestsExceeded => "request quota exceeded",
            EnforcementError::TokensExceeded => "token quota exceeded",
        }
    }
}

/// The admission decision at time `now` for a call estimated at
/// `tokens`: expiry is checked first, then the request counter, then
/// the token counter.
pub open spec fn spec_check_quota(s: SubV, tokens: i64, now: i64) -> Result<
    (),
    EnforcementError,
> {
    if s.expires_at matches Some(e) && e < now {
        Result::Err(EnforcementError::Expired)
    } else if s.requests_used >= s.max_requests {
        Result::Err(EnforcementError::RequestsExceeded)
    } else if s.tokens_used + tokens > s.max_tokens {
        Result::Err(EnforcementError::TokensExceeded)
    } else {
        Result::Ok(())
    }
}

impl SubscriptionRecord {
    /// The admission decision at an explicit time.
    pub fn check_quota_at(&self, tokens: i64, now: i64) -> (r: Result<(), EnforcementError>)
        requires
            self@.wf(),
            0 <= tokens,
        ensures
            r == spec_check_quota(self@, tokens, now),
    {
        if let Some(expiry) = self.expires_at {
            if expiry < now {
                return Err(EnforcementError::Expired);
            }
        }
        if self.requests_used >= self.max_requests {
            return Err(EnforcementError::RequestsExceeded);
        }
        if tokens > self.max_tokens - self.tokens_used {
            return Err(EnforcementError::TokensExceeded);
        }
        Ok(())
    }

    /// The admission decision now. Whatever the clock reads, the
    /// decision is the specified one for some instant.
    pub fn check_quota(&self, tokens: i64) -> (r: Result<(), EnforcementError>)
        requires
            self@.wf(),
            0 <= tokens,
        ensures
            exists|now: i64| r == spec_check_quota(self@, tokens, now),
            self.expires_at is None ==> r == spec_check_quota(self@, tokens, 0),
    {
        let now = now_unix_seconds();
        let r = self.check_quota_at(tokens, now);
        proof {
            if self.expires_at is None {
                assert(spec_check_quota(self@, tokens, now) == spec_check_quota(
                    self@,
                    tokens,
                    0,
                ));
            }
        }
        r
    }
}

/// Law: the token check fires exactly when the estimated total would
/// pass the bound and neither the expiry nor the request check fired
/// first.
pub proof fn lemma_quota_tokens_exceeded(s: SubV, tokens: i64, now: i64)
    ensures
        spec_check_quota(s, tokens, now) == Result::<(), EnforcementError>::Err(
            EnforcementError::TokensExceeded,
        ) <==> {
            &&& !(s.expires_at matches Some(e) && e < now)
            &&& s.requests_used < s.max_requests
            &&& s.tokens_used + tokens > s.max_tokens
        },
{
}

/// Law: expiry outranks the request check, which outranks the token
/// check.
pub proof fn lemma_quota_precedence(s: SubV, tokens: i64, now: i64)
    ensures
        (s.expires_at matches Some(e) && e < now) ==> spec_check_quota(s, tokens, now)
            == Result::<(), EnforcementError>::Err(EnforcementError::Expired),
        (!(s.expires_at matches Some(e) && e < now) && s.requests_used >= s.max_requests)
            ==> spec_check_quota(s, tokens, now) == Result::<(), EnforcementError>::Err(
            EnforcementError::RequestsExceeded,
        ),
{
}

/// Relies on `chrono::Utc::now`: the wall clock as unix seconds;
/// nothing is assumed about the value.
#[verifier::external_body]
fn now_unix_seconds() -> (r: i64) {
    chrono::Utc::now().timestamp()
}

#[derive(Debug)]
pub struct UserRecord {
    pub id: String,
    pub email: String,
    pub name: Option<String>,
    pub created_at: Option<String>,
}

/// The mathematical value of a user row.
pub struct UserV {
    pub id: Seq<char>,
    pub email: Seq<char>,
    pub name: Option<Seq<char>>,
    pub created_at: Option<Seq<char>>,
}

/// The view of an optional string.
pub open spec fn opt_view(o: Option<String>) -> Option<Seq<char>> {
    match o {
        Option::Some(s) => Option::Some(s@),
        Option::None => Option::None,
    }
}

impl View for UserRecord {
    type V = UserV;

    open spec fn view(&self) -> UserV {
        UserV {
            id: self.id@,
            email: self.email@,
            name: opt_view(self.name),
            created_at: opt_view(self.created_at),
        }
    }
}

impl Clone for UserRecord {
    fn clone(&self) -> (r: UserRecord)
        ensures
            r@ == self@,
    {
        UserRecord {
            id: self.id.clone(),
            email: self.email.clone(),
            name: clone_opt_string(&self.name),
            created_at: clone_opt_string(&self.created_at),
        }
    }
}

/// A copy of an optional string with the same view.
pub fn clone_opt_string(o: &Option<String>) -> (r: Option<String>)
    ensures
        opt_view(r) == opt_view(*o),
{
    match o {
        Some(s) => Some(s.clone()),
        None => None,
    }
}

#[derive(Debug)]
pub struct ApiTokenRecord {
    pub id: String,
    pub user_id: String,
    pub token: String,
    pub scope: String,
}

/// The mathematical value of an API-token row.
pub struct TokenV {
    pub id: Seq<char>,
    pub user_id: Seq<char>,
    pub token: Seq<char>,
    pub scope: Seq<char>,
}

impl View for ApiTokenRecord {
    type V = TokenV;

    open spec fn view(&self) -> TokenV {
        TokenV { id: self.id@, user_id: self.user_id@, token: self.token@, scope: self.scope@ }
    }
}

impl Clone for ApiTokenRecord {
    fn clone(&self) -> (r: ApiTokenRecord)
        ensures
            r@ == self@,
    {
        ApiTokenRecord {
            id: self.id.clone(),
            user_id: self.user_id.clone(),
            token: self.token.clone(),
            scope: self.scope.clone(),
        }
    }
}

#[derive(Debug)]
pub struct ProviderRecord {
    pub id: String,
    pub slug: String,
    pub display_name: String,
    pub description: Option<String>,
    pub created_at: Option<String>,
}

/// The mathematical value of a provider row.
pub struct ProviderV {
    pub id: Seq<char>,
    pub slug: Seq<char>,
    pub display_name: Seq<char>,
    pub description: Option<Seq<char>>,
    pub created_at: Option<Seq<char>>,
}

impl View for ProviderRecord {
    type V = ProviderV;

    open spec fn view(&self) -> ProviderV {
        ProviderV {
            id: self.id@,
            slug: self.slug@,
            display_name: self.display_name@,
            description: opt_view(self.description),
            created_at: opt_view(self.created_at),
        }
    }
}

impl Clone for ProviderRecord {
    fn clone(&self) -> (r: ProviderRecord)
        ensures
            r@ == self@,
    {
        ProviderRecord {
            id: self.id.clone(),
            slug: self.slug.clone(),
            display_name: self.display_name.clone(),
            description: clone_opt_string(&self.description),
            created_at: clone_opt_string(&self.created_at),
        }
    }
}

#[derive(Debug)]
pub struct ProviderKeyRecord {
    pub provider_id: String,
    pub name: String,
    pub encrypted_value: Vec<u8>,
    pub nonce: Vec<u8>,
    pub created_at: Option<String>,
}

/// The mathematical value of an encrypted provider-key row.
pub struct ProviderKeyV {
    pub provider_id: Seq<char>,
    pub name: Seq<char>,
    pub encrypted_value: Seq<u8>,
    pub nonce: Seq<u8>,
    pub created_at: Option<Seq<char>>,
}

impl View for ProviderKeyRecord {
    type V = ProviderKeyV;

    open spec fn view(&self) -> ProviderKeyV {
        ProviderKeyV {
            provider_id: self.provider_id@,
            name: self.name@,
            encrypted_value: self.encrypted_value@,
            nonce: self.nonce@,
            created_at: opt_view(self.created_at),
        }
    }
}

impl Clone for ProviderKeyRecord {
    fn clone(&self) -> (r: ProviderKeyRecord)
        ensures
            r@ == self@,
    {
        ProviderKeyRecord {
            provider_id: self.provider_id.clone(),
            name: self.name.clone(),
            encrypted_value: copy_bytes(&self.encrypted_value),
            nonce: copy_bytes(&self.nonce),
            created_at: clone_opt_string(&self.created_at),
        }
    }
}

/// A copy of a byte vector with the same contents.
pub fn copy_bytes(v: &Vec<u8>) -> (r: Vec<u8>)
    ensures
        r@ == v@,
{
    let mut out: Vec<u8> = Vec::new();
    let n = v.len();
    let mut i: usize = 0;
    #[verifier::loop_isolation(false)]
    while i < n
        invariant
            i <= n,
            out@ =~= v@.subrange(0, i as int),
        decreases n - i,
    {
        out.push(v[i]);
        i = i + 1;
    }
    proof {
        assert(out@ =~= v@);
    }
    out
}

#[derive(Debug)]
pub struct UpstreamRecord {
    pub name: String,
    pub kind: String,
    pub command: Option<String>,
    pub args: Vec<String>,
    pub url: Option<String>,
    pub bearer: Option<String>,
    pub provider_slug: Option<String>,
}

/// The mathematical value of an upstream row.
pub struct UpstreamRecV {
    pub name: Seq<char>,
    pub kind: Seq<char>,
    pub command: Option<Seq<char>>,
    pub args: Seq<Seq<char>>,
    pub url: Option<Seq<char>>,
    pub bearer: Option<Seq<char>>,
    pub provider_slug: Option<Seq<char>>,
}

impl View for UpstreamRecord {
    type V = UpstreamRecV;

    open spec fn view(&self) -> UpstreamRecV {
        UpstreamRecV {
            name: self.name@,
            kind: self.kind@,
            command: opt_view(self.command),
            args: Seq::new(self.args@.len(), |i: int| self.args@[i]@),
            url: opt_view(self.url),
            bearer: opt_view(self.bearer),
            provider_slug: opt_view(self.provider_slug),
        }
    }
}

impl Clone for UpstreamRecord {
    fn clone(&self) -> (r: UpstreamRecord)
        ensures
            r@ == self@,
    {
        let r = UpstreamRecord {
            name: self.name.clone(),
            kind: self.kind.clone(),
            command: clone_opt_string(&self.command),
            args: clone_string_vec(&self.args),
            url: clone_opt_string(&self.url),
            bearer: clone_opt_string(&self.bearer),
            provider_slug: clone_opt_string(&self.provider_slug),
        };
        proof {
            assert(r@.args =~= self@.args);
        }
        r
    }
}

/// A copy of a string vector with the same views.
pub fn clone_string_vec(v: &Vec<String>) -> (r: Vec<String>)
    ensures
        r@.len() == v@.len(),
        forall|i: int| 0 <= i < v@.len() ==> r@[i]@ == v@[i]@,
{
    let mut out: Vec<String> = Vec::new();
    let n = v.len();
    let mut i: usize = 0;
    #[verifier::loop_isolation(false)]
    while i < n
        invariant
            i <= n,
            out@.len() == i,
            forall|k: int| 0 <= k < i ==> out@[k]@ == v@[k]@,
        decreases n - i,
    {
        out.push(v[i].clone());
        i = i + 1;
    }
    out
}

impl UpstreamRecord {
    /// Replace the stored argument list.
    pub fn with_args_vec(self, args: &Vec<String>) -> (r: UpstreamRecord)
        ensures
            r@.args.len() == args@.len(),
            forall|i: int| 0 <= i < args@.len() ==> r@.args[i] == args@[i]@,
            r@.name == self@.name,
            r@.kind == self@.kind,
            r@.command == self@.command,
            r@.url == self@.url,
            r@.bearer == self@.bearer,
            r@.provider_slug == self@.provider_slug,
    {
        let r = UpstreamRecord {
            name: self.name,
            kind: self.kind,
            command: self.command,
            args: clone_string_vec(args),
            url: self.url,
            bearer: self.bearer,
            provider_slug: self.provider_slug,
        };
        r
    }

    /// The stored argument list.
    pub fn args_vec(&self) -> (r: Vec<String>)
        ensures
            r@.len() == self@.args.len(),
            forall|i: int| 0 <= i < r@.len() ==> r@[i]@ == self@.args[i],
    {
        clone_string_vec(&self.args)
    }
}

#[derive(Debug)]
pub struct NewProvider {
    pub slug: String,
    pub display_name: String,
    pub description: Option<String>,
}

#[derive(Debug)]
pub struct SubscriptionPreset {
    pub name: Tier,
    pub max_tokens: i64,
    pub max_requests: i64,
    pub max_concurrent: i32,
}

impl SubscriptionPreset {
    /// The three tier presets, basic first.
    pub fn defaults() -> (r: Vec<SubscriptionPreset>)
        ensures
            r@.len() == 3,
            r@[0].name == Tier::Basic && (r@[0].max_tokens, r@[0].max_requests, r@[0].max_concurrent)
                == spec_tier_quota(Tier::Basic),
            r@[1].name == Tier::Pro && (r@[1].max_tokens, r@[1].max_requests, r@[1].max_concurrent)
                == spec_tier_quota(Tier::Pro),
            r@[2].name == Tier::Enterprise && (
                r@[2].max_tokens,
                r@[2].max_requests,
                r@[2].max_concurrent,
            ) == spec_tier_quota(Tier::Enterprise),
    {
        let mut out: Vec<SubscriptionPreset> = Vec::new();
        out.push(
            SubscriptionPreset {
                name: Tier::Basic,
                max_tokens: 100_000,
                max_requests: 1_000,
                max_concurrent: 1,
            },
        );
        out.push(
            SubscriptionPreset {
                name: Tier::Pro,
                max_tokens: 1_000_000,
                max_requests: 10_000,
                max_concurrent: 3,
            },
        );
        out.push(
            SubscriptionPreset {
                name: Tier::Enterprise,
                max_tokens: 10_000_000,
                max_requests: 100_000,
                max_concurrent: 10,
            },
        );
        out
    }
}

/// One recorded usage event.
#[derive(Debug)]
pub struct UsageCounter {
    pub provider: String,
    pub user_id: String,
    pub tokens: i64,
}

#[derive(Debug, PartialEq, Eq, Structural, Clone, Copy)]
pub enum StoreError {
    NotFound,
    Conflict,
    Crypto,
}

impl StoreError {
    pub fn message(&self) -> (r: &'static str)
        ensures
            match self {
                StoreError::NotFound => r@ == "row not found"@,
                StoreError::Conflict => r@ == "identifier conflict"@,
                StoreError::Crypto => r@ == "encryption failure"@,
            },
    {
        match self {
            StoreError::NotFound => "row not found",
            StoreError::Conflict => "identifier conflict",
            StoreError::Crypto => "encryption failure",
        }
    }
}

/// Relies on `uuid::Uuid::new_v4().to_string()`: a hyphenated UUID,
/// always 36 characters; nothing is assumed about which one.
#[verifier::external_body]
fn random_uuid_string() -> (r: String)
    ensures
        r@.len() == 36,
{
    uuid::Uuid::new_v4().to_string()
}

/// Relies on `rand`'s `Alphanumeric` distribution via `sample_string`:
/// exactly 48 characters drawn from `a-z A-Z 0-9`; nothing is assumed
/// about which ones.
#[verifier::external_body]
fn random_token_string() -> (r: String)
    ensures
        r@.len() == 48,
{
    rand::distr::Alphanumeric.sample_string(&mut rand::rng(), 48)
}

/// The quota triple an upsert uses: the caller's, or the tier preset.
pub open spec fn spec_quota_choice(tier: Tier, quotas: Option<(i64, i64, i32)>) -> (
    i64,
    i64,
    i32,
) {
    match quotas {
        Option::Some(q) => q,
        Option::None => spec_tier_quota(tier),
    }
}

/// Index of the first subscription row keyed by `uid`, if any.
#[verifier::loop_isolation(false)]
fn find_sub_index(v: &Vec<SubscriptionRecord>, uid: &str) -> (r: Option<usize>)
    ensures
        (r matches Some(j) ==> {
            &&& 0 <= j < v@.len()
            &&& v@[j as int]@.user_id == uid@
            &&& forall|k: int| 0 <= k < j ==> (#[trigger] v@[k]@).user_id != uid@
        }),
        (r is None ==> forall|k: int| 0 <= k < v@.len() ==> (#[trigger] v@[k]@).user_id != uid@),
{
    let n = v.len();
    let mut i: usize = 0;
    while i < n
        invariant
            i <= n,
            forall|k: int| 0 <= k < i ==> (#[trigger] v@[k]@).user_id != uid@,
        decreases n - i,
    {
        if str_eq(v[i].user_id.as_str(), uid) {
            return Some(i);
        }
        i = i + 1;
    }
    None
}

pub struct SubscriptionStore {
    users: Vec<UserRecord>,
    subs: Vec<SubscriptionRecord>,
    cache: Vec<SubscriptionRecord>,
    tokens: Vec<ApiTokenRecord>,
    providers: Vec<ProviderRecord>,
    provider_keys: Vec<ProviderKeyRecord>,
    upstreams: Vec<UpstreamRecord>,
    usage: Vec<UsageCounter>,
    crypto: KeyManager,
}

impl SubscriptionStore {
    pub closed spec fn spec_users(&self) -> Seq<UserRecord> {
        self.users@
    }

    pub closed spec fn spec_subs(&self) -> Seq<SubscriptionRecord> {
        self.subs@
    }

    pub closed spec fn spec_cache(&self) -> Seq<SubscriptionRecord> {
        self.cache@
    }

    pub closed spec fn spec_tokens(&self) -> Seq<ApiTokenRecord> {
        self.tokens@
    }

    pub closed spec fn spec_providers(&self) -> Seq<ProviderRecord> {
        self.providers@
    }

    pub closed spec fn spec_provider_keys(&self) -> Seq<ProviderKeyRecord> {
        self.provider_keys@
    }

    pub closed spec fn spec_upstreams(&self) -> Seq<UpstreamRecord> {
        self.upstreams@
    }

    pub closed spec fn spec_usage(&self) -> Seq<UsageCounter> {
        self.usage@
    }

    pub closed spec fn spec_crypto(&self) -> KeyManager {
        self.crypto
    }

    /// Subscription rows: keys unique, counters in range.
    pub open spec fn subs_ok(&self) -> bool {
        &&& forall|i: int, j: int|
            0 <= i < j < self.spec_subs().len() ==> self.spec_subs()[i]@.user_id
                != self.spec_subs()[j]@.user_id
        &&& forall|i: int|
            0 <= i < self.spec_subs().len() ==> (#[trigger] self.spec_subs()[i]@).wf()
    }

    /// The write-through cache: keys unique, and each cached record
    /// equals the subscription row a fetch would produce.
    pub open spec fn cache_ok(&self) -> bool {
        &&& forall|i: int, j: int|
            0 <= i < j < self.spec_cache().len() ==> self.spec_cache()[i]@.user_id
                != self.spec_cache()[j]@.user_id
        &&& forall|i: int|
            0 <= i < self.spec_cache().len() ==> exists|j: int|
                {
                    &&& 0 <= j < self.spec_subs().len()
                    &&& (#[trigger] self.spec_cache()[i]@).user_id == self.spec_subs()[j]@.user_id
                    &&& self.spec_cache()[i]@ == self.spec_subs()[j]@
                }
    }

    /// User rows: emails and identifiers unique.
    pub open spec fn users_ok(&self) -> bool {
        &&& forall|i: int, j: int|
            0 <= i < j < self.spec_users().len() ==> self.spec_users()[i]@.email
                != self.spec_users()[j]@.email
        &&& forall|i: int, j: int|
            0 <= i < j < self.spec_users().len() ==> self.spec_users()[i]@.id
                != self.spec_users()[j]@.id
    }

    /// Provider rows: slugs and identifiers unique.
    pub open spec fn providers_ok(&self) -> bool {
        &&& forall|i: int, j: int|
            0 <= i < j < self.spec_providers().len() ==> self.spec_providers()[i]@.slug
                != self.spec_providers()[j]@.slug
        &&& forall|i: int, j: int|
            0 <= i < j < self.spec_providers().len() ==> self.spec_providers()[i]@.id
                != self.spec_providers()[j]@.id
    }

    /// Token rows: identifiers unique.
    pub open spec fn tokens_ok(&self) -> bool {
        forall|i: int, j: int|
            0 <= i < j < self.spec_tokens().len() ==> self.spec_tokens()[i]@.id
                != self.spec_tokens()[j]@.id
    }

    /// Upstream rows: names unique.
    pub open spec fn upstreams_ok(&self) -> bool {
        forall|i: int, j: int|
            0 <= i < j < self.spec_upstreams().len() ==> self.spec_upstreams()[i]@.name
                != self.spec_upstreams()[j]@.name
    }

    /// Key rows: pairs unique, 96-bit nonces, every ciphertext opens
    /// under the master key.
    pub open spec fn keys_ok(&self) -> bool {
        &&& forall|i: int, j: int|
            0 <= i < j < self.spec_provider_keys().len() ==> !(
            self.spec_provider_keys()[i]@.provider_id == self.spec_provider_keys()[j]@.provider_id
                && self.spec_provider_keys()[i]@.name == self.spec_provider_keys()[j]@.name)
        &&& forall|i: int|
            0 <= i < self.spec_provider_keys().len() ==> (aead_open(
                self.spec_crypto().spec_key(),
                (#[trigger] self.spec_provider_keys()[i]@).nonce,
                self.spec_provider_keys()[i]@.encrypted_value,
            ) is Some)
        &&& forall|i: int|
            0 <= i < self.spec_provider_keys().len() ==> (
            #[trigger] self.spec_provider_keys()[i]@).nonce.len() == 12
    }

    /// The store's well-formedness: row keys are unique, counters are
    /// in range, every key row decrypts under the master key, and the
    /// cache is write-through — each cached record equals the
    /// subscription row a fetch would produce.
    pub open spec fn wf(&self) -> bool {
        &&& self.spec_crypto().wf()
        &&& self.subs_ok()
        &&& self.cache_ok()
        &&& self.users_ok()
        &&& self.providers_ok()
        &&& self.tokens_ok()
        &&& self.upstreams_ok()
        &&& self.keys_ok()
    }

    /// Collections a subscription operation never touches.
    pub open spec fn catalog_unchanged(pre: SubscriptionStore, post: SubscriptionStore) -> bool {
        &&& post.spec_users() == pre.spec_users()
        &&& post.spec_tokens() == pre.spec_tokens()
        &&& post.spec_providers() == pre.spec_providers()
        &&& post.spec_provider_keys() == pre.spec_provider_keys()
        &&& post.spec_upstreams() == pre.spec_upstreams()
        &&& post.spec_crypto() == pre.spec_crypto()
    }

    /// An empty store over the given encryptor.
    pub fn new(crypto: KeyManager) -> (r: SubscriptionStore)
        requires
            crypto.wf(),
        ensures
            r.wf(),
            r.spec_users().len() == 0,
            r.spec_subs().len() == 0,
            r.spec_cache().len() == 0,
            r.spec_tokens().len() == 0,
            r.spec_providers().len() == 0,
            r.spec_provider_keys().len() == 0,
            r.spec_upstreams().len() == 0,
            r.spec_usage().len() == 0,
            r.spec_crypto() == crypto,
    {
        SubscriptionStore {
            users: Vec::new(),
            subs: Vec::new(),
            cache: Vec::new(),
            tokens: Vec::new(),
            providers: Vec::new(),
            provider_keys: Vec::new(),
            upstreams: Vec::new(),
            usage: Vec::new(),
            crypto,
        }
    }

    pub fn crypto(&self) -> (r: &KeyManager)
        ensures
            *r == self.spec_crypto(),
    {
        &self.crypto
    }

    /// Cache-first read of a user's subscription row.
    #[verifier::rlimit(50)]
    pub fn get_subscription(&mut self, user_id: &str) -> (r: Option<SubscriptionRecord>)
        requires
            old(self).wf(),
        ensures
            final(self).wf(),
            final(self).spec_subs() == old(self).spec_subs(),
            final(self).spec_usage() == old(self).spec_usage(),
            Self::catalog_unchanged(*old(self), *final(self)),
            (r matches Some(rec) ==> exists|j: int|
                {
                    &&& 0 <= j < final(self).spec_subs().len()
                    &&& (#[trigger] final(self).spec_subs()[j]@).user_id == user_id@
                    &&& rec@ == final(self).spec_subs()[j]@
                }),
            (r is None <==> forall|j: int|
                0 <= j < final(self).spec_subs().len() ==> (#[trigger] final(self).spec_subs()[j]@).user_id
                    != user_id@),
            (r matches Some(rec) ==> exists|i: int|
                {
                    &&& 0 <= i < final(self).spec_cache().len()
                    &&& (#[trigger] final(self).spec_cache()[i]@) == rec@
                }),
    {
        match find_sub_index(&self.cache, user_id) {
            Some(i) => {
                let rec = self.cache[i].clone();
                proof {
                    assert(self.spec_cache()[i as int]@ == rec@);
                }
                Some(rec)
            },
            None => {
                match find_sub_index(&self.subs, user_id) {
                    Some(j) => {
                        let rec = self.subs[j].clone();
                        let cached = rec.clone();
                        self.cache.push(cached);
                        proof {
                            let nc = self.spec_cache().len() - 1;
                            assert(self.spec_cache()[nc]@ == rec@);
                            assert forall|a: int| 0 <= a < nc implies (
                            #[trigger] self.spec_cache()[a]@).user_id != user_id@ by {
                                assert(self.spec_cache()[a] == old(self).spec_cache()[a]);
                            }
                            assert forall|a: int, b: int|
                                0 <= a < b < self.spec_cache().len() implies self.spec_cache()[a]@.user_id
                                != self.spec_cache()[b]@.user_id by {
                                if b < nc {
                                    assert(self.spec_cache()[a] == old(self).spec_cache()[a]);
                                    assert(self.spec_cache()[b] == old(self).spec_cache()[b]);
                                } else {
                                    assert(self.spec_cache()[a] == old(self).spec_cache()[a]);
                                    assert(self.spec_cache()[b]@.user_id == user_id@);
                                }
                            }
                            assert forall|w: int|
                                0 <= w < self.spec_cache().len() implies exists|q: int|
                                {
                                    &&& 0 <= q < self.spec_subs().len()
                                    &&& (#[trigger] self.spec_cache()[w]@).user_id
                                        == self.spec_subs()[q]@.user_id
                                    &&& self.spec_cache()[w]@ == self.spec_subs()[q]@
                                } by {
                                if w < nc {
                                    assert(self.spec_cache()[w] == old(self).spec_cache()[w]);
                                    let q = choose|q: int|
                                        0 <= q < old(self).spec_subs().len() && (old(
                                            self,
                                        ).spec_cache()[w]@).user_id == old(
                                            self,
                                        ).spec_subs()[q]@.user_id && old(self).spec_cache()[w]@
                                            == old(self).spec_subs()[q]@;
                                    assert((self.spec_cache()[w]@).user_id
                                        == self.spec_subs()[q]@.user_id && self.spec_cache()[w]@
                                        == self.spec_subs()[q]@);
                                } else {
                                    assert(self.spec_cache()[w]@ == self.spec_subs()[j as int]@);
                                }
                            }
                        }
                        Some(rec)
                    },
                    None => {
                        proof {
                            assert(self.spec_tokens() == old(self).spec_tokens());
                            assert forall|a: int, b: int|
                                0 <= a < b < self.spec_tokens().len() implies self.spec_tokens()[a]@.id
                                != self.spec_tokens()[b]@.id by {
                                assert(old(self).spec_tokens()[a]@.id != old(
                                    self,
                                ).spec_tokens()[b]@.id);
                            }
                        }
                        None
                    },
                }
            },
        }
    }

    /// Create or update a user's subscription. Quota bounds are
    /// replaced (defaulting to the tier preset); consumed counters are
    /// preserved across an update and start at zero otherwise. The
    /// cached entry is refreshed.
    #[verifier::loop_isolation(false)]
    pub fn upsert_subscription(
        &mut self,
        user_id: &str,
        tier: Tier,
        expires_at: Option<i64>,
        quotas: Option<(i64, i64, i32)>,
    ) -> (r: Result<SubscriptionRecord, StoreError>)
        requires
            old(self).wf(),
            (quotas matches Some(q) ==> 0 <= q.0 && 0 <= q.1),
        ensures
            final(self).wf(),
            r is Ok,
            Self::catalog_unchanged(*old(self), *final(self)),
            final(self).spec_usage() == old(self).spec_usage(),
            ({
                let q = spec_quota_choice(tier, quotas);
                let had = exists|j: int|
                    0 <= j < old(self).spec_subs().len() && (#[trigger] old(
                        self,
                    ).spec_subs()[j]@).user_id == user_id@;
                &&& (had ==> {
                    &&& final(self).spec_subs().len() == old(self).spec_subs().len()
                    &&& forall|k: int|
                        0 <= k < old(self).spec_subs().len() ==> if (#[trigger] old(
                            self,
                        ).spec_subs()[k]@).user_id == user_id@ {
                            final(self).spec_subs()[k]@ == SubV {
                                user_id: user_id@,
                                tier,
                                expires_at,
                                max_tokens: q.0,
                                max_requests: q.1,
                                max_concurrent: q.2,
                                tokens_used: old(self).spec_subs()[k]@.tokens_used,
                                requests_used: old(self).spec_subs()[k]@.requests_used,
                            }
                        } else {
                            final(self).spec_subs()[k] == old(self).spec_subs()[k]
                        }
                })
                &&& (!had ==> {
                    &&& final(self).spec_subs().len() == old(self).spec_subs().len() + 1
                    &&& final(self).spec_subs().subrange(0, old(self).spec_subs().len() as int) == old(
                        self,
                    ).spec_subs()
                    &&& final(self).spec_subs().last()@ == SubV {
                        user_id: user_id@,
                        tier,
                        expires_at,
                        max_tokens: q.0,
                        max_requests: q.1,
                        max_concurrent: q.2,
                        tokens_used: 0,
                        requests_used: 0,
                    }
                })
                &&& (r matches Ok(rec) ==> rec@ == SubV {
                    user_id: user_id@,
                    tier,
                    expires_at,
                    max_tokens: q.0,
                    max_requests: q.1,
                    max_concurrent: q.2,
                    tokens_used: if had {
                        choose_old_tokens(old(self).spec_subs(), user_id@)
                    } else {
                        0
                    },
                    requests_used: if had {
                        choose_old_requests(old(self).spec_subs(), user_id@)
                    } else {
                        0
                    },
                })
            }),
    {
        let (mt, mr, mc): (i64, i64, i32) = match quotas {
            Some(q) => q,
            None => match tier {
                Tier::Basic => (100_000, 1_000, 1),
                Tier::Pro => (1_000_000, 10_000, 3),
                Tier::Enterprise => (10_000_000, 100_000, 10),
            },
        };
        self.invalidate_cache(user_id);
        match find_sub_index(&self.subs, user_id) {
            Some(j) => {
                let tokens_used = self.subs[j].tokens_used;
                let requests_used = self.subs[j].requests_used;
                let row = SubscriptionRecord {
                    user_id: user_id.to_owned(),
                    tier,
                    expires_at,
                    max_tokens: mt,
                    max_requests: mr,
                    max_concurrent: mc,
                    tokens_used,
                    requests_used,
                };
                let rec = row.clone();
                let _old_row = self.subs.remove(j);
                self.subs.insert(j, row);
                proof {
                    lemma_choose_counters(old(self).spec_subs(), user_id@, j as int);
                    assert(self.spec_subs() =~= old(self).spec_subs().update(
                        j as int,
                        self.spec_subs()[j as int],
                    ));
                    lemma_cache_still_matches(
                        self.spec_cache(),
                        old(self).spec_subs(),
                        self.spec_subs(),
                        user_id@,
                    );
                }
                return Ok(rec);
            },
            None => {},
        }
        let row = SubscriptionRecord {
            user_id: user_id.to_owned(),
            tier,
            expires_at,
            max_tokens: mt,
            max_requests: mr,
            max_concurrent: mc,
            tokens_used: 0,
            requests_used: 0,
        };
        let rec = row.clone();
        self.subs.push(row);
        proof {
            assert(self.spec_subs().subrange(0, old(self).spec_subs().len() as int) =~= old(
                self,
            ).spec_subs());
            assert forall|w: int|
                0 <= w < self.spec_cache().len() implies exists|q: int|
                {
                    &&& 0 <= q < self.spec_subs().len()
                    &&& (#[trigger] self.spec_cache()[w]@).user_id == self.spec_subs()[q]@.user_id
                    &&& self.spec_cache()[w]@ == self.spec_subs()[q]@
                } by {
                let q = choose|q: int|
                    0 <= q < old(self).spec_subs().len() && (
                    #[trigger] self.spec_cache()[w]@).user_id == old(self).spec_subs()[q]@.user_id
                        && self.spec_cache()[w]@ == old(self).spec_subs()[q]@;
                assert(self.spec_subs()[q] == old(self).spec_subs()[q]);
            }
        }
        Ok(rec)
    }

    /// Drop the cached entry of one user, if present.
    #[verifier::loop_isolation(false)]
    #[verifier::rlimit(50)]
    fn invalidate_cache(&mut self, user_id: &str)
        requires
            old(self).wf(),
        ensures
            final(self).wf(),
            Self::catalog_unchanged(*old(self), *final(self)),
            final(self).spec_subs() == old(self).spec_subs(),
            final(self).spec_usage() == old(self).spec_usage(),
            forall|i: int|
                0 <= i < final(self).spec_cache().len() ==> (#[trigger] final(self).spec_cache()[i]@).user_id
                    != user_id@,
    {
        match find_sub_index(&self.cache, user_id) {
            Some(i) => {
                let _removed = self.cache.remove(i);
                proof {
                    assert forall|w: int| 0 <= w < self.spec_cache().len() implies (
                    #[trigger] self.spec_cache()[w]@).user_id != user_id@ by {
                        if w < i {
                            assert(self.spec_cache()[w] == old(self).spec_cache()[w]);
                        } else {
                            assert(self.spec_cache()[w] == old(self).spec_cache()[w + 1]);
                        }
                    }
                    assert forall|a: int, b: int|
                        0 <= a < b < self.spec_cache().len() implies self.spec_cache()[a]@.user_id
                        != self.spec_cache()[b]@.user_id by {
                        let a2: int = if a < i {
                            a
                        } else {
                            a + 1
                        };
                        let b2: int = if b < i {
                            b
                        } else {
                            b + 1
                        };
                        assert(self.spec_cache()[a] == old(self).spec_cache()[a2]);
                        assert(self.spec_cache()[b] == old(self).spec_cache()[b2]);
                    }
                    assert forall|w: int|
                        0 <= w < self.spec_cache().len() implies exists|q: int|
                        {
                            &&& 0 <= q < self.spec_subs().len()
                            &&& (#[trigger] self.spec_cache()[w]@).user_id
                                == self.spec_subs()[q]@.user_id
                            &&& self.spec_cache()[w]@ == self.spec_subs()[q]@
                        } by {
                        let w2: int = if w < i {
                            w
                        } else {
                            w + 1
                        };
                        assert(self.spec_cache()[w] == old(self).spec_cache()[w2]);
                        let q = choose|q: int|
                            0 <= q < old(self).spec_subs().len() && (old(
                                self,
                            ).spec_cache()[w2]@).user_id == old(self).spec_subs()[q]@.user_id
                                && old(self).spec_cache()[w2]@ == old(self).spec_subs()[q]@;
                        assert(self.spec_subs() == old(self).spec_subs());
                        assert((self.spec_cache()[w]@).user_id == self.spec_subs()[q]@.user_id
                            && self.spec_cache()[w]@ == self.spec_subs()[q]@);
                    }
                }
            },
            None => {
                proof {
                    assert forall|a: int, b: int|
                        0 <= a < b < self.spec_tokens().len() implies self.spec_tokens()[a]@.id
                        != self.spec_tokens()[b]@.id by {
                        assert(old(self).spec_tokens()[a]@.id != old(self).spec_tokens()[b]@.id);
                    }
                }
            },
        }
    }

    /// Add `tokens` and one request to the user's counters, append a
    /// usage event, and invalidate the cached entry. A missing row
    /// leaves the counters alone, as an update of no rows would.
    #[verifier::loop_isolation(false)]
    pub fn record_usage(&mut self, user_id: &str, tokens: i64, provider: &str) -> (r: Result<
        (),
        StoreError,
    >)
        requires
            old(self).wf(),
            0 <= tokens,
            forall|k: int|
                0 <= k < old(self).spec_subs().len() && (#[trigger] old(
                    self,
                ).spec_subs()[k]@).user_id == user_id@ ==> old(self).spec_subs()[k]@.tokens_used
                    + tokens <= i64::MAX && old(self).spec_subs()[k]@.requests_used + 1
                    <= i64::MAX,
        ensures
            final(self).wf(),
            r is Ok,
            Self::catalog_unchanged(*old(self), *final(self)),
            final(self).spec_subs().len() == old(self).spec_subs().len(),
            forall|k: int|
                0 <= k < old(self).spec_subs().len() ==> if (#[trigger] old(
                    self,
                ).spec_subs()[k]@).user_id == user_id@ {
                    final(self).spec_subs()[k]@ == SubV {
                        user_id: old(self).spec_subs()[k]@.user_id,
                        tier: old(self).spec_subs()[k]@.tier,
                        expires_at: old(self).spec_subs()[k]@.expires_at,
                        max_tokens: old(self).spec_subs()[k]@.max_tokens,
                        max_requests: old(self).spec_subs()[k]@.max_requests,
                        max_concurrent: old(self).spec_subs()[k]@.max_concurrent,
                        tokens_used: (old(self).spec_subs()[k]@.tokens_used + tokens) as i64,
                        requests_used: (old(self).spec_subs()[k]@.requests_used + 1) as i64,
                    }
                } else {
                    final(self).spec_subs()[k] == old(self).spec_subs()[k]
                },
            final(self).spec_usage().len() == old(self).spec_usage().len() + 1,
            final(self).spec_usage().subrange(0, old(self).spec_usage().len() as int) == old(
                self,
            ).spec_usage(),
            final(self).spec_usage().last().provider@ == provider@,
            final(self).spec_usage().last().user_id@ == user_id@,
            final(self).spec_usage().last().tokens == tokens,
            forall|i: int|
                0 <= i < final(self).spec_cache().len() ==> (#[trigger] final(self).spec_cache()[i]@).user_id
                    != user_id@,
    {
        self.invalidate_cache(user_id);
        match find_sub_index(&self.subs, user_id) {
            Some(j) => {
                let row = self.subs.remove(j);
                let updated = SubscriptionRecord {
                    user_id: row.user_id,
                    tier: row.tier,
                    expires_at: row.expires_at,
                    max_tokens: row.max_tokens,
                    max_requests: row.max_requests,
                    max_concurrent: row.max_concurrent,
                    tokens_used: row.tokens_used + tokens,
                    requests_used: row.requests_used + 1,
                };
                self.subs.insert(j, updated);
                proof {
                    assert(self.spec_subs() =~= old(self).spec_subs().update(
                        j as int,
                        self.spec_subs()[j as int],
                    ));
                    lemma_cache_still_matches(
                        self.spec_cache(),
                        old(self).spec_subs(),
                        self.spec_subs(),
                        user_id@,
                    );
                }
            },
            None => {},
        }
        self.usage.push(
            UsageCounter { provider: provider.to_owned(), user_id: user_id.to_owned(), tokens },
        );
        proof {
            assert(self.spec_usage().subrange(0, old(self).spec_usage().len() as int) =~= old(
                self,
            ).spec_usage());
        }
        Ok(())
    }

    /// Insert a user keyed by email if absent; either way return the
    /// row carrying that email. An identifier collision (the random id
    /// already taken) is refused, as the durable layer's key would
    /// refuse it.
    #[verifier::rlimit(100)]
    pub fn ensure_user(&mut self, email: &str, name: Option<&str>) -> (r: Result<
        UserRecord,
        StoreError,
    >)
        requires
            old(self).wf(),
        ensures
            final(self).wf(),
            final(self).spec_subs() == old(self).spec_subs(),
            final(self).spec_cache() == old(self).spec_cache(),
            final(self).spec_usage() == old(self).spec_usage(),
            final(self).spec_tokens() == old(self).spec_tokens(),
            final(self).spec_providers() == old(self).spec_providers(),
            final(self).spec_provider_keys() == old(self).spec_provider_keys(),
            final(self).spec_upstreams() == old(self).spec_upstreams(),
            final(self).spec_crypto() == old(self).spec_crypto(),
            (exists|i: int|
                0 <= i < old(self).spec_users().len() && (#[trigger] old(
                    self,
                ).spec_users()[i]@).email == email@) ==> {
                &&& final(self).spec_users() == old(self).spec_users()
                &&& r matches Ok(rec) && exists|i: int|
                    0 <= i < old(self).spec_users().len() && (#[trigger] old(
                        self,
                    ).spec_users()[i]@).email == email@ && rec@ == old(self).spec_users()[i]@
            },
            (forall|i: int|
                0 <= i < old(self).spec_users().len() ==> (#[trigger] old(
                    self,
                ).spec_users()[i]@).email != email@) ==> match r {
                Result::Ok(rec) => {
                    &&& final(self).spec_users().len() == old(self).spec_users().len() + 1
                    &&& final(self).spec_users().subrange(
                        0,
                        old(self).spec_users().len() as int,
                    ) == old(self).spec_users()
                    &&& final(self).spec_users().last()@ == rec@
                    &&& rec@.email == email@
                    &&& rec@.name == match name {
                        Option::Some(n) => Option::Some(n@),
                        Option::None => Option::None,
                    }
                    &&& rec@.id.len() == 36
                },
                Result::Err(e) => e == StoreError::Conflict && final(self).spec_users() == old(
                    self,
                ).spec_users() && old(self).spec_users().len() > 0,
            },
    {
        let nu = self.users.len();
        let mut i: usize = 0;
        #[verifier::loop_isolation(false)]
        while i < nu
            invariant
                i <= nu,
                forall|k: int| 0 <= k < i ==> (#[trigger] self.users@[k]@).email != email@,
            decreases nu - i,
        {
            if str_eq(self.users[i].email.as_str(), email) {
                let rec = self.users[i].clone();
                proof {
                    assert((self.spec_users()[i as int]@).email == email@);
                }
                return Ok(rec);
            }
            i = i + 1;
        }
        let id = random_uuid_string();
        if self.user_id_taken(id.as_str()) {
            return Err(StoreError::Conflict);
        }
        let row = UserRecord {
            id,
            email: email.to_owned(),
            name: match name {
                Some(n) => Some(n.to_owned()),
                None => None,
            },
            created_at: None,
        };
        let rec = row.clone();
        self.users.push(row);
        proof {
            assert(self.spec_users().subrange(0, old(self).spec_users().len() as int) =~= old(
                self,
            ).spec_users());
            assert forall|w: int|
                0 <= w < self.spec_cache().len() implies exists|q: int|
                {
                    &&& 0 <= q < self.spec_subs().len()
                    &&& (#[trigger] self.spec_cache()[w]@).user_id == self.spec_subs()[q]@.user_id
                    &&& self.spec_cache()[w]@ == self.spec_subs()[q]@
                } by {
                let q = choose|q: int|
                    0 <= q < old(self).spec_subs().len() && (#[trigger] old(
                        self,
                    ).spec_cache()[w]@).user_id == old(self).spec_subs()[q]@.user_id && old(
                        self,
                    ).spec_cache()[w]@ == old(self).spec_subs()[q]@;
                assert(0 <= q < self.spec_subs().len() && (self.spec_cache()[w]@).user_id
                    == self.spec_subs()[q]@.user_id && self.spec_cache()[w]@
                    == self.spec_subs()[q]@);
            }
            assert forall|a: int, b: int|
                0 <= a < b < self.spec_tokens().len() implies self.spec_tokens()[a]@.id
                != self.spec_tokens()[b]@.id by {
                assert(old(self).spec_tokens()[a]@.id != old(self).spec_tokens()[b]@.id);
            }
            let last = self.spec_users().len() - 1;
            assert forall|a: int, b: int|
                0 <= a < b < self.spec_users().len() implies self.spec_users()[a]@.email
                != self.spec_users()[b]@.email && self.spec_users()[a]@.id
                != self.spec_users()[b]@.id by {
                if b < last {
                    assert(self.spec_users()[a] == old(self).spec_users()[a]);
                    assert(self.spec_users()[b] == old(self).spec_users()[b]);
                } else {
                    assert(self.spec_users()[a] == old(self).spec_users()[a]);
                    assert(self.spec_users()[b]@.email == email@);
                }
            }
        }
        Ok(rec)
    }

    /// Whether some user row already carries this identifier.
    #[verifier::loop_isolation(false)]
    fn user_id_taken(&self, id: &str) -> (r: bool)
        ensures
            r <==> exists|i: int|
                0 <= i < self.spec_users().len() && (#[trigger] self.spec_users()[i]@).id == id@,
    {
        let n = self.users.len();
        let mut i: usize = 0;
        while i < n
            invariant
                i <= n,
                forall|k: int| 0 <= k < i ==> (#[trigger] self.users@[k]@).id != id@,
            decreases n - i,
        {
            if str_eq(self.users[i].id.as_str(), id) {
                proof {
                    assert((self.spec_users()[i as int]@).id == id@);
                }
                return true;
            }
            i = i + 1;
        }
        false
    }

    pub fn list_users(&self) -> (r: Vec<UserRecord>)
        ensures
            r@.len() == self.spec_users().len(),
            forall|i: int| 0 <= i < r@.len() ==> (#[trigger] r@[i]@) == self.spec_users()[i]@,
    {
        let mut out: Vec<UserRecord> = Vec::new();
        let n = self.users.len();
        let mut i: usize = 0;
        #[verifier::loop_isolation(false)]
        while i < n
            invariant
                i <= n,
                out@.len() == i,
                forall|k: int| 0 <= k < i ==> (#[trigger] out@[k]@) == self.users@[k]@,
            decreases n - i,
        {
            out.push(self.users[i].clone());
            i = i + 1;
        }
        out
    }

    /// Issue a fresh random 48-character token for a user.
    #[verifier::rlimit(100)]
    pub fn issue_token(&mut self, user_id: &str, scope: &str) -> (r: Result<
        ApiTokenRecord,
        StoreError,
    >)
        requires
            old(self).wf(),
        ensures
            final(self).wf(),
            final(self).spec_subs() == old(self).spec_subs(),
            final(self).spec_cache() == old(self).spec_cache(),
            final(self).spec_usage() == old(self).spec_usage(),
            final(self).spec_users() == old(self).spec_users(),
            final(self).spec_providers() == old(self).spec_providers(),
            final(self).spec_provider_keys() == old(self).spec_provider_keys(),
            final(self).spec_upstreams() == old(self).spec_upstreams(),
            final(self).spec_crypto() == old(self).spec_crypto(),
            match r {
                Result::Ok(rec) => {
                    &&& final(self).spec_tokens().len() == old(self).spec_tokens().len() + 1
                    &&& final(self).spec_tokens().subrange(
                        0,
                        old(self).spec_tokens().len() as int,
                    ) == old(self).spec_tokens()
                    &&& final(self).spec_tokens().last()@ == rec@
                    &&& rec@.user_id == user_id@
                    &&& rec@.scope == scope@
                    &&& rec@.token.len() == 48
                    &&& rec@.id.len() == 36
                },
                Result::Err(e) => e == StoreError::Conflict && final(self).spec_tokens() == old(
                    self,
                ).spec_tokens() && old(self).spec_tokens().len() > 0,
            },
    {
        let id = random_uuid_string();
        if self.token_id_taken(id.as_str()) {
            return Err(StoreError::Conflict);
        }
        let token_value = random_token_string();
        let row = ApiTokenRecord {
            id,
            user_id: user_id.to_owned(),
            token: token_value,
            scope: scope.to_owned(),
        };
        let rec = row.clone();
        self.tokens.push(row);
        proof {
            assert(self.spec_tokens().subrange(0, old(self).spec_tokens().len() as int) =~= old(
                self,
            ).spec_tokens());
            assert forall|w: int|
                0 <= w < self.spec_cache().len() implies exists|q: int|
                {
                    &&& 0 <= q < self.spec_subs().len()
                    &&& (#[trigger] self.spec_cache()[w]@).user_id == self.spec_subs()[q]@.user_id
                    &&& self.spec_cache()[w]@ == self.spec_subs()[q]@
                } by {
                let q = choose|q: int|
                    0 <= q < old(self).spec_subs().len() && (#[trigger] old(
                        self,
                    ).spec_cache()[w]@).user_id == old(self).spec_subs()[q]@.user_id && old(
                        self,
                    ).spec_cache()[w]@ == old(self).spec_subs()[q]@;
                assert(0 <= q < self.spec_subs().len() && (self.spec_cache()[w]@).user_id
                    == self.spec_subs()[q]@.user_id && self.spec_cache()[w]@
                    == self.spec_subs()[q]@);
            }
            let last = self.spec_tokens().len() - 1;
            assert forall|a: int, b: int|
                0 <= a < b < self.spec_tokens().len() implies self.spec_tokens()[a]@.id
                != self.spec_tokens()[b]@.id by {
                if b < last {
                    assert(self.spec_tokens()[a] == old(self).spec_tokens()[a]);
                    assert(self.spec_tokens()[b] == old(self).spec_tokens()[b]);
                } else {
                    assert(self.spec_tokens()[a] == old(self).spec_tokens()[a]);
                }
            }
        }
        Ok(rec)
    }

    /// Whether some token row already carries this identifier.
    #[verifier::loop_isolation(false)]
    fn token_id_taken(&self, id: &str) -> (r: bool)
        ensures
            r <==> exists|i: int|
                0 <= i < self.spec_tokens().len() && (#[trigger] self.spec_tokens()[i]@).id
                    == id@,
    {
        let n = self.tokens.len();
        let mut i: usize = 0;
        while i < n
            invariant
                i <= n,
                forall|k: int| 0 <= k < i ==> (#[trigger] self.tokens@[k]@).id != id@,
            decreases n - i,
        {
            if str_eq(self.tokens[i].id.as_str(), id) {
                proof {
                    assert((self.spec_tokens()[i as int]@).id == id@);
                }
                return true;
            }
            i = i + 1;
        }
        false
    }

    /// All tokens, or one user's tokens, in issue order.
    #[verifier::loop_isolation(false)]
    pub fn list_tokens(&self, user_id: Option<&str>) -> (r: Vec<ApiTokenRecord>)
        ensures
            user_id is None ==> r@.len() == self.spec_tokens().len() && forall|i: int|
                0 <= i < r@.len() ==> (#[trigger] r@[i]@) == self.spec_tokens()[i]@,
            (user_id matches Some(u) ==> {
                &&& forall|i: int| 0 <= i < r@.len() ==> (#[trigger] r@[i]@).user_id == u@
                &&& forall|j: int|
                    0 <= j < self.spec_tokens().len() && (
                    #[trigger] self.spec_tokens()[j]@).user_id == u@ ==> exists|i: int|
                        0 <= i < r@.len() && (#[trigger] r@[i]@) == self.spec_tokens()[j]@
            }),
    {
        let mut out: Vec<ApiTokenRecord> = Vec::new();
        let n = self.tokens.len();
        let mut i: usize = 0;
        while i < n
            invariant
                i <= n,
                user_id is None ==> out@.len() == i && forall|k: int|
                    0 <= k < i ==> (#[trigger] out@[k]@) == self.tokens@[k]@,
                (user_id matches Some(u) ==> {
                    &&& forall|k: int| 0 <= k < out@.len() ==> (#[trigger] out@[k]@).user_id == u@
                    &&& forall|j: int|
                        0 <= j < i && (#[trigger] self.tokens@[j]@).user_id == u@ ==> exists|k: int|
                            0 <= k < out@.len() && (#[trigger] out@[k]@) == self.tokens@[j]@
                }),
            decreases n - i,
        {
            match user_id {
                None => {
                    out.push(self.tokens[i].clone());
                },
                Some(u) => {
                    if str_eq(self.tokens[i].user_id.as_str(), u) {
                        let ghost prev = out@;
                        out.push(self.tokens[i].clone());
                        proof {
                            assert((out@[out@.len() - 1]@) == self.tokens@[i as int]@);
                            assert forall|j: int|
                                0 <= j < i + 1 && (#[trigger] self.tokens@[j]@).user_id == u@
                                implies exists|k: int|
                                0 <= k < out@.len() && (#[trigger] out@[k]@)
                                    == self.tokens@[j]@ by {
                                if j < i {
                                    let k0 = choose|k0: int|
                                        0 <= k0 < prev.len() && (#[trigger] prev[k0]@)
                                            == self.tokens@[j]@;
                                    assert(out@[k0]@ == self.tokens@[j]@);
                                } else {
                                    assert(out@[out@.len() - 1]@ == self.tokens@[j]@);
                                }
                            }
                        }
                    }
                },
            }
            i = i + 1;
        }
        out
    }

    /// Create or update a provider, keyed by slug: display name and
    /// description replace the stored ones, identifier and creation
    /// time stay.
    #[verifier::rlimit(100)]
    #[verifier::spinoff_prover]
    pub fn put_provider(&mut self, provider: &NewProvider) -> (r: Result<
        ProviderRecord,
        StoreError,
    >)
        requires
            old(self).wf(),
        ensures
            final(self).wf(),
            final(self).spec_subs() == old(self).spec_subs(),
            final(self).spec_cache() == old(self).spec_cache(),
            final(self).spec_usage() == old(self).spec_usage(),
            final(self).spec_users() == old(self).spec_users(),
            final(self).spec_tokens() == old(self).spec_tokens(),
            final(self).spec_provider_keys() == old(self).spec_provider_keys(),
            final(self).spec_upstreams() == old(self).spec_upstreams(),
            final(self).spec_crypto() == old(self).spec_crypto(),
            (exists|i: int|
                0 <= i < old(self).spec_providers().len() && (#[trigger] old(
                    self,
                ).spec_providers()[i]@).slug == provider.slug@) ==> {
                &&& final(self).spec_providers().len() == old(self).spec_providers().len()
                &&& forall|k: int|
                    0 <= k < old(self).spec_providers().len() ==> if (#[trigger] old(
                        self,
                    ).spec_providers()[k]@).slug == provider.slug@ {
                        final(self).spec_providers()[k]@ == ProviderV {
                            id: old(self).spec_providers()[k]@.id,
                            slug: old(self).spec_providers()[k]@.slug,
                            display_name: provider.display_name@,
                            description: opt_view(provider.description),
                            created_at: old(self).spec_providers()[k]@.created_at,
                        }
                    } else {
                        final(self).spec_providers()[k] == old(self).spec_providers()[k]
                    }
                &&& r is Ok
            },
            (forall|i: int|
                0 <= i < old(self).spec_providers().len() ==> (#[trigger] old(
                    self,
                ).spec_providers()[i]@).slug != provider.slug@) ==> match r {
                Result::Ok(rec) => {
                    &&& final(self).spec_providers().len() == old(self).spec_providers().len()
                        + 1
                    &&& final(self).spec_providers().subrange(
                        0,
                        old(self).spec_providers().len() as int,
                    ) == old(self).spec_providers()
                    &&& final(self).spec_providers().last()@ == rec@
                    &&& rec@.slug == provider.slug@
                    &&& rec@.display_name == provider.display_name@
                    &&& rec@.description == opt_view(provider.description)
                    &&& rec@.id.len() == 36
                },
                Result::Err(e) => e == StoreError::Conflict && final(self).spec_providers()
                    == old(self).spec_providers() && old(self).spec_providers().len() > 0,
            },
            (r matches Ok(rec) ==> exists|k: int|
                {
                    &&& 0 <= k < final(self).spec_providers().len()
                    &&& (#[trigger] final(self).spec_providers()[k]@).slug == provider.slug@
                    &&& rec@ == final(self).spec_providers()[k]@
                }),
    {
        let np = self.providers.len();
        let mut i: usize = 0;
        #[verifier::loop_isolation(false)]
        while i < np
            invariant
                i <= np,
                np == self.providers@.len(),
                *self == *old(self),
                forall|k: int| 0 <= k < i ==> (#[trigger] self.providers@[k]@).slug
                    != provider.slug@,
            decreases np - i,
        {
            if str_eq(self.providers[i].slug.as_str(), provider.slug.as_str()) {
                let row = ProviderRecord {
                    id: self.providers[i].id.clone(),
                    slug: self.providers[i].slug.clone(),
                    display_name: provider.display_name.clone(),
                    description: clone_opt_string(&provider.description),
                    created_at: clone_opt_string(&self.providers[i].created_at),
                };
                let rec = row.clone();
                let _old_row = self.providers.remove(i);
                self.providers.insert(i, row);
                proof {
                    assert(self.spec_providers() =~= old(self).spec_providers().update(
                        i as int,
                        self.spec_providers()[i as int],
                    ));
                    carry_cache_and_tokens(*old(self), *self);
                    assert(self.subs_ok());
                    assert(self.cache_ok());
                    assert(self.users_ok());
                    assert(self.providers_ok());
                    assert(self.tokens_ok());
                    assert(self.upstreams_ok());
                    assert(self.keys_ok());
                    assert(self.wf());
                    assert((self.spec_providers()[i as int]@).slug == provider.slug@);
                    assert(rec@ == self.spec_providers()[i as int]@);
                }
                return Ok(rec);
            }
            i = i + 1;
        }
        let id = random_uuid_string();
        if self.provider_id_taken(id.as_str()) {
            return Err(StoreError::Conflict);
        }
        let row = ProviderRecord {
            id,
            slug: provider.slug.clone(),
            display_name: provider.display_name.clone(),
            description: clone_opt_string(&provider.description),
            created_at: None,
        };
        let rec = row.clone();
        self.providers.push(row);
        proof {
            assert(self.spec_providers().subrange(0, old(self).spec_providers().len() as int)
                =~= old(self).spec_providers());
            let last = self.spec_providers().len() - 1;
            assert forall|a: int, b: int|
                0 <= a < b < self.spec_providers().len() implies self.spec_providers()[a]@.slug
                != self.spec_providers()[b]@.slug && self.spec_providers()[a]@.id
                != self.spec_providers()[b]@.id by {
                if b < last {
                    assert(self.spec_providers()[a] == old(self).spec_providers()[a]);
                    assert(self.spec_providers()[b] == old(self).spec_providers()[b]);
                } else {
                    assert(self.spec_providers()[a] == old(self).spec_providers()[a]);
                    assert(self.spec_providers()[b]@.slug == provider.slug@);
                }
            }
            carry_cache_and_tokens(*old(self), *self);
            assert(self.subs_ok());
            assert(self.cache_ok());
            assert(self.users_ok());
            assert(self.providers_ok());
            assert(self.tokens_ok());
            assert(self.upstreams_ok());
            assert(self.keys_ok());
            assert(self.wf());
            assert((self.spec_providers()[last]@).slug == provider.slug@);
            assert(rec@ == self.spec_providers()[last]@);
        }
        Ok(rec)
    }

    /// Whether some provider row already carries this identifier.
    #[verifier::loop_isolation(false)]
    fn provider_id_taken(&self, id: &str) -> (r: bool)
        ensures
            r <==> exists|i: int|
                0 <= i < self.spec_providers().len() && (#[trigger] self.spec_providers()[i]@).id
                    == id@,
    {
        let n = self.providers.len();
        let mut i: usize = 0;
        while i < n
            invariant
                i <= n,
                forall|k: int| 0 <= k < i ==> (#[trigger] self.providers@[k]@).id != id@,
            decreases n - i,
        {
            if str_eq(self.providers[i].id.as_str(), id) {
                proof {
                    assert((self.spec_providers()[i as int]@).id == id@);
                }
                return true;
            }
            i = i + 1;
        }
        false
    }

    pub fn list_providers(&self) -> (r: Vec<ProviderRecord>)
        ensures
            r@.len() == self.spec_providers().len(),
            forall|i: int| 0 <= i < r@.len() ==> (#[trigger] r@[i]@) == self.spec_providers()[i]@,
    {
        let mut out: Vec<ProviderRecord> = Vec::new();
        let n = self.providers.len();
        let mut i: usize = 0;
        #[verifier::loop_isolation(false)]
        while i < n
            invariant
                i <= n,
                out@.len() == i,
                forall|k: int| 0 <= k < i ==> (#[trigger] out@[k]@) == self.providers@[k]@,
            decreases n - i,
        {
            out.push(self.providers[i].clone());
            i = i + 1;
        }
        out
    }

    /// Encrypt `value` under the master key and store it for
    /// `(provider, name)`, replacing any previous ciphertext for that
    /// pair. Fails only when the provider slug is unknown.
    #[verifier::rlimit(100)]
    #[verifier::spinoff_prover]
    pub fn store_provider_key(&mut self, provider_slug: &str, name: &str, value: &[u8]) -> (r:
        Result<(), StoreError>)
        requires
            old(self).wf(),
            value@.len() <= MAX_PLAINTEXT_LEN,
        ensures
            final(self).wf(),
            final(self).spec_subs() == old(self).spec_subs(),
            final(self).spec_cache() == old(self).spec_cache(),
            final(self).spec_usage() == old(self).spec_usage(),
            final(self).spec_users() == old(self).spec_users(),
            final(self).spec_tokens() == old(self).spec_tokens(),
            final(self).spec_providers() == old(self).spec_providers(),
            final(self).spec_upstreams() == old(self).spec_upstreams(),
            final(self).spec_crypto() == old(self).spec_crypto(),
            match spec_provider_id_of(old(self).spec_providers(), provider_slug@) {
                Option::None => r == Result::<(), StoreError>::Err(StoreError::NotFound)
                    && final(self).spec_provider_keys() == old(self).spec_provider_keys(),
                Option::Some(pid) => {
                    &&& r is Ok
                    &&& (spec_key_entry(final(self).spec_provider_keys(), pid, name@)
                        matches Some(kv) && aead_open(
                        old(self).spec_crypto().spec_key(),
                        kv.nonce,
                        kv.encrypted_value,
                    ) == Option::Some(value@))
                },
            },
    {
        let w = match self.provider_index_by_slug(provider_slug) {
            Some(w) => w,
            None => {
                return Err(StoreError::NotFound);
            },
        };
        let pid = self.providers[w].id.clone();
        let (nonce, cipher) = match self.crypto.encrypt(value) {
            Ok(pair) => pair,
            Err(_) => {
                proof {
                    assert(false);
                }
                (Vec::new(), Vec::new())
            },
        };
        let row = ProviderKeyRecord {
            provider_id: pid,
            name: name.to_owned(),
            encrypted_value: cipher,
            nonce,
            created_at: None,
        };
        proof {
            lemma_provider_id_determined(old(self).spec_providers(), provider_slug@, w as int);
        }
        let nk = self.provider_keys.len();
        let mut i: usize = 0;
        #[verifier::loop_isolation(false)]
        while i < nk
            invariant
                i <= nk,
                nk == self.provider_keys@.len(),
                *self == *old(self),
                forall|k: int|
                    0 <= k < i ==> !((#[trigger] self.provider_keys@[k]@).provider_id == row@.provider_id
                        && self.provider_keys@[k]@.name == name@),
                0 <= w < self.providers@.len(),
                row@.provider_id == self.spec_providers()[w as int]@.id,
                row@.name == name@,
                row@.nonce.len() == 12,
                aead_open(self.spec_crypto().spec_key(), row@.nonce, row@.encrypted_value)
                    == Option::Some(value@),
            decreases nk - i,
        {
            let hit = str_eq(self.provider_keys[i].provider_id.as_str(), row.provider_id.as_str())
                && str_eq(self.provider_keys[i].name.as_str(), name);
            if hit {
                let _old_row = self.provider_keys.remove(i);
                let ghost rowv = row@;
                self.provider_keys.insert(i, row);
                proof {
                    assert(self.spec_provider_keys() =~= old(self).spec_provider_keys().update(
                        i as int,
                        self.spec_provider_keys()[i as int],
                    ));
                    lemma_key_entry_determined(
                        self.spec_provider_keys(),
                        rowv.provider_id,
                        name@,
                        i as int,
                    );
                    carry_cache_and_tokens(*old(self), *self);
                    assert(self.subs_ok());
                    assert(self.cache_ok());
                    assert(self.users_ok());
                    assert(self.providers_ok());
                    assert(self.tokens_ok());
                    assert(self.upstreams_ok());
                    assert(self.keys_ok());
                    assert(self.wf());
                }
                return Ok(());
            }
            i = i + 1;
        }
        let ghost rowv = row@;
        self.provider_keys.push(row);
        proof {
            assert(self.spec_provider_keys().subrange(
                0,
                old(self).spec_provider_keys().len() as int,
            ) =~= old(self).spec_provider_keys());
            let last = self.spec_provider_keys().len() - 1;
            assert forall|a: int, b: int|
                #![trigger self.spec_provider_keys()[a], self.spec_provider_keys()[b]]
                0 <= a < b < self.spec_provider_keys().len() implies !(
            self.spec_provider_keys()[a]@.provider_id
                == self.spec_provider_keys()[b]@.provider_id && self.spec_provider_keys()[a]@.name
                == self.spec_provider_keys()[b]@.name) by {
                if b < last {
                    assert(self.spec_provider_keys()[a] == old(self).spec_provider_keys()[a]);
                    assert(self.spec_provider_keys()[b] == old(self).spec_provider_keys()[b]);
                } else {
                    assert(self.spec_provider_keys()[a] == old(self).spec_provider_keys()[a]);
                }
            }
            lemma_key_entry_determined(
                self.spec_provider_keys(),
                rowv.provider_id,
                name@,
                last,
            );
            carry_cache_and_tokens(*old(self), *self);
            assert(self.subs_ok());
            assert(self.cache_ok());
            assert(self.users_ok());
            assert(self.providers_ok());
            assert(self.tokens_ok());
            assert(self.upstreams_ok());
            assert(self.keys_ok());
            assert(self.wf());
        }
        Ok(())
    }

    /// Index of the first provider row carrying this slug.
    #[verifier::loop_isolation(false)]
    fn provider_index_by_slug(&self, slug: &str) -> (r: Option<usize>)
        ensures
            (r matches Some(i) ==> {
                &&& 0 <= i < self.spec_providers().len()
                &&& (#[trigger] self.spec_providers()[i as int]@).slug == slug@
            }),
            r is None ==> forall|i: int|
                0 <= i < self.spec_providers().len() ==> (
                #[trigger] self.spec_providers()[i]@).slug != slug@,
            r is None <==> spec_provider_id_of(self.spec_providers(), slug@) is None,
    {
        let n = self.providers.len();
        let mut i: usize = 0;
        while i < n
            invariant
                i <= n,
                forall|k: int| 0 <= k < i ==> (#[trigger] self.providers@[k]@).slug != slug@,
            decreases n - i,
        {
            if str_eq(self.providers[i].slug.as_str(), slug) {
                proof {
                    assert((self.spec_providers()[i as int]@).slug == slug@);
                }
                return Some(i);
            }
            i = i + 1;
        }
        None
    }

    /// Decrypt and return the stored key of `(provider, name)`, or
    /// nothing when either the provider or the key is unknown.
    pub fn fetch_provider_key(&self, provider_slug: &str, name: &str) -> (r: Result<
        Option<Vec<u8>>,
        StoreError,
    >)
        requires
            self.wf(),
        ensures
            match spec_provider_id_of(self.spec_providers(), provider_slug@) {
                Option::None => r == Result::<Option<Vec<u8>>, StoreError>::Ok(Option::None),
                Option::Some(pid) => match spec_key_entry(
                    self.spec_provider_keys(),
                    pid,
                    name@,
                ) {
                    Option::None => r == Result::<Option<Vec<u8>>, StoreError>::Ok(Option::None),
                    Option::Some(kv) => r matches Ok(p) && p matches Some(v) && aead_open(
                        self.spec_crypto().spec_key(),
                        kv.nonce,
                        kv.encrypted_value,
                    ) == Option::Some(v@),
                },
            },
    {
        let w = match self.provider_index_by_slug(provider_slug) {
            Some(w) => w,
            None => {
                return Ok(None);
            },
        };
        proof {
            lemma_provider_id_determined(self.spec_providers(), provider_slug@, w as int);
        }
        let nk = self.provider_keys.len();
        let mut i: usize = 0;
        #[verifier::loop_isolation(false)]
        while i < nk
            invariant
                i <= nk,
                forall|k: int|
                    0 <= k < i ==> !((#[trigger] self.provider_keys@[k]@).provider_id
                        == self.spec_providers()[w as int]@.id && self.provider_keys@[k]@.name
                        == name@),
            decreases nk - i,
        {
            let hit = str_eq(
                self.provider_keys[i].provider_id.as_str(),
                self.providers[w].id.as_str(),
            ) && str_eq(self.provider_keys[i].name.as_str(), name);
            if hit {
                proof {
                    lemma_key_entry_determined(
                        self.spec_provider_keys(),
                        self.spec_providers()[w as int]@.id,
                        name@,
                        i as int,
                    );
                }
                let plain = match self.crypto.decrypt(
                    self.provider_keys[i].nonce.as_slice(),
                    self.provider_keys[i].encrypted_value.as_slice(),
                ) {
                    Ok(p) => p,
                    Err(_) => {
                        proof {
                            assert(false);
                        }
                        Vec::new()
                    },
                };
                return Ok(Some(plain));
            }
            i = i + 1;
        }
        proof {
            lemma_key_entry_absent(
                self.spec_provider_keys(),
                self.spec_providers()[w as int]@.id,
                name@,
            );
        }
        Ok(None)
    }

    /// Create or replace an upstream record, keyed by name.
    #[verifier::rlimit(100)]
    #[verifier::spinoff_prover]
    pub fn upsert_upstream(&mut self, upstream: &UpstreamRecord) -> (r: Result<(), StoreError>)
        requires
            old(self).wf(),
        ensures
            final(self).wf(),
            r is Ok,
            final(self).spec_subs() == old(self).spec_subs(),
            final(self).spec_cache() == old(self).spec_cache(),
            final(self).spec_usage() == old(self).spec_usage(),
            final(self).spec_users() == old(self).spec_users(),
            final(self).spec_tokens() == old(self).spec_tokens(),
            final(self).spec_providers() == old(self).spec_providers(),
            final(self).spec_provider_keys() == old(self).spec_provider_keys(),
            final(self).spec_crypto() == old(self).spec_crypto(),
            (exists|i: int|
                0 <= i < old(self).spec_upstreams().len() && (#[trigger] old(
                    self,
                ).spec_upstreams()[i]@).name == upstream@.name) ==> {
                &&& final(self).spec_upstreams().len() == old(self).spec_upstreams().len()
                &&& forall|k: int|
                    0 <= k < old(self).spec_upstreams().len() ==> if (#[trigger] old(
                        self,
                    ).spec_upstreams()[k]@).name == upstream@.name {
                        final(self).spec_upstreams()[k]@ == upstream@
                    } else {
                        final(self).spec_upstreams()[k] == old(self).spec_upstreams()[k]
                    }
            },
            (forall|i: int|
                0 <= i < old(self).spec_upstreams().len() ==> (#[trigger] old(
                    self,
                ).spec_upstreams()[i]@).name != upstream@.name) ==> {
                &&& final(self).spec_upstreams().len() == old(self).spec_upstreams().len() + 1
                &&& final(self).spec_upstreams().subrange(
                    0,
                    old(self).spec_upstreams().len() as int,
                ) == old(self).spec_upstreams()
                &&& final(self).spec_upstreams().last()@ == upstream@
            },
    {
        let nu = self.upstreams.len();
        let mut i: usize = 0;
        #[verifier::loop_isolation(false)]
        while i < nu
            invariant
                i <= nu,
                nu == self.upstreams@.len(),
                *self == *old(self),
                forall|k: int| 0 <= k < i ==> (#[trigger] self.upstreams@[k]@).name
                    != upstream@.name,
            decreases nu - i,
        {
            if str_eq(self.upstreams[i].name.as_str(), upstream.name.as_str()) {
                let row = upstream.clone();
                let _old_row = self.upstreams.remove(i);
                self.upstreams.insert(i, row);
                proof {
                    assert(self.spec_upstreams() =~= old(self).spec_upstreams().update(
                        i as int,
                        self.spec_upstreams()[i as int],
                    ));
                    carry_cache_and_tokens(*old(self), *self);
                    assert(self.subs_ok());
                    assert(self.cache_ok());
                    assert(self.users_ok());
                    assert(self.providers_ok());
                    assert(self.tokens_ok());
                    assert(self.upstreams_ok());
                    assert(self.keys_ok());
                    assert(self.wf());
                }
                return Ok(());
            }
            i = i + 1;
        }
        let row = upstream.clone();
        self.upstreams.push(row);
        proof {
            assert(self.spec_upstreams().subrange(0, old(self).spec_upstreams().len() as int)
                =~= old(self).spec_upstreams());
            let last = self.spec_upstreams().len() - 1;
            assert forall|a: int, b: int|
                0 <= a < b < self.spec_upstreams().len() implies self.spec_upstreams()[a]@.name
                != self.spec_upstreams()[b]@.name by {
                if b < last {
                    assert(self.spec_upstreams()[a] == old(self).spec_upstreams()[a]);
                    assert(self.spec_upstreams()[b] == old(self).spec_upstreams()[b]);
                } else {
                    assert(self.spec_upstreams()[a] == old(self).spec_upstreams()[a]);
                    assert(self.spec_upstreams()[b]@.name == upstream@.name);
                }
            }
            carry_cache_and_tokens(*old(self), *self);
            assert(self.subs_ok());
            assert(self.cache_ok());
            assert(self.users_ok());
            assert(self.providers_ok());
            assert(self.tokens_ok());
            assert(self.upstreams_ok());
            assert(self.keys_ok());
            assert(self.wf());
        }
        Ok(())
    }

    /// The encrypted key rows as persisted: ciphertext and nonce only,
    /// never plaintext.
    pub fn list_provider_keys(&self) -> (r: Vec<ProviderKeyRecord>)
        ensures
            r@.len() == self.spec_provider_keys().len(),
            forall|i: int|
                0 <= i < r@.len() ==> (#[trigger] r@[i]@) == self.spec_provider_keys()[i]@,
    {
        let mut out: Vec<ProviderKeyRecord> = Vec::new();
        let n = self.provider_keys.len();
        let mut i: usize = 0;
        #[verifier::loop_isolation(false)]
        while i < n
            invariant
                i <= n,
                out@.len() == i,
                forall|k: int| 0 <= k < i ==> (#[trigger] out@[k]@) == self.provider_keys@[k]@,
            decreases n - i,
        {
            out.push(self.provider_keys[i].clone());
            i = i + 1;
        }
        out
    }

    /// Record usage only when the counters can take it: the increment
    /// is skipped (and reported) where it would pass the integer
    /// bound, so callers need no bound of their own.
    pub fn try_record_usage(&mut self, user_id: &str, tokens: i64, provider: &str) -> (r: Result<
        (),
        StoreError,
    >)
        requires
            old(self).wf(),
            0 <= tokens,
        ensures
            final(self).wf(),
            Self::catalog_unchanged(*old(self), *final(self)),
            final(self).spec_subs().len() == old(self).spec_subs().len(),
    {
        let overflow = match find_sub_index(&self.subs, user_id) {
            Some(j) => {
                let row = &self.subs[j];
                row.tokens_used > i64::MAX - tokens || row.requests_used == i64::MAX
            },
            None => false,
        };
        if overflow {
            return Err(StoreError::Conflict);
        }
        self.record_usage(user_id, tokens, provider)
    }

    pub fn list_upstreams(&self) -> (r: Vec<UpstreamRecord>)
        ensures
            r@.len() == self.spec_upstreams().len(),
            forall|i: int| 0 <= i < r@.len() ==> (#[trigger] r@[i]@) == self.spec_upstreams()[i]@,
    {
        let mut out: Vec<UpstreamRecord> = Vec::new();
        let n = self.upstreams.len();
        let mut i: usize = 0;
        #[verifier::loop_isolation(false)]
        while i < n
            invariant
                i <= n,
                out@.len() == i,
                forall|k: int| 0 <= k < i ==> (#[trigger] out@[k]@) == self.upstreams@[k]@,
            decreases n - i,
        {
            out.push(self.upstreams[i].clone());
            i = i + 1;
        }
        out
    }
}

/// The identifier of the provider carrying `slug`, when one exists.
pub open spec fn spec_provider_id_of(providers: Seq<ProviderRecord>, slug: Seq<char>) -> Option<
    Seq<char>,
> {
    if exists|i: int| 0 <= i < providers.len() && (#[trigger] providers[i]@).slug == slug {
        let i = choose|i: int| 0 <= i < providers.len() && (#[trigger] providers[i]@).slug == slug;
        Option::Some(providers[i]@.id)
    } else {
        Option::None
    }
}

/// The stored key row of `(provider id, name)`, when one exists.
pub open spec fn spec_key_entry(
    keys: Seq<ProviderKeyRecord>,
    pid: Seq<char>,
    name: Seq<char>,
) -> Option<ProviderKeyV> {
    if exists|i: int|
        0 <= i < keys.len() && (#[trigger] keys[i]@).provider_id == pid && keys[i]@.name == name {
        let i = choose|i: int|
            0 <= i < keys.len() && (#[trigger] keys[i]@).provider_id == pid && keys[i]@.name
                == name;
        Option::Some(keys[i]@)
    } else {
        Option::None
    }
}

/// With unique slugs, the provider the spec chooses is the indexed one.
proof fn lemma_provider_id_determined(providers: Seq<ProviderRecord>, slug: Seq<char>, w: int)
    requires
        0 <= w < providers.len(),
        providers[w]@.slug == slug,
        forall|a: int, b: int| 0 <= a < b < providers.len() ==> providers[a]@.slug
            != providers[b]@.slug,
    ensures
        spec_provider_id_of(providers, slug) == Option::Some(providers[w]@.id),
{
    let c = choose|i: int| 0 <= i < providers.len() && (#[trigger] providers[i]@).slug == slug;
    if c != w {
        if c < w {
            assert(providers[c]@.slug != providers[w]@.slug);
        } else {
            assert(providers[w]@.slug != providers[c]@.slug);
        }
    }
}

/// With unique pairs, the key row the spec chooses is the indexed one.
proof fn lemma_key_entry_determined(
    keys: Seq<ProviderKeyRecord>,
    pid: Seq<char>,
    name: Seq<char>,
    w: int,
)
    requires
        0 <= w < keys.len(),
        keys[w]@.provider_id == pid,
        keys[w]@.name == name,
        forall|a: int, b: int|
            0 <= a < b < keys.len() ==> !(keys[a]@.provider_id == keys[b]@.provider_id
                && keys[a]@.name == keys[b]@.name),
    ensures
        spec_key_entry(keys, pid, name) == Option::Some(keys[w]@),
{
    let c = choose|i: int|
        0 <= i < keys.len() && (#[trigger] keys[i]@).provider_id == pid && keys[i]@.name == name;
    if c != w {
        if c < w {
            assert(!(keys[c]@.provider_id == keys[w]@.provider_id && keys[c]@.name
                == keys[w]@.name));
        } else {
            assert(!(keys[w]@.provider_id == keys[c]@.provider_id && keys[w]@.name
                == keys[c]@.name));
        }
    }
}

/// No row carries the pair, so the spec finds nothing.
proof fn lemma_key_entry_absent(keys: Seq<ProviderKeyRecord>, pid: Seq<char>, name: Seq<char>)
    requires
        forall|k: int|
            0 <= k < keys.len() ==> !((#[trigger] keys[k]@).provider_id == pid && keys[k]@.name
                == name),
    ensures
        spec_key_entry(keys, pid, name) is None,
{
}

/// Carry the cache-matching fact across an operation that leaves the
/// subscription rows and the cache alone.
proof fn carry_cache_and_tokens(pre: SubscriptionStore, post: SubscriptionStore)
    requires
        pre.wf(),
        post.spec_cache() == pre.spec_cache(),
        post.spec_subs() == pre.spec_subs(),
        post.spec_tokens() == pre.spec_tokens(),
    ensures
        forall|i: int|
            0 <= i < post.spec_cache().len() ==> exists|j: int|
                {
                    &&& 0 <= j < post.spec_subs().len()
                    &&& (#[trigger] post.spec_cache()[i]@).user_id == post.spec_subs()[j]@.user_id
                    &&& post.spec_cache()[i]@ == post.spec_subs()[j]@
                },
        forall|a: int, b: int|
            0 <= a < b < post.spec_tokens().len() ==> post.spec_tokens()[a]@.id
                != post.spec_tokens()[b]@.id,
{
    assert forall|i: int| 0 <= i < post.spec_cache().len() implies exists|j: int|
        {
            &&& 0 <= j < post.spec_subs().len()
            &&& (#[trigger] post.spec_cache()[i]@).user_id == post.spec_subs()[j]@.user_id
            &&& post.spec_cache()[i]@ == post.spec_subs()[j]@
        } by {
        let q = choose|q: int|
            0 <= q < pre.spec_subs().len() && (#[trigger] pre.spec_cache()[i]@).user_id
                == pre.spec_subs()[q]@.user_id && pre.spec_cache()[i]@ == pre.spec_subs()[q]@;
        assert(0 <= q < post.spec_subs().len() && (post.spec_cache()[i]@).user_id
            == post.spec_subs()[q]@.user_id && post.spec_cache()[i]@ == post.spec_subs()[q]@);
    }
    assert forall|a: int, b: int|
        0 <= a < b < post.spec_tokens().len() implies post.spec_tokens()[a]@.id
        != post.spec_tokens()[b]@.id by {
        assert(pre.spec_tokens()[a]@.id != pre.spec_tokens()[b]@.id);
    }
}

/// Law: after usage is recorded for a user, the record the next fetch
/// of that user produces shows both counters advanced: the token
/// counter by the recorded amount, the request counter by one.
pub proof fn lemma_record_usage_then_get(
    pre: Seq<SubscriptionRecord>,
    post: Seq<SubscriptionRecord>,
    uid: Seq<char>,
    k: i64,
    rec: SubV,
)
    requires
        post.len() == pre.len(),
        forall|x: int|
            0 <= x < pre.len() && (#[trigger] pre[x]@).user_id == uid ==> post[x]@.tokens_used
                == pre[x]@.tokens_used + k && post[x]@.requests_used == pre[x]@.requests_used
                + 1,
        exists|j: int| 0 <= j < post.len() && (#[trigger] post[j]@).user_id == uid && rec
            == post[j]@,
        forall|x: int|
            0 <= x < pre.len() && (#[trigger] pre[x]@).user_id != uid ==> post[x] == pre[x],
    ensures
        exists|j: int|
            {
                &&& 0 <= j < pre.len()
                &&& (#[trigger] pre[j]@).user_id == uid
                &&& rec.tokens_used == pre[j]@.tokens_used + k
                &&& rec.requests_used == pre[j]@.requests_used + 1
            },
{
    let j = choose|j: int|
        0 <= j < post.len() && (#[trigger] post[j]@).user_id == uid && rec == post[j]@;
    if pre[j]@.user_id != uid {
        assert(post[j] == pre[j]);
        assert(false);
    }
}

/// Law: a provider key fetched right after it was stored decrypts to
/// the plaintext that was stored, for any provider the catalog holds.
pub fn store_then_fetch_provider_key(
    store: &mut SubscriptionStore,
    provider_slug: &str,
    name: &str,
    value: &[u8],
) -> (r: Vec<u8>)
    requires
        old(store).wf(),
        value@.len() <= MAX_PLAINTEXT_LEN,
        spec_provider_id_of(old(store).spec_providers(), provider_slug@) is Some,
    ensures
        r@ == value@,
{
    match store.store_provider_key(provider_slug, name, value) {
        Ok(()) => {},
        Err(_) => {
            proof {
                assert(false);
            }
        },
    }
    match store.fetch_provider_key(provider_slug, name) {
        Ok(Some(v)) => v,
        _ => {
            proof {
                assert(false);
            }
            Vec::new()
        },
    }
}

/// Cache entries that name no changed user still match the rows after
/// rows other than that user's are kept as they were.
proof fn lemma_cache_still_matches(
    cache: Seq<SubscriptionRecord>,
    subs_old: Seq<SubscriptionRecord>,
    subs_new: Seq<SubscriptionRecord>,
    uid: Seq<char>,
)
    requires
        forall|i: int|
            0 <= i < cache.len() ==> exists|j: int|
                {
                    &&& 0 <= j < subs_old.len()
                    &&& (#[trigger] cache[i]@).user_id == subs_old[j]@.user_id
                    &&& cache[i]@ == subs_old[j]@
                },
        forall|i: int| 0 <= i < cache.len() ==> (#[trigger] cache[i]@).user_id != uid,
        subs_new.len() == subs_old.len(),
        forall|k: int|
            0 <= k < subs_old.len() && (#[trigger] subs_old[k]@).user_id != uid ==> subs_new[k]
                == subs_old[k],
    ensures
        forall|i: int|
            0 <= i < cache.len() ==> exists|j: int|
                {
                    &&& 0 <= j < subs_new.len()
                    &&& (#[trigger] cache[i]@).user_id == subs_new[j]@.user_id
                    &&& cache[i]@ == subs_new[j]@
                },
{
    assert forall|i: int| 0 <= i < cache.len() implies exists|j: int|
        {
            &&& 0 <= j < subs_new.len()
            &&& (#[trigger] cache[i]@).user_id == subs_new[j]@.user_id
            &&& cache[i]@ == subs_new[j]@
        } by {
        let j = choose|j: int|
            0 <= j < subs_old.len() && (#[trigger] cache[i]@).user_id == subs_old[j]@.user_id
                && cache[i]@ == subs_old[j]@;
        assert(subs_old[j]@.user_id != uid);
        assert(subs_new[j] == subs_old[j]);
    }
}

/// The token counter of the row keyed by `uid`, when one exists.
pub open spec fn choose_old_tokens(subs: Seq<SubscriptionRecord>, uid: Seq<char>) -> i64 {
    let j = choose|j: int| 0 <= j < subs.len() && (#[trigger] subs[j]@).user_id == uid;
    subs[j]@.tokens_used
}

/// The request counter of the row keyed by `uid`, when one exists.
pub open spec fn choose_old_requests(subs: Seq<SubscriptionRecord>, uid: Seq<char>) -> i64 {
    let j = choose|j: int| 0 <= j < subs.len() && (#[trigger] subs[j]@).user_id == uid;
    subs[j]@.requests_used
}

/// With unique keys, the chosen row is the indexed row.
proof fn lemma_choose_counters(subs: Seq<SubscriptionRecord>, uid: Seq<char>, j: int)
    requires
        0 <= j < subs.len(),
        subs[j]@.user_id == uid,
        forall|a: int, b: int| 0 <= a < b < subs.len() ==> subs[a]@.user_id != subs[b]@.user_id,
    ensures
        choose_old_tokens(subs, uid) == subs[j]@.tokens_used,
        choose_old_requests(subs, uid) == subs[j]@.requests_used,
{
    let w = choose|w: int| 0 <= w < subs.len() && (#[trigger] subs[w]@).user_id == uid;
    assert(0 <= w < subs.len() && subs[w]@.user_id == uid);
    if w != j {
        if w < j {
            assert(subs[w]@.user_id != subs[j]@.user_id);
        } else {
            assert(subs[j]@.user_id != subs[w]@.user_id);
        }
    }
}

} // verus!
