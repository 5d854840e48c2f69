//! The router core: method dispatch, aggregation with namespacing, the
//! subscription gate and the tool-call path.
//!
//! Everything here is a decision over plain values. Where the original
//! control flow awaits a backend, the function returns what to do —
//! which upstream to call with which request — and a `finish_*`
//! function turns the backend's answer into the client's response; the
//! shell around the library performs the calls.

use vstd::prelude::*;

use crate::auth::AuthConfig;
use crate::config::{Config, UpstreamCommand, UpstreamKind};
use crate::json::{
    spec_as_int, spec_as_str, spec_fields_get, spec_first_idx, spec_get, str_eq, Json,
};
use crate::jsonrpc::{ErrorObject, Id, Request, Response};
use crate::subs::{clone_opt_string, clone_string_vec, EnforcementError, SubscriptionStore};
use crate::subs::opt_view;
use crate::upstream::{
    lemma_kind_label, registered_entry_hv, spec_cmd_refusal, spec_hv_of_cmd,
    spec_hv_of_registration, spec_lower_u32s, RegistryError, UpstreamHandle,
    UpstreamRegistration, UpstreamRegistry,
};
use crate::util::{find_char_from, spec_decode_resource_uri, spec_find_char};

verus! {

/// The server prefix and local remainder of `"<server>/<local>"`; only
/// the first `/` splits, so the local name may itself hold slashes.
pub fn split_namespace(value: &str) -> (r: Option<(String, String)>)
    ensures
        match r {
            Option::Some((server, local)) => {
                &&& spec_find_char(value@, '/') matches Some(k)
                &&& server@ == value@.subrange(0, spec_find_char(value@, '/').unwrap())
                &&& local@ == value@.skip(spec_find_char(value@, '/').unwrap() + 1)
            },
            Option::None => spec_find_char(value@, '/') is None,
        },
{
    let n = value.unicode_len();
    match find_char_from(value, 0, '/') {
        Some(k) => {
            proof {
                assert(value@.skip(0) =~= value@);
                crate::util::lemma_find_char_skip_some(value@, 0, '/', k as int);
            }
            let server = value.substring_char(0, k).to_owned();
            let local = value.substring_char(k + 1, n).to_owned();
            proof {
                assert(value@.subrange(k + 1, n as int) =~= value@.skip(k + 1));
            }
            Some((server, local))
        },
        None => {
            proof {
                assert(value@.skip(0) =~= value@);
                crate::util::lemma_find_char_skip_none(value@, 0, '/');
            }
            None
        },
    }
}

/// The canonical code of a subscription-gate failure.
pub fn enforcement_code(e: EnforcementError) -> (r: i32)
    ensures
        r == spec_enforcement_code(e),
{
    match e {
        EnforcementError::NoSubscription => -32050,
        EnforcementError::Expired => -32051,
        EnforcementError::RequestsExceeded => -32052,
        EnforcementError::TokensExceeded => -32053,
    }
}

pub open spec fn spec_enforcement_code(e: EnforcementError) -> i32 {
    match e {
        EnforcementError::NoSubscription => -32050i32,
        EnforcementError::Expired => -32051i32,
        EnforcementError::RequestsExceeded => -32052i32,
        EnforcementError::TokensExceeded => -32053i32,
    }
}

/// The items a backend contributed under `key`, or nothing for a
/// failed or shapeless response.
pub open spec fn seg_of(resp: Option<Json>, key: Seq<char>) -> Seq<Json> {
    match resp {
        Option::Some(j) => match spec_get(j, key) {
            Option::Some(Json::Arr(items)) => items@,
            _ => Seq::empty(),
        },
        Option::None => Seq::empty(),
    }
}

/// The aggregate is exactly the backends' contributions in order, each
/// item transformed per `item_ok`, failed backends contributing
/// nothing and never failing the rest.
pub open spec fn agg_ok(
    contribs: Seq<(String, Option<Json>)>,
    out: Seq<Json>,
    key: Seq<char>,
    item_ok: spec_fn(Seq<char>, Json, Json) -> bool,
) -> bool
    decreases contribs.len(),
{
    if contribs.len() == 0 {
        out.len() == 0
    } else {
        let seg = seg_of(contribs[0].1, key);
        &&& out.len() >= seg.len()
        &&& (forall|i: int| 0 <= i < seg.len() ==> item_ok(contribs[0].0@, seg[i], #[trigger] out[i]))
        &&& agg_ok(contribs.skip(1), out.skip(seg.len() as int), key, item_ok)
    }
}

/// Appending one backend's transformed contribution extends a correct
/// aggregate.
proof fn lemma_agg_extend(
    contribs: Seq<(String, Option<Json>)>,
    out: Seq<Json>,
    c: (String, Option<Json>),
    seg_out: Seq<Json>,
    key: Seq<char>,
    item_ok: spec_fn(Seq<char>, Json, Json) -> bool,
)
    requires
        agg_ok(contribs, out, key, item_ok),
        seg_out.len() == seg_of(c.1, key).len(),
        forall|i: int|
            0 <= i < seg_out.len() ==> item_ok(c.0@, seg_of(c.1, key)[i], #[trigger] seg_out[i]),
    ensures
        agg_ok(contribs.push(c), out + seg_out, key, item_ok),
    decreases contribs.len(),
{
    if contribs.len() == 0 {
        assert(out.len() == 0);
        assert(out + seg_out =~= seg_out);
        let cs = contribs.push(c);
        assert(cs[0] == c);
        assert(cs.skip(1) =~= Seq::<(String, Option<Json>)>::empty());
        assert(seg_out.skip(seg_of(c.1, key).len() as int) =~= Seq::<Json>::empty());
        assert forall|i: int| 0 <= i < seg_of(c.1, key).len() implies item_ok(
            cs[0].0@,
            seg_of(cs[0].1, key)[i],
            #[trigger] (out + seg_out)[i],
        ) by {
            assert((out + seg_out)[i] == seg_out[i]);
        }
        assert(agg_ok(Seq::<(String, Option<Json>)>::empty(), Seq::<Json>::empty(), key, item_ok));
        assert((out + seg_out).skip(seg_of(c.1, key).len() as int) =~= Seq::<Json>::empty());
        assert(agg_ok(
            cs.skip(1),
            (out + seg_out).skip(seg_of(cs[0].1, key).len() as int),
            key,
            item_ok,
        ));
        assert(agg_ok(cs, out + seg_out, key, item_ok));
    } else {
        let seg0 = seg_of(contribs[0].1, key);
        lemma_agg_extend(
            contribs.skip(1),
            out.skip(seg0.len() as int),
            c,
            seg_out,
            key,
            item_ok,
        );
        let cs = contribs.push(c);
        assert(cs[0] == contribs[0]);
        assert(cs.skip(1) =~= contribs.skip(1).push(c));
        assert((out + seg_out).skip(seg0.len() as int) =~= out.skip(seg0.len() as int) + seg_out);
        assert forall|i: int| 0 <= i < seg0.len() implies item_ok(
            cs[0].0@,
            seg0[i],
            #[trigger] (out + seg_out)[i],
        ) by {
            assert((out + seg_out)[i] == out[i]);
        }
    }
}

/// How tool and prompt names are namespaced: an item whose `name` is a
/// string without `/` gets `"<server>/"` in front; everything else
/// passes through unchanged.
pub open spec fn spec_namespaced(server: Seq<char>, old: Json, new: Json) -> bool {
    match spec_as_str(spec_get(old, "name"@)) {
        Option::Some(n) => if n.contains('/') {
            new == old
        } else {
            match (old, new) {
                (Json::Obj(of), Json::Obj(nf)) => spec_replaced_strval(
                    of@,
                    nf@,
                    "name"@,
                    server + "/"@ + n,
                ),
                _ => false,
            }
        },
        Option::None => new == old,
    }
}

/// How resource URIs are rewritten: an item whose `uri` is a string
/// gets the router-scheme form; everything else passes through.
pub open spec fn spec_uri_rewritten(server: Seq<char>, old: Json, new: Json) -> bool {
    match spec_as_str(spec_get(old, "uri"@)) {
        Option::Some(u) => match (old, new) {
            (Json::Obj(of), Json::Obj(nf)) => spec_replaced_strval(
                of@,
                nf@,
                "uri"@,
                crate::util::spec_encode_resource_uri(server, u),
            ),
            _ => false,
        },
        Option::None => new == old,
    }
}

/// Like `spec_replaced`, pinning the new value to a string of the
/// given characters.
pub open spec fn spec_replaced_strval(
    oldf: Seq<(String, Json)>,
    newf: Seq<(String, Json)>,
    key: Seq<char>,
    sval: Seq<char>,
) -> bool {
    &&& newf.len() == oldf.len()
    &&& forall|i: int| 0 <= i < oldf.len() ==> (#[trigger] newf[i]).0 == oldf[i].0
    &&& forall|i: int|
        0 <= i < oldf.len() && i != spec_first_idx(oldf, key) ==> (#[trigger] newf[i]).1
            == oldf[i].1
    &&& (spec_fields_get(oldf, key) is Some ==> (newf[spec_first_idx(oldf, key)].1 matches Json::Str(s)
        && s@ == sval))
}

/// Prefix an item's local name with its server's namespace.
fn namespace_item(server: &str, item: Json) -> (r: Json)
    ensures
        spec_namespaced(server@, item, r),
{
    let renamed: Option<String> = match item.get("name") {
        Some(j) => match j {
            Json::Str(s) => match find_char_from(s.as_str(), 0, '/') {
                Some(_) => None,
                None => Some(server.to_owned().concat("/").concat(s.as_str())),
            },
            _ => None,
        },
        None => None,
    };
    match renamed {
        Some(n) => {
            let mut it = item;
            it.set_field("name", Json::Str(n));
            it
        },
        None => item,
    }
}

/// Rewrite an item's resource URI to the router scheme.
fn rewrite_uri_item(server: &str, item: Json) -> (r: Json)
    ensures
        spec_uri_rewritten(server@, item, r),
{
    let rewritten: Option<String> = match item.get("uri") {
        Some(j) => match j {
            Json::Str(u) => Some(crate::util::encode_resource_uri(server, u.as_str())),
            _ => None,
        },
        None => None,
    };
    match rewritten {
        Some(u) => {
            let mut it = item;
            it.set_field("uri", Json::Str(u));
            it
        },
        None => item,
    }
}

/// Take the array a backend contributed under `key`, if its response
/// has that shape.
fn extract_items(resp: Option<Json>, key: &str) -> (r: Vec<Json>)
    ensures
        r@ == seg_of(resp, key@),
{
    match resp {
        None => Vec::new(),
        Some(j) => match j {
            Json::Obj(fields) => {
                let mut fields = fields;
                let n = fields.len();
                let mut i: usize = 0;
                let ghost f0 = fields@;
                #[verifier::loop_isolation(false)]
                while i < n
                    invariant
                        i <= n,
                        fields@ == f0,
                        n == f0.len(),
                        forall|k: int| 0 <= k < i ==> (#[trigger] f0[k]).0@ != key@,
                    decreases n - i,
                {
                    if str_eq(fields[i].0.as_str(), key) {
                        proof {
                            crate::json::lemma_first_idx(f0, key@, i as int);
                        }
                        let pair = fields.remove(i);
                        match pair.1 {
                            Json::Arr(items) => {
                                return items;
                            },
                            _ => {
                                return Vec::new();
                            },
                        }
                    }
                    i = i + 1;
                }
                proof {
                    assert(f0.skip(0) =~= f0);
                    crate::json::lemma_fields_get_none(f0, key@);
                }
                Vec::new()
            },
            _ => Vec::new(),
        },
    }
}

/// Aggregate `tools/list` contributions: every healthy backend's tools
/// in order, names namespaced; failures dropped.
pub fn aggregate_tools(contributions: Vec<(String, Option<Json>)>) -> (r: Json)
    ensures
        (r matches Json::Obj(fields) && fields@.len() == 1 && fields@[0].0@ == "tools"@ && (
        fields@[0].1 matches Json::Arr(items) && agg_ok(
            contributions@,
            items@,
            "tools"@,
            |s: Seq<char>, o: Json, n: Json| spec_namespaced(s, o, n),
        ))),
{
    let items = aggregate_named(contributions, "tools");
    let mut fields: Vec<(String, Json)> = Vec::new();
    fields.push(("tools".to_owned(), Json::Arr(items)));
    Json::Obj(fields)
}

/// Aggregate `prompts/list` contributions the same way.
pub fn aggregate_prompts(contributions: Vec<(String, Option<Json>)>) -> (r: Json)
    ensures
        (r matches Json::Obj(fields) && fields@.len() == 1 && fields@[0].0@ == "prompts"@ && (
        fields@[0].1 matches Json::Arr(items) && agg_ok(
            contributions@,
            items@,
            "prompts"@,
            |s: Seq<char>, o: Json, n: Json| spec_namespaced(s, o, n),
        ))),
{
    let items = aggregate_named(contributions, "prompts");
    let mut fields: Vec<(String, Json)> = Vec::new();
    fields.push(("prompts".to_owned(), Json::Arr(items)));
    Json::Obj(fields)
}

/// The shared fan-in for namespaced lists.
#[verifier::loop_isolation(false)]
fn aggregate_named(contributions: Vec<(String, Option<Json>)>, key: &str) -> (r: Vec<Json>)
    ensures
        agg_ok(
            contributions@,
            r@,
            key@,
            |s: Seq<char>, o: Json, n: Json| spec_namespaced(s, o, n),
        ),
{
    let ghost item_ok = |s: Seq<char>, o: Json, n: Json| spec_namespaced(s, o, n);
    let mut out: Vec<Json> = Vec::new();
    let mut rest = contributions;
    let ghost all = rest@;
    let ghost mut done = Seq::<(String, Option<Json>)>::empty();
    proof {
        assert(done + rest@ =~= all);
    }
    while rest.len() > 0
        invariant
            agg_ok(done, out@, key@, item_ok),
            done + rest@ == all,
        decreases rest@.len(),
    {
        let ghost out0 = out@;
        let pair = rest.remove(0);
        let ghost c = pair;
        let seg = extract_items(pair.1, key);
        let ghost seg0 = seg@;
        let mut seg_vec = seg;
        let server = pair.0;
        let mut seg_out: Vec<Json> = Vec::new();
        while seg_vec.len() > 0
            invariant
                seg_out@.len() + seg_vec@.len() == seg0.len(),
                seg_vec@ == seg0.skip(seg_out@.len() as int),
                forall|i: int|
                    0 <= i < seg_out@.len() ==> item_ok(server@, seg0[i], #[trigger] seg_out@[i]),
            decreases seg_vec@.len(),
        {
            proof {
                assert(seg_vec@[0] == seg0[seg_out@.len() as int]);
                assert(seg_vec@.skip(1) =~= seg0.skip(seg_out@.len() as int + 1));
            }
            let it = seg_vec.remove(0);
            let transformed = namespace_item(server.as_str(), it);
            seg_out.push(transformed);
        }
        proof {
            assert(seg0 == seg_of(c.1, key@));
            lemma_agg_extend(done, out0, c, seg_out@, key@, item_ok);
        }
        let ghost seg_out_v = seg_out@;
        out.append(&mut seg_out);
        proof {
            assert(out@ == out0 + seg_out_v);
            done = done.push(c);
            assert(done + rest@ =~= all);
        }
    }
    proof {
        assert(done =~= all);
    }
    out
}

/// Aggregate `resources/list` contributions: URIs rewritten to the
/// router scheme; failures dropped.
pub fn aggregate_resources(contributions: Vec<(String, Option<Json>)>) -> (r: Json)
    ensures
        (r matches Json::Obj(fields) && fields@.len() == 1 && fields@[0].0@ == "resources"@ && (
        fields@[0].1 matches Json::Arr(items) && agg_ok(
            contributions@,
            items@,
            "resources"@,
            |s: Seq<char>, o: Json, n: Json| spec_uri_rewritten(s, o, n),
        ))),
{
    let ghost item_ok = |s: Seq<char>, o: Json, n: Json| spec_uri_rewritten(s, o, n);
    let mut out: Vec<Json> = Vec::new();
    let mut rest = contributions;
    let ghost all = rest@;
    let ghost mut done = Seq::<(String, Option<Json>)>::empty();
    proof {
        assert(done + rest@ =~= all);
    }
    #[verifier::loop_isolation(false)]
    while rest.len() > 0
        invariant
            agg_ok(done, out@, "resources"@, item_ok),
            done + rest@ == all,
        decreases rest@.len(),
    {
        let ghost out0 = out@;
        let pair = rest.remove(0);
        let ghost c = pair;
        let seg = extract_items(pair.1, "resources");
        let ghost seg0 = seg@;
        let mut seg_vec = seg;
        let server = pair.0;
        let mut seg_out: Vec<Json> = Vec::new();
        #[verifier::loop_isolation(false)]
        while seg_vec.len() > 0
            invariant
                seg_out@.len() + seg_vec@.len() == seg0.len(),
                seg_vec@ == seg0.skip(seg_out@.len() as int),
                forall|i: int|
                    0 <= i < seg_out@.len() ==> item_ok(server@, seg0[i], #[trigger] seg_out@[i]),
            decreases seg_vec@.len(),
        {
            proof {
                assert(seg_vec@[0] == seg0[seg_out@.len() as int]);
                assert(seg_vec@.skip(1) =~= seg0.skip(seg_out@.len() as int + 1));
            }
            let it = seg_vec.remove(0);
            let transformed = rewrite_uri_item(server.as_str(), it);
            seg_out.push(transformed);
        }
        proof {
            assert(seg0 == seg_of(c.1, "resources"@));
            lemma_agg_extend(done, out0, c, seg_out@, "resources"@, item_ok);
        }
        let ghost seg_out_v = seg_out@;
        out.append(&mut seg_out);
        proof {
            assert(out@ == out0 + seg_out_v);
            done = done.push(c);
            assert(done + rest@ =~= all);
        }
    }
    proof {
        assert(done =~= all);
    }
    let mut fields: Vec<(String, Json)> = Vec::new();
    fields.push(("resources".to_owned(), Json::Arr(out)));
    Json::Obj(fields)
}

/// What the dispatcher decided: an immediate response, a fan-out, a
/// forward to one upstream, or a gated tool call.
pub enum RouteStep {
    Ready(Response),
    Initialize(Id),
    Aggregate(Id, ListKind),
    Forward { id: Id, server: String, request: Request },
    ToolCall(ToolPlan),
}

#[derive(Debug, PartialEq, Eq, Structural, Clone, Copy)]
pub enum ListKind {
    Tools,
    Prompts,
    Resources,
}

/// An admitted tool call: where it goes, who pays, and the
/// request to forward (the bare tool name in place of the namespaced
/// one).
pub struct ToolPlan {
    pub id: Id,
    pub server: String,
    pub tool: String,
    pub user: String,
    pub estimate: i64,
    pub stream: bool,
    pub request: Request,
}

/// Who a call is billed to: `params.user`, else
/// `params.account.user_id`, else the anonymous user.
pub open spec fn spec_user_of(params: Json) -> Seq<char> {
    match spec_as_str(spec_get(params, "user"@)) {
        Option::Some(u) => u,
        Option::None => match spec_get(params, "account"@) {
            Option::Some(acc) => match spec_as_str(spec_get(acc, "user_id"@)) {
                Option::Some(u) => u,
                Option::None => "anonymous"@,
            },
            Option::None => "anonymous"@,
        },
    }
}

/// The declared token cost: `params.usage.expected_tokens`, else
/// `params.tokens`; non-negative integers only, zero otherwise.
pub open spec fn spec_estimate_of(params: Json) -> i64 {
    let via_usage = match spec_get(params, "usage"@) {
        Option::Some(us) => spec_as_int(spec_get(us, "expected_tokens"@)),
        Option::None => Option::None,
    };
    match via_usage {
        Option::Some(i) => if i >= 0 {
            i
        } else {
            spec_estimate_fallback(params)
        },
        Option::None => spec_estimate_fallback(params),
    }
}

pub open spec fn spec_estimate_fallback(params: Json) -> i64 {
    match spec_as_int(spec_get(params, "tokens"@)) {
        Option::Some(i) => if i >= 0 {
            i
        } else {
            0i64
        },
        Option::None => 0i64,
    }
}

/// Whether the caller asked for streaming mode.
pub open spec fn spec_stream_of(params: Json) -> bool {
    spec_get(params, "stream"@) == Option::Some(Json::Bool(true))
}

/// The billed user, as stored text.
pub fn user_of(params: &Json) -> (r: String)
    ensures
        r@ == spec_user_of(*params),
{
    match params.get("user") {
        Some(j) => match j {
            Json::Str(u) => u.clone(),
            _ => user_of_account(params),
        },
        None => user_of_account(params),
    }
}

fn user_of_account(params: &Json) -> (r: String)
    requires
        spec_as_str(spec_get(*params, "user"@)) is None,
    ensures
        r@ == spec_user_of(*params),
{
    match params.get("account") {
        Some(acc) => match acc.get("user_id") {
            Some(j) => match j {
                Json::Str(u) => u.clone(),
                _ => "anonymous".to_owned(),
            },
            None => "anonymous".to_owned(),
        },
        None => "anonymous".to_owned(),
    }
}

/// The declared token cost of a call.
pub fn estimate_of(params: &Json) -> (r: i64)
    ensures
        r == spec_estimate_of(*params),
{
    match params.get("usage") {
        Some(us) => match us.get("expected_tokens") {
            Some(j) => match j {
                Json::Int(i) => {
                    if *i >= 0 {
                        *i
                    } else {
                        estimate_fallback(params)
                    }
                },
                _ => estimate_fallback(params),
            },
            None => estimate_fallback(params),
        },
        None => estimate_fallback(params),
    }
}

fn estimate_fallback(params: &Json) -> (r: i64)
    ensures
        r == spec_estimate_fallback(*params),
{
    match params.get("tokens") {
        Some(j) => match j {
            Json::Int(i) => {
                if *i >= 0 {
                    *i
                } else {
                    0
                }
            },
            _ => 0,
        },
        None => 0,
    }
}

/// Whether the caller asked for streaming mode.
pub fn stream_of(params: &Json) -> (r: bool)
    ensures
        r == spec_stream_of(*params),
{
    match params.get("stream") {
        Some(j) => match j {
            Json::Bool(b) => *b,
            _ => false,
        },
        None => false,
    }
}

/// One registered gateway: the upstream table, the store with the
/// quota gate, and the bearer configuration.
pub struct RouterState {
    pub registry: UpstreamRegistry,
    pub store: SubscriptionStore,
    pub auth: AuthConfig,
}

impl RouterState {
    pub open spec fn wf(&self) -> bool {
        &&& self.registry.wf()
        &&& self.store.wf()
    }

    /// Wire up a gateway: every configured upstream registered under
    /// its name.
    #[verifier::rlimit(100)]
    pub fn from_config(config: Config, store: SubscriptionStore, auth: AuthConfig) -> (r: Result<
        RouterState,
        RegistryError,
    >)
        requires
            store.wf(),
        ensures
            (forall|q: int|
                #![trigger config.upstreams@[q]]
                0 <= q < config.upstreams@.len() ==> spec_cmd_refusal(
                    config.upstreams@[q].0@,
                    config.upstreams@[q].1,
                ) is None) ==> r is Ok,
            (r matches Err(e) ==> exists|q: int|
                #![trigger config.upstreams@[q]]
                {
                    &&& 0 <= q < config.upstreams@.len()
                    &&& spec_cmd_refusal(config.upstreams@[q].0@, config.upstreams@[q].1)
                        == Option::Some(e)
                    &&& forall|p: int|
                        0 <= p < q ==> spec_cmd_refusal(
                            (#[trigger] config.upstreams@[p]).0@,
                            config.upstreams@[p].1,
                        ) is None
                }),
            (r matches Ok(st) ==> {
                &&& st.wf()
                &&& st.store == store
                &&& st.auth == auth
                &&& spec_registered_all(
                    Seq::empty(),
                    st.registry.spec_entries(),
                    config.upstreams@,
                )
            }),
    {
        let mut registry = UpstreamRegistry::new();
        let mut rest = config.upstreams;
        let ghost all = rest@;
        let ghost mut done: int = 0;
        proof {
            assert(all.take(0) =~= Seq::<(String, UpstreamCommand)>::empty());
            assert(registry.spec_entries() =~= Seq::<UpstreamHandle>::empty());
        }
        #[verifier::loop_isolation(false)]
        while rest.len() > 0
            invariant
                registry.wf(),
                0 <= done,
                done + rest@.len() == all.len(),
                rest@ == all.skip(done),
                spec_registered_all(
                    Seq::<UpstreamHandle>::empty(),
                    registry.spec_entries(),
                    all.take(done),
                ),
                forall|p: int|
                    #![trigger all[p]]
                    0 <= p < done ==> spec_cmd_refusal(all[p].0@, all[p].1) is None,
            decreases rest@.len(),
        {
            proof {
                assert(rest@[0] == all[done]);
                assert(rest@.skip(1) =~= all.skip(done + 1));
            }
            let pair = rest.remove(0);
            let ghost c = pair;
            let (name, cmd) = pair;
            let registration = UpstreamRegistration {
                name,
                kind: cmd.kind.as_str().to_owned(),
                command: cmd.command,
                args: cmd.args,
                url: cmd.url,
                bearer: cmd.bearer,
                provider_slug: cmd.provider_slug,
            };
            let ghost reg = registration;
            let ghost pre = registry.spec_entries();
            proof {
                lemma_kind_label(c.1.kind, reg.kind@);
            }
            match registry.register(registration) {
                Ok(()) => {},
                Err(e) => {
                    proof {
                        assert(spec_cmd_refusal(all[done].0@, all[done].1) == Option::Some(e));
                    }
                    return Err(e);
                },
            }
            proof {
                let rk = if spec_lower_u32s(reg.kind@) == spec_lower_u32s("http"@) {
                    UpstreamKind::Http
                } else {
                    UpstreamKind::Stdio
                };
                assert(rk == c.1.kind);
                assert(spec_hv_of_registration(reg, rk).args =~= spec_hv_of_cmd(c.0, c.1).args);
                assert(spec_hv_of_registration(reg, rk) =~= spec_hv_of_cmd(c.0, c.1));
                lemma_registered_all_extend(
                    Seq::<UpstreamHandle>::empty(),
                    pre,
                    registry.spec_entries(),
                    all.take(done),
                    c,
                );
                assert(all.take(done).push(c) =~= all.take(done + 1));
                done = done + 1;
            }
        }
        proof {
            assert(all.take(done) =~= all);
        }
        Ok(RouterState { registry, store, auth })
    }

    /// Register one more upstream and describe it.
    #[verifier::rlimit(100)]
    pub fn add_upstream(&mut self, name: String, command: UpstreamCommand) -> (r: Result<
        UpstreamSummary,
        RegistryError,
    >)
        requires
            old(self).wf(),
        ensures
            final(self).wf(),
            final(self).store == old(self).store,
            final(self).auth == old(self).auth,
            match spec_cmd_refusal(name@, command) {
                Option::Some(err) => r == Result::<UpstreamSummary, RegistryError>::Err(err)
                    && final(self).registry.spec_entries() == old(self).registry.spec_entries(),
                Option::None => {
                    &&& registered_entry_hv(
                        old(self).registry.spec_entries(),
                        final(self).registry.spec_entries(),
                        spec_hv_of_cmd(name, command),
                    )
                    &&& (r matches Ok(summary) && {
                        &&& summary.name@ == name@
                        &&& summary.kind == command.kind
                        &&& opt_view(summary.command) == opt_view(command.command)
                        &&& summary.args@.len() == command.args@.len()
                        &&& (forall|i: int|
                            0 <= i < command.args@.len() ==> (#[trigger] summary.args@[i]@)
                                == command.args@[i]@)
                        &&& opt_view(summary.url) == opt_view(command.url)
                        &&& summary.bearer == (command.bearer is Some)
                    })
                },
            },
    {
        let ghost name0 = name;
        let ghost cmd0 = command;
        let summary_command = clone_opt_string(&command.command);
        let summary_args = clone_string_vec(&command.args);
        let summary_url = clone_opt_string(&command.url);
        let has_bearer = command.bearer.is_some();
        let summary_name = name.clone();
        let registration = UpstreamRegistration {
            name,
            kind: command.kind.as_str().to_owned(),
            command: command.command,
            args: command.args,
            url: command.url,
            bearer: command.bearer,
            provider_slug: command.provider_slug,
        };
        let ghost reg = registration;
        let ghost pre = self.registry.spec_entries();
        proof {
            lemma_kind_label(cmd0.kind, reg.kind@);
        }
        let outcome = self.registry.register(registration);
        proof {
            let rk = if spec_lower_u32s(reg.kind@) == spec_lower_u32s("http"@) {
                UpstreamKind::Http
            } else {
                UpstreamKind::Stdio
            };
            assert(rk == cmd0.kind);
            if outcome is Ok {
                assert(spec_hv_of_registration(reg, rk).args =~= spec_hv_of_cmd(
                    name0,
                    cmd0,
                ).args);
                assert(spec_hv_of_registration(reg, rk) =~= spec_hv_of_cmd(name0, cmd0));
            }
        }
        match outcome {
            Ok(()) => Ok(
                UpstreamSummary {
                    name: summary_name,
                    kind: command.kind,
                    command: summary_command,
                    args: summary_args,
                    url: summary_url,
                    bearer: has_bearer,
                },
            ),
            Err(e) => Err(e),
        }
    }

    /// Decide a request. Local answers (parameter failures, quota
    /// refusals, unknown methods) come back `Ready`; everything else names the
    /// backend work to do. The response's id always echoes the
    /// request's.
    #[verifier::rlimit(100)]
    pub fn route_request(&mut self, request: Request) -> (r: RouteStep)
        requires
            old(self).wf(),
        ensures
            final(self).wf(),
            final(self).registry == old(self).registry,
            final(self).auth == old(self).auth,
            final(self).store.spec_subs() == old(self).store.spec_subs(),
            SubscriptionStore::catalog_unchanged(old(self).store, final(self).store),
            final(self).store.spec_usage() == old(self).store.spec_usage(),
            route_ok(*old(self), *final(self), request, r),
    {
        proof {
            broadcast use vstd::string::group_string_axioms;

            reveal_strlit("initialize");
            reveal_strlit("tools/list");
            reveal_strlit("prompts/list");
            reveal_strlit("resources/list");
            reveal_strlit("prompts/get");
            reveal_strlit("resources/read");
            reveal_strlit("tools/call");
            assert("initialize"@[0] == 'i');
            assert("tools/list"@[0] == 't');
            assert("prompts/list"@[0] == 'p');
            assert("resources/list"@[0] == 'r');
            assert("prompts/get"@[0] == 'p');
            assert("resources/read"@[0] == 'r');
            assert("tools/call"@[0] == 't');
            assert("tools/list"@[6] == 'l');
            assert("tools/call"@[6] == 'c');
            assert("prompts/list"@[8] == 'l');
            assert("prompts/get"@[8] == 'g');
            assert("resources/list"@[10] == 'l');
            assert("resources/read"@[10] == 'r');
        }
        let Request { jsonrpc, id, method, params } = request;
        if !str_eq(jsonrpc.as_str(), "2.0") {
            return RouteStep::Ready(
                Response::error(
                    id,
                    ErrorObject::custom(-32600, "invalid JSON-RPC version".to_owned(), None),
                ),
            );
        }
        if str_eq(method.as_str(), "initialize") {
            RouteStep::Initialize(id)
        } else if str_eq(method.as_str(), "tools/list") {
            RouteStep::Aggregate(id, ListKind::Tools)
        } else if str_eq(method.as_str(), "prompts/list") {
            RouteStep::Aggregate(id, ListKind::Prompts)
        } else if str_eq(method.as_str(), "resources/list") {
            RouteStep::Aggregate(id, ListKind::Resources)
        } else if str_eq(method.as_str(), "prompts/get") {
            let name: Option<String> = match params.get("name") {
                Some(j) => match j {
                    Json::Str(s) => Some(s.clone()),
                    _ => None,
                },
                None => None,
            };
            match name {
                None => RouteStep::Ready(
                    Response::error(id, ErrorObject::invalid_params("prompt name must be namespaced")),
                ),
                Some(n) => match split_namespace(n.as_str()) {
                    None => RouteStep::Ready(
                        Response::error(
                            id,
                            ErrorObject::invalid_params("prompt name must be namespaced"),
                        ),
                    ),
                    Some((server, local)) => {
                        let mut fields: Vec<(String, Json)> = Vec::new();
                        fields.push(("name".to_owned(), Json::Str(local)));
                        let fwd = Request::new("prompts/get", Json::Obj(fields));
                        RouteStep::Forward { id, server, request: fwd }
                    },
                },
            }
        } else if str_eq(method.as_str(), "resources/read") {
            let uri: Option<String> = match params.get("uri") {
                Some(j) => match j {
                    Json::Str(s) => Some(s.clone()),
                    _ => None,
                },
                None => None,
            };
            match uri {
                None => RouteStep::Ready(
                    Response::error(
                        id,
                        ErrorObject::custom(-32010, "resource read failed".to_owned(), None),
                    ),
                ),
                Some(u) => match crate::util::decode_resource_uri(u.as_str()) {
                    None => RouteStep::Ready(
                        Response::error(
                            id,
                            ErrorObject::custom(-32010, "resource read failed".to_owned(), None),
                        ),
                    ),
                    Some((server, original)) => {
                        let mut fields: Vec<(String, Json)> = Vec::new();
                        fields.push(("uri".to_owned(), Json::Str(original)));
                        let fwd = Request::new("resources/read", Json::Obj(fields));
                        RouteStep::Forward { id, server, request: fwd }
                    },
                },
            }
        } else if str_eq(method.as_str(), "tools/call") {
            self.plan_tool_call(id, params)
        } else {
            let message = "unknown method: ".to_owned().concat(method.as_str());
            RouteStep::Ready(Response::error(id, ErrorObject::custom(-32601, message, None)))
        }
    }

    /// The gated pre-flight of `tools/call`: parse the namespaced name,
    /// identify the payer, estimate the cost, and admit or refuse
    /// against the subscription.
    #[verifier::rlimit(100)]
    fn plan_tool_call(&mut self, id: Id, params: Json) -> (r: RouteStep)
        requires
            old(self).wf(),
        ensures
            final(self).wf(),
            final(self).registry == old(self).registry,
            final(self).auth == old(self).auth,
            final(self).store.spec_subs() == old(self).store.spec_subs(),
            SubscriptionStore::catalog_unchanged(old(self).store, final(self).store),
            final(self).store.spec_usage() == old(self).store.spec_usage(),
            tool_call_ok(*old(self), id, params, r),
    {
        let ghost params0 = params;
        let target: Option<String> = match params.get("name") {
            Some(j) => match j {
                Json::Str(s) => Some(s.clone()),
                _ => None,
            },
            None => None,
        };
        let t = match target {
            None => {
                return RouteStep::Ready(
                    Response::error(id, ErrorObject::invalid_params("tool name must be namespaced")),
                );
            },
            Some(t) => t,
        };
        let ghost tv = t@;
        let (server, tool) = match split_namespace(t.as_str()) {
            None => {
                return RouteStep::Ready(
                    Response::error(id, ErrorObject::invalid_params("tool name must be namespaced")),
                );
            },
            Some(pair) => pair,
        };
        let ghost kk = spec_find_char(tv, '/').unwrap();
        let user = user_of(&params);
        let estimate = estimate_of(&params);
        let ghost subs0 = self.store.spec_subs();
        let sub = self.store.get_subscription(user.as_str());
        let rec = match sub {
            None => {
                let e = EnforcementError::NoSubscription;
                let code = enforcement_code(e);
                return RouteStep::Ready(
                    Response::error(id, ErrorObject::custom(code, e.message().to_owned(), None)),
                );
            },
            Some(rec) => rec,
        };
        let ghost sv = rec@;
        proof {
            lemma_sub_of_found(subs0, user@, sv);
        }
        match rec.check_quota(estimate) {
            Err(e) => {
                let code = enforcement_code(e);
                let r = RouteStep::Ready(
                    Response::error(id, ErrorObject::custom(code, e.message().to_owned(), None)),
                );
                proof {
                    let now0 = choose|now: i64|
                        Result::<(), EnforcementError>::Err(e) == crate::subs::spec_check_quota(
                            sv,
                            estimate,
                            now,
                        );
                    assert(gate_outcome_ok(
                        sv,
                        estimate,
                        now0,
                        id,
                        params0,
                        tv.subrange(0, kk),
                        tv.skip(kk + 1),
                        user@,
                        r,
                    ));
                }
                r
            },
            Ok(()) => {
                let stream = stream_of(&params);
                let mut fwd_params = params;
                let tool_name = tool.clone();
                fwd_params.set_field("name", Json::Str(tool_name));
                let fwd = Request::new("tools/call", fwd_params);
                let r = RouteStep::ToolCall(
                    ToolPlan { id, server, tool, user, estimate, stream, request: fwd },
                );
                proof {
                    let now0 = choose|now: i64|
                        Result::<(), EnforcementError>::Ok(()) == crate::subs::spec_check_quota(
                            sv,
                            estimate,
                            now,
                        );
                    assert(gate_outcome_ok(
                        sv,
                        estimate,
                        now0,
                        id,
                        params0,
                        tv.subrange(0, kk),
                        tv.skip(kk + 1),
                        user@,
                        r,
                    ));
                }
                r
            },
        }
    }
}

/// With unique keys, the row a fetch returned is the row the spec
/// names for that user.
proof fn lemma_sub_of_found(
    subs: Seq<crate::subs::SubscriptionRecord>,
    uid: Seq<char>,
    sv: crate::subs::SubV,
)
    requires
        exists|j: int|
            0 <= j < subs.len() && (#[trigger] subs[j]@).user_id == uid && sv == subs[j]@,
        forall|a: int, b: int| 0 <= a < b < subs.len() ==> subs[a]@.user_id != subs[b]@.user_id,
        forall|i: int| 0 <= i < subs.len() ==> (#[trigger] subs[i]@).wf(),
    ensures
        spec_sub_of(subs, uid) == Option::Some(sv),
        sv.wf(),
{
    let j = choose|j: int|
        0 <= j < subs.len() && (#[trigger] subs[j]@).user_id == uid && sv == subs[j]@;
    let c = choose|c: int| 0 <= c < subs.len() && (#[trigger] subs[c]@).user_id == uid;
    if c != j {
        if c < j {
            assert(subs[c]@.user_id != subs[j]@.user_id);
        } else {
            assert(subs[j]@.user_id != subs[c]@.user_id);
        }
    }
}

/// A summary of a freshly added upstream, bearer reduced to presence.
pub struct UpstreamSummary {
    pub name: String,
    pub kind: UpstreamKind,
    pub command: Option<String>,
    pub args: Vec<String>,
    pub url: Option<String>,
    pub bearer: bool,
}

/// The bootstrap effect on the registry: the configured upstreams
/// registered one after another, each replacing a same-named entry in
/// place or appending a fresh one.
pub open spec fn spec_registered_all(
    pre: Seq<UpstreamHandle>,
    post: Seq<UpstreamHandle>,
    ups: Seq<(String, UpstreamCommand)>,
) -> bool
    decreases ups.len(),
{
    if ups.len() == 0 {
        post == pre
    } else {
        exists|mid: Seq<UpstreamHandle>|
            #[trigger] registered_entry_hv(pre, mid, spec_hv_of_cmd(ups[0].0, ups[0].1))
                && spec_registered_all(mid, post, ups.skip(1))
    }
}

/// One more successful registration extends the bootstrap chain.
proof fn lemma_registered_all_extend(
    e0: Seq<UpstreamHandle>,
    pre: Seq<UpstreamHandle>,
    post: Seq<UpstreamHandle>,
    done: Seq<(String, UpstreamCommand)>,
    c: (String, UpstreamCommand),
)
    requires
        spec_registered_all(e0, pre, done),
        registered_entry_hv(pre, post, spec_hv_of_cmd(c.0, c.1)),
    ensures
        spec_registered_all(e0, post, done.push(c)),
    decreases done.len(),
{
    let ds = done.push(c);
    if done.len() == 0 {
        assert(pre == e0);
        assert(ds[0] == c);
        assert(ds.skip(1) =~= Seq::<(String, UpstreamCommand)>::empty());
        assert(registered_entry_hv(e0, post, spec_hv_of_cmd(ds[0].0, ds[0].1)));
        assert(spec_registered_all(post, post, ds.skip(1)));
        assert(spec_registered_all(e0, post, ds));
    } else {
        let mid0 = choose|mid: Seq<UpstreamHandle>|
            #[trigger] registered_entry_hv(e0, mid, spec_hv_of_cmd(done[0].0, done[0].1))
                && spec_registered_all(mid, pre, done.skip(1));
        lemma_registered_all_extend(mid0, pre, post, done.skip(1), c);
        assert(ds[0] == done[0]);
        assert(ds.skip(1) =~= done.skip(1).push(c));
        assert(registered_entry_hv(e0, mid0, spec_hv_of_cmd(ds[0].0, ds[0].1)));
        assert(spec_registered_all(mid0, post, ds.skip(1)));
        assert(spec_registered_all(e0, post, ds));
    }
}

/// What dispatch promises, method by method. Every `Ready` response
/// echoes the request id; unknown methods carry -32601 and no result.
pub open spec fn route_ok(
    pre: RouterState,
    post: RouterState,
    request: Request,
    r: RouteStep,
) -> bool {
    if request.jsonrpc@ != "2.0"@ {
        ready_error(r, request.id, -32600)
    } else {
        route_method_ok(pre, post, request, r)
    }
}

/// What dispatch promises once the envelope's version checked out.
pub open spec fn route_method_ok(
    pre: RouterState,
    post: RouterState,
    request: Request,
    r: RouteStep,
) -> bool {
    let m = request.method@;
    &&& (m == "initialize"@ ==> r == RouteStep::Initialize(request.id))
    &&& (m == "tools/list"@ ==> r == RouteStep::Aggregate(request.id, ListKind::Tools))
    &&& (m == "prompts/list"@ ==> r == RouteStep::Aggregate(request.id, ListKind::Prompts))
    &&& (m == "resources/list"@ ==> r == RouteStep::Aggregate(request.id, ListKind::Resources))
    &&& (m == "prompts/get"@ ==> prompts_get_ok(request, r))
    &&& (m == "resources/read"@ ==> resources_read_ok(request, r))
    &&& (m == "tools/call"@ ==> tool_call_ok(pre, request.id, request.params, r))
    &&& (m != "initialize"@ && m != "tools/list"@ && m != "prompts/list"@ && m
        != "resources/list"@ && m != "prompts/get"@ && m != "resources/read"@ && m
        != "tools/call"@ ==> (r matches RouteStep::Ready(resp) && resp.jsonrpc@ == "2.0"@
        && resp.id == request.id && resp.result is None && (resp.error matches Some(e) && e.code
        == -32601 && e.message@ == "unknown method: "@ + m)))
}

/// `prompts/get` forwards `name = <local>` to `<server>`, and refuses
/// a missing or un-namespaced name with -32602.
pub open spec fn prompts_get_ok(request: Request, r: RouteStep) -> bool {
    match spec_as_str(spec_get(request.params, "name"@)) {
        Option::None => ready_error(r, request.id, -32602),
        Option::Some(n) => match spec_find_char(n, '/') {
            Option::None => ready_error(r, request.id, -32602),
            Option::Some(k) => (r matches RouteStep::Forward { id, server, request: fwd } && {
                &&& id == request.id
                &&& server@ == n.subrange(0, k)
                &&& fwd.method@ == "prompts/get"@
                &&& spec_as_str(spec_get(fwd.params, "name"@)) == Option::Some(n.skip(k + 1))
            }),
        },
    }
}

/// `resources/read` decodes the router URI and forwards the original;
/// anything that fails to decode is -32010.
pub open spec fn resources_read_ok(request: Request, r: RouteStep) -> bool {
    match spec_as_str(spec_get(request.params, "uri"@)) {
        Option::None => ready_error(r, request.id, -32010),
        Option::Some(u) => match spec_decode_resource_uri(u) {
            Option::None => ready_error(r, request.id, -32010),
            Option::Some((server, original)) => (r matches RouteStep::Forward {
                id,
                server: srv,
                request: fwd,
            } && {
                &&& id == request.id
                &&& srv@ == server
                &&& fwd.method@ == "resources/read"@
                &&& spec_as_str(spec_get(fwd.params, "uri"@)) == Option::Some(original)
            }),
        },
    }
}

/// The `tools/call` pre-flight: -32602 without a namespaced name;
/// -32050..-32053 when the subscription check refuses; otherwise a plan whose
/// forwarded request carries the bare tool name.
pub open spec fn tool_call_ok(pre: RouterState, id: Id, params: Json, r: RouteStep) -> bool {
    match spec_as_str(spec_get(params, "name"@)) {
        Option::None => ready_error(r, id, -32602),
        Option::Some(t) => match spec_find_char(t, '/') {
            Option::None => ready_error(r, id, -32602),
            Option::Some(k) => tool_call_named_ok(pre, id, params, t, k, r),
        },
    }
}

/// The pre-flight once the namespaced name is split at `k`.
pub open spec fn tool_call_named_ok(
    pre: RouterState,
    id: Id,
    params: Json,
    t: Seq<char>,
    k: int,
    r: RouteStep,
) -> bool {
    let server = t.subrange(0, k);
    let tool = t.skip(k + 1);
    let user = spec_user_of(params);
    let estimate = spec_estimate_of(params);
    match spec_sub_of(pre.store.spec_subs(), user) {
        Option::None => ready_error(r, id, -32050),
        Option::Some(s) => exists|now: i64|
            gate_outcome_ok(s, estimate, now, id, params, server, tool, user, r),
    }
}

/// The admission decision taken at one clock instant.
pub open spec fn gate_outcome_ok(
    s: crate::subs::SubV,
    estimate: i64,
    now: i64,
    id: Id,
    params: Json,
    server: Seq<char>,
    tool: Seq<char>,
    user: Seq<char>,
    r: RouteStep,
) -> bool {
    match crate::subs::spec_check_quota(s, estimate, now) {
        Result::Err(e) => ready_error(r, id, spec_enforcement_code(e) as int),
        Result::Ok(()) => (r matches RouteStep::ToolCall(plan) && {
            &&& plan.id == id
            &&& plan.server@ == server
            &&& plan.tool@ == tool
            &&& plan.user@ == user
            &&& plan.estimate == estimate
            &&& plan.stream == spec_stream_of(params)
            &&& plan.request.method@ == "tools/call"@
            &&& (params matches Json::Obj(of) ==> (plan.request.params matches Json::Obj(nf)
                && spec_replaced_strval(of@, nf@, "name"@, tool)))
        }),
    }
}

/// A `Ready` refusal with this code: a `2.0` envelope, id echoed, no
/// result.
pub open spec fn ready_error(r: RouteStep, id: Id, code: int) -> bool {
    r matches RouteStep::Ready(resp) && resp.jsonrpc@ == "2.0"@ && resp.id == id && resp.result
        is None && (resp.error matches Some(e) && e.code == code)
}

/// The subscription row of a user, as the store's view.
pub open spec fn spec_sub_of(
    subs: Seq<crate::subs::SubscriptionRecord>,
    uid: Seq<char>,
) -> Option<crate::subs::SubV> {
    if exists|j: int| 0 <= j < subs.len() && (#[trigger] subs[j]@).user_id == uid {
        let j = choose|j: int| 0 <= j < subs.len() && (#[trigger] subs[j]@).user_id == uid;
        Option::Some(subs[j]@)
    } else {
        Option::None
    }
}

/// The query parameters of the event-stream endpoint: the upstream to
/// watch and whatever else the client appended.
pub struct StreamParams {
    pub server: String,
    pub rest: Vec<(String, String)>,
}

/// The `initialize` answer: the advertised capabilities and, per
/// registered upstream, its self-reported info.
pub fn build_initialize_response(id: Id, infos: Vec<(String, Json)>) -> (r: Response)
    ensures
        r.jsonrpc@ == "2.0"@,
        r.id == id,
        r.error is None,
        (r.result matches Some(blob) && {
            &&& (spec_get(blob, "capabilities"@) matches Some(caps) && {
                &&& spec_get(caps, "tools"@) == Option::Some(Json::Bool(true))
                &&& spec_get(caps, "prompts"@) == Option::Some(Json::Bool(true))
                &&& spec_get(caps, "resources"@) == Option::Some(Json::Bool(true))
            })
            &&& (spec_get(blob, "upstreams"@) matches Some(Json::Arr(items)) && {
                &&& items@.len() == infos@.len()
                &&& forall|i: int|
                    0 <= i < infos@.len() ==> {
                        &&& spec_as_str(spec_get(#[trigger] items@[i], "name"@))
                            == Option::Some(infos@[i].0@)
                        &&& spec_get(items@[i], "info"@) == Option::Some(infos@[i].1)
                    }
            })
        }),
{
    proof {
        reveal_strlit("tools");
        reveal_strlit("prompts");
        reveal_strlit("resources");
        reveal_strlit("name");
        reveal_strlit("info");
        reveal_strlit("capabilities");
        reveal_strlit("upstreams");
        assert("tools"@[0] == 't' && "prompts"@[0] == 'p' && "resources"@[0] == 'r');
        assert("name"@[0] == 'n' && "info"@[0] == 'i');
        assert("capabilities"@[0] == 'c' && "upstreams"@[0] == 'u');
    }
    let mut caps: Vec<(String, Json)> = Vec::new();
    caps.push(("tools".to_owned(), Json::Bool(true)));
    caps.push(("prompts".to_owned(), Json::Bool(true)));
    caps.push(("resources".to_owned(), Json::Bool(true)));
    proof {
        let c = caps@;
        assert(c.skip(1)[0] == c[1]);
        assert(c.skip(1).skip(1)[0] == c[2]);
        assert(spec_fields_get(c.skip(1).skip(1), "resources"@) == Option::Some(c[2].1));
        assert(spec_fields_get(c.skip(1), "prompts"@) == Option::Some(c[1].1));
        assert(spec_fields_get(c.skip(1), "resources"@) == Option::Some(c[2].1));
        assert(spec_fields_get(c, "tools"@) == Option::Some(c[0].1));
        assert(spec_fields_get(c, "prompts"@) == Option::Some(c[1].1));
        assert(spec_fields_get(c, "resources"@) == Option::Some(c[2].1));
    }
    let caps_json = Json::Obj(caps);
    let mut items: Vec<Json> = Vec::new();
    let mut rest = infos;
    let ghost all = rest@;
    #[verifier::loop_isolation(false)]
    while rest.len() > 0
        invariant
            items@.len() + rest@.len() == all.len(),
            rest@ == all.skip(items@.len() as int),
            forall|i: int|
                0 <= i < items@.len() ==> {
                    &&& spec_as_str(spec_get(#[trigger] items@[i], "name"@)) == Option::Some(
                        all[i].0@,
                    )
                    &&& spec_get(items@[i], "info"@) == Option::Some(all[i].1)
                },
        decreases rest@.len(),
    {
        proof {
            assert(rest@[0] == all[items@.len() as int]);
            assert(rest@.skip(1) =~= all.skip(items@.len() as int + 1));
        }
        let (name, info) = rest.remove(0);
        let mut entry: Vec<(String, Json)> = Vec::new();
        entry.push(("name".to_owned(), Json::Str(name)));
        entry.push(("info".to_owned(), info));
        proof {
            let e = entry@;
            assert(e.skip(1)[0] == e[1]);
            assert(spec_fields_get(e.skip(1), "info"@) == Option::Some(e[1].1));
            assert(spec_fields_get(e, "name"@) == Option::Some(e[0].1));
            assert(spec_fields_get(e, "info"@) == Option::Some(e[1].1));
        }
        items.push(Json::Obj(entry));
    }
    let mut blob: Vec<(String, Json)> = Vec::new();
    blob.push(("capabilities".to_owned(), caps_json));
    blob.push(("upstreams".to_owned(), Json::Arr(items)));
    proof {
        let b = blob@;
        assert(b.skip(1)[0] == b[1]);
        assert(spec_fields_get(b.skip(1), "upstreams"@) == Option::Some(b[1].1));
        assert(spec_fields_get(b, "capabilities"@) == Option::Some(b[0].1));
        assert(spec_fields_get(b, "upstreams"@) == Option::Some(b[1].1));
        assert(all.skip(0) =~= all);
    }
    Response::result(id, Json::Obj(blob))
}

/// A usage event the shell should record after a successful call.
pub struct UsageReport {
    pub user: String,
    pub provider: String,
    pub tokens: i64,
}

/// Turn a forwarded `prompts/get` outcome into the client's response:
/// the upstream body verbatim under the client's id, or -32001.
pub fn finish_forward(id: Id, outcome: Result<Response, String>) -> (r: Response)
    ensures
        r.jsonrpc@ == "2.0"@,
        r.id == id,
        (outcome matches Ok(up) ==> r.result == up.result && r.error == up.error),
        (outcome matches Err(msg) ==> r.result is None && (r.error matches Some(e) && e.code
            == -32001 && e.message@ == "upstream error"@ && (e.data matches Some(d) && spec_as_str(
            spec_get(d, "error"@),
        ) == Option::Some(msg@)))),
{
    match outcome {
        Ok(up) => Response {
            jsonrpc: crate::jsonrpc::default_jsonrpc(),
            id,
            result: up.result,
            error: up.error,
        },
        Err(msg) => {
            let mut fields: Vec<(String, Json)> = Vec::new();
            fields.push(("error".to_owned(), Json::Str(msg)));
            Response::error(
                id,
                ErrorObject::custom(-32001, "upstream error".to_owned(), Some(Json::Obj(fields))),
            )
        },
    }
}

/// Turn a forwarded `resources/read` outcome into the client's
/// response: the upstream body verbatim, or -32010.
pub fn finish_read_resource(id: Id, outcome: Result<Response, String>) -> (r: Response)
    ensures
        r.jsonrpc@ == "2.0"@,
        r.id == id,
        (outcome matches Ok(up) ==> match up.result {
            Option::Some(v) => r.result == Option::Some(v) && r.error is None,
            Option::None => r.result is None && (r.error matches Some(e) && e.code == -32010
                && e.message@ == "resource read failed"@ && (e.data matches Some(d)
                && spec_as_str(spec_get(d, "error"@)) == Option::Some(
                    "upstream returned empty result"@,
                ))),
        }),
        (outcome matches Err(msg) ==> r.result is None && (r.error matches Some(e) && e.code
            == -32010 && e.message@ == "resource read failed"@ && (e.data matches Some(d)
            && spec_as_str(spec_get(d, "error"@)) == Option::Some(msg@)))),
{
    match outcome {
        Ok(up) => match up.result {
            Some(v) => Response::result(id, v),
            None => read_failed(id, "upstream returned empty result".to_owned()),
        },
        Err(msg) => read_failed(id, msg),
    }
}

/// The -32010 envelope: the read failed, with the cause as data.
fn read_failed(id: Id, cause: String) -> (r: Response)
    ensures
        r.jsonrpc@ == "2.0"@,
        r.id == id,
        r.result is None,
        (r.error matches Some(e) && e.code == -32010 && e.message@ == "resource read failed"@ && (
        e.data matches Some(d) && spec_as_str(spec_get(d, "error"@)) == Option::Some(cause@))),
{
    let mut fields: Vec<(String, Json)> = Vec::new();
    fields.push(("error".to_owned(), Json::Str(cause)));
    Response::error(
        id,
        ErrorObject::custom(-32010, "resource read failed".to_owned(), Some(Json::Obj(fields))),
    )
}

/// The billed cost of a successful call: the upstream's
/// `result.usage.total_tokens` when it is an integer, the estimate
/// otherwise.
pub open spec fn spec_actual_cost(result: Option<Json>, estimate: i64) -> i64 {
    match result {
        Option::Some(j) => match spec_get(j, "usage"@) {
            Option::Some(us) => match spec_as_int(spec_get(us, "total_tokens"@)) {
                Option::Some(c) => c,
                Option::None => estimate,
            },
            Option::None => estimate,
        },
        Option::None => estimate,
    }
}

/// Turn a forwarded `tools/call` outcome into the client's response
/// plus the usage to record: the upstream body verbatim and a positive
/// cost on success; -32001 and nothing to record on failure.
pub fn finish_tool_call(plan: ToolPlan, outcome: Result<Response, String>) -> (r: (
    Response,
    Option<UsageReport>,
))
    ensures
        r.0.jsonrpc@ == "2.0"@,
        r.0.id == plan.id,
        (outcome matches Ok(up) ==> {
            &&& r.0.result == up.result
            &&& r.0.error == up.error
            &&& ({
                let cost = spec_actual_cost(up.result, plan.estimate);
                if cost > 0 {
                    r.1 matches Some(rep) && rep.user@ == plan.user@ && rep.provider@
                        == plan.server@ && rep.tokens == cost
                } else {
                    r.1 is None
                }
            })
        }),
        (outcome matches Err(msg) ==> r.1 is None && r.0.result is None && (
        r.0.error matches Some(e) && e.code == -32001 && e.message@ == "upstream error"@ && (
        e.data matches Some(d) && spec_as_str(spec_get(d, "error"@)) == Option::Some(msg@)))),
{
    match outcome {
        Ok(up) => {
            let cost: i64 = match &up.result {
                Some(j) => match j.get("usage") {
                    Some(us) => match us.get("total_tokens") {
                        Some(c) => match c {
                            Json::Int(i) => *i,
                            _ => plan.estimate,
                        },
                        _ => plan.estimate,
                    },
                    None => plan.estimate,
                },
                None => plan.estimate,
            };
            let report = if cost > 0 {
                Some(UsageReport { user: plan.user, provider: plan.server, tokens: cost })
            } else {
                None
            };
            let resp = Response {
                jsonrpc: crate::jsonrpc::default_jsonrpc(),
                id: plan.id,
                result: up.result,
                error: up.error,
            };
            (resp, report)
        },
        Err(msg) => {
            let mut fields: Vec<(String, Json)> = Vec::new();
            fields.push(("error".to_owned(), Json::Str(msg)));
            let resp = Response::error(
                plan.id,
                ErrorObject::custom(-32001, "upstream error".to_owned(), Some(Json::Obj(fields))),
            );
            (resp, None)
        },
    }
}

} // verus!
