//! The upstream registry and the transport rules.
//!
//! A registered upstream is a named backend with exactly one operation:
//! `call(Request) -> Response`. The registry validates registrations
//! and answers lookups; the transports themselves (an HTTP client, a
//! child process on line-delimited JSON) are driven outside the
//! library, against the header rules and lifecycle decisions stated
//! here.

use vstd::prelude::*;

use crate::config::{UpstreamCommand, UpstreamKind};
use crate::json::str_eq;
use crate::jsonrpc::spec_ascii_lower;
use crate::subs::{clone_opt_string, clone_string_vec, opt_view};

verus! {

pub struct UpstreamRegistration {
    pub name: String,
    pub kind: String,
    pub command: Option<String>,
    pub args: Vec<String>,
    pub url: Option<String>,
    pub bearer: Option<String>,
    pub provider_slug: Option<String>,
}

/// The scalar values of a string, lower-cased where ASCII upper-case.
pub open spec fn spec_lower_u32s(s: Seq<char>) -> Seq<u32> {
    Seq::new(s.len(), |i: int| spec_ascii_lower(s[i] as u32))
}

impl UpstreamRegistration {
    /// The transport this registration names: `http` in any case
    /// spells the HTTP transport, anything else the stdio one.
    pub fn kind(&self) -> (r: UpstreamKind)
        ensures
            r == UpstreamKind::Http <==> spec_lower_u32s(self.kind@) == spec_lower_u32s("http"@),
            r == UpstreamKind::Http || r == UpstreamKind::Stdio,
    {
        if eq_ignore_ascii_case(self.kind.as_str(), "http") {
            UpstreamKind::Http
        } else {
            UpstreamKind::Stdio
        }
    }
}

/// Whether two strings agree once ASCII case is folded away.
pub fn eq_ignore_ascii_case(a: &str, b: &str) -> (r: bool)
    ensures
        r <==> spec_lower_u32s(a@) == spec_lower_u32s(b@),
{
    let n = a.unicode_len();
    let m = b.unicode_len();
    if n != m {
        proof {
            assert(spec_lower_u32s(a@).len() != spec_lower_u32s(b@).len());
        }
        return false;
    }
    let mut i: usize = 0;
    #[verifier::loop_isolation(false)]
    while i < n
        invariant
            i <= n,
            n == a@.len() && n == b@.len(),
            forall|k: int|
                0 <= k < i ==> spec_ascii_lower(#[trigger] (a@[k] as u32)) == spec_ascii_lower(
                    b@[k] as u32,
                ),
        decreases n - i,
    {
        let ca = a.get_char(i) as u32;
        let cb = b.get_char(i) as u32;
        let la = if 65 <= ca && ca <= 90 {
            ca + 32
        } else {
            ca
        };
        let lb = if 65 <= cb && cb <= 90 {
            cb + 32
        } else {
            cb
        };
        if la != lb {
            proof {
                assert(spec_lower_u32s(a@)[i as int] != spec_lower_u32s(b@)[i as int]);
            }
            return false;
        }
        i = i + 1;
    }
    proof {
        assert(spec_lower_u32s(a@) =~= spec_lower_u32s(b@));
    }
    true
}

/// One character of a registered upstream name: letters, digits,
/// hyphen, underscore. In particular never `/`, which keeps namespaced
/// names and router resource URIs splittable.
pub open spec fn spec_name_char(c: char) -> bool {
    ||| 'a' <= c <= 'z'
    ||| 'A' <= c <= 'Z'
    ||| '0' <= c <= '9'
    ||| c == '-'
    ||| c == '_'
}

/// A usable upstream name: non-empty and made of name characters.
pub open spec fn spec_valid_name(s: Seq<char>) -> bool {
    s.len() > 0 && forall|i: int| 0 <= i < s.len() ==> spec_name_char(#[trigger] s[i])
}

/// A valid name holds no slash.
pub proof fn lemma_valid_name_no_slash(s: Seq<char>)
    requires
        spec_valid_name(s),
    ensures
        !s.contains('/'),
{
    if s.contains('/') {
        let i = choose|i: int| 0 <= i < s.len() && s[i] == '/';
        assert(spec_name_char(s[i]));
    }
}

/// Check a name against the registered-name alphabet.
pub fn valid_upstream_name(name: &str) -> (r: bool)
    ensures
        r <==> spec_valid_name(name@),
{
    let n = name.unicode_len();
    if n == 0 {
        return false;
    }
    let mut i: usize = 0;
    #[verifier::loop_isolation(false)]
    while i < n
        invariant
            i <= n,
            forall|k: int| 0 <= k < i ==> spec_name_char(#[trigger] name@[k]),
        decreases n - i,
    {
        let c = name.get_char(i);
        let ok = (c >= 'a' && c <= 'z') || (c >= 'A' && c <= 'Z') || (c >= '0' && c <= '9') || c
            == '-' || c == '_';
        if !ok {
            return false;
        }
        i = i + 1;
    }
    true
}

#[derive(Debug, PartialEq, Eq, Structural, Clone, Copy)]
pub enum RegistryError {
    BadName,
    MissingCommand,
    MissingUrl,
}

impl RegistryError {
    pub fn message(&self) -> (r: &'static str)
        ensures
            match self {
                RegistryError::BadName => r@ == "invalid upstream name"@,
                RegistryError::MissingCommand => r@ == "stdio upstream requires command"@,
                RegistryError::MissingUrl => r@ == "http upstream requires url"@,
            },
    {
        match self {
            RegistryError::BadName => "invalid upstream name",
            RegistryError::MissingCommand => "stdio upstream requires command",
            RegistryError::MissingUrl => "http upstream requires url",
        }
    }
}

/// A registered upstream: its name, transport and credentials. The
/// live transport state (client, child process) lives with the driver
/// outside the library, keyed by this name.
pub struct UpstreamHandle {
    pub name: String,
    pub kind: UpstreamKind,
    pub command: Option<String>,
    pub args: Vec<String>,
    pub url: Option<String>,
    pub bearer: Option<String>,
    pub provider_slug: Option<String>,
}

/// The mathematical value of a handle.
#[verifier::ext_equal]
pub struct HandleV {
    pub name: Seq<char>,
    pub kind: UpstreamKind,
    pub command: Option<Seq<char>>,
    pub args: Seq<Seq<char>>,
    pub url: Option<Seq<char>>,
    pub bearer: Option<Seq<char>>,
    pub provider_slug: Option<Seq<char>>,
}

impl View for UpstreamHandle {
    type V = HandleV;

    open spec fn view(&self) -> HandleV {
        HandleV {
            name: self.name@,
            kind: self.kind,
            command: opt_view(self.command),
            args: Seq::new(self.args@.len(), |i: int| self.args@[i]@),
            url: opt_view(self.url),
            bearer: opt_view(self.bearer),
            provider_slug: opt_view(self.provider_slug),
        }
    }
}

impl Clone for UpstreamHandle {
    fn clone(&self) -> (r: UpstreamHandle)
        ensures
            r@ == self@,
    {
        let r = UpstreamHandle {
            name: self.name.clone(),
            kind: self.kind,
            command: clone_opt_string(&self.command),
            args: clone_string_vec(&self.args),
            url: clone_opt_string(&self.url),
            bearer: clone_opt_string(&self.bearer),
            provider_slug: clone_opt_string(&self.provider_slug),
        };
        proof {
            assert(r@.args =~= self@.args);
        }
        r
    }
}

impl UpstreamHandle {
    pub fn name(&self) -> (r: &str)
        ensures
            r@ == self@.name,
    {
        self.name.as_str()
    }

    pub fn provider_slug(&self) -> (r: &Option<String>)
        ensures
            opt_view(*r) == self@.provider_slug,
    {
        &self.provider_slug
    }
}

/// The registry: `name -> handle`, registration order kept, a second
/// registration under the same name replacing the first in place.
pub struct UpstreamRegistry {
    entries: Vec<UpstreamHandle>,
}

impl UpstreamRegistry {
    pub closed spec fn spec_entries(&self) -> Seq<UpstreamHandle> {
        self.entries@
    }

    /// Names are unique and every entry is valid for its transport.
    pub open spec fn wf(&self) -> bool {
        &&& forall|i: int, j: int|
            0 <= i < j < self.spec_entries().len() ==> self.spec_entries()[i]@.name
                != self.spec_entries()[j]@.name
        &&& forall|i: int|
            0 <= i < self.spec_entries().len() ==> spec_valid_name(
                (#[trigger] self.spec_entries()[i]@).name,
            )
        &&& forall|i: int|
            0 <= i < self.spec_entries().len() ==> match (#[trigger] self.spec_entries()[i]@).kind {
                UpstreamKind::Http => self.spec_entries()[i]@.url is Some,
                UpstreamKind::Stdio => self.spec_entries()[i]@.command is Some,
            }
    }

    pub fn new() -> (r: UpstreamRegistry)
        ensures
            r.wf(),
            r.spec_entries().len() == 0,
    {
        UpstreamRegistry { entries: Vec::new() }
    }

    /// Register a backend, replacing any entry of the same name in
    /// place. Refused exactly when the name is outside the alphabet,
    /// an HTTP registration lacks a URL, or a stdio one lacks a
    /// command.
    #[verifier::loop_isolation(false)]
    #[verifier::rlimit(50)]
    pub fn register(&mut self, registration: UpstreamRegistration) -> (r: Result<
        (),
        RegistryError,
    >)
        requires
            old(self).wf(),
        ensures
            final(self).wf(),
            ({
                let kind = if spec_lower_u32s(registration.kind@) == spec_lower_u32s("http"@) {
                    UpstreamKind::Http
                } else {
                    UpstreamKind::Stdio
                };
                if !spec_valid_name(registration.name@) {
                    r == Result::<(), RegistryError>::Err(RegistryError::BadName) && final(self).spec_entries() == old(self).spec_entries()
                } else if kind == UpstreamKind::Http && registration.url is None {
                    r == Result::<(), RegistryError>::Err(RegistryError::MissingUrl) && final(self).spec_entries() == old(self).spec_entries()
                } else if kind == UpstreamKind::Stdio && registration.command is None {
                    r == Result::<(), RegistryError>::Err(RegistryError::MissingCommand) && final(self).spec_entries() == old(self).spec_entries()
                } else {
                    &&& r is Ok
                    &&& registered_entry(
                        old(self).spec_entries(),
                        final(self).spec_entries(),
                        registration,
                        kind,
                    )
                }
            }),
    {
        if !valid_upstream_name(registration.name.as_str()) {
            return Err(RegistryError::BadName);
        }
        let kind = registration.kind();
        let handle = match kind {
            UpstreamKind::Http => {
                if registration.url.is_none() {
                    return Err(RegistryError::MissingUrl);
                }
                UpstreamHandle {
                    name: registration.name,
                    kind,
                    command: registration.command,
                    args: registration.args,
                    url: registration.url,
                    bearer: registration.bearer,
                    provider_slug: registration.provider_slug,
                }
            },
            UpstreamKind::Stdio => {
                if registration.command.is_none() {
                    return Err(RegistryError::MissingCommand);
                }
                UpstreamHandle {
                    name: registration.name,
                    kind,
                    command: registration.command,
                    args: registration.args,
                    url: registration.url,
                    bearer: registration.bearer,
                    provider_slug: registration.provider_slug,
                }
            },
        };
        let n = self.entries.len();
        let mut i: usize = 0;
        while i < n
            invariant
                i <= n,
                n == self.entries@.len(),
                *self == *old(self),
                forall|k: int| 0 <= k < i ==> (#[trigger] self.entries@[k]@).name != handle@.name,
                handle@.name == registration.name@,
                handle@.kind == kind,
                handle.kind == kind,
                handle@.command == opt_view(registration.command),
                handle@.url == opt_view(registration.url),
                kind == UpstreamKind::Http ==> handle.url is Some,
                kind == UpstreamKind::Stdio ==> handle.command is Some,
                spec_valid_name(handle@.name),
            decreases n - i,
        {
            if str_eq(self.entries[i].name.as_str(), handle.name.as_str()) {
                let _old_entry = self.entries.remove(i);
                self.entries.insert(i, handle);
                proof {
                    assert(self.spec_entries() =~= old(self).spec_entries().update(
                        i as int,
                        self.spec_entries()[i as int],
                    ));
                }
                return Ok(());
            }
            i = i + 1;
        }
        self.entries.push(handle);
        proof {
            assert(self.spec_entries().subrange(0, old(self).spec_entries().len() as int) =~= old(
                self,
            ).spec_entries());
            let last = self.spec_entries().len() - 1;
            assert forall|a: int, b: int|
                0 <= a < b < self.spec_entries().len() implies self.spec_entries()[a]@.name
                != self.spec_entries()[b]@.name by {
                if b < last {
                    assert(self.spec_entries()[a] == old(self).spec_entries()[a]);
                    assert(self.spec_entries()[b] == old(self).spec_entries()[b]);
                } else {
                    assert(self.spec_entries()[a] == old(self).spec_entries()[a]);
                }
            }
        }
        Ok(())
    }

    /// The registered handles, in registration order.
    pub fn list(&self) -> (r: Vec<UpstreamHandle>)
        ensures
            r@.len() == self.spec_entries().len(),
            forall|i: int| 0 <= i < r@.len() ==> (#[trigger] r@[i]@) == self.spec_entries()[i]@,
    {
        let mut out: Vec<UpstreamHandle> = Vec::new();
        let n = self.entries.len();
        let mut i: usize = 0;
        #[verifier::loop_isolation(false)]
        while i < n
            invariant
                i <= n,
                out@.len() == i,
                forall|k: int| 0 <= k < i ==> (#[trigger] out@[k]@) == self.entries@[k]@,
            decreases n - i,
        {
            out.push(self.entries[i].clone());
            i = i + 1;
        }
        out
    }

    /// The handle registered under `name`, if any.
    #[verifier::loop_isolation(false)]
    pub fn lookup(&self, name: &str) -> (r: Option<&UpstreamHandle>)
        ensures
            (r matches Some(h) ==> exists|i: int|
                0 <= i < self.spec_entries().len() && (#[trigger] self.spec_entries()[i]@).name
                    == name@ && *h == self.spec_entries()[i]),
            r is None <==> forall|i: int|
                0 <= i < self.spec_entries().len() ==> (#[trigger] self.spec_entries()[i]@).name
                    != name@,
    {
        let n = self.entries.len();
        let mut i: usize = 0;
        while i < n
            invariant
                i <= n,
                forall|k: int| 0 <= k < i ==> (#[trigger] self.entries@[k]@).name != name@,
            decreases n - i,
        {
            if str_eq(self.entries[i].name.as_str(), name) {
                proof {
                    assert((self.spec_entries()[i as int]@).name == name@);
                }
                return Some(&self.entries[i]);
            }
            i = i + 1;
        }
        None
    }
}

/// The handle a registration yields once its transport is resolved.
pub open spec fn spec_hv_of_registration(
    registration: UpstreamRegistration,
    kind: UpstreamKind,
) -> HandleV {
    HandleV {
        name: registration.name@,
        kind,
        command: opt_view(registration.command),
        args: Seq::new(registration.args@.len(), |i: int| registration.args@[i]@),
        url: opt_view(registration.url),
        bearer: opt_view(registration.bearer),
        provider_slug: opt_view(registration.provider_slug),
    }
}

/// The handle a configured upstream `(name, command)` yields.
pub open spec fn spec_hv_of_cmd(name: String, cmd: UpstreamCommand) -> HandleV {
    HandleV {
        name: name@,
        kind: cmd.kind,
        command: opt_view(cmd.command),
        args: Seq::new(cmd.args@.len(), |i: int| cmd.args@[i]@),
        url: opt_view(cmd.url),
        bearer: opt_view(cmd.bearer),
        provider_slug: opt_view(cmd.provider_slug),
    }
}

/// Why a configured upstream `(name, command)` would be refused, if it
/// would: the name alphabet first, then the field its transport needs.
pub open spec fn spec_cmd_refusal(name: Seq<char>, cmd: UpstreamCommand) -> Option<
    RegistryError,
> {
    if !spec_valid_name(name) {
        Option::Some(RegistryError::BadName)
    } else if cmd.kind == UpstreamKind::Http && cmd.url is None {
        Option::Some(RegistryError::MissingUrl)
    } else if cmd.kind == UpstreamKind::Stdio && cmd.command is None {
        Option::Some(RegistryError::MissingCommand)
    } else {
        Option::None
    }
}

/// What a successful registration did to the entry list: replaced the
/// one entry of the same name in place, or appended a new one.
pub open spec fn registered_entry_hv(
    pre: Seq<UpstreamHandle>,
    post: Seq<UpstreamHandle>,
    hv: HandleV,
) -> bool {
    if exists|i: int| 0 <= i < pre.len() && (#[trigger] pre[i]@).name == hv.name {
        &&& post.len() == pre.len()
        &&& forall|k: int|
            0 <= k < pre.len() ==> if (#[trigger] pre[k]@).name == hv.name {
                post[k]@ == hv
            } else {
                post[k] == pre[k]
            }
    } else {
        &&& post.len() == pre.len() + 1
        &&& post.subrange(0, pre.len() as int) == pre
        &&& post.last()@ == hv
    }
}

/// The same effect, phrased over the raw registration.
pub open spec fn registered_entry(
    pre: Seq<UpstreamHandle>,
    post: Seq<UpstreamHandle>,
    registration: UpstreamRegistration,
    kind: UpstreamKind,
) -> bool {
    registered_entry_hv(pre, post, spec_hv_of_registration(registration, kind))
}

/// The transport labels the library itself writes resolve to their own
/// kind: `http` to the HTTP transport, `stdio` to the stdio one.
pub proof fn lemma_kind_label(k: UpstreamKind, s: Seq<char>)
    requires
        k == UpstreamKind::Http ==> s == "http"@,
        k == UpstreamKind::Stdio ==> s == "stdio"@,
    ensures
        (spec_lower_u32s(s) == spec_lower_u32s("http"@)) <==> k == UpstreamKind::Http,
{
    reveal_strlit("http");
    reveal_strlit("stdio");
    assert("http"@.len() == 4);
    assert("stdio"@.len() == 5);
    if k == UpstreamKind::Stdio {
        assert(spec_lower_u32s(s).len() == 5);
        assert(spec_lower_u32s("http"@).len() == 4);
    }
}

/// The headers an HTTP transport call carries: JSON in and out, the
/// protocol version, the configured bearer, and the remembered session.
pub fn http_headers(bearer: &Option<String>, session: &Option<String>) -> (r: Vec<
    (String, String),
>)
    ensures
        r@.len() == 3 + spec_opt_len(*bearer) + spec_opt_len(*session),
        r@[0].0@ == "Content-Type"@ && r@[0].1@ == "application/json"@,
        r@[1].0@ == "Accept"@ && r@[1].1@ == "application/json"@,
        r@[2].0@ == "MCP-Protocol-Version"@ && r@[2].1@ == "2024-05-13"@,
        (bearer matches Some(tok) ==> r@[3].0@ == "Authorization"@ && r@[3].1@ == "Bearer "@
            + tok@),
        (session matches Some(sid) ==> {
            let at = 3 + spec_opt_len(*bearer);
            r@[at].0@ == "Mcp-Session-Id"@ && r@[at].1@ == sid@
        }),
{
    let mut out: Vec<(String, String)> = Vec::new();
    out.push(("Content-Type".to_owned(), "application/json".to_owned()));
    out.push(("Accept".to_owned(), "application/json".to_owned()));
    out.push(("MCP-Protocol-Version".to_owned(), "2024-05-13".to_owned()));
    match bearer {
        Some(tok) => {
            out.push(("Authorization".to_owned(), "Bearer ".to_owned().concat(tok.as_str())));
        },
        None => {},
    }
    match session {
        Some(sid) => {
            out.push(("Mcp-Session-Id".to_owned(), sid.clone()));
        },
        None => {},
    }
    out
}

/// How many headers an optional value contributes.
pub open spec fn spec_opt_len(o: Option<String>) -> int {
    match o {
        Option::Some(_) => 1,
        Option::None => 0,
    }
}

/// The session to remember after a response: a fresh `Mcp-Session-Id`
/// header replaces the stored one, otherwise it is kept.
pub fn update_session(current: Option<String>, header: Option<String>) -> (r: Option<String>)
    ensures
        header is Some ==> r == header,
        header is None ==> r == current,
{
    match header {
        Some(h) => Some(h),
        None => current,
    }
}

/// What a stdio driver does before writing: reuse a live child, spawn
/// a fresh one when there is none or the last one exited.
pub enum StdioAction {
    Reuse,
    Spawn,
}

/// The spawn decision of the stdio lifecycle.
pub fn stdio_prepare(child_alive: bool) -> (r: StdioAction)
    ensures
        child_alive <==> r is Reuse,
{
    if child_alive {
        StdioAction::Reuse
    } else {
        StdioAction::Spawn
    }
}

/// After reading a response line: zero bytes mean the child closed its
/// stream — the call fails and the child is discarded so the next call
/// respawns; anything else is the one response line of this call.
pub fn stdio_after_read(bytes_read: usize, line: String) -> (r: Result<String, StdioFault>)
    ensures
        bytes_read == 0 <==> r == Result::<String, StdioFault>::Err(StdioFault::ChildClosed),
        bytes_read != 0 ==> r == Result::<String, StdioFault>::Ok(line),
{
    if bytes_read == 0 {
        Err(StdioFault::ChildClosed)
    } else {
        Ok(line)
    }
}

#[derive(Debug, PartialEq, Eq, Structural, Clone, Copy)]
pub enum StdioFault {
    ChildClosed,
}

impl StdioFault {
    pub fn message(&self) -> (r: &'static str)
        ensures
            r@ == "upstream closed stream"@,
    {
        "upstream closed stream"
    }
}

} // verus!
