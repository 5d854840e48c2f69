//! The router's namespaced resource-URI codec.
//!
//! A backend's resource URI is wrapped as
//! `mcp+router://<server>/<base64(original URI bytes)>` on the way out
//! and unwrapped on `resources/read`. The payload uses the standard
//! base64 alphabet with padding; the server name carries no `/`, so the
//! first `/` after the scheme splits the two parts exactly.

use base64::Engine;
use vstd::prelude::*;
use vstd::utf8::{decode_utf8, encode_utf8, valid_utf8};

use crate::json::str_eq;

verus! {

/// What base64 (standard alphabet, padded) encoding returns for a byte
/// sequence. A function of the bytes alone.
pub uninterp spec fn b64_of(bytes: Seq<u8>) -> Seq<char>;

/// What base64 (standard alphabet, padded) decoding returns for a
/// string: the bytes, or nothing when the string is not valid base64.
pub uninterp spec fn b64_decode_of(s: Seq<char>) -> Option<Seq<u8>>;

/// Relies on base64's `STANDARD.encode`: standard alphabet with
/// padding; `STANDARD.decode` inverts it.
#[verifier::external_body]
pub fn b64_encode(bytes: &[u8]) -> (r: String)
    ensures
        r@ == b64_of(bytes@),
        b64_decode_of(r@) == Option::Some(bytes@),
{
    base64::engine::general_purpose::STANDARD.encode(bytes)
}

/// Relies on base64's `STANDARD.decode`: returns the bytes exactly when
/// the input is valid padded standard base64.
#[verifier::external_body]
pub fn b64_decode(s: &str) -> (r: Option<Vec<u8>>)
    ensures
        (r matches Some(v) ==> b64_decode_of(s@) == Option::Some(v@)),
        r is None ==> b64_decode_of(s@) is None,
{
    base64::engine::general_purpose::STANDARD.decode(s).ok()
}

/// Relies on `String::from_utf8`: succeeds exactly on valid UTF-8, and
/// the returned string's bytes are the input.
#[verifier::external_body]
fn bytes_to_string(bytes: Vec<u8>) -> (r: Option<String>)
    ensures
        (r matches Some(s) ==> bytes@ == encode_utf8(s@)),
        r is None ==> !valid_utf8(bytes@),
{
    String::from_utf8(bytes).ok()
}

/// The view of an encoded router resource URI.
pub open spec fn spec_encode_resource_uri(server: Seq<char>, uri: Seq<char>) -> Seq<char> {
    "mcp+router://"@ + server + "/"@ + b64_of(encode_utf8(uri))
}

/// First index of `c` in `s`, if it occurs.
pub open spec fn spec_find_char(s: Seq<char>, c: char) -> Option<int>
    decreases s.len(),
{
    if s.len() == 0 {
        Option::None
    } else if s[0] == c {
        Option::Some(0)
    } else {
        match spec_find_char(s.skip(1), c) {
            Option::Some(i) => Option::Some(i + 1),
            Option::None => Option::None,
        }
    }
}

/// The decoded `(server, original URI)` of a router resource URI, or
/// nothing when the scheme prefix, the separator, the base64 payload or
/// the UTF-8 check fails.
pub open spec fn spec_decode_resource_uri(u: Seq<char>) -> Option<(Seq<char>, Seq<char>)> {
    if u.len() < 13 || u.subrange(0, 13) != "mcp+router://"@ {
        Option::None
    } else {
        let rest = u.skip(13);
        match spec_find_char(rest, '/') {
            Option::None => Option::None,
            Option::Some(k) => {
                let server = rest.subrange(0, k);
                let payload = rest.skip(k + 1);
                match b64_decode_of(payload) {
                    Option::None => Option::None,
                    Option::Some(bytes) => if valid_utf8(bytes) {
                        Option::Some((server, decode_utf8(bytes)))
                    } else {
                        Option::None
                    },
                }
            },
        }
    }
}

/// Wrap a backend URI under the router scheme. When the server name
/// holds no `/`, decoding inverts this exactly (the round-trip law).
pub fn encode_resource_uri(server: &str, upstream_uri: &str) -> (r: String)
    ensures
        r@ == spec_encode_resource_uri(server@, upstream_uri@),
        !server@.contains('/') ==> spec_decode_resource_uri(r@) == Option::Some(
            (server@, upstream_uri@),
        ),
{
    let payload = b64_encode(upstream_uri.as_bytes());
    let r = "mcp+router://".to_owned().concat(server).concat("/").concat(payload.as_str());
    proof {
        broadcast use vstd::utf8::group_utf8_lib;

        if !server@.contains('/') {
            lemma_decode_of_encoded(server@, upstream_uri@, payload@);
        }
    }
    r
}

/// Unwrap a router resource URI; exactly the inverse of the encoding.
pub fn decode_resource_uri(uri: &str) -> (r: Option<(String, String)>)
    ensures
        (r matches Some((server, original)) ==> spec_decode_resource_uri(uri@) == Option::Some(
            (server@, original@),
        )),
        r is None ==> spec_decode_resource_uri(uri@) is None,
{
    let n = uri.unicode_len();
    if n < 13 {
        return None;
    }
    let prefix = uri.substring_char(0, 13);
    if !str_eq(prefix, "mcp+router://") {
        return None;
    }
    let slash = find_char_from(uri, 13, '/');
    match slash {
        None => {
            proof {
                lemma_find_char_skip_none(uri@, 13, '/');
            }
            None
        },
        Some(k) => {
            proof {
                lemma_find_char_skip_some(uri@, 13, '/', k as int);
            }
            let server = uri.substring_char(13, k).to_owned();
            let payload = uri.substring_char(k + 1, n);
            proof {
                assert(uri@.skip(13).subrange(0, k - 13) =~= uri@.subrange(13, k as int));
                assert(uri@.skip(13).skip(k - 13 + 1) =~= uri@.subrange(k + 1, n as int));
            }
            match b64_decode(payload) {
                None => None,
                Some(bytes) => match bytes_to_string(bytes) {
                    None => None,
                    Some(original) => {
                        proof {
                            broadcast use vstd::utf8::group_utf8_lib;

                        }
                        Some((server, original))
                    },
                },
            }
        },
    }
}

/// First index at or after `from` holding `c`, scanning exec-side.
pub(crate) fn find_char_from(s: &str, from: usize, c: char) -> (r: Option<usize>)
    requires
        from <= s@.len(),
    ensures
        (r matches Some(k) ==> {
            &&& from <= k < s@.len()
            &&& s@[k as int] == c
            &&& forall|i: int| from <= i < k ==> s@[i] != c
        }),
        r is None ==> forall|i: int| from <= i < s@.len() ==> s@[i] != c,
{
    let n = s.unicode_len();
    let mut i: usize = from;
    #[verifier::loop_isolation(false)]
    while i < n
        invariant
            from <= i <= n,
            forall|q: int| from <= q < i ==> s@[q] != c,
        decreases n - i,
    {
        if s.get_char(i) == c {
            return Some(i);
        }
        i = i + 1;
    }
    None
}

/// Law: a string that does not open with the router scheme never
/// decodes.
pub proof fn lemma_decode_needs_scheme(u: Seq<char>)
    requires
        u.len() < 13 || u.subrange(0, 13) != "mcp+router://"@,
    ensures
        spec_decode_resource_uri(u) is None,
{
}

/// Law: without a `/` after the scheme there is no server part, and
/// the string never decodes.
pub proof fn lemma_decode_needs_separator(u: Seq<char>)
    requires
        u.len() >= 13,
        u.subrange(0, 13) == "mcp+router://"@,
        forall|i: int| 13 <= i < u.len() ==> u[i] != '/',
    ensures
        spec_decode_resource_uri(u) is None,
{
    lemma_find_char_skip_none(u, 13, '/');
}

/// Scanning past a prefix that holds no `c` finds nothing exactly when
/// the suffix holds no `c`.
pub(crate) proof fn lemma_find_char_skip_none(s: Seq<char>, from: int, c: char)
    requires
        0 <= from <= s.len(),
        forall|i: int| from <= i < s.len() ==> s[i] != c,
    ensures
        spec_find_char(s.skip(from), c) is None,
    decreases s.len() - from,
{
    if from < s.len() {
        lemma_find_char_skip_none(s, from + 1, c);
        assert(s.skip(from).skip(1) =~= s.skip(from + 1));
        assert(s.skip(from)[0] == s[from]);
    }
}

/// The first `c` at absolute index `k` appears at relative index
/// `k - from` in the suffix.
pub(crate) proof fn lemma_find_char_skip_some(s: Seq<char>, from: int, c: char, k: int)
    requires
        0 <= from <= k < s.len(),
        s[k] == c,
        forall|i: int| from <= i < k ==> s[i] != c,
    ensures
        spec_find_char(s.skip(from), c) == Option::Some(k - from),
    decreases k - from,
{
    assert(s.skip(from)[0] == s[from]);
    if from == k {
    } else {
        lemma_find_char_skip_some(s, from + 1, c, k);
        assert(s.skip(from).skip(1) =~= s.skip(from + 1));
    }
}

/// The encoded form decodes to `(server, uri)` when the server name
/// holds no `/`, given what the base64 engine said of this payload.
proof fn lemma_decode_of_encoded(server: Seq<char>, uri: Seq<char>, payload: Seq<char>)
    requires
        !server.contains('/'),
        payload == b64_of(encode_utf8(uri)),
        b64_decode_of(payload) == Option::Some(encode_utf8(uri)),
    ensures
        spec_decode_resource_uri(spec_encode_resource_uri(server, uri)) == Option::Some(
            (server, uri),
        ),
{
    broadcast use vstd::utf8::group_utf8_lib;

    reveal_strlit("mcp+router://");
    reveal_strlit("/");
    let u = spec_encode_resource_uri(server, uri);
    assert(u == "mcp+router://"@ + server + "/"@ + payload);
    assert("mcp+router://"@.len() == 13);
    assert("/"@.len() == 1);
    assert(u.subrange(0, 13) =~= "mcp+router://"@);
    let rest = u.skip(13);
    assert(rest =~= server + "/"@ + payload);
    let k = server.len() as int;
    assert(rest[k] == '/') by {
        assert("/"@[0] == '/');
    }
    assert(forall|i: int| 0 <= i < k ==> rest[i] == server[i]);
    assert(forall|i: int| 0 <= i < k ==> rest[i] != '/') by {
        assert(forall|i: int| 0 <= i < k ==> server[i] != '/');
    }
    lemma_find_char_prefix_some(rest, '/', k);
    assert(rest.subrange(0, k) =~= server);
    assert(rest.skip(k + 1) =~= payload);
}

/// If `s[k] == c` and nothing before `k` is `c`, the first occurrence
/// is at `k`.
proof fn lemma_find_char_prefix_some(s: Seq<char>, c: char, k: int)
    requires
        0 <= k < s.len(),
        s[k] == c,
        forall|i: int| 0 <= i < k ==> s[i] != c,
    ensures
        spec_find_char(s, c) == Option::Some(k),
    decreases k,
{
    if k == 0 {
    } else {
        lemma_find_char_prefix_some(s.skip(1), c, k - 1);
        assert(s.skip(1)[k - 1] == s[k]);
    }
}

} // verus!
