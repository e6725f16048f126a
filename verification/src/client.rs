//! The HTTP client core: configuration, header policy, request construction
//! and response decoding.
//!
//! The client itself holds no connection: it is an immutable bundle of
//! endpoint, default headers and upload chunk size. `prepare_call` turns a
//! method, path, extra headers and parameters into a complete request plan,
//! and `interpret_response` turns a status, content type and body back into
//! a decoded value or a structured error; the transport between the two is
//! left to the caller.

use crate::error::AppwriteError;
use crate::json::{
    i64_to_string, jv_pairs, spec_int_chars, spec_json, spec_parse_json, JsonValue, SpecValue,
};
use crate::text::{char_from_u32, chars_to_string, str_to_chars};
use vstd::prelude::*;
use vstd::string::*;

verus! {

/// Whether `url::Url::parse` accepts the text.
pub uninterp spec fn url_accepts(s: Seq<char>) -> bool;

/// Relies on url::Url::parse: returns whether the text parses as a URL.
#[verifier::external_body]
fn url_parse_ok(s: &str) -> (r: bool)
    ensures
        r == url_accepts(s@),
{
    url::Url::parse(s).is_ok()
}

/// ASCII lowercase of one character.
pub open spec fn lower_char(c: char) -> char {
    if 65 <= (c as u32) < 91 {
        (((c as u32) + 32) as u32) as char
    } else {
        c
    }
}

/// ASCII uppercase of one character.
pub open spec fn upper_char(c: char) -> char {
    if 97 <= (c as u32) < 123 {
        (((c as u32) - 32) as u32) as char
    } else {
        c
    }
}

/// ASCII lowercase of a string.
pub open spec fn lower_seq(s: Seq<char>) -> Seq<char> {
    s.map_values(|c: char| lower_char(c))
}

/// ASCII uppercase of a string.
pub open spec fn upper_seq(s: Seq<char>) -> Seq<char> {
    s.map_values(|c: char| upper_char(c))
}

/// ASCII lowercase of one character.
fn lower_char_exec(c: char) -> (r: char)
    ensures
        r == lower_char(c),
{
    let u: u32 = c as u32;
    if 65 <= u && u < 91 {
        let u2: u32 = u + 32;
        match char_from_u32(u2) {
            Some(c2) => {
                proof {
                    vstd::utf8::char_u32_cast(c2, u2);
                }
                c2
            },
            None => {
                proof {
                    assert(false);
                }
                c
            },
        }
    } else {
        c
    }
}

/// ASCII uppercase of one character.
fn upper_char_exec(c: char) -> (r: char)
    ensures
        r == upper_char(c),
{
    let u: u32 = c as u32;
    if 97 <= u && u < 123 {
        let u2: u32 = u - 32;
        match char_from_u32(u2) {
            Some(c2) => {
                proof {
                    vstd::utf8::char_u32_cast(c2, u2);
                }
                c2
            },
            None => {
                proof {
                    assert(false);
                }
                c
            },
        }
    } else {
        c
    }
}

/// ASCII lowercase of a string.
#[verifier::loop_isolation(false)]
fn to_lower(s: &str) -> (r: String)
    ensures
        r@ == lower_seq(s@),
{
    let cs = str_to_chars(s);
    let mut out: Vec<char> = Vec::new();
    let mut i: usize = 0;
    while i < cs.len()
        invariant
            i <= cs@.len(),
            out@.len() == i,
            forall|k: int| 0 <= k < i ==> out@[k] == lower_char(cs@[k]),
        decreases cs@.len() - i,
    {
        let c = lower_char_exec(cs[i]);
        out.push(c);
        i = i + 1;
    }
    proof {
        assert(out@ =~= lower_seq(s@));
    }
    chars_to_string(&out)
}

/// ASCII uppercase of a string.
#[verifier::loop_isolation(false)]
fn to_upper(s: &str) -> (r: String)
    ensures
        r@ == upper_seq(s@),
{
    let cs = str_to_chars(s);
    let mut out: Vec<char> = Vec::new();
    let mut i: usize = 0;
    while i < cs.len()
        invariant
            i <= cs@.len(),
            out@.len() == i,
            forall|k: int| 0 <= k < i ==> out@[k] == upper_char(cs@[k]),
        decreases cs@.len() - i,
    {
        let c = upper_char_exec(cs[i]);
        out.push(c);
        i = i + 1;
    }
    proof {
        assert(out@ =~= upper_seq(s@));
    }
    chars_to_string(&out)
}

/// Whether two character vectors hold the same characters.
#[verifier::loop_isolation(false)]
fn chars_eq(a: &Vec<char>, b: &Vec<char>) -> (r: bool)
    ensures
        r == (a@ == b@),
{
    if a.len() != b.len() {
        return false;
    }
    let mut i: usize = 0;
    while i < a.len()
        invariant
            i <= a@.len(),
            a@.len() == b@.len(),
            forall|k: int| 0 <= k < i ==> a@[k] == b@[k],
        decreases a@.len() - i,
    {
        if a[i] != b[i] {
            return false;
        }
        i = i + 1;
    }
    proof {
        assert(a@ =~= b@);
    }
    true
}

/// Whether `s` starts with `p`.
#[verifier::loop_isolation(false)]
fn has_prefix(s: &Vec<char>, p: &Vec<char>) -> (r: bool)
    ensures
        r == spec_starts_with(s@, p@),
{
    if s.len() < p.len() {
        proof {
            assert(!spec_starts_with(s@, p@));
        }
        return false;
    }
    let mut i: usize = 0;
    while i < p.len()
        invariant
            i <= p@.len(),
            p@.len() <= s@.len(),
            forall|k: int| 0 <= k < i ==> s@[k] == p@[k],
        decreases p@.len() - i,
    {
        if s[i] != p[i] {
            proof {
                assert(s@.subrange(0, p@.len() as int)[i as int] == s@[i as int]);
                assert(!spec_starts_with(s@, p@));
            }
            return false;
        }
        i = i + 1;
    }
    proof {
        assert(s@.subrange(0, p@.len() as int) =~= p@);
    }
    true
}

/// Whether `s` starts with the prefix `p`.
pub open spec fn spec_starts_with(s: Seq<char>, p: Seq<char>) -> bool {
    s.len() >= p.len() && s.subrange(0, p.len() as int) == p
}

/// Whether the text begins with a recognized URL scheme.
pub open spec fn has_url_scheme(s: Seq<char>) -> bool {
    spec_starts_with(s, "http://"@) || spec_starts_with(s, "https://"@)
}

/// The views of a list of header pairs.
pub open spec fn pair_views(hs: Seq<(String, String)>) -> Seq<(Seq<char>, Seq<char>)> {
    hs.map_values(|p: (String, String)| (p.0@, p.1@))
}

/// The value under the first occurrence of a key, if any.
pub open spec fn lookup_header(hs: Seq<(Seq<char>, Seq<char>)>, k: Seq<char>) -> Option<Seq<char>>
    decreases hs.len(),
{
    if hs.len() == 0 {
        None
    } else if hs[0].0 == k {
        Some(hs[0].1)
    } else {
        lookup_header(hs.subrange(1, hs.len() as int), k)
    }
}

/// Replaces the value under a key, in place, or appends the pair.
pub open spec fn upsert_header(
    hs: Seq<(Seq<char>, Seq<char>)>,
    k: Seq<char>,
    v: Seq<char>,
) -> Seq<(Seq<char>, Seq<char>)>
    decreases hs.len(),
{
    if hs.len() == 0 {
        seq![(k, v)]
    } else if hs[0].0 == k {
        seq![(k, v)] + hs.subrange(1, hs.len() as int)
    } else {
        seq![hs[0]] + upsert_header(hs.subrange(1, hs.len() as int), k, v)
    }
}

/// When the key's first occurrence is at `j`, upsert updates index `j`.
proof fn lemma_upsert_found(hs: Seq<(Seq<char>, Seq<char>)>, k: Seq<char>, v: Seq<char>, j: int)
    requires
        0 <= j < hs.len(),
        hs[j].0 == k,
        forall|l: int| 0 <= l < j ==> (#[trigger] hs[l]).0 != k,
    ensures
        upsert_header(hs, k, v) == hs.update(j, (k, v)),
    decreases hs.len(),
{
    if j == 0 {
        assert(upsert_header(hs, k, v) =~= hs.update(0, (k, v)));
    } else {
        let rest = hs.subrange(1, hs.len() as int);
        assert(forall|l: int| 0 <= l < j - 1 ==> (#[trigger] rest[l]).0 != k);
        lemma_upsert_found(rest, k, v, j - 1);
        assert(upsert_header(hs, k, v) =~= hs.update(j, (k, v)));
    }
}

/// When the key does not occur, upsert appends.
proof fn lemma_upsert_absent(hs: Seq<(Seq<char>, Seq<char>)>, k: Seq<char>, v: Seq<char>)
    requires
        forall|l: int| 0 <= l < hs.len() ==> (#[trigger] hs[l]).0 != k,
    ensures
        upsert_header(hs, k, v) == hs.push((k, v)),
    decreases hs.len(),
{
    if hs.len() == 0 {
        assert(upsert_header(hs, k, v) =~= hs.push((k, v)));
    } else {
        lemma_upsert_absent(hs.subrange(1, hs.len() as int), k, v);
        assert(upsert_header(hs, k, v) =~= hs.push((k, v)));
    }
}

/// When the key's first occurrence is at `j`, lookup returns its value.
proof fn lemma_lookup_found(hs: Seq<(Seq<char>, Seq<char>)>, k: Seq<char>, j: int)
    requires
        0 <= j < hs.len(),
        hs[j].0 == k,
        forall|l: int| 0 <= l < j ==> (#[trigger] hs[l]).0 != k,
    ensures
        lookup_header(hs, k) == Some(hs[j].1),
    decreases hs.len(),
{
    if j > 0 {
        let rest = hs.subrange(1, hs.len() as int);
        assert(forall|l: int| 0 <= l < j - 1 ==> (#[trigger] rest[l]).0 != k);
        lemma_lookup_found(rest, k, j - 1);
    }
}

/// When the key does not occur, lookup returns None.
proof fn lemma_lookup_absent(hs: Seq<(Seq<char>, Seq<char>)>, k: Seq<char>)
    requires
        forall|l: int| 0 <= l < hs.len() ==> (#[trigger] hs[l]).0 != k,
    ensures
        lookup_header(hs, k) is None,
    decreases hs.len(),
{
    if hs.len() > 0 {
        lemma_lookup_absent(hs.subrange(1, hs.len() as int), k);
    }
}

/// Index of the first pair whose key matches, if any.
#[verifier::loop_isolation(false)]
fn find_header(hs: &Vec<(String, String)>, k: &Vec<char>) -> (r: Option<usize>)
    ensures
        match r {
            Some(j) => j < hs@.len() && pair_views(hs@)[j as int].0 == k@ && (forall|l: int|
                0 <= l < j ==> (#[trigger] pair_views(hs@)[l]).0 != k@),
            None => forall|l: int|
                0 <= l < hs@.len() ==> (#[trigger] pair_views(hs@)[l]).0 != k@,
        },
{
    let mut i: usize = 0;
    while i < hs.len()
        invariant
            i <= hs@.len(),
            forall|l: int| 0 <= l < i ==> (#[trigger] pair_views(hs@)[l]).0 != k@,
        decreases hs@.len() - i,
    {
        let key_chars = str_to_chars(hs[i].0.as_str());
        if chars_eq(&key_chars, k) {
            return Some(i);
        }
        i = i + 1;
    }
    None
}

/// Replaces the value under `k`, or appends the pair, in an owned list.
#[verifier::loop_isolation(false)]
fn upsert_exec(hs: Vec<(String, String)>, k: String, v: String) -> (r: Vec<(String, String)>)
    ensures
        pair_views(r@) == upsert_header(pair_views(hs@), k@, v@),
{
    let kc = str_to_chars(k.as_str());
    let mut out = hs;
    match find_header(&out, &kc) {
        Some(j) => {
            let ghost before = pair_views(out@);
            out.remove(j);
            out.insert(j, (k, v));
            proof {
                lemma_upsert_found(before, kc@, v@, j as int);
                assert(pair_views(out@) =~= before.update(j as int, (kc@, v@)));
            }
        },
        None => {
            let ghost before = pair_views(out@);
            out.push((k, v));
            proof {
                lemma_upsert_absent(before, kc@, v@);
                assert(pair_views(out@) =~= before.push((kc@, v@)));
            }
        },
    }
    out
}

/// The client: an endpoint, default headers, and upload configuration.
pub struct Client {
    /// Base URL every request path is appended to.
    pub endpoint: String,
    /// Default headers, sent with every request; keys are stored lowercase.
    pub headers: Vec<(String, String)>,
    /// Size of one chunk in a chunked upload, in bytes.
    pub chunk_size: usize,
    /// Whether to accept self-signed certificates.
    pub self_signed: bool,
}

impl Client {
    /// The header mapping, as key and value character sequences.
    pub open spec fn spec_headers(&self) -> Seq<(Seq<char>, Seq<char>)> {
        pair_views(self.headers@)
    }

    /// A client against the default endpoint, with the fixed identification
    /// headers and a 5 MiB upload chunk size.
    pub fn new() -> (r: Client)
        ensures
            r.endpoint@ == "https://cloud.appwrite.io/v1"@,
            r.chunk_size == 5242880,
            !r.self_signed,
            r.spec_headers() == seq![
                ("content-type"@, ""@),
                ("user-agent"@, "AppwriteRustSDK/0.1.0"@),
                ("x-sdk-name"@, "Rust"@),
                ("x-sdk-platform"@, "server"@),
                ("x-sdk-language"@, "rust"@),
                ("x-sdk-version"@, "0.1.0"@),
                ("x-appwrite-response-format"@, "1.7.0"@),
            ],
    {
        let mut headers: Vec<(String, String)> = Vec::new();
        headers.push((String::from_str("content-type"), String::from_str("")));
        headers.push((String::from_str("user-agent"), String::from_str("AppwriteRustSDK/0.1.0")));
        headers.push((String::from_str("x-sdk-name"), String::from_str("Rust")));
        headers.push((String::from_str("x-sdk-platform"), String::from_str("server")));
        headers.push((String::from_str("x-sdk-language"), String::from_str("rust")));
        headers.push((String::from_str("x-sdk-version"), String::from_str("0.1.0")));
        headers.push((
            String::from_str("x-appwrite-response-format"),
            String::from_str("1.7.0"),
        ));
        let r = Client {
            endpoint: String::from_str("https://cloud.appwrite.io/v1"),
            headers,
            chunk_size: 5242880,
            self_signed: false,
        };
        proof {
            assert(r.spec_headers() =~= seq![
                ("content-type"@, ""@),
                ("user-agent"@, "AppwriteRustSDK/0.1.0"@),
                ("x-sdk-name"@, "Rust"@),
                ("x-sdk-platform"@, "server"@),
                ("x-sdk-language"@, "rust"@),
                ("x-sdk-version"@, "0.1.0"@),
                ("x-appwrite-response-format"@, "1.7.0"@),
            ]);
        }
        r
    }

    /// Sets the endpoint. Succeeds exactly when the text begins with a
    /// recognized scheme and parses as a URL; anything else is rejected as
    /// an invalid endpoint.
    pub fn set_endpoint(self, endpoint: &str) -> (r: Result<Client, AppwriteError>)
        ensures
            match r {
                Ok(c) => has_url_scheme(endpoint@) && url_accepts(endpoint@) && c.endpoint@
                    == endpoint@ && c.headers == self.headers && c.chunk_size == self.chunk_size
                    && c.self_signed == self.self_signed,
                Err(e) => !(has_url_scheme(endpoint@) && url_accepts(endpoint@)) && (
                e matches AppwriteError::InvalidEndpoint(s) && s@ == endpoint@),
            },
    {
        let cs = str_to_chars(endpoint);
        let p1 = str_to_chars("http://");
        let p2 = str_to_chars("https://");
        let scheme_ok = {
            let a = has_prefix(&cs, &p1);
            let b = has_prefix(&cs, &p2);
            a || b
        };
        if !scheme_ok {
            return Err(AppwriteError::InvalidEndpoint(String::from_str(endpoint)));
        }
        if !url_parse_ok(endpoint) {
            return Err(AppwriteError::InvalidEndpoint(String::from_str(endpoint)));
        }
        let Client { endpoint: _, headers, chunk_size, self_signed } = self;
        Ok(Client { endpoint: String::from_str(endpoint), headers, chunk_size, self_signed })
    }

    /// Sets whether self-signed certificates are accepted.
    pub fn set_self_signed(self, status: bool) -> (r: Client)
        ensures
            r.self_signed == status,
            r.endpoint@ == self.endpoint@,
            r.headers == self.headers,
            r.chunk_size == self.chunk_size,
    {
        let Client { endpoint, headers, chunk_size, self_signed: _ } = self;
        Client { endpoint, headers, chunk_size, self_signed: status }
    }

    /// Adds a custom header; the key is lower-cased, and a later insert under
    /// the same key wins.
    pub fn add_header(self, key: &str, value: &str) -> (r: Client)
        ensures
            r.spec_headers() == upsert_header(self.spec_headers(), lower_seq(key@), value@),
            r.endpoint@ == self.endpoint@,
            r.chunk_size == self.chunk_size,
            r.self_signed == self.self_signed,
    {
        let k = to_lower(key);
        let Client { endpoint, headers, chunk_size, self_signed } = self;
        let headers = upsert_exec(headers, k, String::from_str(value));
        Client { endpoint, headers, chunk_size, self_signed }
    }

    /// Sets the project id header.
    pub fn set_project(self, project_id: &str) -> (r: Client)
        ensures
            r.spec_headers() == upsert_header(
                self.spec_headers(),
                lower_seq("x-appwrite-project"@),
                project_id@,
            ),
            r.endpoint@ == self.endpoint@,
            r.chunk_size == self.chunk_size,
            r.self_signed == self.self_signed,
    {
        self.add_header("x-appwrite-project", project_id)
    }

    /// Sets the API key header.
    pub fn set_key(self, api_key: &str) -> (r: Client)
        ensures
            r.spec_headers() == upsert_header(
                self.spec_headers(),
                lower_seq("x-appwrite-key"@),
                api_key@,
            ),
            r.endpoint@ == self.endpoint@,
            r.chunk_size == self.chunk_size,
            r.self_signed == self.self_signed,
    {
        self.add_header("x-appwrite-key", api_key)
    }

    /// Sets the JWT header.
    pub fn set_jwt(self, jwt: &str) -> (r: Client)
        ensures
            r.spec_headers() == upsert_header(
                self.spec_headers(),
                lower_seq("x-appwrite-jwt"@),
                jwt@,
            ),
            r.endpoint@ == self.endpoint@,
            r.chunk_size == self.chunk_size,
            r.self_signed == self.self_signed,
    {
        self.add_header("x-appwrite-jwt", jwt)
    }

    /// Sets the locale header.
    pub fn set_locale(self, locale: &str) -> (r: Client)
        ensures
            r.spec_headers() == upsert_header(
                self.spec_headers(),
                lower_seq("x-appwrite-locale"@),
                locale@,
            ),
            r.endpoint@ == self.endpoint@,
            r.chunk_size == self.chunk_size,
            r.self_signed == self.self_signed,
    {
        self.add_header("x-appwrite-locale", locale)
    }

    /// Sets the session header.
    pub fn set_session(self, session: &str) -> (r: Client)
        ensures
            r.spec_headers() == upsert_header(
                self.spec_headers(),
                lower_seq("x-appwrite-session"@),
                session@,
            ),
            r.endpoint@ == self.endpoint@,
            r.chunk_size == self.chunk_size,
            r.self_signed == self.self_signed,
    {
        self.add_header("x-appwrite-session", session)
    }

    /// Sets the forwarded user agent header.
    pub fn set_forwarded_user_agent(self, user_agent: &str) -> (r: Client)
        ensures
            r.spec_headers() == upsert_header(
                self.spec_headers(),
                lower_seq("x-forwarded-user-agent"@),
                user_agent@,
            ),
            r.endpoint@ == self.endpoint@,
            r.chunk_size == self.chunk_size,
            r.self_signed == self.self_signed,
    {
        self.add_header("x-forwarded-user-agent", user_agent)
    }

    /// The upload chunk size, in bytes.
    pub fn chunk_size(&self) -> (r: usize)
        ensures
            r == self.chunk_size,
    {
        self.chunk_size
    }

    /// Sets the upload chunk size.
    pub fn set_chunk_size(self, size: usize) -> (r: Client)
        ensures
            r.chunk_size == size,
            r.endpoint@ == self.endpoint@,
            r.headers == self.headers,
            r.self_signed == self.self_signed,
    {
        let Client { endpoint, headers, chunk_size: _, self_signed } = self;
        Client { endpoint, headers, chunk_size: size, self_signed }
    }
}

/// Text form of a boolean.
pub open spec fn bool_chars(b: bool) -> Seq<char> {
    if b {
        "true"@
    } else {
        "false"@
    }
}

/// `prefix[inner]`: the bracketed path of a nested parameter.
pub open spec fn bracket(prefix: Seq<char>, inner: Seq<char>) -> Seq<char> {
    prefix + seq!['['] + inner + seq![']']
}

/// The flattened key of an object member: the bare key at the root, the
/// bracketed path below it.
pub open spec fn child_key(prefix: Seq<char>, key: Seq<char>) -> Seq<char> {
    if prefix.len() == 0 {
        key
    } else {
        bracket(prefix, key)
    }
}

/// Flattening of one JSON value under a key prefix: terminal scalars become
/// text at their full path, nulls vanish, arrays and objects recurse.
pub open spec fn flat_value(prefix: Seq<char>, v: SpecValue) -> Seq<(Seq<char>, Seq<char>)>
    decreases v, 0int,
{
    match v {
        SpecValue::Null => Seq::empty(),
        SpecValue::Bool(b) => seq![(prefix, bool_chars(b))],
        SpecValue::Int(n) => seq![(prefix, spec_int_chars(n))],
        SpecValue::Str(s) => seq![(prefix, s)],
        SpecValue::Arr(a) => flat_arr(prefix, a, 0),
        SpecValue::Obj(m) => flat_obj(prefix, m, 0),
    }
}

/// Flattening of the array items from index `i` on.
pub open spec fn flat_arr(prefix: Seq<char>, a: Seq<SpecValue>, i: int) -> Seq<
    (Seq<char>, Seq<char>),
>
    decreases a, a.len() - i + 1,
{
    if i < 0 || i >= a.len() {
        Seq::empty()
    } else {
        flat_value(bracket(prefix, spec_int_chars(i)), a[i]) + flat_arr(prefix, a, i + 1)
    }
}

/// Flattening of the object members from index `i` on.
pub open spec fn flat_obj(prefix: Seq<char>, m: Seq<(Seq<char>, SpecValue)>, i: int) -> Seq<
    (Seq<char>, Seq<char>),
>
    decreases m, m.len() - i + 1,
{
    if i < 0 || i >= m.len() {
        Seq::empty()
    } else {
        flat_value(child_key(prefix, m[i].0), m[i].1) + flat_obj(prefix, m, i + 1)
    }
}

/// Flattening of a whole parameter map, from the empty prefix.
pub open spec fn flat_params(m: Seq<(Seq<char>, SpecValue)>) -> Seq<(Seq<char>, Seq<char>)> {
    flat_obj(Seq::empty(), m, 0)
}

/// Multipart form fields of a parameter map: scalars as text, arrays and
/// objects as JSON text, nulls omitted.
pub open spec fn multipart_fields(m: Seq<(Seq<char>, SpecValue)>) -> Seq<(Seq<char>, Seq<char>)>
    decreases m.len(),
{
    if m.len() == 0 {
        Seq::empty()
    } else {
        let rest = multipart_fields(m.subrange(1, m.len() as int));
        match m[0].1 {
            SpecValue::Null => rest,
            SpecValue::Bool(b) => seq![(m[0].0, bool_chars(b))] + rest,
            SpecValue::Int(n) => seq![(m[0].0, spec_int_chars(n))] + rest,
            SpecValue::Str(s) => seq![(m[0].0, s)] + rest,
            SpecValue::Arr(_) => seq![(m[0].0, spec_json(m[0].1))] + rest,
            SpecValue::Obj(_) => seq![(m[0].0, spec_json(m[0].1))] + rest,
        }
    }
}

/// Appends the characters of `src`.
#[verifier::loop_isolation(false)]
fn append_chars(dst: &mut Vec<char>, src: &Vec<char>)
    ensures
        final(dst)@ == old(dst)@ + src@,
{
    let mut i: usize = 0;
    while i < src.len()
        invariant
            i <= src@.len(),
            dst@ == old(dst)@ + src@.subrange(0, i as int),
        decreases src@.len() - i,
    {
        proof {
            assert(dst@ + src@.subrange(0, 0) =~= dst@);
        }
        dst.push(src[i]);
        proof {
            assert(src@.subrange(0, i + 1) =~= src@.subrange(0, i as int).push(src@[i as int]));
            assert(dst@ =~= old(dst)@ + src@.subrange(0, i + 1));
        }
        i = i + 1;
    }
    proof {
        assert(src@.subrange(0, src@.len() as int) =~= src@);
    }
}

/// `prefix[inner]` as characters.
fn bracketed(prefix: &Vec<char>, inner: &Vec<char>) -> (r: Vec<char>)
    ensures
        r@ == bracket(prefix@, inner@),
{
    let mut out: Vec<char> = Vec::new();
    append_chars(&mut out, prefix);
    out.push('[');
    append_chars(&mut out, inner);
    out.push(']');
    proof {
        assert(out@ =~= bracket(prefix@, inner@));
    }
    out
}

/// The decimal characters of an index.
fn index_chars(n: u64) -> (r: Vec<char>)
    ensures
        r@ == spec_int_chars(n as int),
{
    crate::json::u64_digit_chars(n)
}

/// Appends the flattened form of one value.
#[verifier::loop_isolation(false)]
fn flatten_value(prefix: &Vec<char>, v: &JsonValue, out: &mut Vec<(String, String)>)
    ensures
        pair_views(final(out)@) == pair_views(old(out)@) + flat_value(prefix@, v@),
    decreases v, 0int,
{
    match v {
        JsonValue::Null => {
            proof {
                assert(pair_views(out@) =~= pair_views(old(out)@) + flat_value(prefix@, v@));
            }
        },
        JsonValue::Bool(b) => {
            let text = if *b {
                String::from_str("true")
            } else {
                String::from_str("false")
            };
            out.push((chars_to_string(prefix), text));
            proof {
                assert(pair_views(out@) =~= pair_views(old(out)@) + flat_value(prefix@, v@));
            }
        },
        JsonValue::Int(n) => {
            out.push((chars_to_string(prefix), i64_to_string(*n)));
            proof {
                assert(pair_views(out@) =~= pair_views(old(out)@) + flat_value(prefix@, v@));
            }
        },
        JsonValue::Str(s) => {
            out.push((chars_to_string(prefix), s.clone()));
            proof {
                assert(pair_views(out@) =~= pair_views(old(out)@) + flat_value(prefix@, v@));
            }
        },
        JsonValue::Arr(a) => {
            let ghost model: Seq<SpecValue> = crate::json::jv_list(a@);
            proof {
                crate::json::lemma_jv_list_len(a@);
            }
            let mut i: usize = 0;
            while i < a.len()
                invariant
                    i <= a@.len(),
                    pair_views(out@) + flat_arr(prefix@, model, i as int) == pair_views(
                        old(out)@,
                    ) + flat_arr(prefix@, model, 0),
                decreases a@.len() - i,
            {
                let inner = index_chars(i as u64);
                let child = bracketed(prefix, &inner);
                let ghost before = pair_views(out@);
                flatten_value(&child, &a[i], out);
                proof {
                    crate::json::lemma_jv_list_index(a@, i as int);
                    assert(pair_views(out@) + flat_arr(prefix@, model, i + 1) =~= before
                        + flat_arr(prefix@, model, i as int));
                }
                i = i + 1;
            }
            proof {
                assert(pair_views(out@) + flat_arr(prefix@, model, a@.len() as int) =~= pair_views(
                    out@));
                assert(pair_views(out@) =~= pair_views(old(out)@) + flat_value(prefix@, v@));
            }
        },
        JsonValue::Obj(m) => {
            flatten_members(prefix, m, out);
            proof {
                assert(pair_views(out@) =~= pair_views(old(out)@) + flat_value(prefix@, v@));
            }
        },
    }
}

/// Appends the flattened form of a member list.
#[verifier::loop_isolation(false)]
fn flatten_members(prefix: &Vec<char>, m: &Vec<(String, JsonValue)>, out: &mut Vec<
    (String, String),
>)
    ensures
        pair_views(final(out)@) == pair_views(old(out)@) + flat_obj(prefix@, jv_pairs(m@), 0),
    decreases m, 1int,
{
    let ghost model: Seq<(Seq<char>, SpecValue)> = jv_pairs(m@);
    proof {
        crate::json::lemma_jv_pairs_len(m@);
    }
    let mut i: usize = 0;
    while i < m.len()
        invariant
            i <= m@.len(),
            pair_views(out@) + flat_obj(prefix@, model, i as int) == pair_views(old(out)@)
                + flat_obj(prefix@, model, 0),
        decreases m@.len() - i,
    {
        let key_chars = str_to_chars(m[i].0.as_str());
        let child = if prefix.len() == 0 {
            key_chars
        } else {
            bracketed(prefix, &key_chars)
        };
        let ghost before = pair_views(out@);
        flatten_value(&child, &m[i].1, out);
        proof {
            crate::json::lemma_jv_pairs_index(m@, i as int);
            assert(pair_views(out@) + flat_obj(prefix@, model, i + 1) =~= before + flat_obj(
                prefix@,
                model,
                i as int,
            ));
        }
        i = i + 1;
    }
    proof {
        assert(pair_views(out@) + flat_obj(prefix@, model, m@.len() as int) =~= pair_views(out@));
    }
}

/// Flattens a parameter map into single-level text pairs, as sent in a
/// URL-encoded form body or as GET query parameters.
pub fn flatten_params(params: &Vec<(String, JsonValue)>) -> (r: Vec<(String, String)>)
    ensures
        pair_views(r@) == flat_params(jv_pairs(params@)),
{
    let prefix: Vec<char> = Vec::new();
    let mut out: Vec<(String, String)> = Vec::new();
    proof {
        assert(pair_views(out@) =~= Seq::<(Seq<char>, Seq<char>)>::empty());
    }
    flatten_members(&prefix, params, &mut out);
    proof {
        assert(pair_views(out@) =~= flat_params(jv_pairs(params@)));
    }
    out
}

/// The multipart text fields of a parameter map.
#[verifier::loop_isolation(false)]
pub fn multipart_form_fields(params: &Vec<(String, JsonValue)>) -> (r: Vec<(String, String)>)
    ensures
        pair_views(r@) == multipart_fields(jv_pairs(params@)),
{
    let ghost model: Seq<(Seq<char>, SpecValue)> = jv_pairs(params@);
    proof {
        crate::json::lemma_jv_pairs_len(params@);
    }
    let mut out: Vec<(String, String)> = Vec::new();
    let mut i: usize = 0;
    proof {
        assert(model.subrange(0, model.len() as int) =~= model);
        assert(pair_views(out@) =~= Seq::<(Seq<char>, Seq<char>)>::empty());
        assert(pair_views(out@) + multipart_fields(model) =~= multipart_fields(model));
    }
    while i < params.len()
        invariant
            i <= params@.len(),
            pair_views(out@) + multipart_fields(model.subrange(i as int, model.len() as int))
                == multipart_fields(model),
        decreases params@.len() - i,
    {
        let ghost remaining = model.subrange(i as int, model.len() as int);
        proof {
            crate::json::lemma_jv_pairs_index(params@, i as int);
            assert(remaining.subrange(1, remaining.len() as int) =~= model.subrange(
                i + 1,
                model.len() as int,
            ));
            assert(remaining[0] == model[i as int]);
        }
        let key = params[i].0.clone();
        match &params[i].1 {
            JsonValue::Null => {},
            JsonValue::Bool(b) => {
                let text = if *b {
                    String::from_str("true")
                } else {
                    String::from_str("false")
                };
                out.push((key, text));
            },
            JsonValue::Int(n) => {
                out.push((key, i64_to_string(*n)));
            },
            JsonValue::Str(s) => {
                out.push((key, s.clone()));
            },
            JsonValue::Arr(_) => {
                let text = params[i].1.to_json_string();
                out.push((key, text));
            },
            JsonValue::Obj(_) => {
                let text = params[i].1.to_json_string();
                out.push((key, text));
            },
        }
        proof {
            assert(pair_views(out@) + multipart_fields(
                model.subrange(i + 1, model.len() as int),
            ) =~= multipart_fields(model));
        }
        i = i + 1;
    }
    proof {
        assert(model.subrange(model.len() as int, model.len() as int) =~= Seq::<
            (Seq<char>, SpecValue),
        >::empty());
        assert(pair_views(out@) =~= multipart_fields(model));
    }
    out
}

/// How the parameters travel: as GET query parameters, a JSON body, a
/// URL-encoded form, multipart text fields, or not at all.
pub enum BodyPlan {
    /// No parameters were given.
    Empty,
    /// Flattened pairs attached as URL query parameters.
    QueryParams(Vec<(String, String)>),
    /// The serialized JSON object sent verbatim.
    JsonBody(String),
    /// Flattened pairs sent as a URL-encoded form body.
    FormBody(Vec<(String, String)>),
    /// Text fields of a multipart form.
    MultipartBody(Vec<(String, String)>),
}

/// Model of a body plan.
pub enum SpecBody {
    Empty,
    QueryParams(Seq<(Seq<char>, Seq<char>)>),
    JsonBody(Seq<char>),
    FormBody(Seq<(Seq<char>, Seq<char>)>),
    MultipartBody(Seq<(Seq<char>, Seq<char>)>),
}

impl View for BodyPlan {
    type V = SpecBody;

    open spec fn view(&self) -> SpecBody {
        match *self {
            BodyPlan::Empty => SpecBody::Empty,
            BodyPlan::QueryParams(ref q) => SpecBody::QueryParams(pair_views(q@)),
            BodyPlan::JsonBody(ref b) => SpecBody::JsonBody(b@),
            BodyPlan::FormBody(ref f) => SpecBody::FormBody(pair_views(f@)),
            BodyPlan::MultipartBody(ref f) => SpecBody::MultipartBody(pair_views(f@)),
        }
    }
}

/// A fully assembled request, ready for a transport to send.
pub struct RequestPlan {
    /// Upper-cased HTTP verb.
    pub method: String,
    /// Full request URL: the endpoint with the path appended.
    pub url: String,
    /// Merged headers: the client defaults overridden by the extras.
    pub headers: Vec<(String, String)>,
    /// The parameter placement.
    pub body: BodyPlan,
}

/// Header list after folding in the extras: each extra key is lower-cased
/// and wins over a default under the same key.
pub open spec fn merge_headers(
    base: Seq<(Seq<char>, Seq<char>)>,
    extra: Seq<(Seq<char>, Seq<char>)>,
) -> Seq<(Seq<char>, Seq<char>)>
    decreases extra.len(),
{
    if extra.len() == 0 {
        base
    } else {
        merge_headers(
            upsert_header(base, lower_seq(extra[0].0), extra[0].1),
            extra.subrange(1, extra.len() as int),
        )
    }
}

/// A character legal in an HTTP method token.
pub open spec fn is_token_char(c: char) -> bool {
    let u = c as u32;
    (48 <= u <= 57) || (65 <= u <= 90) || (97 <= u <= 122) || c == '!' || c == '#' || c == '$'
        || c == '%' || c == '&' || c == '\'' || c == '*' || c == '+' || c == '-' || c == '.'
        || c == '^' || c == '_' || c == '`' || c == '|' || c == '~'
}

/// A legal HTTP verb: a non-empty token.
pub open spec fn is_valid_method(s: Seq<char>) -> bool {
    s.len() > 0 && (forall|i: int| 0 <= i < s.len() ==> is_token_char(#[trigger] s[i]))
}

/// Whether `c` is legal in an HTTP method token.
fn is_token_char_exec(c: char) -> (r: bool)
    ensures
        r == is_token_char(c),
{
    let u: u32 = c as u32;
    (48 <= u && u <= 57) || (65 <= u && u <= 90) || (97 <= u && u <= 122) || c == '!' || c == '#'
        || c == '$' || c == '%' || c == '&' || c == '\'' || c == '*' || c == '+' || c == '-'
        || c == '.' || c == '^' || c == '_' || c == '`' || c == '|' || c == '~'
}

/// Whether the text is a legal HTTP verb.
#[verifier::loop_isolation(false)]
fn is_valid_method_exec(s: &Vec<char>) -> (r: bool)
    ensures
        r == is_valid_method(s@),
{
    if s.len() == 0 {
        return false;
    }
    let mut i: usize = 0;
    while i < s.len()
        invariant
            i <= s@.len(),
            forall|k: int| 0 <= k < i ==> is_token_char(#[trigger] s@[k]),
        decreases s@.len() - i,
    {
        if !is_token_char_exec(s[i]) {
            return false;
        }
        i = i + 1;
    }
    true
}

/// The value under a key in an object's member list, first occurrence.
pub open spec fn member_lookup(m: Seq<(Seq<char>, SpecValue)>, k: Seq<char>) -> Option<SpecValue>
    decreases m.len(),
{
    if m.len() == 0 {
        None
    } else if m[0].0 == k {
        Some(m[0].1)
    } else {
        member_lookup(m.subrange(1, m.len() as int), k)
    }
}

/// The value under a key of a JSON object; None for other values.
pub open spec fn obj_lookup(v: SpecValue, k: Seq<char>) -> Option<SpecValue> {
    match v {
        SpecValue::Obj(m) => member_lookup(m, k),
        _ => None,
    }
}

/// When the key's first occurrence is at `j`, member lookup returns it.
proof fn lemma_member_lookup_found(m: Seq<(Seq<char>, SpecValue)>, k: Seq<char>, j: int)
    requires
        0 <= j < m.len(),
        m[j].0 == k,
        forall|l: int| 0 <= l < j ==> (#[trigger] m[l]).0 != k,
    ensures
        member_lookup(m, k) == Some(m[j].1),
    decreases m.len(),
{
    if j > 0 {
        let rest = m.subrange(1, m.len() as int);
        assert(forall|l: int| 0 <= l < j - 1 ==> (#[trigger] rest[l]).0 != k);
        lemma_member_lookup_found(rest, k, j - 1);
    }
}

/// When the key does not occur, member lookup returns None.
proof fn lemma_member_lookup_absent(m: Seq<(Seq<char>, SpecValue)>, k: Seq<char>)
    requires
        forall|l: int| 0 <= l < m.len() ==> (#[trigger] m[l]).0 != k,
    ensures
        member_lookup(m, k) is None,
    decreases m.len(),
{
    if m.len() > 0 {
        lemma_member_lookup_absent(m.subrange(1, m.len() as int), k);
    }
}

/// The string under a key of a JSON object, when it is one.
#[verifier::loop_isolation(false)]
fn obj_get_str(v: &JsonValue, key: &str) -> (r: Option<String>)
    ensures
        match r {
            Some(s) => obj_lookup(v@, key@) == Some(SpecValue::Str(s@)),
            None => !(obj_lookup(v@, key@) matches Some(SpecValue::Str(_))),
        },
{
    let kc = str_to_chars(key);
    match v {
        JsonValue::Obj(m) => {
            let ghost model = jv_pairs(m@);
            proof {
                crate::json::lemma_jv_pairs_len(m@);
            }
            let mut i: usize = 0;
            while i < m.len()
                invariant
                    i <= m@.len(),
                    forall|l: int| 0 <= l < i ==> (#[trigger] model[l]).0 != kc@,
                decreases m@.len() - i,
            {
                proof {
                    crate::json::lemma_jv_pairs_index(m@, i as int);
                }
                let this_key = str_to_chars(m[i].0.as_str());
                if chars_eq(&this_key, &kc) {
                    proof {
                        lemma_member_lookup_found(model, kc@, i as int);
                    }
                    match &m[i].1 {
                        JsonValue::Str(s) => {
                            return Some(s.clone());
                        },
                        _ => {
                            return None;
                        },
                    }
                }
                i = i + 1;
            }
            proof {
                lemma_member_lookup_absent(model, kc@);
            }
            None
        },
        _ => None,
    }
}

/// The body placement a call uses, given the upper-cased verb, the merged
/// headers and the parameters.
pub open spec fn spec_body_plan(
    method_up: Seq<char>,
    merged: Seq<(Seq<char>, Seq<char>)>,
    params: Option<Seq<(Seq<char>, SpecValue)>>,
) -> SpecBody {
    match params {
        Option::None => SpecBody::Empty,
        Option::Some(ps) => {
            if method_up == "GET"@ {
                SpecBody::QueryParams(flat_params(ps))
            } else {
                let ct = match lookup_header(merged, "content-type"@) {
                    Option::Some(x) => x,
                    Option::None => Seq::empty(),
                };
                if spec_starts_with(ct, "application/json"@) {
                    SpecBody::JsonBody(spec_json(SpecValue::Obj(ps)))
                } else if spec_starts_with(ct, "multipart/form-data"@) {
                    SpecBody::MultipartBody(multipart_fields(ps))
                } else {
                    SpecBody::FormBody(flat_params(ps))
                }
            }
        },
    }
}

/// The views of an optional parameter map.
pub open spec fn params_views(
    params: Option<Vec<(String, JsonValue)>>,
) -> Option<Seq<(Seq<char>, SpecValue)>> {
    match params {
        Option::Some(ps) => Some(jv_pairs(ps@)),
        Option::None => None,
    }
}

impl Client {
    /// Assembles a request: validates the verb, appends the path to the
    /// endpoint, merges the headers, and places the parameters as the verb
    /// and content type direct. The transport that sends the plan is the
    /// caller's.
    #[verifier::loop_isolation(false)]
    pub fn prepare_call(
        &self,
        method: &str,
        path: &str,
        extra_headers: Option<Vec<(String, String)>>,
        params: Option<Vec<(String, JsonValue)>>,
    ) -> (r: Result<RequestPlan, AppwriteError>)
        ensures
            match r {
                Ok(p) => {
                    let merged = merge_headers(
                        self.spec_headers(),
                        match extra_headers {
                            Option::Some(hs) => pair_views(hs@),
                            Option::None => Seq::empty(),
                        },
                    );
                    &&& is_valid_method(upper_seq(method@))
                    &&& p.method@ == upper_seq(method@)
                    &&& p.url@ == self.endpoint@ + path@
                    &&& pair_views(p.headers@) == merged
                    &&& p.body@ == spec_body_plan(
                        upper_seq(method@),
                        merged,
                        params_views(params),
                    )
                },
                Err(e) => !is_valid_method(upper_seq(method@)) && (
                e matches AppwriteError::InvalidParameter(msg) && msg@ == "Invalid HTTP method: "@
                    + upper_seq(method@)),
            },
    {
        let method_up = to_upper(method);
        let method_chars = str_to_chars(method_up.as_str());
        if !is_valid_method_exec(&method_chars) {
            let mut msg = String::from_str("Invalid HTTP method: ");
            msg.append(method_up.as_str());
            return Err(AppwriteError::InvalidParameter(msg));
        }
        let mut url = self.endpoint.clone();
        url.append(path);
        let ghost base = self.spec_headers();
        let ghost extra_model: Seq<(Seq<char>, Seq<char>)> = match extra_headers {
            Option::Some(ref hs) => pair_views(hs@),
            Option::None => Seq::empty(),
        };
        let mut merged = clone_pairs(&self.headers);
        match extra_headers {
            Some(hs) => {
                let ghost ghs = pair_views(hs@);
                let mut i: usize = 0;
                proof {
                    assert(ghs.subrange(0, ghs.len() as int) =~= ghs);
                }
                while i < hs.len()
                    invariant
                        i <= hs@.len(),
                        merge_headers(
                            pair_views(merged@),
                            ghs.subrange(i as int, ghs.len() as int),
                        ) == merge_headers(base, ghs),
                    decreases hs@.len() - i,
                {
                    let ghost remaining = ghs.subrange(i as int, ghs.len() as int);
                    proof {
                        assert(remaining.subrange(1, remaining.len() as int) =~= ghs.subrange(
                            i + 1,
                            ghs.len() as int,
                        ));
                        assert(remaining[0] == ghs[i as int]);
                    }
                    let k = to_lower(hs[i].0.as_str());
                    let v = hs[i].1.clone();
                    merged = upsert_exec(merged, k, v);
                    i = i + 1;
                }
                proof {
                    assert(ghs.subrange(ghs.len() as int, ghs.len() as int) =~= Seq::<
                        (Seq<char>, Seq<char>),
                    >::empty());
                }
            },
            None => {},
        }
        proof {
            assert(pair_views(merged@) == merge_headers(base, extra_model));
        }
        let body = match params {
            Some(ps) => {
                let get_chars = str_to_chars("GET");
                if chars_eq(&method_chars, &get_chars) {
                    BodyPlan::QueryParams(flatten_params(&ps))
                } else {
                    let ct = match find_content_type(&merged) {
                        Some(v) => v,
                        None => {
                            let empty = String::from_str("");
                            proof {
                                reveal_strlit("");
                                assert(empty@ =~= Seq::<char>::empty());
                            }
                            empty
                        },
                    };
                    let ct_chars = str_to_chars(ct.as_str());
                    let json_prefix = str_to_chars("application/json");
                    let multipart_prefix = str_to_chars("multipart/form-data");
                    if has_prefix(&ct_chars, &json_prefix) {
                        let obj = JsonValue::Obj(ps);
                        BodyPlan::JsonBody(obj.to_json_string())
                    } else if has_prefix(&ct_chars, &multipart_prefix) {
                        BodyPlan::MultipartBody(multipart_form_fields(&ps))
                    } else {
                        BodyPlan::FormBody(flatten_params(&ps))
                    }
                }
            },
            None => BodyPlan::Empty,
        };
        Ok(RequestPlan { method: method_up, url, headers: merged, body })
    }
}

/// A copy of a header list.
#[verifier::loop_isolation(false)]
fn clone_pairs(hs: &Vec<(String, String)>) -> (r: Vec<(String, String)>)
    ensures
        pair_views(r@) == pair_views(hs@),
{
    let mut out: Vec<(String, String)> = Vec::new();
    let mut i: usize = 0;
    while i < hs.len()
        invariant
            i <= hs@.len(),
            out@.len() == i,
            forall|k: int| 0 <= k < i ==> pair_views(out@)[k] == pair_views(hs@)[k],
        decreases hs@.len() - i,
    {
        out.push((hs[i].0.clone(), hs[i].1.clone()));
        i = i + 1;
    }
    proof {
        assert(pair_views(out@) =~= pair_views(hs@));
    }
    out
}

/// The content-type value in a header list, first occurrence.
fn find_content_type(hs: &Vec<(String, String)>) -> (r: Option<String>)
    ensures
        match r {
            Some(v) => lookup_header(pair_views(hs@), "content-type"@) == Some(v@),
            None => lookup_header(pair_views(hs@), "content-type"@) is None,
        },
{
    let kc = str_to_chars("content-type");
    match find_header(hs, &kc) {
        Some(j) => {
            proof {
                lemma_lookup_found(pair_views(hs@), kc@, j as int);
            }
            Some(hs[j].1.clone())
        },
        None => {
            proof {
                lemma_lookup_absent(pair_views(hs@), kc@);
            }
            None
        },
    }
}

/// A successful HTTP status: any 2xx code.
pub open spec fn is_success(status: u16) -> bool {
    200 <= status < 300
}

/// The server message drawn from a parsed error body: its `message` member
/// when that is a string, a fixed fallback otherwise.
pub open spec fn spec_error_message(v: SpecValue) -> Seq<char> {
    match obj_lookup(v, "message"@) {
        Option::Some(SpecValue::Str(s)) => s,
        _ => "Unknown error"@,
    }
}

/// The server error tag drawn from a parsed error body: its `type` member
/// when that is a string.
pub open spec fn spec_error_tag(v: SpecValue) -> Option<Seq<char>> {
    match obj_lookup(v, "type"@) {
        Option::Some(SpecValue::Str(s)) => Some(s),
        _ => None,
    }
}

/// Decodes a response. A 2xx JSON response parses into a value, any other
/// 2xx response is the body as a string; a non-2xx response becomes an API
/// error carrying the status, the message and tag extracted from a JSON
/// body, and the raw body.
pub fn interpret_response(status: u16, content_type: &str, body: &str) -> (r: Result<
    JsonValue,
    AppwriteError,
>)
    ensures
        r is Ok <==> is_success(status) && (!spec_starts_with(content_type@, "application/json"@)
            || spec_parse_json(body@) is Some),
        match r {
            Ok(v) => {
                if spec_starts_with(content_type@, "application/json"@) {
                    spec_parse_json(body@) == Some(v@)
                } else {
                    v@ == SpecValue::Str(body@)
                }
            },
            Err(e) => {
                if is_success(status) {
                    e matches AppwriteError::Json(m) && m@ == body@
                } else {
                    e matches AppwriteError::Api { message, code, error_type, response }
                        && code == status && (response matches Some(b) && b@ == body@) && {
                        if spec_starts_with(content_type@, "application/json"@)
                            && spec_parse_json(body@) is Some {
                            let v = spec_parse_json(body@)->0;
                            &&& message@ == spec_error_message(v)
                            &&& (match spec_error_tag(v) {
                                Option::Some(t) => error_type matches Some(et) && et@ == t,
                                Option::None => error_type is None,
                            })
                        } else {
                            message@ == body@ && error_type is None
                        }
                    }
                }
            },
        },
{
    let ct_chars = str_to_chars(content_type);
    let json_prefix = str_to_chars("application/json");
    let is_json = has_prefix(&ct_chars, &json_prefix);
    if 200 <= status && status < 300 {
        if is_json {
            match JsonValue::parse_json(body) {
                Some(v) => Ok(v),
                None => Err(AppwriteError::Json(String::from_str(body))),
            }
        } else {
            Ok(JsonValue::Str(String::from_str(body)))
        }
    } else {
        if is_json {
            match JsonValue::parse_json(body) {
                Some(v) => {
                    let message = match obj_get_str(&v, "message") {
                        Some(m) => m,
                        None => String::from_str("Unknown error"),
                    };
                    let error_type = obj_get_str(&v, "type");
                    Err(AppwriteError::Api {
                        message,
                        code: status,
                        error_type,
                        response: Some(String::from_str(body)),
                    })
                },
                None => Err(AppwriteError::Api {
                    message: String::from_str(body),
                    code: status,
                    error_type: None,
                    response: Some(String::from_str(body)),
                }),
            }
        } else {
            Err(AppwriteError::Api {
                message: String::from_str(body),
                code: status,
                error_type: None,
                response: Some(String::from_str(body)),
            })
        }
    }
}

/// The views of a list of strings.
pub open spec fn string_views(xs: Seq<String>) -> Seq<Seq<char>> {
    xs.map_values(|s: String| s@)
}

/// The text split on semicolons: every separator starts a new segment, so
/// the empty text yields one empty segment.
pub open spec fn spec_split_semi(s: Seq<char>) -> Seq<Seq<char>>
    decreases s.len(),
{
    if s.len() == 0 {
        seq![Seq::empty()]
    } else {
        let rest = spec_split_semi(s.take(s.len() - 1));
        if s[s.len() - 1] == ';' {
            rest.push(Seq::empty())
        } else {
            rest.update(rest.len() - 1, rest.last().push(s[s.len() - 1]))
        }
    }
}

/// Splits a warning header on `;` into its individual warnings, for the
/// caller to surface as diagnostics.
#[verifier::loop_isolation(false)]
pub fn split_warnings(header: &str) -> (r: Vec<String>)
    ensures
        string_views(r@) == spec_split_semi(header@),
{
    let cs = str_to_chars(header);
    let mut done: Vec<String> = Vec::new();
    let mut cur: Vec<char> = Vec::new();
    let mut i: usize = 0;
    proof {
        assert(cs@.subrange(0, 0) =~= Seq::<char>::empty());
        assert(string_views(done@).push(cur@) =~= spec_split_semi(cs@.subrange(0, 0)));
    }
    while i < cs.len()
        invariant
            i <= cs@.len(),
            string_views(done@).push(cur@) == spec_split_semi(cs@.subrange(0, i as int)),
        decreases cs@.len() - i,
    {
        let ghost pre = spec_split_semi(cs@.subrange(0, i as int));
        proof {
            assert(cs@.subrange(0, i + 1).take(i as int) =~= cs@.subrange(0, i as int));
            assert(cs@.subrange(0, i + 1)[i as int] == cs@[i as int]);
        }
        let c = cs[i];
        if c == ';' {
            done.push(chars_to_string(&cur));
            cur = Vec::new();
            proof {
                assert(string_views(done@).push(cur@) =~= pre.push(Seq::<char>::empty()));
            }
        } else {
            cur.push(c);
            proof {
                assert(pre.len() > 0);
                assert(pre.last() == string_views(done@).push(cur@.take(cur@.len() - 1)).last());
                assert(string_views(done@).push(cur@) =~= pre.update(
                    pre.len() - 1,
                    pre.last().push(cs@[i as int]),
                ));
            }
        }
        i = i + 1;
    }
    done.push(chars_to_string(&cur));
    proof {
        assert(cs@.subrange(0, cs@.len() as int) =~= cs@);
        assert(string_views(done@) =~= spec_split_semi(cs@));
    }
    done
}

/// The result of a call made in location mode: the `Location` response
/// header value, whatever the status.
pub fn location_response(location: &str) -> (r: JsonValue)
    ensures
        r@ == SpecValue::Str(location@),
{
    JsonValue::Str(String::from_str(location))
}

impl Default for Client {
    /// The same client `new` builds.
    fn default() -> (r: Client)
        ensures
            r.endpoint@ == "https://cloud.appwrite.io/v1"@,
            r.chunk_size == 5242880,
            !r.self_signed,
    {
        Client::new()
    }
}

} // verus!
