//! The decisions around the Tragentics API: status → error mapping, token
//! shape, fingerprints, base-URL rules, endpoint paths and probe verdicts.
//! The HTTP exchange itself happens outside the library.
use vstd::prelude::*;
use vstd::utf8::*;
use vstd::string::*;

use crate::errors::ApiError;
use crate::text::{
    ascii_lower, chars_of, decimal, lower_all, push_decimal, starts_with, starts_with_at,
    string_from_range, trim_bounds, trim_end_char, trim_end_char_bound, trim_ws,
};

verus! {

broadcast use vstd::utf8::encode_utf8_decode_utf8;

/// Shape of GET /api/agents/me: the agent object, returned bare.
#[derive(Debug, Clone)]
pub struct MeAgent {
    pub id: String,
    pub name: String,
    pub slug: Option<String>,
    pub status: String,
    pub is_public: bool,
    pub is_revoked: bool,
    pub is_archived: bool,
    pub last_heartbeat: Option<String>,
    pub created_at: Option<String>,
}

/// Shape of a 200 answer to POST /api/agents/{id}/heartbeat.
#[derive(Debug, Clone)]
pub struct HeartbeatResponse {
    pub heartbeat: String,
    pub agent: HeartbeatAgent,
}

#[derive(Debug, Clone)]
pub struct HeartbeatAgent {
    pub id: String,
    pub status: String,
    pub last_heartbeat: Option<String>,
}

/// What a delivered heartbeat tells the engine.
#[derive(Debug, Clone)]
pub struct BeatSuccess {
    pub platform_status: String,
    pub platform_last_heartbeat: Option<String>,
    pub latency_ms: u32,
}

impl HeartbeatResponse {
    /// The engine-facing outcome of a parsed 200 answer, with the measured latency.
    pub fn into_success(self, latency_ms: u32) -> (r: BeatSuccess)
        ensures
            r.platform_status == self.agent.status,
            r.platform_last_heartbeat == self.agent.last_heartbeat,
            r.latency_ms == latency_ms,
    {
        BeatSuccess {
            platform_status: self.agent.status,
            platform_last_heartbeat: self.agent.last_heartbeat,
            latency_ms,
        }
    }
}

// ── Status mapping ──────────────────────────────────────────────────────────

/// The error class of a non-200 HTTP answer.
pub open spec fn status_error(status: u16, message: String, retry_after: Option<u64>) -> ApiError {
    if status == 401 {
        ApiError::Unauthorized { message }
    } else if status == 403 {
        ApiError::Forbidden { message }
    } else if status == 404 {
        ApiError::NotFound { message }
    } else if status == 409 {
        ApiError::Conflict { message }
    } else if status == 429 {
        ApiError::RateLimited {
            retry_after_secs: match retry_after {
                Some(secs) => secs,
                None => 60,
            },
        }
    } else if 500 <= status <= 599 {
        ApiError::Server { status, message }
    } else {
        ApiError::Other { status, message }
    }
}

/// Pure status → error mapping.
pub fn map_status(status: u16, message: String, retry_after: Option<u64>) -> (r: ApiError)
    ensures
        r == status_error(status, message, retry_after),
{
    if status == 401 {
        ApiError::Unauthorized { message }
    } else if status == 403 {
        ApiError::Forbidden { message }
    } else if status == 404 {
        ApiError::NotFound { message }
    } else if status == 409 {
        ApiError::Conflict { message }
    } else if status == 429 {
        ApiError::RateLimited {
            retry_after_secs: match retry_after {
                Some(secs) => secs,
                None => 60,
            },
        }
    } else if 500 <= status && status <= 599 {
        ApiError::Server { status, message }
    } else {
        ApiError::Other { status, message }
    }
}

/// The message of an error answer: the body's `error` field, else "HTTP {status}".
pub open spec fn error_answer_message(body_error: Option<String>, status: u16) -> Seq<char> {
    match body_error {
        Some(m) => m@,
        None => "HTTP "@ + decimal(status as nat),
    }
}

/// "HTTP {status}"
fn http_status_text(status: u16) -> (r: String)
    ensures
        r@ == "HTTP "@ + decimal(status as nat),
{
    let mut s = String::from_str("HTTP ");
    push_decimal(&mut s, status as u64);
    s
}

/// The message carried by an error answer, given the `error` field of its
/// body when the body parsed.
pub fn error_message_for(body_error: Option<String>, status: u16) -> (r: String)
    ensures
        r@ == error_answer_message(body_error, status),
{
    match body_error {
        Some(m) => m,
        None => http_status_text(status),
    }
}

// ── Token shape and fingerprint ─────────────────────────────────────────────

pub open spec fn is_lower_hex(c: char) -> bool {
    ('0' <= c && c <= '9') || ('a' <= c && c <= 'f')
}

/// Agent tokens are `tk_` followed by 64 lowercase hex characters.
pub open spec fn token_shape_ok(t: Seq<char>) -> bool {
    &&& t.len() == 67
    &&& t[0] == 't'
    &&& t[1] == 'k'
    &&& t[2] == '_'
    &&& forall|i: int| 3 <= i < 67 ==> is_lower_hex(#[trigger] t[i])
}

/// The token's shape over its UTF-8 bytes: 67 bytes, `tk_`, then lowercase hex.
pub open spec fn token_bytes_ok(b: Seq<u8>) -> bool {
    &&& b.len() == 67
    &&& b[0] == 116
    &&& b[1] == 107
    &&& b[2] == 95
    &&& forall|i: int| 3 <= i < 67 ==> (48 <= #[trigger] b[i] <= 57 || 97 <= b[i] <= 102)
}

/// The shape of a token is the same whether read over its characters or
/// over its UTF-8 bytes.
pub proof fn lemma_token_shape_bytes(t: Seq<char>)
    ensures
        token_shape_ok(t) <==> token_bytes_ok(encode_utf8(t)),
{
    broadcast use vstd::utf8::is_ascii_chars_encode_utf8;

    let b = encode_utf8(t);
    if token_shape_ok(t) {
        assert(is_ascii_chars(t));
        assert(b.len() == 67);
        assert forall|i: int| 3 <= i < 67 implies (48 <= #[trigger] b[i] <= 57 || 97 <= b[i] <= 102) by {
            assert(is_lower_hex(t[i]));
            assert(t[i] as u8 == b[i]);
        }
        assert(t[0] as u8 == b[0]);
        assert(t[1] as u8 == b[1]);
        assert(t[2] as u8 == b[2]);
    }
    if token_bytes_ok(b) {
        let c = Seq::new(67, |i: int| b[i] as char);
        assert(is_ascii_chars(c));
        assert forall|i: int| 0 <= i < 67 implies #[trigger] encode_utf8(c)[i] == b[i] by {
            assert(c[i] as u8 == encode_utf8(c)[i]);
        }
        assert(encode_utf8(c) =~= b);
        assert(t == decode_utf8(encode_utf8(t)));
        assert(c == decode_utf8(encode_utf8(c)));
        assert(t == c);
        assert forall|i: int| 3 <= i < 67 implies is_lower_hex(#[trigger] t[i]) by {
            assert(t[i] == b[i] as char);
        }
    }
}

/// Validates an agent token before any storage or network use.
pub fn is_valid_token_format(token: &str) -> (r: bool)
    ensures
        r == token_shape_ok(token@),
        r == token_bytes_ok(token.spec_bytes()),
{
    proof {
        lemma_token_shape_bytes(token@);
    }
    let v = chars_of(token);
    if v.len() != 67 {
        return false;
    }
    if !(v[0] == 't' && v[1] == 'k' && v[2] == '_') {
        return false;
    }
    let mut i: usize = 3;
    while i < 67
        invariant
            v@ == token@,
            v.len() == 67,
            token_shape_ok(token@) == token_bytes_ok(token.spec_bytes()),
            3 <= i <= 67,
            forall|j: int| 3 <= j < i ==> is_lower_hex(#[trigger] v@[j]),
        decreases 67 - i,
    {
        let c = v[i];
        if !(('0' <= c && c <= '9') || ('a' <= c && c <= 'f')) {
            return false;
        }
        i = i + 1;
    }
    true
}

/// The byte positions where `token_fingerprint` cuts a token of at least 12 bytes.
pub open spec fn fingerprint_cuts_ok(b: Seq<u8>) -> bool {
    b.len() < 12 || (is_char_boundary(b, 7) && is_char_boundary(b, b.len() - 4))
}

/// The fingerprint of a token with UTF-8 bytes `b`: "tk_…" below 12 bytes,
/// else the first 7 bytes, "…", and the last 4 bytes.
pub open spec fn fingerprint_of(b: Seq<u8>) -> Seq<char> {
    if b.len() < 12 {
        "tk_…"@
    } else {
        decode_utf8(b.subrange(0, 7)) + "…"@ + decode_utf8(b.subrange(b.len() - 4, b.len() as int))
    }
}

/// `tk_ab12…89ef`: enough to recognize a token, never enough to use it.
pub fn token_fingerprint(token: &str) -> (r: String)
    requires
        fingerprint_cuts_ok(token.spec_bytes()),
    ensures
        r@ == fingerprint_of(token.spec_bytes()),
        is_ascii(token) && token@.len() >= 12 ==> r@ == token@.subrange(0, 7) + "…"@
            + token@.subrange(token@.len() - 4, token@.len() as int),
        is_ascii(token) && token@.len() >= 12 ==> r@.len() == 12,
{
    proof {
        reveal_strlit("…");
    }
    let n = token.as_bytes().len();
    if n < 12 {
        return String::from_str("tk_…");
    }
    let (head, _) = token.split_at(7);
    let (_, tail) = token.split_at(n - 4);
    proof {
        assert(head@ == decode_utf8(encode_utf8(head@)));
        assert(tail@ == decode_utf8(encode_utf8(tail@)));
        if is_ascii(token) {
            ascii_cut(token, head, 0, 7);
            ascii_cut(token, tail, n - 4, n as int);
        }
    }
    let r = String::from_str(head);
    let r = r.concat("…");
    r.concat(tail)
}

/// On an ASCII string, a byte cut is the same character cut.
proof fn ascii_cut(s: &str, part: &str, from: int, to: int)
    requires
        is_ascii(s),
        0 <= from <= to <= s.spec_bytes().len(),
        part.spec_bytes() == s.spec_bytes().subrange(from, to),
    ensures
        part@ == s@.subrange(from, to),
{
    broadcast use vstd::string::is_ascii_spec_bytes;
    broadcast use vstd::utf8::is_ascii_chars_encode_utf8;

    let t = s@.subrange(from, to);
    assert(s.spec_bytes() =~= Seq::new(s@.len(), |i| s@.index(i) as u8));
    assert(is_ascii_chars(t));
    assert(encode_utf8(t) =~= Seq::new(t.len(), |i| t.index(i) as u8));
    assert(encode_utf8(t) =~= part.spec_bytes());
    assert(part@ == decode_utf8(encode_utf8(part@)));
    assert(t == decode_utf8(encode_utf8(t)));
}

// ── Base URL ───────────────────────────────────────────────────────────────

/// The base URL as the user typed it, trimmed of whitespace and trailing slashes.
pub open spec fn base_url_trimmed(input: Seq<char>) -> Seq<char> {
    trim_end_char(trim_ws(input), '/')
}

/// The host part of `rest` (what follows the scheme, up to `:`, `/` or the
/// end) is exactly `name`.
pub open spec fn host_is(rest: Seq<char>, name: Seq<char>) -> bool {
    &&& name.is_prefix_of(rest)
    &&& (rest.len() == name.len() || rest[name.len() as int] == ':' || rest[name.len() as int] == '/')
}

/// Hosts for which plain http:// is accepted: exactly localhost, 127.0.0.1
/// or [::1], with an optional port or path.
pub open spec fn is_local_host(rest: Seq<char>) -> bool {
    host_is(rest, "localhost"@) || host_is(rest, "127.0.0.1"@) || host_is(rest, "[::1]"@)
}

/// Whether the host part of `v` from position `from` is exactly `name`.
fn host_is_at(v: &Vec<char>, from: usize, name: &Vec<char>) -> (r: bool)
    requires
        from <= v.len(),
    ensures
        r == host_is(v@.skip(from as int), name@),
{
    if !starts_with_at(v, from, name) {
        return false;
    }
    let end = from + name.len();
    end == v.len() || v[end] == ':' || v[end] == '/'
}

/// The verdict on a base URL: http(s), no trailing slash, https required
/// except for localhost, and a host.
pub open spec fn base_url_verdict(input: Seq<char>) -> Result<Seq<char>, Seq<char>> {
    let trimmed = base_url_trimmed(input);
    let lower = ascii_lower(trimmed);
    if trimmed.len() == 0 {
        Err("Base URL cannot be empty"@)
    } else if !("https://"@.is_prefix_of(lower) || "http://"@.is_prefix_of(lower)) {
        Err("Base URL must start with https:// (or http:// for localhost)"@)
    } else {
        let host = if "https://"@.is_prefix_of(lower) {
            lower.skip("https://"@.len() as int)
        } else {
            lower.skip("http://"@.len() as int)
        };
        if "http://"@.is_prefix_of(lower) && !is_local_host(host) {
            Err("Plain http:// is only allowed for localhost"@)
        } else if host.len() == 0 {
            Err("Base URL has no host"@)
        } else {
            Ok(trimmed)
        }
    }
}

/// Base URL sanity: http(s), no trailing slash, https required except localhost.
pub fn normalize_base_url(input: &str) -> (r: Result<String, String>)
    ensures
        match r {
            Ok(url) => base_url_verdict(input@) == Ok::<Seq<char>, Seq<char>>(url@),
            Err(msg) => base_url_verdict(input@) == Err::<Seq<char>, Seq<char>>(msg@),
        },
{
    let v = chars_of(input);
    let (lo, hi0) = trim_bounds(&v);
    let hi = trim_end_char_bound(&v, lo, hi0, '/');
    let trimmed = string_from_range(&v, lo, hi);
    if lo == hi {
        return Err(String::from_str("Base URL cannot be empty"));
    }
    let tv = chars_of(trimmed.as_str());
    let lower = lower_all(&tv);
    let https = chars_of("https://");
    let http = chars_of("http://");
    let is_https = starts_with(&lower, &https);
    let is_http = starts_with(&lower, &http);
    if !(is_https || is_http) {
        return Err(String::from_str("Base URL must start with https:// (or http:// for localhost)"));
    }
    let host_from = if is_https { https.len() } else { http.len() };
    assert(lower@.skip(host_from as int).len() == lower.len() - host_from);
    if is_http {
        let local = host_is_at(&lower, host_from, &chars_of("localhost"))
            || host_is_at(&lower, host_from, &chars_of("127.0.0.1"))
            || host_is_at(&lower, host_from, &chars_of("[::1]"));
        if !local {
            return Err(String::from_str("Plain http:// is only allowed for localhost"));
        }
    }
    if host_from == lower.len() {
        return Err(String::from_str("Base URL has no host"));
    }
    Ok(trimmed)
}

// ── Endpoints and probe verdicts ────────────────────────────────────────────

/// `base` without trailing slashes, followed by `path`.
pub open spec fn endpoint(base: Seq<char>, path: Seq<char>) -> Seq<char> {
    trim_end_char(base, '/') + path
}

/// `base_url` without trailing slashes, followed by the characters of `path`.
fn join_endpoint(base_url: &str, path: &str) -> (r: String)
    ensures
        r@ == endpoint(base_url@, path@),
{
    let v = chars_of(base_url);
    let hi = trim_end_char_bound(&v, 0, v.len(), '/');
    assert(v@.subrange(0, v.len() as int) =~= v@);
    let mut s = string_from_range(&v, 0, hi);
    s.append(path);
    s
}

/// URL of GET /api/agents/me under `base_url`.
pub fn me_url(base_url: &str) -> (r: String)
    ensures
        r@ == endpoint(base_url@, "/api/agents/me"@),
{
    join_endpoint(base_url, "/api/agents/me")
}

/// URL of POST /api/agents/{agent_id}/heartbeat under `base_url`.
pub fn heartbeat_url(base_url: &str, agent_id: &str) -> (r: String)
    ensures
        r@ == endpoint(base_url@, "/api/agents/"@ + agent_id@ + "/heartbeat"@),
{
    let mut path = String::from_str("/api/agents/");
    path.append(agent_id);
    path.append("/heartbeat");
    join_endpoint(base_url, path.as_str())
}

/// The verdict of the unauthenticated reachability probe of a base URL:
/// the platform answers 401 when reachable.
pub open spec fn probe_message(status: u16) -> Seq<char> {
    if status == 401 {
        "Reachable — Tragentics API answered as expected."@
    } else if 200 <= status <= 399 {
        "Reachable (HTTP "@ + decimal(status as nat)
            + ") — but this does not look like the Tragentics API."@
    } else {
        "Host answered HTTP "@ + decimal(status as nat)
            + " — this does not look like the Tragentics API."@
    }
}

/// What the reachability probe reports for the HTTP status it got.
pub fn base_url_probe_message(status: u16) -> (r: String)
    ensures
        r@ == probe_message(status),
{
    if status == 401 {
        String::from_str("Reachable — Tragentics API answered as expected.")
    } else if 200 <= status && status <= 399 {
        let mut s = String::from_str("Reachable (HTTP ");
        push_decimal(&mut s, status as u64);
        s.append(") — but this does not look like the Tragentics API.");
        s
    } else {
        let mut s = String::from_str("Host answered HTTP ");
        push_decimal(&mut s, status as u64);
        s.append(" — this does not look like the Tragentics API.");
        s
    }
}

/// The verdict of a local health check: pass when the status falls inside
/// `[expect_min, expect_max]`.
pub open spec fn local_check_result(status: u16, expect_min: u16, expect_max: u16) -> Result<u16, Seq<char>> {
    if expect_min <= status && status <= expect_max {
        Ok(status)
    } else {
        Err("HTTP "@ + decimal(status as nat) + " outside expected "@ + decimal(expect_min as nat)
            + "–"@ + decimal(expect_max as nat))
    }
}

/// The outcome of a local health check answered with `status`.
pub fn local_check_verdict(status: u16, expect_min: u16, expect_max: u16) -> (r: Result<u16, String>)
    ensures
        match r {
            Ok(s) => local_check_result(status, expect_min, expect_max) == Ok::<u16, Seq<char>>(s),
            Err(m) => local_check_result(status, expect_min, expect_max) == Err::<u16, Seq<char>>(m@),
        },
{
    if status >= expect_min && status <= expect_max {
        Ok(status)
    } else {
        let mut s = String::from_str("HTTP ");
        push_decimal(&mut s, status as u64);
        s.append(" outside expected ");
        push_decimal(&mut s, expect_min as u64);
        s.append("–");
        push_decimal(&mut s, expect_max as u64);
        Err(s)
    }
}

/// The timeout of a local health check, clamped to 1–30 seconds.
pub fn local_check_timeout_secs(timeout_secs: u64) -> (r: u64)
    ensures
        r == (if timeout_secs < 1 { 1 } else if timeout_secs > 30 { 30 } else { timeout_secs }),
{
    if timeout_secs < 1 {
        1
    } else if timeout_secs > 30 {
        30
    } else {
        timeout_secs
    }
}

} // verus!
