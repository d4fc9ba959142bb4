//! OAuth 2.0 authorization code flow with PKCE (RFC 7636): code pairs,
//! authorization URLs, token expiry, and the keyed token store.
//!
//! Reading and writing the token file is left to the caller; the store's
//! contents are handled here as a list of `(key, token set)` entries.

use base64::Engine;
use sha2::Digest;
use vstd::prelude::*;
use crate::text::{
    chars_of, extend_chars, extend_str, has_char, join, owned, string_from_chars, string_views,
};

verus! {

// ─── Errors ──────────────────────────────────────────────────────────────────

/// Errors that can occur in the OAuth flow.
#[derive(Debug, Clone, PartialEq, Eq)]
pub enum OAuthError {
    /// The token file could not be read or written (the I/O error's message).
    Io(String),
    /// JSON serialization or deserialization failed (the error's message).
    Json(String),
    /// A required URL could not be built.
    InvalidUrl(String),
    /// No token is stored under the key.
    NotFound(String),
}

// ─── PKCE ────────────────────────────────────────────────────────────────────

/// The challenge method of the PKCE flow.
#[derive(Debug, Clone, Copy, PartialEq, Eq, Structural)]
pub enum PkceChallengeMethod {
    /// SHA-256 of the verifier, base64url-encoded.
    S256,
}

impl PkceChallengeMethod {
    /// The method's name as it is sent in requests.
    pub fn to_string(&self) -> (r: String)
        ensures
            r@ == "S256"@,
    {
        owned("S256")
    }
}

/// A PKCE code verifier and its challenge.
#[derive(Debug, Clone)]
pub struct PkceCodePair {
    /// The high-entropy secret.
    pub verifier: String,
    /// `BASE64URL(SHA256(verifier))`.
    pub challenge: String,
    /// Always `S256`.
    pub challenge_method: PkceChallengeMethod,
}

/// What `sha2::Sha256::digest` gives for the bytes.
pub uninterp spec fn sha256_digest(data: Seq<u8>) -> Seq<u8>;

/// What the URL-safe, unpadded base64 engine of the `base64` crate gives for
/// the bytes.
pub uninterp spec fn base64_url_no_pad(data: Seq<u8>) -> Seq<char>;

/// A character of the URL-safe base64 alphabet.
pub open spec fn is_url_safe_char(c: char) -> bool {
    ('A' <= c && c <= 'Z') || ('a' <= c && c <= 'z') || ('0' <= c && c <= '9') || c == '-'
        || c == '_'
}

/// The length of the unpadded base64 encoding of `n` bytes.
pub open spec fn base64_len(n: nat) -> nat {
    (4 * n + 2) / 3
}

/// `sha2::Sha256::digest`: the 32-byte digest of the data, by the name
/// `sha256_digest`.
#[verifier::external_body]
fn sha256(data: &[u8]) -> (r: Vec<u8>)
    ensures
        r@ == sha256_digest(data@),
        r@.len() == 32,
{
    sha2::Sha256::digest(data).to_vec()
}

/// `URL_SAFE_NO_PAD.encode` of the `base64` crate: the encoding, by the name
/// `base64_url_no_pad`, made of the URL-safe alphabet (`A-Z a-z 0-9 - _`)
/// without padding, four characters for every three bytes and two or three
/// for a remainder of one or two bytes.
#[verifier::external_body]
fn base64_url_encode(data: &[u8]) -> (r: String)
    requires
        data@.len() <= usize::MAX / 4,
    ensures
        r@ == base64_url_no_pad(data@),
        r@.len() == base64_len(data@.len()),
        forall|i: int| 0 <= i < r@.len() ==> is_url_safe_char(#[trigger] r@[i]),
{
    base64::engine::general_purpose::URL_SAFE_NO_PAD.encode(data)
}

/// The S256 challenge of a verifier: `BASE64URL(SHA256(ASCII(verifier)))`.
pub open spec fn s256_challenge(verifier: Seq<char>) -> Seq<char> {
    base64_url_no_pad(sha256_digest(vstd::utf8::encode_utf8(verifier)))
}

/// Computes the S256 challenge of a verifier.
pub fn compute_s256_challenge(verifier: &str) -> (r: String)
    ensures
        r@ == s256_challenge(verifier@),
        r@.len() == 43,
        forall|i: int| 0 <= i < r@.len() ==> is_url_safe_char(#[trigger] r@[i]),
{
    let hash = sha256(verifier.as_bytes());
    base64_url_encode(hash.as_slice())
}

/// Whether every character of `s` is in the URL-safe base64 alphabet.
pub open spec fn url_safe(s: Seq<char>) -> bool {
    forall|i: int| 0 <= i < s.len() ==> is_url_safe_char(#[trigger] s[i])
}

/// Generates a fresh PKCE pair: the verifier is the base64url encoding of
/// the hex digits of two random UUIDs (86 URL-safe characters), the
/// challenge its S256 challenge.
pub fn generate_pkce_pair() -> (r: PkceCodePair)
    ensures
        r.verifier@.len() == 86,
        url_safe(r.verifier@),
        r.challenge@ == s256_challenge(r.verifier@),
        r.challenge@.len() == 43,
        url_safe(r.challenge@),
        r.challenge_method == PkceChallengeMethod::S256,
{
    let a = crate::ids::new_uuid_v4_simple();
    let b = crate::ids::new_uuid_v4_simple();
    let mut raw_chars = chars_of(a.as_str());
    extend_str(&mut raw_chars, b.as_str());
    let raw = string_from_chars(&raw_chars);
    let rs = raw.as_str();
    proof {
        assert(raw@.len() == 64);
        assert forall|i: int| 0 <= i < raw@.len() implies (raw@[i] as u32) < 128 by {
            if i < 32 {
                assert(crate::ids::is_lower_hex(a@[i]));
            } else {
                assert(raw@[i] == b@[i - 32]);
                assert(crate::ids::is_lower_hex(b@[i - 32]));
            }
        }
        assert(vstd::string::is_ascii(rs));
        vstd::string::is_ascii_spec_bytes(rs);
    }
    let bytes = rs.as_bytes();
    assert(bytes@.len() == 64);
    let verifier = base64_url_encode(bytes);
    let challenge = compute_s256_challenge(verifier.as_str());
    PkceCodePair { verifier, challenge, challenge_method: PkceChallengeMethod::S256 }
}

// ─── Percent-encoding ────────────────────────────────────────────────────────

/// Whether a byte is in the unreserved set of RFC 3986 (`A-Z a-z 0-9 - _ . ~`).
pub open spec fn is_unreserved(b: u8) -> bool {
    (65 <= b && b <= 90) || (97 <= b && b <= 122) || (48 <= b && b <= 57) || b == 45 || b == 95
        || b == 46 || b == 126
}

/// The uppercase hexadecimal digit of `d < 16`.
pub open spec fn hex_upper(d: int) -> char {
    if d < 10 {
        (48 + d) as char
    } else {
        (55 + d) as char
    }
}

/// The percent-encoding of one byte.
pub open spec fn pct_byte(b: u8) -> Seq<char> {
    if is_unreserved(b) {
        seq![b as char]
    } else {
        seq!['%', hex_upper((b / 16) as int), hex_upper((b % 16) as int)]
    }
}

/// The percent-encoding of a byte string.
pub open spec fn pct_encoded(bs: Seq<u8>) -> Seq<char>
    decreases bs.len(),
{
    if bs.len() == 0 {
        seq![]
    } else {
        pct_encoded(bs.drop_last()) + pct_byte(bs.last())
    }
}

/// The percent-encoding of the UTF-8 bytes of a text.
pub open spec fn pct_text(s: Seq<char>) -> Seq<char> {
    pct_encoded(vstd::utf8::encode_utf8(s))
}

/// The uppercase hexadecimal digit of `d < 16`.
fn hex_digit(d: u8) -> (c: char)
    requires
        d < 16,
    ensures
        c == hex_upper(d as int),
{
    if d < 10 {
        (48 + d) as char
    } else {
        (55 + d) as char
    }
}

/// Appends the percent-encoding of `input` to `out`.
fn percent_encode_into(out: &mut Vec<char>, input: &str)
    ensures
        final(out)@ == old(out)@ + pct_text(input@),
{
    let bytes = input.as_bytes();
    let ghost start = out@;
    let mut i: usize = 0;
    while i < bytes.len()
        invariant
            i <= bytes.len(),
            bytes@ == vstd::utf8::encode_utf8(input@),
            out@ == start + pct_encoded(bytes@.take(i as int)),
        decreases bytes.len() - i,
    {
        let b = bytes[i];
        assert(bytes@.take(i + 1).drop_last() =~= bytes@.take(i as int));
        if (65 <= b && b <= 90) || (97 <= b && b <= 122) || (48 <= b && b <= 57) || b == 45
            || b == 95 || b == 46 || b == 126 {
            out.push(b as char);
        } else {
            out.push('%');
            out.push(hex_digit(b / 16));
            out.push(hex_digit(b % 16));
        }
        i += 1;
    }
    assert(bytes@.take(bytes.len() as int) =~= bytes@);
}

/// Percent-encodes `input` for a URL query: every UTF-8 byte outside the
/// unreserved set becomes `%XX` with uppercase hex digits.
pub fn percent_encode(input: &str) -> (r: String)
    ensures
        r@ == pct_text(input@),
{
    let mut out: Vec<char> = Vec::new();
    percent_encode_into(&mut out, input);
    string_from_chars(&out)
}

// ─── Tokens ──────────────────────────────────────────────────────────────────

/// A set of OAuth tokens from the authorization server.
#[derive(Debug, Clone)]
pub struct OAuthTokenSet {
    /// The bearer token.
    pub access_token: String,
    /// The token that gets a fresh access token.
    pub refresh_token: Option<String>,
    /// When the access token expires, in milliseconds since the Unix epoch;
    /// `None` when the server gave no expiry.
    pub expires_at: Option<i64>,
    /// The scopes granted.
    pub scopes: Vec<String>,
}

/// The view of an optional string.
pub open spec fn opt_str(o: Option<String>) -> Option<Seq<char>> {
    match o {
        Some(s) => Some(s@),
        None => None,
    }
}

/// Whether an expiry in seconds from `now_ms` fits the millisecond clock.
pub open spec fn expiry_fits(now_ms: int, expires_in_seconds: Option<i64>) -> bool {
    match expires_in_seconds {
        Some(s) => i64::MIN <= now_ms + s * 1000 <= i64::MAX,
        None => true,
    }
}

/// The expiry of a token issued at `now_ms` that lives for the given seconds.
pub open spec fn expiry_from(now_ms: int, expires_in_seconds: Option<i64>) -> Option<i64> {
    match expires_in_seconds {
        Some(s) => Some((now_ms + s * 1000) as i64),
        None => None,
    }
}

impl OAuthTokenSet {
    /// A token set issued at `now_ms`; the expiry is `expires_in_seconds`
    /// later, or none when the server gave no lifetime.
    pub fn new_at(
        now_ms: i64,
        access_token: &str,
        refresh_token: Option<&str>,
        expires_in_seconds: Option<i64>,
        scopes: Vec<String>,
    ) -> (r: OAuthTokenSet)
        requires
            expiry_fits(now_ms as int, expires_in_seconds),
        ensures
            r.access_token@ == access_token@,
            opt_str(r.refresh_token) == match refresh_token {
                Some(t) => Some(t@),
                None => None::<Seq<char>>,
            },
            r.expires_at == expiry_from(now_ms as int, expires_in_seconds),
            r.scopes@ == scopes@,
    {
        let expires_at = match expires_in_seconds {
            Some(secs) => Some((now_ms as i128 + (secs as i128) * 1000) as i64),
            None => None,
        };
        let refresh = match refresh_token {
            Some(t) => Some(owned(t)),
            None => None,
        };
        OAuthTokenSet { access_token: owned(access_token), refresh_token: refresh, expires_at, scopes }
    }

    /// A token set issued now; see `new_at`. Lifetimes run up to the clock's
    /// range (about 285,000 years either way).
    pub fn new(
        access_token: &str,
        refresh_token: Option<&str>,
        expires_in_seconds: Option<i64>,
        scopes: Vec<String>,
    ) -> (r: OAuthTokenSet)
        requires
            match expires_in_seconds {
                Some(s) => -9_000_000_000_000_000 <= s * 1000 <= 9_000_000_000_000_000,
                None => true,
            },
        ensures
            r.access_token@ == access_token@,
            opt_str(r.refresh_token) == match refresh_token {
                Some(t) => Some(t@),
                None => None::<Seq<char>>,
            },
            r.expires_at is Some <==> expires_in_seconds is Some,
            exists|now: i64|
                crate::clock::in_clock_range(now as int) && r.expires_at == #[trigger] expiry_from(
                    now as int,
                    expires_in_seconds,
                ),
            r.scopes@ == scopes@,
    {
        let now = crate::clock::now_millis();
        Self::new_at(now, access_token, refresh_token, expires_in_seconds, scopes)
    }
}

/// Whether a token has expired at `now_ms`; one without expiry never has.
pub open spec fn expired_at(token: OAuthTokenSet, now_ms: int) -> bool {
    match token.expires_at {
        Some(e) => now_ms >= e,
        None => false,
    }
}

/// Whether the token has expired at `now_ms`.
pub fn is_token_expired_at(token: &OAuthTokenSet, now_ms: i64) -> (r: bool)
    ensures
        r == expired_at(*token, now_ms as int),
{
    match token.expires_at {
        Some(e) => now_ms >= e,
        None => false,
    }
}

/// Whether the token has expired now. A token without expiry is never
/// expired; otherwise the answer depends on the clock.
pub fn is_token_expired(token: &OAuthTokenSet) -> (r: bool)
    ensures
        token.expires_at is None ==> !r,
        exists|now: i64| r == expired_at(*token, now as int),
{
    let now = crate::clock::now_millis();
    is_token_expired_at(token, now)
}

/// Whether a token expires within `threshold_seconds` of `now_ms` (or has
/// expired); one without expiry never needs a refresh.
pub open spec fn refresh_due_at(token: OAuthTokenSet, threshold_seconds: int, now_ms: int) -> bool {
    match token.expires_at {
        Some(e) => now_ms >= e - threshold_seconds * 1000,
        None => false,
    }
}

/// The largest threshold, in seconds, that a time span can hold.
pub open spec fn threshold_fits(threshold_seconds: i64) -> bool {
    -(i64::MAX / 1000) <= threshold_seconds <= i64::MAX / 1000
}

/// Whether the token needs a refresh at `now_ms`.
pub fn needs_refresh_at(token: &OAuthTokenSet, threshold_seconds: i64, now_ms: i64) -> (r: bool)
    requires
        threshold_fits(threshold_seconds),
    ensures
        r == refresh_due_at(*token, threshold_seconds as int, now_ms as int),
{
    match token.expires_at {
        Some(e) => {
            let deadline: i128 = e as i128 - (threshold_seconds as i128) * 1000;
            now_ms as i128 >= deadline
        },
        None => false,
    }
}

// ─── Configuration and the authorization URL ─────────────────────────────────

/// OAuth client configuration.
#[derive(Debug, Clone)]
pub struct OAuthConfig {
    /// The client identifier.
    pub client_id: String,
    /// The authorization endpoint.
    pub auth_url: String,
    /// The token endpoint.
    pub token_url: String,
    /// Where the server redirects after consent.
    pub redirect_uri: String,
    /// The scopes to request.
    pub scopes: Vec<String>,
}

/// One `key=value` query parameter, both percent-encoded.
pub open spec fn query_pair(k: Seq<char>, v: Seq<char>) -> Seq<char> {
    pct_text(k) + "="@ + pct_text(v)
}

/// The query of the authorization request, in the order the parameters are
/// sent.
pub open spec fn authorization_query(
    config: OAuthConfig,
    challenge: Seq<char>,
    state: Seq<char>,
) -> Seq<char> {
    query_pair("response_type"@, "code"@) + "&"@ + query_pair("client_id"@, config.client_id@)
        + "&"@ + query_pair("redirect_uri"@, config.redirect_uri@) + "&"@ + query_pair(
        "scope"@,
        join(string_views(config.scopes@), " "@),
    ) + "&"@ + query_pair("state"@, state) + "&"@ + query_pair("code_challenge"@, challenge)
        + "&"@ + query_pair("code_challenge_method"@, "S256"@)
}

/// The authorization URL: the endpoint, `?` (or `&` when the endpoint has a
/// query already), and the query.
pub open spec fn authorization_url(
    config: OAuthConfig,
    challenge: Seq<char>,
    state: Seq<char>,
) -> Seq<char> {
    config.auth_url@ + (if config.auth_url@.contains('?') {
        seq!['&']
    } else {
        seq!['?']
    }) + authorization_query(config, challenge, state)
}

/// Appends `key=value`, both percent-encoded.
fn push_query_pair(out: &mut Vec<char>, k: &str, v: &str)
    ensures
        final(out)@ == old(out)@ + query_pair(k@, v@),
{
    percent_encode_into(out, k);
    extend_str(out, "=");
    percent_encode_into(out, v);
}

/// The strings of `v` joined by `sep`.
fn join_strings(v: &Vec<String>, sep: &str) -> (r: String)
    ensures
        r@ == join(string_views(v@), sep@),
{
    let mut out: Vec<char> = Vec::new();
    let mut i: usize = 0;
    while i < v.len()
        invariant
            i <= v.len(),
            out@ == join(string_views(v@.take(i as int)), sep@),
        decreases v.len() - i,
    {
        let ghost pre = string_views(v@.take(i as int));
        assert(string_views(v@.take(i + 1)) =~= pre.push(v@[i as int]@));
        if i > 0 {
            extend_str(&mut out, sep);
        }
        extend_str(&mut out, v[i].as_str());
        proof {
            let nxt = pre.push(v@[i as int]@);
            assert(nxt.drop_last() =~= pre);
        }
        i += 1;
    }
    assert(v@.take(v.len() as int) =~= v@);
    string_from_chars(&out)
}

/// Whether `c` is an ASCII letter.
pub open spec fn is_ascii_alpha(c: char) -> bool {
    ('a' <= c && c <= 'z') || ('A' <= c && c <= 'Z')
}

/// Whether `c` may follow the first letter of a URL scheme: an ASCII letter
/// or digit, `+`, `-` or `.`.
pub open spec fn is_scheme_char(c: char) -> bool {
    is_ascii_alpha(c) || ('0' <= c && c <= '9') || c == '+' || c == '-' || c == '.'
}

/// Whether the first `k` characters of `s` spell `name`, a word in lower
/// case, ignoring ASCII case: each is the word's character or its
/// upper-case letter.
pub open spec fn scheme_is(s: Seq<char>, k: int, name: Seq<char>) -> bool {
    &&& k == name.len()
    &&& k <= s.len()
    &&& forall|j: int|
        0 <= j < k ==> #[trigger] s[j] == name[j] || ('A' <= s[j] && s[j] <= 'Z' && (s[j] as u32) + 32
            == (name[j] as u32))
}

/// Whether the scheme that takes the first `k` characters of `s` is one of
/// the special schemes other than `file`: `http`, `https`, `ws`, `wss` and
/// `ftp`.
pub open spec fn special_scheme(s: Seq<char>, k: int) -> bool {
    scheme_is(s, k, "http"@) || scheme_is(s, k, "https"@) || scheme_is(s, k, "ws"@) || scheme_is(
        s,
        k,
        "wss"@,
    ) || scheme_is(s, k, "ftp"@)
}

/// Whether `c` is a slash or a backslash.
pub open spec fn is_slash(c: char) -> bool {
    c == '/' || c == '\\'
}

/// Whether, from index `i` on, `s` holds a host after any slashes: a
/// character that is no slash, `?`, `#` or `:`.
pub open spec fn host_after(s: Seq<char>, i: int) -> bool {
    exists|m: int|
        i <= m < s.len() && (forall|j: int| i <= j < m ==> is_slash(#[trigger] s[j])) && !is_slash(
            #[trigger] s[m],
        ) && s[m] != '?' && s[m] != '#' && s[m] != ':'
}

/// Whether what follows the scheme's colon at index `k` lets `s` serve as a
/// base: anything for `file`; a host, after any slashes, for the other
/// special schemes; a path that starts with `/` for any other scheme.
pub open spec fn base_after_scheme(s: Seq<char>, k: int) -> bool {
    if scheme_is(s, k, "file"@) {
        true
    } else if special_scheme(s, k) {
        host_after(s, k + 1)
    } else {
        k + 1 < s.len() && s[k + 1] == '/'
    }
}

/// Whether `s` can serve as the base of a URL, as the URL standard parses
/// it, short of checking the host's own characters and without stripping
/// surrounding spaces: a scheme (a letter, then letters, digits, `+`, `-`
/// or `.`), a colon, and then what `base_after_scheme` asks.
pub open spec fn url_base_ok(s: Seq<char>) -> bool {
    exists|k: int|
        1 <= k && k < s.len() && is_ascii_alpha(s[0]) && (forall|j: int|
            1 <= j < k ==> is_scheme_char(#[trigger] s[j])) && #[trigger] s[k] == ':'
            && base_after_scheme(s, k)
}

/// Whether `c` may follow the first letter of a URL scheme.
fn scheme_char(c: char) -> (r: bool)
    ensures
        r == is_scheme_char(c),
{
    ('a' <= c && c <= 'z') || ('A' <= c && c <= 'Z') || ('0' <= c && c <= '9') || c == '+' || c
        == '-' || c == '.'
}

/// Whether the first `k` characters of `s` spell `name`, ignoring ASCII
/// case.
fn scheme_equals(s: &[char], k: usize, name: &str) -> (r: bool)
    requires
        k <= s@.len(),
    ensures
        r == scheme_is(s@, k as int, name@),
{
    let w = chars_of(name);
    if w.len() != k {
        return false;
    }
    let mut j: usize = 0;
    while j < k
        invariant
            j <= k == w@.len() <= s@.len(),
            w@ == name@,
            forall|i: int|
                0 <= i < j ==> #[trigger] s@[i] == w@[i] || ('A' <= s@[i] && s@[i] <= 'Z' && (s@[i] as u32)
                    + 32 == (w@[i] as u32)),
        decreases k - j,
    {
        let c = s[j];
        let d = w[j];
        if !(c == d || ('A' <= c && c <= 'Z' && (c as u32) + 32 == (d as u32))) {
            return false;
        }
        j += 1;
    }
    true
}

/// Whether, from index `i` on, `s` holds a host after any slashes.
fn has_host_after(s: &[char], i: usize) -> (r: bool)
    requires
        i <= s@.len(),
    ensures
        r == host_after(s@, i as int),
{
    let mut m: usize = i;
    while m < s.len() && (s[m] == '/' || s[m] == '\\')
        invariant
            i <= m <= s@.len(),
            forall|j: int| i <= j < m ==> is_slash(#[trigger] s@[j]),
        decreases s@.len() - m,
    {
        m += 1;
    }
    let ok = m < s.len() && s[m] != '?' && s[m] != '#' && s[m] != ':';
    proof {
        if !ok && host_after(s@, i as int) {
            let w = choose|w: int|
                i <= w < s@.len() && (forall|j: int| i <= j < w ==> is_slash(#[trigger] s@[j])) && !is_slash(
                    #[trigger] s@[w],
                ) && s@[w] != '?' && s@[w] != '#' && s@[w] != ':';
            if w < m {
                assert(is_slash(s@[w]));
            } else if w > m {
                assert(m < s@.len());
                assert(is_slash(s@[m as int]));
            }
        }
    }
    ok
}

/// Whether `s` can serve as the base of a URL; see `url_base_ok`.
pub fn is_url_base(s: &[char]) -> (r: bool)
    ensures
        r == url_base_ok(s@),
{
    let n = s.len();
    if n == 0 {
        return false;
    }
    let c0 = s[0];
    if !(('a' <= c0 && c0 <= 'z') || ('A' <= c0 && c0 <= 'Z')) {
        return false;
    }
    let mut i: usize = 1;
    while i < n && scheme_char(s[i])
        invariant
            1 <= i <= n == s@.len(),
            forall|j: int| 1 <= j < i ==> is_scheme_char(#[trigger] s@[j]),
        decreases n - i,
    {
        i += 1;
    }
    let colon = i < n && s[i] == ':';
    let ok = if !colon {
        false
    } else if scheme_equals(s, i, "file") {
        true
    } else if scheme_equals(s, i, "http") || scheme_equals(s, i, "https") || scheme_equals(s, i, "ws")
        || scheme_equals(s, i, "wss") || scheme_equals(s, i, "ftp") {
        has_host_after(s, i + 1)
    } else {
        i + 1 < n && s[i + 1] == '/'
    };
    proof {
        if colon {
            assert(s@[i as int] == ':');
            assert(ok == base_after_scheme(s@, i as int));
        }
        if !ok && url_base_ok(s@) {
            let k = choose|k: int|
                1 <= k && k < s@.len() && is_ascii_alpha(s@[0]) && (forall|j: int|
                    1 <= j < k ==> is_scheme_char(#[trigger] s@[j])) && #[trigger] s@[k] == ':'
                    && base_after_scheme(s@, k);
            if k < i {
                assert(is_scheme_char(s@[k]));
            } else if k > i {
                assert(i < n);
                assert(is_scheme_char(s@[i as int]));
            }
        }
    }
    ok
}

/// The refusal of an authorization endpoint that cannot serve as a URL base.
pub open spec fn bad_base_message(url: Seq<char>) -> Seq<char> {
    if url.len() == 0 {
        "auth_url must not be empty"@
    } else {
        "auth_url cannot be parsed as a URL base: "@ + url
    }
}

/// Builds the authorization URL for the first leg of the flow. An endpoint
/// that cannot serve as a URL base is refused.
pub fn build_authorization_url(config: &OAuthConfig, pkce: &PkceCodePair, state: &str) -> (r:
    Result<String, OAuthError>)
    ensures
        !url_base_ok(config.auth_url@) <==> r is Err,
        r matches Err(e) ==> (e matches OAuthError::InvalidUrl(m) && m@ == bad_base_message(
            config.auth_url@,
        )),
        url_base_ok(config.auth_url@) ==> (r matches Ok(u) && u@ == authorization_url(
            *config,
            pkce.challenge@,
            state@,
        )),
{
    let url_chars = chars_of(config.auth_url.as_str());
    if !is_url_base(&url_chars) {
        if url_chars.len() == 0 {
            return Err(OAuthError::InvalidUrl(owned("auth_url must not be empty")));
        }
        let mut m = chars_of("auth_url cannot be parsed as a URL base: ");
        extend_chars(&mut m, &url_chars);
        return Err(OAuthError::InvalidUrl(string_from_chars(&m)));
    }
    let scope = join_strings(&config.scopes, " ");
    let mut q: Vec<char> = Vec::new();
    push_query_pair(&mut q, "response_type", "code");
    extend_str(&mut q, "&");
    push_query_pair(&mut q, "client_id", config.client_id.as_str());
    extend_str(&mut q, "&");
    push_query_pair(&mut q, "redirect_uri", config.redirect_uri.as_str());
    extend_str(&mut q, "&");
    push_query_pair(&mut q, "scope", scope.as_str());
    extend_str(&mut q, "&");
    push_query_pair(&mut q, "state", state);
    extend_str(&mut q, "&");
    push_query_pair(&mut q, "code_challenge", pkce.challenge.as_str());
    extend_str(&mut q, "&");
    push_query_pair(&mut q, "code_challenge_method", "S256");
    let mut out = chars_of(config.auth_url.as_str());
    if has_char(&out, '?') {
        out.push('&');
    } else {
        out.push('?');
    }
    extend_chars(&mut out, &q);
    Ok(string_from_chars(&out))
}

// ─── The token store ─────────────────────────────────────────────────────────

/// The stored token sets by key: later entries win over earlier ones.
pub open spec fn token_map(entries: Seq<(String, OAuthTokenSet)>) -> Map<Seq<char>, OAuthTokenSet>
    decreases entries.len(),
{
    if entries.len() == 0 {
        Map::empty()
    } else {
        token_map(entries.drop_last()).insert(entries.last().0@, entries.last().1)
    }
}

/// Whether no key occurs twice among the entries.
pub open spec fn keys_unique(entries: Seq<(String, OAuthTokenSet)>) -> bool {
    forall|i: int, j: int|
        0 <= i < j < entries.len() ==> #[trigger] entries[i].0@ != #[trigger] entries[j].0@
}

/// The keys of the map are the keys of the entries.
pub proof fn lemma_token_map_dom(entries: Seq<(String, OAuthTokenSet)>, key: Seq<char>)
    ensures
        token_map(entries).dom().contains(key) <==> exists|i: int|
            0 <= i < entries.len() && #[trigger] entries[i].0@ == key,
    decreases entries.len(),
{
    if entries.len() > 0 {
        let pre = entries.drop_last();
        lemma_token_map_dom(pre, key);
        if token_map(pre).dom().contains(key) {
            let i = choose|i: int| 0 <= i < pre.len() && #[trigger] pre[i].0@ == key;
            assert(entries[i].0@ == key);
        }
        if exists|i: int| 0 <= i < entries.len() && #[trigger] entries[i].0@ == key {
            let i = choose|i: int| 0 <= i < entries.len() && #[trigger] entries[i].0@ == key;
            if i < entries.len() - 1 {
                assert(pre[i].0@ == key);
            }
        }
    }
}

/// With unique keys, the map gives each entry's token for its key.
pub proof fn lemma_token_map_value(entries: Seq<(String, OAuthTokenSet)>, i: int)
    requires
        keys_unique(entries),
        0 <= i < entries.len(),
    ensures
        token_map(entries).dom().contains(entries[i].0@),
        token_map(entries)[entries[i].0@] == entries[i].1,
    decreases entries.len(),
{
    let pre = entries.drop_last();
    if i < entries.len() - 1 {
        assert(keys_unique(pre));
        assert(pre[i] == entries[i]);
        lemma_token_map_value(pre, i);
        assert(entries[i].0@ != entries[entries.len() - 1].0@);
    }
}

/// Replacing the entry at `i` by one with the same key replaces that key's
/// token.
proof fn lemma_token_map_update(
    entries: Seq<(String, OAuthTokenSet)>,
    i: int,
    e: (String, OAuthTokenSet),
)
    requires
        keys_unique(entries),
        0 <= i < entries.len(),
        e.0@ == entries[i].0@,
    ensures
        token_map(entries.update(i, e)) =~= token_map(entries).insert(e.0@, e.1),
        keys_unique(entries.update(i, e)),
    decreases entries.len(),
{
    let n = entries.len();
    let upd = entries.update(i, e);
    let pre = entries.drop_last();
    assert(upd.drop_last() =~= if i == n - 1 { pre } else { pre.update(i, e) });
    if i < n - 1 {
        assert(keys_unique(pre));
        lemma_token_map_update(pre, i, e);
        assert(entries[n - 1].0@ != entries[i].0@);
    }
    assert forall|a: int, b: int| 0 <= a < b < upd.len() implies #[trigger] upd[a].0@
        != #[trigger] upd[b].0@ by {
        assert(entries[a].0@ != entries[b].0@);
    }
}

/// Removing the entry at `i` removes its key.
proof fn lemma_token_map_remove(entries: Seq<(String, OAuthTokenSet)>, i: int)
    requires
        keys_unique(entries),
        0 <= i < entries.len(),
    ensures
        token_map(entries.remove(i)) =~= token_map(entries).remove(entries[i].0@),
        keys_unique(entries.remove(i)),
    decreases entries.len(),
{
    let n = entries.len();
    let key = entries[i].0@;
    let rem = entries.remove(i);
    let pre = entries.drop_last();
    assert(keys_unique(pre));
    if i == n - 1 {
        assert(rem =~= pre);
        lemma_token_map_dom(pre, key);
        assert(!token_map(pre).dom().contains(key));
    } else {
        assert(rem.drop_last() =~= pre.remove(i));
        assert(rem.last() == entries.last());
        lemma_token_map_remove(pre, i);
        assert(entries[n - 1].0@ != key);
    }
    assert forall|a: int, b: int| 0 <= a < b < rem.len() implies #[trigger] rem[a].0@
        != #[trigger] rem[b].0@ by {
        let a0 = if a < i { a } else { a + 1 };
        let b0 = if b < i { b } else { b + 1 };
        assert(rem[a] == entries[a0]);
        assert(rem[b] == entries[b0]);
        assert(entries[a0].0@ != entries[b0].0@);
    }
}

/// The index of the entry with the given key, if any.
fn find_key(entries: &Vec<(String, OAuthTokenSet)>, key: &str) -> (r: Option<usize>)
    ensures
        match r {
            Some(i) => i < entries@.len() && entries@[i as int].0@ == key@,
            None => forall|i: int| 0 <= i < entries@.len() ==> #[trigger] entries@[i].0@ != key@,
        },
{
    let mut i: usize = 0;
    while i < entries.len()
        invariant
            i <= entries.len(),
            forall|j: int| 0 <= j < i ==> #[trigger] entries@[j].0@ != key@,
        decreases entries.len() - i,
    {
        if crate::text::str_eq(entries[i].0.as_str(), key) {
            return Some(i);
        }
        i += 1;
    }
    None
}

/// File-backed storage of token sets by key. This value names the file;
/// the caller reads and writes it.
pub struct TokenStore {
    path: String,
}

/// The default place of the token file: `.ember/oauth/tokens.json` under
/// the home directory, or under `.` when there is none.
pub open spec fn default_token_path_of(home: Option<Seq<char>>) -> Seq<char> {
    let base = match home {
        Some(h) => h,
        None => "."@,
    };
    crate::testgen::path_join(
        crate::testgen::path_join(crate::testgen::path_join(base, ".ember"@), "oauth"@),
        "tokens.json"@,
    )
}

/// `dirs::home_dir`: the user's home directory, as text. It depends on the
/// environment, so nothing is stated of it.
#[verifier::external_body]
fn home_dir() -> (r: Option<String>) {
    dirs::home_dir().map(|p| p.to_string_lossy().into_owned())
}

/// The default token file path for the given home directory.
pub fn default_token_path(home: Option<String>) -> (r: String)
    ensures
        r@ == default_token_path_of(opt_str(home)),
{
    let base = match home {
        Some(h) => h,
        None => owned("."),
    };
    let a = crate::testgen::join_path(base.as_str(), ".ember");
    let b = crate::testgen::join_path(a.as_str(), "oauth");
    crate::testgen::join_path(b.as_str(), "tokens.json")
}

/// The result of looking up a key: its token, or `NotFound` naming the key.
pub open spec fn lookup_result(
    map: Map<Seq<char>, OAuthTokenSet>,
    key: Seq<char>,
    r: Result<OAuthTokenSet, OAuthError>,
) -> bool {
    if map.dom().contains(key) {
        r == Ok::<OAuthTokenSet, OAuthError>(map[key])
    } else {
        r matches Err(OAuthError::NotFound(k)) && k@ == key
    }
}

/// Whether the token stored under `key` needs a refresh at `now_ms`, from
/// what reading the file gave.
pub open spec fn stored_refresh_due(
    loaded: Result<Vec<(String, OAuthTokenSet)>, OAuthError>,
    key: Seq<char>,
    threshold_seconds: int,
    now_ms: int,
) -> bool {
    match loaded {
        Ok(entries) => token_map(entries@).dom().contains(key) && refresh_due_at(
            token_map(entries@)[key],
            threshold_seconds,
            now_ms,
        ),
        Err(_) => false,
    }
}

impl TokenStore {
    /// The path of the token file.
    pub closed spec fn file_path(&self) -> Seq<char> {
        self.path@
    }

    /// A store at the default path under the user's home directory.
    pub fn new() -> (r: TokenStore)
        ensures
            exists|home: Option<Seq<char>>| r.file_path() == default_token_path_of(home),
    {
        let home = home_dir();
        TokenStore { path: default_token_path(home) }
    }

    /// A store at an explicit path.
    pub fn with_path(path: &str) -> (r: TokenStore)
        ensures
            r.file_path() == path@,
    {
        TokenStore { path: owned(path) }
    }

    /// The path of the token file.
    pub fn path(&self) -> (r: &str)
        ensures
            r@ == self.file_path(),
    {
        self.path.as_str()
    }

    /// The token stored under `key`, from what reading the file gave:
    /// a read error passes through; a missing key is `NotFound`.
    pub fn load(
        loaded: Result<Vec<(String, OAuthTokenSet)>, OAuthError>,
        key: &str,
    ) -> (r: Result<OAuthTokenSet, OAuthError>)
        requires
            loaded matches Ok(entries) ==> keys_unique(entries@),
        ensures
            match loaded {
                Err(e) => r == Err::<OAuthTokenSet, OAuthError>(e),
                Ok(entries) => lookup_result(token_map(entries@), key@, r),
            },
    {
        match loaded {
            Err(e) => Err(e),
            Ok(entries) => {
                match find_key(&entries, key) {
                    Some(i) => {
                        proof {
                            lemma_token_map_value(entries@, i as int);
                        }
                        let mut entries = entries;
                        let (_, token) = entries.remove(i);
                        Ok(token)
                    },
                    None => {
                        proof {
                            lemma_token_map_dom(entries@, key@);
                        }
                        Err(OAuthError::NotFound(owned(key)))
                    },
                }
            },
        }
    }

    /// Stores `token` under `key` in the entries, replacing any token there.
    pub fn save(entries: &mut Vec<(String, OAuthTokenSet)>, key: &str, token: OAuthTokenSet)
        requires
            keys_unique(old(entries)@),
        ensures
            keys_unique(final(entries)@),
            token_map(final(entries)@) == token_map(old(entries)@).insert(key@, token),
    {
        match find_key(entries, key) {
            Some(i) => {
                let e = (owned(key), token);
                proof {
                    lemma_token_map_update(entries@, i as int, e);
                }
                entries.set(i, e);
            },
            None => {
                let e = (owned(key), token);
                proof {
                    let old_entries = entries@;
                    let pushed = old_entries.push(e);
                    assert(pushed.drop_last() =~= old_entries);
                    assert forall|a: int, b: int| 0 <= a < b < pushed.len() implies #[trigger] pushed[a].0@
                        != #[trigger] pushed[b].0@ by {
                        if b == old_entries.len() {
                            assert(old_entries[a].0@ != key@);
                        } else {
                            assert(old_entries[a].0@ != old_entries[b].0@);
                        }
                    }
                }
                entries.push(e);
            },
        }
    }

    /// Removes the token stored under `key` from the entries, if any.
    pub fn delete(entries: &mut Vec<(String, OAuthTokenSet)>, key: &str)
        requires
            keys_unique(old(entries)@),
        ensures
            keys_unique(final(entries)@),
            token_map(final(entries)@) == token_map(old(entries)@).remove(key@),
    {
        match find_key(entries, key) {
            Some(i) => {
                proof {
                    lemma_token_map_remove(entries@, i as int);
                }
                entries.remove(i);
            },
            None => {
                proof {
                    lemma_token_map_dom(entries@, key@);
                    assert(token_map(entries@).remove(key@) =~= token_map(entries@));
                }
            },
        }
    }

    /// Whether the token stored under `key` has expired now, from what
    /// reading the file gave; `false` when there is no such token or it has
    /// no expiry.
    pub fn is_expired(
        &self,
        loaded: Result<Vec<(String, OAuthTokenSet)>, OAuthError>,
        key: &str,
    ) -> (r: bool)
        requires
            loaded matches Ok(entries) ==> keys_unique(entries@),
        ensures
            match loaded {
                Ok(entries) => if token_map(entries@).dom().contains(key@) {
                    exists|now: i64| r == expired_at(token_map(entries@)[key@], now as int)
                } else {
                    !r
                },
                Err(_) => !r,
            },
    {
        match Self::load(loaded, key) {
            Ok(t) => is_token_expired(&t),
            Err(_) => false,
        }
    }

    /// Whether the token stored under `key` expires within
    /// `threshold_seconds` of `now_ms` (or has expired), from what reading
    /// the file gave; `false` when there is no such token or it has no
    /// expiry.
    pub fn needs_refresh_at(
        &self,
        loaded: Result<Vec<(String, OAuthTokenSet)>, OAuthError>,
        key: &str,
        threshold_seconds: i64,
        now_ms: i64,
    ) -> (r: bool)
        requires
            loaded matches Ok(entries) ==> keys_unique(entries@),
            threshold_fits(threshold_seconds),
        ensures
            r == stored_refresh_due(loaded, key@, threshold_seconds as int, now_ms as int),
    {
        match Self::load(loaded, key) {
            Ok(t) => needs_refresh_at(&t, threshold_seconds, now_ms),
            Err(_) => false,
        }
    }

    /// `needs_refresh_at` at the current time.
    pub fn needs_refresh(
        &self,
        loaded: Result<Vec<(String, OAuthTokenSet)>, OAuthError>,
        key: &str,
        threshold_seconds: i64,
    ) -> (r: bool)
        requires
            loaded matches Ok(entries) ==> keys_unique(entries@),
            threshold_fits(threshold_seconds),
        ensures
            exists|now: i64|
                r == #[trigger] stored_refresh_due(loaded, key@, threshold_seconds as int, now as int),
    {
        let now = crate::clock::now_millis();
        self.needs_refresh_at(loaded, key, threshold_seconds, now)
    }
}

/// What a save stores under a key is what loading that key gives back, and a
/// save leaves every other key as it was; after a delete, loading the key
/// finds nothing, and a store that was never written finds nothing for any
/// key. The entries before and after are related as `TokenStore::save` and
/// `TokenStore::delete` state, and a load as `TokenStore::load` states.
pub proof fn lemma_load_after_save(
    before: Seq<(String, OAuthTokenSet)>,
    saved: Seq<(String, OAuthTokenSet)>,
    deleted: Seq<(String, OAuthTokenSet)>,
    key: Seq<char>,
    token: OAuthTokenSet,
    other: Seq<char>,
    r: Result<OAuthTokenSet, OAuthError>,
)
    requires
        token_map(saved) == token_map(before).insert(key, token),
        token_map(deleted) == token_map(before).remove(key),
    ensures
        lookup_result(token_map(saved), key, r) <==> r == Ok::<OAuthTokenSet, OAuthError>(token),
        other != key ==> (lookup_result(token_map(saved), other, r) <==> lookup_result(
            token_map(before),
            other,
            r,
        )),
        lookup_result(token_map(deleted), key, r) <==> (r matches Err(OAuthError::NotFound(k)) && k@
            == key),
        lookup_result(token_map(Seq::empty()), other, r) <==> (r matches Err(OAuthError::NotFound(k))
            && k@ == other),
{
    assert(token_map(Seq::<(String, OAuthTokenSet)>::empty()) == Map::<Seq<char>, OAuthTokenSet>::empty());
}

impl Default for TokenStore {
    fn default() -> (r: TokenStore)
        ensures
            exists|home: Option<Seq<char>>| r.file_path() == default_token_path_of(home),
    {
        TokenStore::new()
    }
}

} // verus!
