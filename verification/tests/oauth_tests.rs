use ember::oauth::{
    build_authorization_url, compute_s256_challenge, default_token_path, generate_pkce_pair,
    is_token_expired, is_token_expired_at, needs_refresh_at, percent_encode, OAuthConfig,
    OAuthError, OAuthTokenSet, PkceChallengeMethod, TokenStore,
};

fn sample_config() -> OAuthConfig {
    OAuthConfig {
        client_id: "test-client".to_string(),
        auth_url: "https://auth.example.com/oauth/authorize".to_string(),
        token_url: "https://auth.example.com/oauth/token".to_string(),
        redirect_uri: "http://localhost:8080/callback".to_string(),
        scopes: vec!["read".to_string(), "write".to_string()],
    }
}

fn now_ms() -> i64 {
    chrono::Utc::now().timestamp_millis()
}

fn token(access: &str, expires_at: Option<i64>) -> OAuthTokenSet {
    OAuthTokenSet {
        access_token: access.to_string(),
        refresh_token: None,
        expires_at,
        scopes: vec![],
    }
}

fn url_safe(s: &str) -> bool {
    s.chars().all(|c| c.is_ascii_alphanumeric() || matches!(c, '-' | '_'))
}

#[test]
fn pkce_pair_has_s256_method() {
    let pair = generate_pkce_pair();
    assert_eq!(pair.challenge_method, PkceChallengeMethod::S256);
    assert_eq!(pair.challenge_method.to_string(), "S256");
}

#[test]
fn pkce_verifier_is_url_safe() {
    let pair = generate_pkce_pair();
    assert!(url_safe(&pair.verifier), "got: {}", pair.verifier);
}

#[test]
fn pkce_challenge_is_url_safe() {
    let pair = generate_pkce_pair();
    assert!(url_safe(&pair.challenge));
}

#[test]
fn pkce_challenge_matches_sha256_of_verifier() {
    let pair = generate_pkce_pair();
    let expected = compute_s256_challenge(&pair.verifier);
    assert_eq!(pair.challenge, expected);
}

#[test]
fn pkce_verifier_minimum_length() {
    let pair = generate_pkce_pair();
    assert!(pair.verifier.len() >= 43, "verifier too short: {}", pair.verifier.len());
    assert_eq!(pair.verifier.len(), 86);
    assert_eq!(pair.challenge.len(), 43);
}

#[test]
fn pkce_pairs_are_unique() {
    let a = generate_pkce_pair();
    let b = generate_pkce_pair();
    assert_ne!(a.verifier, b.verifier);
    assert_ne!(a.challenge, b.challenge);
}

#[test]
fn pkce_known_vector() {
    let verifier = "dBjftJeZ4CVP-mB92K27uhbUJU1p1r_wW1gFWFOEjXk";
    let expected = "E9Melhoa2OwvFrEMTJguCHaoeK1t8URWbuGJSstw-cM";
    assert_eq!(compute_s256_challenge(verifier), expected);
}

#[test]
fn auth_url_contains_required_params() {
    let config = sample_config();
    let pkce = generate_pkce_pair();
    let url = build_authorization_url(&config, &pkce, "state-token").unwrap();
    assert!(url.contains("response_type=code"));
    assert!(url.contains("client_id=test-client"));
    assert!(url.contains("code_challenge_method=S256"));
    assert!(url.contains("state=state-token"));
    assert!(url.contains("code_challenge="));
}

#[test]
fn auth_url_encodes_redirect_uri() {
    let config = sample_config();
    let pkce = generate_pkce_pair();
    let url = build_authorization_url(&config, &pkce, "s").unwrap();
    assert!(
        url.contains("redirect_uri=http%3A%2F%2Flocalhost%3A8080%2Fcallback"),
        "redirect_uri not percent-encoded, got: {url}"
    );
}

#[test]
fn auth_url_joins_scopes_with_space() {
    let config = sample_config();
    let pkce = generate_pkce_pair();
    let url = build_authorization_url(&config, &pkce, "s").unwrap();
    assert!(url.contains("scope=read%20write"), "scope not found in: {url}");
}

#[test]
fn auth_url_empty_auth_url_returns_error() {
    let mut config = sample_config();
    config.auth_url = String::new();
    let pkce = generate_pkce_pair();
    let result = build_authorization_url(&config, &pkce, "s");
    assert_eq!(
        result,
        Err(OAuthError::InvalidUrl("auth_url must not be empty".to_string()))
    );
}

#[test]
fn auth_url_appends_ampersand_when_query_present() {
    let mut config = sample_config();
    config.auth_url = "https://auth.example.com/oauth/authorize?prompt=consent".to_string();
    let pkce = generate_pkce_pair();
    let url = build_authorization_url(&config, &pkce, "s").unwrap();
    assert!(!url.contains("??"));
    assert!(url.contains("prompt=consent&"));
}

#[test]
fn auth_url_exact_layout() {
    let config = sample_config();
    let mut pkce = generate_pkce_pair();
    pkce.challenge = "abc".to_string();
    let url = build_authorization_url(&config, &pkce, "x y").unwrap();
    assert_eq!(
        url,
        "https://auth.example.com/oauth/authorize?response_type=code&client_id=test-client\
         &redirect_uri=http%3A%2F%2Flocalhost%3A8080%2Fcallback&scope=read%20write\
         &state=x%20y&code_challenge=abc&code_challenge_method=S256"
    );
}

#[test]
fn percent_encode_reserved_and_multibyte() {
    assert_eq!(percent_encode("AZaz09-_.~"), "AZaz09-_.~");
    assert_eq!(percent_encode("a b/?"), "a%20b%2F%3F");
    assert_eq!(percent_encode("é"), "%C3%A9");
    assert_eq!(percent_encode(""), "");
}

#[test]
fn is_token_expired_when_past_expiry() {
    let t = token("tok", Some(now_ms() - 1000));
    assert!(is_token_expired(&t));
}

#[test]
fn is_token_not_expired_when_future_expiry() {
    let t = token("tok", Some(now_ms() + 300_000));
    assert!(!is_token_expired(&t));
}

#[test]
fn is_token_not_expired_when_no_expiry() {
    let t = token("tok", None);
    assert!(!is_token_expired(&t));
}

#[test]
fn token_expiry_at_fixed_instants() {
    let t = token("tok", Some(5_000));
    assert!(!is_token_expired_at(&t, 4_999));
    assert!(is_token_expired_at(&t, 5_000));
    assert!(needs_refresh_at(&t, 2, 3_000));
    assert!(!needs_refresh_at(&t, 2, 2_999));
    assert!(!needs_refresh_at(&token("tok", None), 1_000, 0));
}

#[test]
fn token_new_computes_expires_at() {
    let t = OAuthTokenSet::new("at", Some("rt"), Some(3600), vec!["read".to_string()]);
    let expires = t.expires_at.unwrap();
    let diff = (expires - now_ms()) / 1000;
    assert!(diff > 3594 && diff <= 3600, "unexpected diff: {diff}");
    assert_eq!(t.refresh_token.as_deref(), Some("rt"));
}

#[test]
fn token_new_at_exact() {
    let t = OAuthTokenSet::new_at(1_000, "at", None, Some(60), vec![]);
    assert_eq!(t.expires_at, Some(61_000));
    assert_eq!(t.refresh_token, None);
    let u = OAuthTokenSet::new_at(1_000, "at", None, None, vec![]);
    assert_eq!(u.expires_at, None);
}

#[test]
fn token_store_save_and_load_roundtrip() {
    let mut entries = Vec::new();
    let mut t = token("access-abc", Some(now_ms() + 3_600_000));
    t.refresh_token = Some("refresh-xyz".to_string());
    t.scopes = vec!["read".to_string()];
    TokenStore::save(&mut entries, "provider-a", t);
    let loaded = TokenStore::load(Ok(entries), "provider-a").unwrap();
    assert_eq!(loaded.access_token, "access-abc");
    assert_eq!(loaded.refresh_token.as_deref(), Some("refresh-xyz"));
    assert_eq!(loaded.scopes, vec!["read"]);
}

#[test]
fn token_store_load_missing_key_returns_not_found() {
    let err = TokenStore::load(Ok(Vec::new()), "ghost").unwrap_err();
    assert_eq!(err, OAuthError::NotFound("ghost".to_string()));
}

#[test]
fn token_store_load_passes_read_error_through() {
    let err = TokenStore::load(Err(OAuthError::Json("bad".to_string())), "k").unwrap_err();
    assert_eq!(err, OAuthError::Json("bad".to_string()));
}

#[test]
fn token_store_delete_removes_entry() {
    let mut entries = Vec::new();
    TokenStore::save(&mut entries, "key", token("tok", None));
    TokenStore::delete(&mut entries, "key");
    assert!(matches!(TokenStore::load(Ok(entries), "key"), Err(OAuthError::NotFound(_))));
}

#[test]
fn token_store_delete_nonexistent_is_ok() {
    let mut entries = Vec::new();
    TokenStore::save(&mut entries, "kept", token("tok", None));
    TokenStore::delete(&mut entries, "never-existed");
    assert_eq!(entries.len(), 1);
}

#[test]
fn token_store_multiple_keys() {
    let mut entries = Vec::new();
    for i in 0..3 {
        TokenStore::save(&mut entries, &format!("provider-{i}"), token(&format!("tok-{i}"), None));
    }
    for i in 0..3 {
        let t = TokenStore::load(Ok(entries.clone()), &format!("provider-{i}")).unwrap();
        assert_eq!(t.access_token, format!("tok-{i}"));
    }
}

#[test]
fn token_store_is_expired_true_for_stale_token() {
    let store = TokenStore::with_path("/tmp/tokens.json");
    let mut entries = Vec::new();
    TokenStore::save(&mut entries, "old", token("stale", Some(now_ms() - 300_000)));
    assert!(store.is_expired(Ok(entries), "old"));
}

#[test]
fn token_store_is_expired_false_for_fresh_token() {
    let store = TokenStore::with_path("/tmp/tokens.json");
    let mut entries = Vec::new();
    TokenStore::save(&mut entries, "new", token("fresh", Some(now_ms() + 3_600_000)));
    assert!(!store.is_expired(Ok(entries.clone()), "new"));
    assert!(!store.is_expired(Ok(entries), "missing"));
}

#[test]
fn token_store_needs_refresh_within_threshold() {
    let store = TokenStore::with_path("/tmp/tokens.json");
    let mut entries = Vec::new();
    let mut t = token("expiring", Some(now_ms() + 30_000));
    t.refresh_token = Some("ref".to_string());
    TokenStore::save(&mut entries, "soon", t);
    assert!(store.needs_refresh(Ok(entries.clone()), "soon", 60));
    assert!(!store.needs_refresh(Ok(entries), "soon", 10));
}

#[test]
fn token_store_overwrite_existing_key() {
    let mut entries = Vec::new();
    TokenStore::save(&mut entries, "key", token("v1", None));
    TokenStore::save(&mut entries, "key", token("v2", None));
    assert_eq!(entries.len(), 1);
    let loaded = TokenStore::load(Ok(entries), "key").unwrap();
    assert_eq!(loaded.access_token, "v2");
}

#[test]
fn token_store_paths() {
    let store = TokenStore::with_path("/data/tokens.json");
    assert_eq!(store.path(), "/data/tokens.json");
    assert_eq!(default_token_path(Some("/home/u".to_string())), "/home/u/.ember/oauth/tokens.json");
    assert_eq!(default_token_path(None), "./.ember/oauth/tokens.json");
    assert!(TokenStore::new().path().ends_with(".ember/oauth/tokens.json"));
}

#[test]
fn auth_url_that_is_no_url_base_is_refused() {
    let pkce = generate_pkce_pair();
    for bad in ["not a url", "mailto:someone@example.com", "1http://x", "http://", "https://?q=1", "ftp://:21", "foo:bar"] {
        let mut config = sample_config();
        config.auth_url = bad.to_string();
        assert_eq!(
            build_authorization_url(&config, &pkce, "s"),
            Err(OAuthError::InvalidUrl(format!("auth_url cannot be parsed as a URL base: {}", bad)))
        );
    }
    let mut config = sample_config();
    config.auth_url = "http://localhost:8080".to_string();
    assert!(build_authorization_url(&config, &pkce, "s").unwrap().starts_with("http://localhost:8080?"));
}

#[test]
fn a_second_save_replaces_and_other_keys_stay() {
    let mut entries = Vec::new();
    TokenStore::save(&mut entries, "a", token("first", None));
    TokenStore::save(&mut entries, "b", token("other", Some(5)));
    TokenStore::save(&mut entries, "a", token("second", Some(9)));
    let a = TokenStore::load(Ok(copy(&entries)), "a").unwrap();
    assert_eq!(a.access_token, "second");
    assert_eq!(a.expires_at, Some(9));
    let b = TokenStore::load(Ok(copy(&entries)), "b").unwrap();
    assert_eq!(b.access_token, "other");
    TokenStore::delete(&mut entries, "a");
    assert_eq!(TokenStore::load(Ok(entries), "a").unwrap_err(), OAuthError::NotFound("a".to_string()));
}

fn copy(v: &[(String, OAuthTokenSet)]) -> Vec<(String, OAuthTokenSet)> {
    v.iter().map(|(k, t)| (k.clone(), t.clone())).collect()
}

#[test]
fn auth_url_bases_as_the_url_standard_reads_them() {
    let pkce = generate_pkce_pair();
    for good in ["https:///path", "HTTP:host", "file:///tmp/x", "file:x", "custom:/callback", "Ws://h"] {
        let mut config = sample_config();
        config.auth_url = good.to_string();
        let url = build_authorization_url(&config, &pkce, "s").unwrap();
        assert!(url.starts_with(&format!("{}?response_type=code", good)), "{}", url);
    }
}
