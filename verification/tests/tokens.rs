use russell::mcp::auth::{instant_of, ChainedTokenProvider, FileTokenProvider, TokenFile};
use russell::sovereignty::UtcTime;
use russell::mcp::error::McpError;

/// 2030-01-01T00:00:00Z.
const T2030: i64 = 1_893_456_000;

fn token_file(token: &str, expires_at: &str) -> TokenFile {
    TokenFile {
        token: token.into(),
        issued_at: "2029-12-01T00:00:00Z".into(),
        expires_at: expires_at.into(),
        scope: "user".into(),
        principal: "russell".into(),
    }
}

#[test]
fn file_provider_reads_token() {
    let mut provider = FileTokenProvider::new("/tmp/mcp-token.json".into());
    // Expires 24 hours after `now`.
    let now = (T2030 - 24 * 3600, 0);
    let token = provider.accept_token_file(&token_file("test-token-123", "2030-01-01T00:00:00Z"), now).unwrap();
    assert_eq!(token, "test-token-123");
    assert_eq!(provider.token_path(), "/tmp/mcp-token.json");
}

#[test]
fn file_provider_detects_expiry() {
    let mut provider = FileTokenProvider::new("/tmp/mcp-token.json".into());
    // Expired an hour before `now`.
    let now = (T2030 + 3600, 0);
    let result = provider.accept_token_file(&token_file("test-token-123", "2030-01-01T00:00:00Z"), now);
    assert!(matches!(result, Err(McpError::Unauthenticated)));
    assert!(!provider.is_valid(now));
}

#[test]
fn file_provider_refreshes_near_expiry() {
    let mut provider = FileTokenProvider::new("/tmp/mcp-token.json".into());
    // Expires in 12 hours: inside the day-long refresh buffer.
    let now = (T2030 - 12 * 3600, 0);
    let first = provider.accept_token_file(&token_file("test-token-123", "2030-01-01T00:00:00Z"), now).unwrap();
    assert_eq!(first, "test-token-123");
    assert_eq!(provider.cached_token(now), None);
    assert!(!provider.is_valid(now));
    let second = provider.accept_token_file(&token_file("new-token-456", "2030-01-02T12:00:00Z"), now).unwrap();
    assert_eq!(second, "new-token-456");
    assert_eq!(provider.cached_token(now).as_deref(), Some("new-token-456"));
    assert!(provider.is_valid(now));
}

#[test]
fn cached_token_is_served_until_a_day_before_expiry() {
    let mut provider = FileTokenProvider::new("p".into());
    let early = (T2030 - 3 * 24 * 3600, 0);
    provider.accept_token_file(&token_file("tok", "2030-01-01T00:00:00Z"), early).unwrap();
    assert_eq!(provider.cached_token((T2030 - 24 * 3600 - 1, 999_999_999)).as_deref(), Some("tok"));
    assert_eq!(provider.cached_token((T2030 - 24 * 3600, 0)), None);
}

#[test]
fn offsets_and_fractions_are_honoured() {
    let mut provider = FileTokenProvider::new("p".into());
    // 2030-01-01T02:00:00+02:00 is 2030-01-01T00:00:00Z.
    let just_before = (T2030 - 1, 500_000_000);
    assert_eq!(
        provider.accept_token_file(&token_file("tok", "2030-01-01T02:00:00+02:00"), just_before).unwrap(),
        "tok"
    );
    assert!(matches!(
        provider.accept_token_file(&token_file("tok", "2030-01-01T00:00:00.25Z"), (T2030, 250_000_000)),
        Err(McpError::Unauthenticated)
    ));
}

#[test]
fn a_bad_expiry_is_a_config_error_that_names_it() {
    let mut provider = FileTokenProvider::new("p".into());
    match provider.accept_token_file(&token_file("tok", "tomorrow"), (T2030, 0)) {
        Err(McpError::Config(m)) => assert!(m.starts_with("invalid timestamp 'tomorrow': "), "{m}"),
        other => panic!("unexpected {:?}", other),
    }
    assert_eq!(provider.cached_token((T2030, 0)), None);
}

#[test]
fn default_token_path_prefers_home() {
    assert_eq!(
        FileTokenProvider::default_path(Some("/home/op".into()), Some("C:/Users/op".into())).unwrap(),
        "/home/op/.local/state/hkask/mcp-token.json"
    );
    assert_eq!(
        FileTokenProvider::default_path(None, Some("/users/op/".into())).unwrap(),
        "/users/op/.local/state/hkask/mcp-token.json"
    );
    match FileTokenProvider::default_path(None, None) {
        Err(McpError::Config(m)) => assert_eq!(m, "Cannot determine home directory"),
        other => panic!("unexpected {:?}", other),
    }
}

#[test]
fn chain_prefers_the_file_then_the_environment() {
    let chain = ChainedTokenProvider::new(None, Some("/home/op".into()), None, Some("env-token".into()));
    assert_eq!(chain.file.as_ref().unwrap().token_path(), "/home/op/.local/state/hkask/mcp-token.json");
    assert_eq!(chain.choose_token(Some(Ok("file-token".into()))).unwrap(), "file-token");
    assert_eq!(chain.choose_token(Some(Err(McpError::Unauthenticated))).unwrap(), "env-token");
    assert_eq!(chain.choose_token(None).unwrap(), "env-token");
    assert!(chain.is_valid((T2030, 0)));

    let bare = ChainedTokenProvider::new(Some("/run/token.json".into()), None, None, Some(String::new()));
    assert!(bare.fallback.is_none());
    assert!(matches!(bare.choose_token(None), Err(McpError::Unauthenticated)));
    assert!(!bare.is_valid((T2030, 0)));
}

#[test]
fn instants_from_microseconds_round_down() {
    assert_eq!(instant_of(UtcTime { micros: 1_500_000 }), (1, 500_000_000));
    assert_eq!(instant_of(UtcTime { micros: -1 }), (-1, 999_999_000));
    assert_eq!(instant_of(UtcTime { micros: 0 }), (0, 0));
    assert_eq!(instant_of(UtcTime { micros: i64::MIN }).0, -9_223_372_036_855);
}
