use std::time::Duration;

use russell::mcp::auth::ChainedTokenProvider;
use russell::mcp::client::{api_status, health_status, status_failure, HKaskMcpClient, StatusVerdict};
use russell::mcp::config::HKaskMcpConfig;
use russell::mcp::error::McpError;
use russell::mcp::health::{probe_verdict, refused_config, ProbeReply};

fn chain() -> ChainedTokenProvider {
    ChainedTokenProvider::new(Some("/run/token.json".into()), None, None, None)
}

fn config(endpoint: &str, token: Option<&str>) -> HKaskMcpConfig {
    HKaskMcpConfig {
        endpoint: endpoint.into(),
        token: token.map(str::to_string),
        tool_ttl: Duration::from_secs(300),
        timeout: Duration::from_secs(30),
    }
}

#[test]
fn client_construction_validates_endpoint() {
    assert!(HKaskMcpClient::new(config("http://192.168.1.1:18100", None), chain()).is_err());
}

#[test]
fn client_construction_succeeds_for_loopback() {
    let client = HKaskMcpClient::new(config("http://127.0.0.1:18100", Some("test-token")), chain()).unwrap();
    assert!(!client.is_initialized());
    assert_eq!(client.endpoint(), "http://127.0.0.1:18100");
    assert_eq!(client.configured_token(), Some("test-token"));
    assert_eq!(client.timeout(), Duration::from_secs(30));
}

#[test]
fn urls_drop_trailing_slashes_and_encode_the_tool_name() {
    let client = HKaskMcpClient::new(config("http://127.0.0.1:18100//", None), chain()).unwrap();
    assert_eq!(client.health_url(), "http://127.0.0.1:18100/health");
    assert_eq!(client.tools_url(), "http://127.0.0.1:18100/api/v1/tools");
    assert_eq!(client.tool_url("fs.read_file"), "http://127.0.0.1:18100/api/v1/tools/fs.read_file");
    assert_eq!(client.tool_url("a b/c"), "http://127.0.0.1:18100/api/v1/tools/a%20b%2Fc");
    assert_eq!(client.tool_url("é~"), "http://127.0.0.1:18100/api/v1/tools/%C3%A9~");
}

#[test]
fn statuses_are_judged_per_call() {
    assert_eq!(health_status(200), StatusVerdict::Success);
    assert_eq!(health_status(401), StatusVerdict::Unauthenticated);
    assert_eq!(health_status(403), StatusVerdict::Forbidden);
    assert_eq!(health_status(500), StatusVerdict::Failed);
    assert_eq!(api_status(204), StatusVerdict::Success);
    assert_eq!(api_status(403), StatusVerdict::Failed);
    assert_eq!(api_status(401), StatusVerdict::Unauthenticated);
    assert_eq!(api_status(302), StatusVerdict::Failed);
    assert!(matches!(status_failure(StatusVerdict::Forbidden, 403, String::new()), McpError::Forbidden));
    match status_failure(StatusVerdict::Failed, 503, "busy".into()) {
        McpError::HttpStatus { status, body } => {
            assert_eq!(status, 503);
            assert_eq!(body, "busy");
        }
        other => panic!("unexpected {:?}", other),
    }
}

#[test]
fn a_health_reply_names_the_server() {
    let mut client = HKaskMcpClient::new(config("http://localhost:18100", None), chain()).unwrap();
    match client.record_health(Err("expected value".into())) {
        Err(McpError::InvalidResponse(m)) => assert_eq!(m, "health response parse: expected value"),
        other => panic!("unexpected {:?}", other),
    }
    assert!(!client.is_initialized());
    assert_eq!(client.server_name(), None);
    client.record_health(Ok(None)).unwrap();
    assert!(client.is_initialized());
    assert_eq!(client.server_name(), Some("hkask-api-unknown"));
    client.record_health(Ok(Some("2.1.0".into()))).unwrap();
    assert_eq!(client.server_name(), Some("hkask-api-2.1.0"));
    assert_eq!(client.token_provider_mut().choose_token(Some(Ok("t".into()))).unwrap(), "t");
}

#[test]
fn reachability_verdicts() {
    let ok = probe_verdict(ProbeReply::Responded { status: 200, latency_ms: 12 });
    assert!(ok.reachable);
    assert_eq!(ok.latency_ms, Some(12));
    assert_eq!(ok.error, None);
    let bad = probe_verdict(ProbeReply::Responded { status: 503, latency_ms: 7 });
    assert!(!bad.reachable);
    assert_eq!(bad.latency_ms, Some(7));
    assert_eq!(bad.error.as_deref(), Some("HTTP 503"));
    let refused = probe_verdict(ProbeReply::Failed { is_connect: true, is_timeout: true, message: "x".into() });
    assert_eq!(refused.error.as_deref(), Some("connection refused"));
    let slow = probe_verdict(ProbeReply::Failed { is_connect: false, is_timeout: true, message: "x".into() });
    assert_eq!(slow.error.as_deref(), Some("timeout (2s)"));
    let other = probe_verdict(ProbeReply::Failed { is_connect: false, is_timeout: false, message: "dns".into() });
    assert_eq!(other.error.as_deref(), Some("dns"));
    assert_eq!(other.latency_ms, None);
    let cfg = refused_config(&McpError::NonLoopbackRefused { url: "http://10.0.0.1:1".into() });
    assert!(!cfg.reachable);
    assert_eq!(cfg.error.as_deref(), Some("config: refused: endpoint is not loopback (http://10.0.0.1:1)"));
}

#[test]
fn error_messages_read_as_the_error_says() {
    assert_eq!(McpError::Unauthenticated.message(), "authentication failed — check KASK_MCP_TOKEN");
    assert_eq!(McpError::Protocol { code: -32601, message: "no method".into() }.message(), "mcp protocol error -32601: no method");
    assert_eq!(McpError::HttpStatus { status: 502, body: "bad".into() }.message(), "unexpected HTTP status 502: bad");
    assert_eq!(McpError::Config("x".into()).message(), "configuration error: x");
}
