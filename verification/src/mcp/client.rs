//! The hKask API client's decisions: which URLs it calls, what an HTTP
//! status means, and what a health reply records. The transport lives
//! with the caller, which hands each reply back here.

use vstd::prelude::*;
use crate::mcp::auth::ChainedTokenProvider;
use crate::mcp::config::{loopback_endpoint, HKaskMcpConfig};
use crate::mcp::error::McpError;
use crate::text::{chars_of, is_ascii_alnum, push_all, push_str, string_from_chars};
use vstd::utf8::{encode_scalar, encode_utf8};

verus! {

/// A character `urlencoding` passes through unescaped.
pub open spec fn url_safe(c: char) -> bool {
    is_ascii_alnum(c) || c == '-' || c == '_' || c == '.' || c == '~'
}

/// A byte `urlencoding` passes through: an ASCII letter or digit, `-`,
/// `.`, `_` or `~`.
pub open spec fn url_safe_byte(b: u8) -> bool {
    (48 <= b <= 57) || (65 <= b <= 90) || (97 <= b <= 122) || b == 45 || b == 46 || b == 95 || b == 126
}

/// The uppercase hex digit of `d` (0 to 15).
pub open spec fn hex_upper(d: int) -> char {
    if d < 10 { (48 + d) as char } else { (55 + d) as char }
}

/// Percent-encoding of bytes: a safe byte as its character, any other
/// as `%` and two uppercase hex digits, high nibble first.
pub open spec fn url_encode_bytes(bs: Seq<u8>) -> Seq<char>
    decreases bs.len(),
{
    if bs.len() == 0 {
        seq![]
    } else {
        let b = bs[0];
        (if url_safe_byte(b) { seq![b as char] } else { seq!['%', hex_upper(b as int / 16), hex_upper(b as int % 16)] })
            + url_encode_bytes(bs.drop_first())
    }
}

/// What `urlencoding::encode` makes of a text: its UTF-8 bytes
/// percent-encoded.
pub open spec fn url_encoded(s: Seq<char>) -> Seq<char> {
    url_encode_bytes(encode_utf8(s))
}

/// `urlencoding::encode(s)`: every UTF-8 byte other than ASCII
/// alphanumerics and `-`, `_`, `.`, `~` becomes `%XX` (uppercase hex),
/// the others are kept.
#[verifier::external_body]
fn encode_component(s: &str) -> (r: String)
    ensures
        r@ == url_encoded(s@),
{
    ::urlencoding::encode(s).into_owned()
}

/// Percent-encoded text holds only safe characters and `%`.
pub proof fn lemma_url_encoded_chars(bs: Seq<u8>)
    ensures
        forall|i: int| 0 <= i < url_encode_bytes(bs).len()
            ==> url_safe(#[trigger] url_encode_bytes(bs)[i]) || url_encode_bytes(bs)[i] == '%',
    decreases bs.len(),
{
    if bs.len() > 0 {
        lemma_url_encoded_chars(bs.drop_first());
        let b = bs[0];
        let head = if url_safe_byte(b) { seq![b as char] } else { seq!['%', hex_upper(b as int / 16), hex_upper(b as int % 16)] };
        assert(url_encode_bytes(bs) == head + url_encode_bytes(bs.drop_first()));
        assert forall|i: int| 0 <= i < head.len() implies url_safe(#[trigger] head[i]) || head[i] == '%' by {
            if !url_safe_byte(b) && i > 0 {
                assert(0 <= b as int / 16 < 16 && 0 <= b as int % 16 < 16);
            }
        }
        assert forall|i: int| 0 <= i < url_encode_bytes(bs).len()
            implies url_safe(#[trigger] url_encode_bytes(bs)[i]) || url_encode_bytes(bs)[i] == '%' by {
            if i >= head.len() {
                assert(url_encode_bytes(bs)[i] == url_encode_bytes(bs.drop_first())[i - head.len()]);
            } else {
                assert(url_encode_bytes(bs)[i] == head[i]);
            }
        }
    }
}

/// A name made only of safe characters is used as it is.
pub proof fn lemma_url_encoded_safe(s: Seq<char>)
    requires
        forall|i: int| 0 <= i < s.len() ==> url_safe(#[trigger] s[i]),
    ensures
        url_encoded(s) == s,
    decreases s.len(),
{
    if s.len() > 0 {
        let c = s[0];
        assert(url_safe(c));
        let c0 = c as u32;
        assert(c0 < 128);
        assert(encode_scalar(c0) == seq![c0 as u8]) by {
            assert(c0 as u8 == vstd::utf8::leading_byte_width_1(c0)) by (bit_vector)
                requires
                    c0 < 128,
            ;
        }
        let rest = s.drop_first();
        assert forall|i: int| 0 <= i < rest.len() implies url_safe(#[trigger] rest[i]) by {
            assert(rest[i] == s[i + 1]);
        }
        lemma_url_encoded_safe(rest);
        let bs = encode_utf8(s);
        assert(bs == seq![c0 as u8] + encode_utf8(rest));
        assert(bs[0] == c0 as u8);
        assert(bs.drop_first() =~= encode_utf8(rest));
        assert(url_safe_byte(c0 as u8));
        assert((c0 as u8) as char == c);
        assert(url_encoded(s) =~= seq![c] + rest);
        assert(seq![c] + rest =~= s);
    }
}

/// `s` without its trailing `/` characters.
pub open spec fn without_trailing_slashes(s: Seq<char>) -> Seq<char>
    decreases s.len(),
{
    if s.len() > 0 && s.last() == '/' {
        without_trailing_slashes(s.drop_last())
    } else {
        s
    }
}

fn trim_trailing_slashes(s: &str) -> (r: Vec<char>)
    ensures
        r@ == without_trailing_slashes(s@),
{
    let cs = chars_of(s);
    let mut n = cs.len();
    proof {
        assert(cs@.take(cs@.len() as int) =~= cs@);
    }
    while n > 0 && cs[n - 1] == '/'
        invariant
            n <= cs@.len(),
            without_trailing_slashes(cs@) == without_trailing_slashes(cs@.take(n as int)),
        decreases n,
    {
        proof {
            assert(cs@.take(n as int).drop_last() =~= cs@.take(n - 1));
        }
        n = n - 1;
    }
    let mut out: Vec<char> = Vec::new();
    let mut i: usize = 0;
    while i < n
        invariant
            n <= cs@.len(),
            i <= n,
            out@ == cs@.take(i as int),
        decreases n - i,
    {
        out.push(cs[i]);
        i = i + 1;
        proof {
            assert(out@ =~= cs@.take(i as int));
        }
    }
    proof {
        assert(!(out@.len() > 0 && out@.last() == '/'));
    }
    out
}

/// What an HTTP status means to the client.
#[derive(Debug, Clone, Copy, PartialEq, Eq, Structural)]
pub enum StatusVerdict {
    /// A 2xx status.
    Success,
    /// 401: the token was refused.
    Unauthenticated,
    /// 403 on the health check: the token lacks the right.
    Forbidden,
    /// Any other status.
    Failed,
}

/// The verdict on a status: 401 is unauthenticated; 403 is forbidden
/// where the call tells it apart (the health check); 2xx succeeds; the
/// rest fail.
pub open spec fn status_verdict(status: u16, forbidden_distinct: bool) -> StatusVerdict {
    if status == 401 {
        StatusVerdict::Unauthenticated
    } else if forbidden_distinct && status == 403 {
        StatusVerdict::Forbidden
    } else if 200 <= status <= 299 {
        StatusVerdict::Success
    } else {
        StatusVerdict::Failed
    }
}

/// The error a failed verdict reports; the body is read only for a
/// plain failure.
pub open spec fn verdict_error(v: StatusVerdict, status: u16, body: Seq<char>, e: McpError) -> bool {
    match v {
        StatusVerdict::Unauthenticated => e is Unauthenticated,
        StatusVerdict::Forbidden => e is Forbidden,
        _ => e matches McpError::HttpStatus { status: s, body: b } && s == status && b@ == body,
    }
}

/// The verdict on the status of a health check.
pub fn health_status(status: u16) -> (r: StatusVerdict)
    ensures
        r == status_verdict(status, true),
{
    if status == 401 {
        StatusVerdict::Unauthenticated
    } else if status == 403 {
        StatusVerdict::Forbidden
    } else if 200 <= status && status <= 299 {
        StatusVerdict::Success
    } else {
        StatusVerdict::Failed
    }
}

/// The verdict on the status of a tool listing or call.
pub fn api_status(status: u16) -> (r: StatusVerdict)
    ensures
        r == status_verdict(status, false),
{
    if status == 401 {
        StatusVerdict::Unauthenticated
    } else if 200 <= status && status <= 299 {
        StatusVerdict::Success
    } else {
        StatusVerdict::Failed
    }
}

/// The error of a verdict other than success; `body` is the response
/// body, read by the caller for a plain failure (and empty otherwise).
pub fn status_failure(v: StatusVerdict, status: u16, body: String) -> (r: McpError)
    requires
        v != StatusVerdict::Success,
    ensures
        verdict_error(v, status, body@, r),
{
    match v {
        StatusVerdict::Unauthenticated => McpError::Unauthenticated,
        StatusVerdict::Forbidden => McpError::Forbidden,
        _ => McpError::HttpStatus { status, body },
    }
}

/// hKask API client state: its configuration, its token chain, and what
/// the last health check established.
#[derive(Debug, Clone)]
pub struct HKaskMcpClient {
    config: HKaskMcpConfig,
    token_provider: ChainedTokenProvider,
    server_name: Option<String>,
    initialized: bool,
}

impl HKaskMcpClient {
    /// The configured endpoint.
    pub closed spec fn endpoint_spec(&self) -> Seq<char> {
        self.config.endpoint@
    }

    /// The token chain the client authenticates with.
    pub closed spec fn tokens(&self) -> ChainedTokenProvider {
        self.token_provider
    }

    /// The configured bearer token.
    pub closed spec fn token_spec(&self) -> Option<Seq<char>> {
        match self.config.token {
            Some(t) => Some(t@),
            None => None,
        }
    }

    /// The configured request timeout.
    pub closed spec fn timeout_spec(&self) -> core::time::Duration {
        self.config.timeout
    }

    /// Whether a health check has succeeded.
    pub closed spec fn initialized_spec(&self) -> bool {
        self.initialized
    }

    /// The server name the last health check recorded.
    pub closed spec fn server_name_spec(&self) -> Option<Seq<char>> {
        match self.server_name {
            Some(s) => Some(s@),
            None => None,
        }
    }

    /// A client for `config`, not yet connected; refused unless the
    /// endpoint is loopback.
    pub fn new(config: HKaskMcpConfig, token_provider: ChainedTokenProvider) -> (r: Result<Self, McpError>)
        ensures
            loopback_endpoint(config.endpoint@) ==> (r matches Ok(c) && c.endpoint_spec() == config.endpoint@
                && c.timeout_spec() == config.timeout && c.tokens() == token_provider
                && !c.initialized_spec() && c.server_name_spec() is None),
            !loopback_endpoint(config.endpoint@) ==> (r matches Err(McpError::NonLoopbackRefused { url: u })
                && u@ == config.endpoint@),
    {
        match config.validate() {
            Ok(()) => Ok(HKaskMcpClient { config, token_provider, server_name: None, initialized: false }),
            Err(e) => Err(e),
        }
    }

    /// Whether a health check has succeeded.
    pub fn is_initialized(&self) -> (r: bool)
        ensures
            r == self.initialized_spec(),
    {
        self.initialized
    }

    /// The server name the last health check recorded.
    pub fn server_name(&self) -> (r: Option<&str>)
        ensures
            match self.server_name_spec() {
                Some(s) => r matches Some(t) && t@ == s,
                None => r is None,
            },
    {
        match &self.server_name {
            Some(s) => Some(s.as_str()),
            None => None,
        }
    }

    /// The token chain, to fetch or refresh a token with.
    pub fn token_provider_mut(&mut self) -> (r: &mut ChainedTokenProvider)
        ensures
            *r == old(self).tokens(),
            final(self).tokens() == *final(r),
            final(self).endpoint_spec() == old(self).endpoint_spec(),
            final(self).token_spec() == old(self).token_spec(),
            final(self).timeout_spec() == old(self).timeout_spec(),
            final(self).initialized_spec() == old(self).initialized_spec(),
            final(self).server_name_spec() == old(self).server_name_spec(),
    {
        &mut self.token_provider
    }

    /// The configured endpoint URL.
    pub fn endpoint(&self) -> (r: &str)
        ensures
            r@ == self.endpoint_spec(),
    {
        self.config.endpoint.as_str()
    }

    /// The bearer token of the configuration, if any.
    pub fn configured_token(&self) -> (r: Option<&str>)
        ensures
            match self.token_spec() {
                Some(t) => r matches Some(s) && s@ == t,
                None => r is None,
            },
    {
        match &self.config.token {
            Some(t) => Some(t.as_str()),
            None => None,
        }
    }

    /// The request timeout.
    pub fn timeout(&self) -> (r: core::time::Duration)
        ensures
            r == self.timeout_spec(),
    {
        self.config.timeout
    }

    /// `{endpoint}/health`, the endpoint's trailing slashes dropped.
    pub fn health_url(&self) -> (r: String)
        ensures
            r@ == without_trailing_slashes(self.endpoint_spec()) + "/health"@,
    {
        let mut out = trim_trailing_slashes(self.config.endpoint.as_str());
        push_str(&mut out, "/health");
        string_from_chars(&out)
    }

    /// `{endpoint}/api/v1/tools`.
    pub fn tools_url(&self) -> (r: String)
        ensures
            r@ == without_trailing_slashes(self.endpoint_spec()) + "/api/v1/tools"@,
    {
        let mut out = trim_trailing_slashes(self.config.endpoint.as_str());
        push_str(&mut out, "/api/v1/tools");
        string_from_chars(&out)
    }

    /// `{endpoint}/api/v1/tools/{name}`, the name percent-encoded.
    pub fn tool_url(&self, name: &str) -> (r: String)
        ensures
            r@ == without_trailing_slashes(self.endpoint_spec()) + "/api/v1/tools/"@ + url_encoded(name@),
    {
        let mut out = trim_trailing_slashes(self.config.endpoint.as_str());
        push_str(&mut out, "/api/v1/tools/");
        let enc = encode_component(name);
        push_str(&mut out, enc.as_str());
        string_from_chars(&out)
    }

    /// Record a successful health check's reply: the `version` it
    /// reported (`Ok(None)` when it had none), or why the reply could not
    /// be decoded. A decoded reply names the server `hkask-api-VERSION`
    /// (`unknown` for a missing version) and marks the client
    /// initialized; an undecodable one changes nothing.
    pub fn record_health(&mut self, reply: Result<Option<String>, String>) -> (r: Result<(), McpError>)
        ensures
            final(self).endpoint_spec() == old(self).endpoint_spec(),
            final(self).tokens() == old(self).tokens(),
            match reply {
                Ok(v) => r is Ok && final(self).initialized_spec()
                    && final(self).server_name_spec() == Some("hkask-api-"@ + match v {
                        Some(s) => s@,
                        None => "unknown"@,
                    }),
                Err(e) => (r matches Err(McpError::InvalidResponse(m)) && m@ == "health response parse: "@ + e@)
                    && final(self).initialized_spec() == old(self).initialized_spec()
                    && final(self).server_name_spec() == old(self).server_name_spec(),
            },
    {
        match reply {
            Ok(v) => {
                let mut out: Vec<char> = Vec::new();
                push_str(&mut out, "hkask-api-");
                match v {
                    Some(s) => push_str(&mut out, s.as_str()),
                    None => push_str(&mut out, "unknown"),
                }
                self.server_name = Some(string_from_chars(&out));
                self.initialized = true;
                Ok(())
            },
            Err(e) => {
                let mut out: Vec<char> = Vec::new();
                push_str(&mut out, "health response parse: ");
                push_str(&mut out, e.as_str());
                Err(McpError::InvalidResponse(string_from_chars(&out)))
            },
        }
    }
}

} // verus!
