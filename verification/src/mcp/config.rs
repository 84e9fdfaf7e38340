//! Configuration of the hKask MCP client, and the loopback gate every
//! endpoint must pass: Russell never connects to a non-loopback MCP
//! server.

use vstd::prelude::*;
use crate::mcp::error::McpError;
use crate::text::{
    chars_of, find_char_from, first_index_of, parse_int_spec, slice_chars, split_field, starts_with_chars,
    starts_with_seq, str_eq, string_from_chars, nth_field, all_digits,
};

verus! {

/// Default hKask API endpoint.
pub const DEFAULT_ENDPOINT: &'static str = "http://127.0.0.1:18100";

/// Default tools/list cache TTL in seconds.
pub const DEFAULT_TOOL_TTL_SECS: u64 = 300;

/// Default HTTP timeout for MCP requests, in seconds.
pub const DEFAULT_TIMEOUT_SECS: u64 = 30;

/// Environment variable: hKask MCP endpoint URL.
pub const ENV_HKASK_MCP_ENDPOINT: &'static str = "HKASK_MCP_ENDPOINT";

/// Environment variable: bearer token.
pub const ENV_HKASK_MCP_TOKEN: &'static str = "HKASK_MCP_TOKEN";

/// Environment variable: tool list cache TTL in seconds.
pub const ENV_HKASK_MCP_TOOL_TTL_SECS: &'static str = "HKASK_MCP_TOOL_TTL_SECS";

/// Environment variable: HTTP timeout in seconds.
pub const ENV_HKASK_MCP_TIMEOUT_SECS: &'static str = "HKASK_MCP_TIMEOUT_SECS";

// ─── the loopback gate ───────────────────────────────────────

/// `s` without the prefix `p`, if it has it.
pub open spec fn strip_prefix(s: Seq<char>, p: Seq<char>) -> Option<Seq<char>> {
    if starts_with_seq(s, p) { Some(s.skip(p.len() as int)) } else { None }
}

/// The URL without its `http://` or `https://` scheme.
pub open spec fn without_scheme(url: Seq<char>) -> Seq<char> {
    match strip_prefix(url, "http://"@) {
        Some(r) => r,
        None => match strip_prefix(url, "https://"@) {
            Some(r) => r,
            None => url,
        },
    }
}

/// Index of the last `c` in `s`.
pub open spec fn last_index_of(s: Seq<char>, c: char) -> Option<int>
    decreases s.len(),
{
    if s.len() == 0 {
        None
    } else if s.last() == c {
        Some(s.len() - 1)
    } else {
        last_index_of(s.drop_last(), c)
    }
}

/// The host of an authority: inside the brackets of `[v6]`, else what
/// stands before a final `:port` (port of ASCII digits, possibly empty).
pub open spec fn host_of(authority: Seq<char>) -> Seq<char> {
    if authority.len() > 0 && authority[0] == '[' {
        split_field(authority.skip(1), ']', 0).unwrap()
    } else {
        match last_index_of(authority, ':') {
            Some(i) => if all_digits(authority.skip(i + 1)) { authority.take(i) } else { authority },
            None => authority,
        }
    }
}

/// The host named by an endpoint URL.
pub open spec fn endpoint_host(url: Seq<char>) -> Seq<char> {
    host_of(split_field(without_scheme(url), '/', 0).unwrap())
}

/// The value of a dotted-quad IPv4 text, as `Ipv4Addr` parses it: four
/// decimal octets of one to three digits, none with a leading zero,
/// each at most 255.
pub open spec fn ipv4_octet(s: Seq<char>) -> Option<int> {
    if 1 <= s.len() <= 3 && all_digits(s) && !(s.len() > 1 && s[0] == '0') {
        match parse_int_spec(s, false) {
            Some(v) => if v <= 255 { Some(v) } else { None },
            None => None,
        }
    } else {
        None
    }
}

/// The four octets of an IPv4 text, if it is one.
pub open spec fn ipv4_octets(s: Seq<char>) -> Option<Seq<int>> {
    match (split_field(s, '.', 0), split_field(s, '.', 1), split_field(s, '.', 2), split_field(s, '.', 3), split_field(s, '.', 4)) {
        (Some(a), Some(b), Some(c), Some(d), None) => match (ipv4_octet(a), ipv4_octet(b), ipv4_octet(c), ipv4_octet(d)) {
            (Some(x), Some(y), Some(z), Some(w)) => Some(seq![x, y, z, w]),
            _ => None,
        },
        _ => None,
    }
}

/// Whether a host text names the loopback interface: `127.0.0.1`,
/// `localhost`, `::1`, an IPv4 address in 127.0.0.0/8, or any spelling
/// of the IPv6 address `::1`.
pub open spec fn loopback_host(h: Seq<char>) -> bool {
    ||| h == "127.0.0.1"@
    ||| h == "localhost"@
    ||| h == "::1"@
    ||| (ipv4_octets(h) matches Some(o) && o[0] == 127)
    ||| crate::mcp::ipv6::ipv6_loopback(h)
}

/// Whether an endpoint URL points to a loopback address.
pub open spec fn loopback_endpoint(url: Seq<char>) -> bool {
    loopback_host(endpoint_host(url))
}

fn strip_scheme(url: &Vec<char>) -> (r: Vec<char>)
    ensures
        r@ == without_scheme(url@),
{
    let http = chars_of("http://");
    let https = chars_of("https://");
    proof {
        reveal_strlit("http://");
        reveal_strlit("https://");
    }
    if starts_with_chars(url, &http) {
        slice_chars(url, 7, url.len())
    } else if starts_with_chars(url, &https) {
        slice_chars(url, 8, url.len())
    } else {
        slice_chars(url, 0, url.len())
    }
}

fn find_last(s: &Vec<char>, c: char) -> (r: Option<usize>)
    ensures
        match r {
            Some(i) => last_index_of(s@, c) == Some(i as int) && i < s@.len(),
            None => last_index_of(s@, c) is None,
        },
{
    let mut k = s.len();
    proof {
        assert(s@.take(k as int) =~= s@);
    }
    while k > 0
        invariant
            k <= s@.len(),
            last_index_of(s@, c) == last_index_of(s@.take(k as int), c),
        decreases k,
    {
        proof {
            assert(s@.take(k as int).drop_last() =~= s@.take(k - 1));
            assert(s@.take(k as int).last() == s@[k - 1]);
        }
        if s[k - 1] == c {
            return Some(k - 1);
        }
        k = k - 1;
    }
    None
}

fn digits_only(s: &Vec<char>, from: usize) -> (r: bool)
    requires
        from <= s.len(),
    ensures
        r == all_digits(s@.skip(from as int)),
{
    let mut i = from;
    while i < s.len()
        invariant
            from <= i <= s@.len(),
            forall|j: int| from <= j < i ==> crate::text::is_ascii_digit(#[trigger] s@[j]),
        decreases s@.len() - i,
    {
        if !('0' <= s[i] && s[i] <= '9') {
            proof {
                assert(s@.skip(from as int)[i - from] == s@[i as int]);
            }
            return false;
        }
        i = i + 1;
    }
    proof {
        assert forall|j: int| 0 <= j < s@.skip(from as int).len() implies crate::text::is_ascii_digit(#[trigger] s@.skip(from as int)[j]) by {
            assert(s@.skip(from as int)[j] == s@[from + j]);
        }
    }
    true
}

fn host_chars(authority: &Vec<char>) -> (r: Vec<char>)
    ensures
        r@ == host_of(authority@),
{
    if authority.len() > 0 && authority[0] == '[' {
        let inner = slice_chars(authority, 1, authority.len());
        proof {
            assert(inner@ =~= authority@.skip(1));
        }
        match nth_field(&inner, ']', 0) {
            Some(f) => f,
            None => inner,
        }
    } else {
        match find_last(authority, ':') {
            Some(i) => {
                if digits_only(authority, i + 1) {
                    slice_chars(authority, 0, i)
                } else {
                    slice_chars(authority, 0, authority.len())
                }
            },
            None => slice_chars(authority, 0, authority.len()),
        }
    }
}

fn octet_value(s: &Vec<char>) -> (r: Option<u8>)
    ensures
        match r {
            Some(v) => ipv4_octet(s@) == Some(v as int),
            None => ipv4_octet(s@) is None,
        },
{
    if s.len() < 1 || s.len() > 3 || !digits_only(s, 0) || (s.len() > 1 && s[0] == '0') {
        proof {
            assert(s@.skip(0) =~= s@);
        }
        return None;
    }
    proof {
        assert(s@.skip(0) =~= s@);
    }
    crate::text::parse_u8(s)
}

fn ipv4_first_octet(s: &Vec<char>) -> (r: Option<u8>)
    ensures
        match r {
            Some(v) => ipv4_octets(s@) matches Some(o) && o[0] == v,
            None => ipv4_octets(s@) is None,
        },
{
    let f0 = nth_field(s, '.', 0);
    let f1 = nth_field(s, '.', 1);
    let f2 = nth_field(s, '.', 2);
    let f3 = nth_field(s, '.', 3);
    let f4 = nth_field(s, '.', 4);
    match (f0, f1, f2, f3, f4) {
        (Some(a), Some(b), Some(c), Some(d), None) => {
            match (octet_value(&a), octet_value(&b), octet_value(&c), octet_value(&d)) {
                (Some(x), Some(_), Some(_), Some(_)) => Some(x),
                _ => None,
            }
        },
        _ => None,
    }
}

fn is_loopback_host(h: &Vec<char>) -> (r: bool)
    ensures
        r == loopback_host(h@),
{
    let hs = string_from_chars(h);
    if str_eq(hs.as_str(), "127.0.0.1") || str_eq(hs.as_str(), "localhost") || str_eq(hs.as_str(), "::1") {
        return true;
    }
    let v4 = match ipv4_first_octet(h) {
        Some(v) => v == 127,
        None => false,
    };
    v4 || crate::mcp::ipv6::is_ipv6_loopback(h)
}

/// Validate that a URL points to a loopback address; a non-loopback
/// endpoint is refused with the URL.
pub fn validate_endpoint(url: &str) -> (r: Result<(), McpError>)
    ensures
        loopback_endpoint(url@) ==> r is Ok,
        !loopback_endpoint(url@) ==> (r matches Err(McpError::NonLoopbackRefused { url: u }) && u@ == url@),
{
    let cs = chars_of(url);
    let rest = strip_scheme(&cs);
    let authority = match nth_field(&rest, '/', 0) {
        Some(a) => a,
        None => rest,
    };
    let host = host_chars(&authority);
    if is_loopback_host(&host) {
        Ok(())
    } else {
        Err(McpError::NonLoopbackRefused { url: url.to_owned() })
    }
}

// ─── configuration ───────────────────────────────────────────

/// Configuration for the hKask MCP client.
#[derive(Debug, Clone)]
pub struct HKaskMcpConfig {
    /// MCP endpoint URL (must be loopback).
    pub endpoint: String,
    /// Bearer token.
    pub token: Option<String>,
    /// TTL of the tools/list cache.
    pub tool_ttl: core::time::Duration,
    /// HTTP request timeout.
    pub timeout: core::time::Duration,
}

/// An MCP configuration.
pub trait McpConfig {
    /// The endpoint URL.
    fn endpoint(&self) -> &str;

    /// The bearer token, if configured.
    fn token(&self) -> Option<&str>;

    /// Validate the configuration (the loopback check).
    fn validate(&self) -> Result<(), McpError>;

    /// Whether a token is configured.
    fn has_token(&self) -> bool;
}

/// A seconds value read from the environment: its decimal value when it
/// parses as `u64`, else the default.
pub open spec fn secs_or(v: Option<Seq<char>>, default: u64) -> int {
    match v {
        Some(s) => match parse_int_spec(s, false) {
            Some(n) => if n <= u64::MAX { n } else { default as int },
            None => default as int,
        },
        None => default as int,
    }
}

fn parse_secs(v: &Option<String>, default: u64) -> (r: u64)
    ensures
        r == secs_or(match v {
            Some(s) => Some(s@),
            None => None,
        }, default),
{
    match v {
        Some(s) => {
            let cs = chars_of(s.as_str());
            match crate::text::parse_u64(&cs) {
                Some(n) => n,
                None => default,
            }
        },
        None => default,
    }
}

impl HKaskMcpConfig {
    /// The configuration given the values of `HKASK_MCP_ENDPOINT`,
    /// `HKASK_MCP_TOKEN`, `HKASK_MCP_TOOL_TTL_SECS` and
    /// `HKASK_MCP_TIMEOUT_SECS` (`None` when unset): the default
    /// endpoint when unset, no token when unset or empty, and the
    /// default TTL and timeout where the values do not parse. It
    /// returns the seconds it chose beside the configuration.
    pub fn from_env_values(
        endpoint: Option<String>,
        token: Option<String>,
        tool_ttl_secs: Option<String>,
        timeout_secs: Option<String>,
    ) -> (r: (Self, u64, u64))
        ensures
            r.0.endpoint@ == match endpoint {
                Some(e) => e@,
                None => DEFAULT_ENDPOINT@,
            },
            match token {
                Some(t) => if t@.len() > 0 { r.0.token matches Some(x) && x@ == t@ } else { r.0.token is None },
                None => r.0.token is None,
            },
            r.1 == secs_or(match tool_ttl_secs {
                Some(s) => Some(s@),
                None => None,
            }, DEFAULT_TOOL_TTL_SECS),
            r.2 == secs_or(match timeout_secs {
                Some(s) => Some(s@),
                None => None,
            }, DEFAULT_TIMEOUT_SECS),
    {
        let endpoint = match endpoint {
            Some(e) => e,
            None => DEFAULT_ENDPOINT.to_owned(),
        };
        let token = match token {
            Some(t) => if t.as_str().is_empty() { None } else { Some(t) },
            None => None,
        };
        let ttl = parse_secs(&tool_ttl_secs, DEFAULT_TOOL_TTL_SECS);
        let timeout = parse_secs(&timeout_secs, DEFAULT_TIMEOUT_SECS);
        (
            HKaskMcpConfig {
                endpoint,
                token,
                tool_ttl: core::time::Duration::from_secs(ttl),
                timeout: core::time::Duration::from_secs(timeout),
            },
            ttl,
            timeout,
        )
    }

    /// Validate that the configured endpoint is loopback.
    pub fn validate(&self) -> (r: Result<(), McpError>)
        ensures
            loopback_endpoint(self.endpoint@) ==> r is Ok,
            !loopback_endpoint(self.endpoint@) ==> (r matches Err(McpError::NonLoopbackRefused { url: u }) && u@ == self.endpoint@),
    {
        validate_endpoint(self.endpoint.as_str())
    }

    /// Whether a token is configured.
    pub fn has_token(&self) -> (r: bool)
        ensures
            r == self.token is Some,
    {
        self.token.is_some()
    }
}

impl McpConfig for HKaskMcpConfig {
    fn endpoint(&self) -> (r: &str)
        ensures
            r@ == self.endpoint@,
    {
        self.endpoint.as_str()
    }

    fn token(&self) -> (r: Option<&str>)
        ensures
            match self.token {
                Some(t) => r matches Some(s) && s@ == t@,
                None => r is None,
            },
    {
        match &self.token {
            Some(t) => Some(t.as_str()),
            None => None,
        }
    }

    fn validate(&self) -> (r: Result<(), McpError>)
        ensures
            loopback_endpoint(self.endpoint@) ==> r is Ok,
            !loopback_endpoint(self.endpoint@) ==> (r matches Err(McpError::NonLoopbackRefused { url: u }) && u@ == self.endpoint@),
    {
        validate_endpoint(self.endpoint.as_str())
    }

    fn has_token(&self) -> (r: bool)
        ensures
            r == self.token is Some,
    {
        self.token.is_some()
    }
}

} // verus!
