//! Bearer tokens for hKask MCP authentication: the token file's shape,
//! the static provider, the file provider's cache and expiry rules, and
//! the chain that prefers the file to the environment.

use vstd::prelude::*;
use crate::mcp::error::McpError;
use crate::paths::{join, path_join};
use crate::sovereignty::UtcTime;
use crate::text::{push_str, string_from_chars};

verus! {

/// The token file's fields.
#[derive(Debug, Clone)]
pub struct TokenFile {
    /// The bearer token.
    pub token: String,
    /// When the token was issued (ISO 8601).
    pub issued_at: String,
    /// When the token expires (ISO 8601).
    pub expires_at: String,
    /// Token scope (e.g. `user`, `admin`).
    pub scope: String,
    /// Principal name (e.g. `russell`).
    pub principal: String,
}

/// A fixed token, taken from the environment; it never refreshes.
#[derive(Debug, Clone)]
pub struct StaticTokenProvider {
    token: String,
}

impl StaticTokenProvider {
    /// The token held.
    pub closed spec fn token_text(&self) -> Seq<char> {
        self.token@
    }

    /// A provider of `token`.
    pub fn new(token: String) -> (r: Self)
        ensures
            r.token_text() == token@,
    {
        StaticTokenProvider { token }
    }

    /// A provider from the value of an environment variable (`None`
    /// when unset): none when unset or empty.
    pub fn from_env_value(v: Option<String>) -> (r: Option<Self>)
        ensures
            match v {
                Some(t) => if t@.len() > 0 { r matches Some(p) && p.token_text() == t@ } else { r is None },
                None => r is None,
            },
    {
        match v {
            Some(t) => if t.as_str().is_empty() { None } else { Some(StaticTokenProvider::new(t)) },
            None => None,
        }
    }

    /// The token.
    pub fn current_token(&self) -> (r: String)
        ensures
            r@ == self.token_text(),
    {
        self.token.clone()
    }

    /// Whether the token is usable: it is not empty.
    pub fn token_is_valid(&self) -> (r: bool)
        ensures
            r == (self.token_text().len() > 0),
    {
        !self.token.as_str().is_empty()
    }
}

/// `a` is at or after `b`, instants given as chrono orders them: whole
/// seconds since the epoch, then nanoseconds within the second (a leap
/// second runs past 10^9).
pub open spec fn at_or_after(a: (int, int), b: (int, int)) -> bool {
    a.0 > b.0 || (a.0 == b.0 && a.1 >= b.1)
}

/// The seconds of a day: a token is refreshed this long before it
/// expires.
pub const REFRESH_BUFFER_SECS: i64 = 86400;

/// What `chrono::DateTime::parse_from_rfc3339` makes of a text: the
/// instant (`timestamp`, `timestamp_subsec_nanos`), or the parse
/// error's message.
pub uninterp spec fn chrono_rfc3339(text: Seq<char>) -> Result<(i64, u32), Seq<char>>;

/// `chrono::DateTime::parse_from_rfc3339(text)`, read as the instant's
/// seconds and nanoseconds, or the error's `Display` text. The contract
/// claims only that the outcome is a function of the text, named
/// `chrono_rfc3339`.
#[verifier::external_body]
fn parse_rfc3339_instant(text: &str) -> (r: Result<(i64, u32), String>)
    ensures
        match r {
            Ok(t) => chrono_rfc3339(text@) == Ok::<(i64, u32), Seq<char>>(t),
            Err(m) => chrono_rfc3339(text@) == Err::<(i64, u32), Seq<char>>(m@),
        },
{
    ::chrono::DateTime::parse_from_rfc3339(text)
        .map(|dt| (dt.timestamp(), dt.timestamp_subsec_nanos()))
        .map_err(|e| e.to_string())
}

/// A point in time as an instant: whole seconds (rounded down) and the
/// nanoseconds within the second.
pub fn instant_of(t: UtcTime) -> (r: (i64, u32))
    ensures
        r.0 as int * 1_000_000 + (r.1 as int) / 1000 == t.micros,
        r.1 < 1_000_000_000,
        r.1 as int % 1000 == 0,
{
    let m: i128 = t.micros as i128;
    let secs: i128 = if m >= 0 { m / 1_000_000 } else { -((-(m + 1)) / 1_000_000) - 1 };
    proof {
        assert(0 <= m - secs * 1_000_000 < 1_000_000 && -10_000_000_000_000 < secs < 10_000_000_000_000) by (nonlinear_arith)
            requires
                secs == if m >= 0 { m / 1_000_000 } else { -((-(m + 1)) / 1_000_000) - 1 },
                i64::MIN <= m <= i64::MAX;
    }
    let rem: i128 = m - secs * 1_000_000;
    (secs as i64, (rem as u32) * 1000)
}

/// A token read from the token file, with its expiry.
#[derive(Debug, Clone)]
pub struct CachedToken {
    /// The bearer token.
    pub token: String,
    /// When it expires: seconds since the epoch.
    pub expires_secs: i64,
    /// When it expires: nanoseconds within that second.
    pub expires_nanos: u32,
}

/// A cached token is refreshed from a day before it expires on.
pub open spec fn refresh_due(cached: CachedToken, now: (i64, u32)) -> bool {
    at_or_after((now.0 as int, now.1 as int), (cached.expires_secs - REFRESH_BUFFER_SECS, cached.expires_nanos as int))
}

/// Where the token file lives by default: under `$HOME`, else under
/// `%USERPROFILE%` (each `None` when unset).
pub open spec fn default_token_path(home: Option<Seq<char>>, userprofile: Option<Seq<char>>) -> Option<Seq<char>> {
    let base = match home {
        Some(h) => Some(h),
        None => userprofile,
    };
    match base {
        Some(b) => Some(path_join(b, ".local/state/hkask/mcp-token.json"@)),
        None => None,
    }
}

/// A token read from a file that an outside process rotates, cached
/// until a day before it expires.
#[derive(Debug, Clone)]
pub struct FileTokenProvider {
    token_path: String,
    cached: Option<CachedToken>,
}

impl FileTokenProvider {
    /// The token file's path.
    pub closed spec fn path_spec(&self) -> Seq<char> {
        self.token_path@
    }

    /// The cached token, if any.
    pub closed spec fn cache(&self) -> Option<CachedToken> {
        self.cached
    }

    /// A provider reading `token_path`, with nothing cached yet.
    pub fn new(token_path: String) -> (r: Self)
        ensures
            r.path_spec() == token_path@,
            r.cache() is None,
    {
        FileTokenProvider { token_path, cached: None }
    }

    /// The token file's path.
    pub fn token_path(&self) -> (r: &str)
        ensures
            r@ == self.path_spec(),
    {
        self.token_path.as_str()
    }

    /// The default token file, from the values of `HOME` and
    /// `USERPROFILE`; a configuration error when neither is set.
    pub fn default_path(home: Option<String>, userprofile: Option<String>) -> (r: Result<String, McpError>)
        ensures
            match default_token_path(
                match home { Some(h) => Some(h@), None => None },
                match userprofile { Some(u) => Some(u@), None => None },
            ) {
                Some(p) => r matches Ok(s) && s@ == p,
                None => r matches Err(McpError::Config(m)) && m@ == "Cannot determine home directory"@,
            },
    {
        let base = match home {
            Some(h) => Some(h),
            None => userprofile,
        };
        match base {
            Some(b) => Ok(join(b.as_str(), ".local/state/hkask/mcp-token.json")),
            None => Err(McpError::Config("Cannot determine home directory".to_owned())),
        }
    }

    /// Read an expiry timestamp; a configuration error naming the text
    /// and chrono's complaint when it is not RFC 3339.
    pub fn parse_timestamp(ts: &str) -> (r: Result<(i64, u32), McpError>)
        ensures
            match chrono_rfc3339(ts@) {
                Ok(t) => r == Ok::<(i64, u32), McpError>(t),
                Err(e) => r matches Err(McpError::Config(m)) && m@ == "invalid timestamp '"@ + ts@ + "': "@ + e,
            },
    {
        match parse_rfc3339_instant(ts) {
            Ok(t) => Ok(t),
            Err(e) => {
                let mut out: Vec<char> = Vec::new();
                push_str(&mut out, "invalid timestamp '");
                push_str(&mut out, ts);
                push_str(&mut out, "': ");
                push_str(&mut out, e.as_str());
                proof {
                    assert(out@ =~= "invalid timestamp '"@ + ts@ + "': "@ + e@);
                }
                Err(McpError::Config(string_from_chars(&out)))
            },
        }
    }

    /// Whether a cached token is due for refresh at `now`.
    pub fn needs_refresh(cached: &CachedToken, now: (i64, u32)) -> (r: bool)
        ensures
            r == refresh_due(*cached, now),
    {
        let edge: i128 = cached.expires_secs as i128 - 86400i128;
        let n: i128 = now.0 as i128;
        n > edge || (n == edge && now.1 >= cached.expires_nanos)
    }

    /// The cached token when it is not yet due for refresh.
    pub fn cached_token(&self, now: (i64, u32)) -> (r: Option<String>)
        ensures
            match self.cache() {
                Some(c) => if refresh_due(c, now) { r is None } else { r matches Some(t) && t@ == c.token@ },
                None => r is None,
            },
    {
        match &self.cached {
            Some(c) => if Self::needs_refresh(c, now) { None } else { Some(c.token.clone()) },
            None => None,
        }
    }

    /// Take a freshly read token file at `now`: an expiry that does not
    /// parse is a configuration error and an expired token is refused,
    /// both leaving the cache as it was; otherwise the token is cached
    /// with its expiry and returned.
    pub fn accept_token_file(&mut self, file: &TokenFile, now: (i64, u32)) -> (r: Result<String, McpError>)
        ensures
            final(self).path_spec() == old(self).path_spec(),
            match chrono_rfc3339(file.expires_at@) {
                Err(e) => final(self).cache() == old(self).cache()
                    && (r matches Err(McpError::Config(m)) && m@ == "invalid timestamp '"@ + file.expires_at@ + "': "@ + e),
                Ok(exp) => if at_or_after((now.0 as int, now.1 as int), (exp.0 as int, exp.1 as int)) {
                    final(self).cache() == old(self).cache() && r matches Err(McpError::Unauthenticated)
                } else {
                    (r matches Ok(t) && t@ == file.token@)
                        && (final(self).cache() matches Some(c) && c.token@ == file.token@ && c.expires_secs == exp.0 && c.expires_nanos == exp.1)
                },
            },
    {
        let exp = match Self::parse_timestamp(file.expires_at.as_str()) {
            Ok(t) => t,
            Err(e) => {
                return Err(e);
            },
        };
        if now.0 > exp.0 || (now.0 == exp.0 && now.1 >= exp.1) {
            return Err(McpError::Unauthenticated);
        }
        self.cached = Some(CachedToken { token: file.token.clone(), expires_secs: exp.0, expires_nanos: exp.1 });
        Ok(file.token.clone())
    }

    /// Whether a token is cached and not yet due for refresh.
    pub fn is_valid(&self, now: (i64, u32)) -> (r: bool)
        ensures
            r == match self.cache() {
                Some(c) => !refresh_due(c, now),
                None => false,
            },
    {
        match &self.cached {
            Some(c) => !Self::needs_refresh(c, now),
            None => false,
        }
    }
}

/// Token provider that tries the file first and the environment second.
#[derive(Debug, Clone)]
pub struct ChainedTokenProvider {
    /// The file provider, if a token file is known.
    pub file: Option<FileTokenProvider>,
    /// The provider of `KASK_MCP_TOKEN`, if set and not empty.
    pub fallback: Option<StaticTokenProvider>,
}

impl ChainedTokenProvider {
    /// A chain over `file_path`, else the default token file (from the
    /// values of `HOME` and `USERPROFILE`), and the value of
    /// `KASK_MCP_TOKEN`.
    pub fn new(file_path: Option<String>, home: Option<String>, userprofile: Option<String>, env_token: Option<String>) -> (r: Self)
        ensures
            match file_path {
                Some(p) => r.file matches Some(f) && f.path_spec() == p@ && f.cache() is None,
                None => match default_token_path(
                    match home { Some(h) => Some(h@), None => None },
                    match userprofile { Some(u) => Some(u@), None => None },
                ) {
                    Some(p) => r.file matches Some(f) && f.path_spec() == p && f.cache() is None,
                    None => r.file is None,
                },
            },
            match env_token {
                Some(t) => if t@.len() > 0 { r.fallback matches Some(p) && p.token_text() == t@ } else { r.fallback is None },
                None => r.fallback is None,
            },
    {
        let file = match file_path {
            Some(p) => Some(FileTokenProvider::new(p)),
            None => match FileTokenProvider::default_path(home, userprofile) {
                Ok(p) => Some(FileTokenProvider::new(p)),
                Err(_) => None,
            },
        };
        ChainedTokenProvider { file, fallback: StaticTokenProvider::from_env_value(env_token) }
    }

    /// The chain's token, given what the file provider gave (`None`
    /// when there is none): the file's token when it gave one, else the
    /// environment's token, else unauthenticated.
    pub fn choose_token(&self, from_file: Option<Result<String, McpError>>) -> (r: Result<String, McpError>)
        ensures
            match from_file {
                Some(Ok(t)) => r matches Ok(s) && s@ == t@,
                _ => match self.fallback {
                    Some(p) => r matches Ok(s) && s@ == p.token_text(),
                    None => r matches Err(McpError::Unauthenticated),
                },
            },
    {
        match from_file {
            Some(Ok(t)) => {
                return Ok(t);
            },
            _ => {},
        }
        match &self.fallback {
            Some(p) => Ok(p.current_token()),
            None => Err(McpError::Unauthenticated),
        }
    }

    /// Whether the chain has a usable token at `now`: the file's cached
    /// token is not due for refresh, or else the environment's token is
    /// not empty.
    pub fn is_valid(&self, now: (i64, u32)) -> (r: bool)
        ensures
            r == ((self.file matches Some(f) && f.is_valid_spec(now))
                || (self.fallback matches Some(p) && p.token_text().len() > 0)),
    {
        match &self.file {
            Some(f) => {
                if f.is_valid(now) {
                    return true;
                }
            },
            None => {},
        }
        match &self.fallback {
            Some(p) => p.token_is_valid(),
            None => false,
        }
    }
}

impl FileTokenProvider {
    /// A token is cached and not yet due for refresh.
    pub open spec fn is_valid_spec(&self, now: (i64, u32)) -> bool {
        match self.cache() {
            Some(c) => !refresh_due(c, now),
            None => false,
        }
    }
}

} // verus!
