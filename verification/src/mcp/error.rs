//! Errors of the MCP client.

use vstd::prelude::*;
use crate::text::{dec_int, dec_nat, push_dec_i64, push_dec_u64, push_str, string_from_chars};

verus! {

/// Errors of the MCP client.
#[derive(Debug)]
pub enum McpError {
    /// The endpoint is not a loopback address.
    NonLoopbackRefused {
        /// The refused URL.
        url: String,
    },
    /// The endpoint URL is invalid.
    InvalidUrl(String),
    /// Transport failure.
    Transport {
        /// What failed.
        message: String,
        /// Whether connecting failed.
        is_connect: bool,
        /// Whether it timed out.
        is_timeout: bool,
    },
    /// MCP protocol error.
    Protocol {
        /// JSON-RPC error code.
        code: i64,
        /// Error message.
        message: String,
    },
    /// The response could not be read.
    InvalidResponse(String),
    /// Authentication failed.
    Unauthenticated,
    /// Authorisation denied.
    Forbidden,
    /// Unexpected HTTP status.
    HttpStatus {
        /// The status.
        status: u16,
        /// The response body.
        body: String,
    },
    /// Configuration error.
    Config(String),
    /// The tool registry is unavailable.
    RegistryUnavailable(String),
}

/// The message of an error.
pub open spec fn mcp_error_text(e: McpError) -> Seq<char> {
    match e {
        McpError::NonLoopbackRefused { url } => "refused: endpoint is not loopback ("@ + url@ + ")"@,
        McpError::InvalidUrl(u) => "invalid endpoint URL: "@ + u@,
        McpError::Transport { message, .. } => "transport error: "@ + message@,
        McpError::Protocol { code, message } => "mcp protocol error "@ + dec_int(code as int) + ": "@ + message@,
        McpError::InvalidResponse(m) => "invalid response: "@ + m@,
        McpError::Unauthenticated => "authentication failed — check KASK_MCP_TOKEN"@,
        McpError::Forbidden => "authorization denied for this operation"@,
        McpError::HttpStatus { status, body } => "unexpected HTTP status "@ + dec_nat(status as nat) + ": "@ + body@,
        McpError::Config(m) => "configuration error: "@ + m@,
        McpError::RegistryUnavailable(m) => "tool registry unavailable: "@ + m@,
    }
}

impl McpError {
    /// The error's message.
    pub fn message(&self) -> (r: String)
        ensures
            r@ == mcp_error_text(*self),
    {
        let mut out: Vec<char> = Vec::new();
        match self {
            McpError::NonLoopbackRefused { url } => {
                push_str(&mut out, "refused: endpoint is not loopback (");
                push_str(&mut out, url.as_str());
                push_str(&mut out, ")");
            },
            McpError::InvalidUrl(u) => {
                push_str(&mut out, "invalid endpoint URL: ");
                push_str(&mut out, u.as_str());
            },
            McpError::Transport { message, .. } => {
                push_str(&mut out, "transport error: ");
                push_str(&mut out, message.as_str());
            },
            McpError::Protocol { code, message } => {
                push_str(&mut out, "mcp protocol error ");
                push_dec_i64(&mut out, *code);
                push_str(&mut out, ": ");
                push_str(&mut out, message.as_str());
            },
            McpError::InvalidResponse(m) => {
                push_str(&mut out, "invalid response: ");
                push_str(&mut out, m.as_str());
            },
            McpError::Unauthenticated => {
                push_str(&mut out, "authentication failed — check KASK_MCP_TOKEN");
            },
            McpError::Forbidden => {
                push_str(&mut out, "authorization denied for this operation");
            },
            McpError::HttpStatus { status, body } => {
                push_str(&mut out, "unexpected HTTP status ");
                push_dec_u64(&mut out, *status as u64);
                push_str(&mut out, ": ");
                push_str(&mut out, body.as_str());
            },
            McpError::Config(m) => {
                push_str(&mut out, "configuration error: ");
                push_str(&mut out, m.as_str());
            },
            McpError::RegistryUnavailable(m) => {
                push_str(&mut out, "tool registry unavailable: ");
                push_str(&mut out, m.as_str());
            },
        }
        proof {
            assert(out@ =~= mcp_error_text(*self));
        }
        string_from_chars(&out)
    }
}

} // verus!
