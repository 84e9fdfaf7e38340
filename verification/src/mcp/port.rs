//! The MCP port: tool discovery, invocation and health checking, apart
//! from the hKask client that serves them, and what a tool call
//! returns. [`MockMcpPort`] serves tests.

use vstd::prelude::*;
use crate::mcp::error::McpError;
use crate::mcp::registry::McpToolDefinition;
use crate::text::{push_str, string_from_chars};

verus! {

/// One content item of a tool call's result.
#[derive(Debug, Clone)]
pub struct ToolContent {
    /// Content type (`text`, `image`, `resource`).
    pub content_type: String,
    /// Text content, for `text` items.
    pub text: Option<String>,
    /// The item's other members, as JSON text (an object; `null` in the
    /// mock's items).
    pub extra: String,
}

/// The result of a `tools/call` invocation.
#[derive(Debug, Clone)]
pub struct ToolCallResult {
    /// Content items returned by the tool.
    pub content: Vec<ToolContent>,
    /// Whether the tool execution encountered an error.
    pub is_error: bool,
}

/// Access to MCP tools.
pub trait McpPort {
    /// The available tools.
    fn list_tools(&self) -> Result<Vec<McpToolDefinition>, McpError>;

    /// Call a tool by name, with its arguments as JSON text.
    fn call_tool(&self, name: &str, arguments: Option<String>) -> Result<ToolCallResult, McpError>;

    /// Whether the MCP endpoint is reachable.
    fn health_check(&self) -> Result<(), McpError>;
}

/// A port with a fixed tool list and health, for tests.
pub struct MockMcpPort {
    tools: Vec<McpToolDefinition>,
    health: bool,
}

/// The text the mock answers a call of `name` with.
pub open spec fn mock_reply(name: Seq<char>) -> Seq<char> {
    "mock result for "@ + name
}

/// The mock's answer to a call of `name`: one `text` item,
/// `mock result for <name>`, with no other members; not an error.
pub open spec fn mock_result(res: ToolCallResult, name: Seq<char>) -> bool {
    &&& !res.is_error
    &&& res.content@.len() == 1
    &&& res.content@[0].content_type@ == "text"@
    &&& res.content@[0].text matches Some(t) && t@ == mock_reply(name)
    &&& res.content@[0].extra@ == "null"@
}

impl MockMcpPort {
    /// The tools it lists.
    pub closed spec fn tools(&self) -> Seq<McpToolDefinition> {
        self.tools@
    }

    /// Whether its health check succeeds.
    pub closed spec fn healthy_spec(&self) -> bool {
        self.health
    }

    /// A mock listing `tools`, healthy or not.
    pub fn new(tools: Vec<McpToolDefinition>, health: bool) -> (r: Self)
        ensures
            r.tools() == tools@,
            r.healthy_spec() == health,
    {
        MockMcpPort { tools, health }
    }

    /// A healthy mock with no tools.
    pub fn healthy() -> (r: Self)
        ensures
            r.tools().len() == 0,
            r.healthy_spec(),
    {
        MockMcpPort::new(Vec::new(), true)
    }
}

impl McpPort for MockMcpPort {
    fn list_tools(&self) -> (r: Result<Vec<McpToolDefinition>, McpError>)
        ensures
            r matches Ok(v) && v@ == self.tools(),
    {
        let mut out: Vec<McpToolDefinition> = Vec::new();
        let mut i: usize = 0;
        while i < self.tools.len()
            invariant
                i <= self.tools@.len(),
                out@ == self.tools@.subrange(0, i as int),
            decreases self.tools@.len() - i,
        {
            out.push(self.tools[i].clone_def());
            i = i + 1;
            proof {
                assert(out@ =~= self.tools@.subrange(0, i as int));
            }
        }
        proof {
            assert(out@ =~= self.tools@);
        }
        Ok(out)
    }

    /// One `text` item, `mock result for <name>`, not an error; the
    /// arguments are ignored.
    fn call_tool(&self, name: &str, _arguments: Option<String>) -> (r: Result<ToolCallResult, McpError>)
        ensures
            r matches Ok(res) && mock_result(res, name@),
    {
        let mut t: Vec<char> = Vec::new();
        push_str(&mut t, "mock result for ");
        push_str(&mut t, name);
        let item = ToolContent {
            content_type: "text".to_string(),
            text: Some(string_from_chars(&t)),
            extra: "null".to_string(),
        };
        let mut content: Vec<ToolContent> = Vec::new();
        content.push(item);
        Ok(ToolCallResult { content, is_error: false })
    }

    /// `Ok` when healthy, else a connect failure.
    fn health_check(&self) -> (r: Result<(), McpError>)
        ensures
            self.healthy_spec() ==> r is Ok,
            !self.healthy_spec() ==> (r matches Err(McpError::Transport { message, is_connect, is_timeout })
                && message@ == "mock health check failed"@ && is_connect && !is_timeout),
    {
        if self.health {
            Ok(())
        } else {
            Err(McpError::Transport { message: "mock health check failed".to_string(), is_connect: true, is_timeout: false })
        }
    }
}

} // verus!
