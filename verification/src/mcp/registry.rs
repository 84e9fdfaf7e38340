//! The tool registry: the last-known hKask tool set, refreshed after a
//! time-to-live. Any tool proposed for dispatch must exist in it.
//!
//! The caller fetches `tools/list` and hands the result to
//! [`ToolRegistry::refreshed`]; a failed fetch keeps the cached tools.

use vstd::prelude::*;
use crate::lex::{sort_strs, sorted_texts};
use crate::mcp::error::McpError;
use crate::text::{index_of_first, lemma_index_of_first, lemma_index_of_first_is, str_eq, strs_view};

verus! {

broadcast use vstd::seq_lib::group_filter_ensures;

/// `std::time::Instant`, carried opaque.
#[verifier::external_type_specification]
#[verifier::external_body]
pub struct ExInstant(std::time::Instant);

/// `Instant::now()`: the monotonic clock. Nothing is stated of it.
#[verifier::external_body]
fn instant_now() -> std::time::Instant {
    std::time::Instant::now()
}

/// `Instant::elapsed`: the monotonic time since `t`. Nothing is stated
/// of it.
#[verifier::external_body]
fn instant_elapsed(t: &std::time::Instant) -> core::time::Duration {
    t.elapsed()
}

/// Whether the duration `a` is longer than `b` (`Duration`'s `>`, which
/// compares the spans).
pub uninterp spec fn duration_longer(a: core::time::Duration, b: core::time::Duration) -> bool;

/// `a > b` on durations. The contract claims only that the answer is a
/// function of the two durations (named `duration_longer`): durations
/// are carried opaque.
#[verifier::external_body]
fn duration_exceeds(a: &core::time::Duration, b: &core::time::Duration) -> (r: bool)
    ensures
        r == duration_longer(*a, *b),
{
    a > b
}

/// One MCP tool definition from `tools/list`.
#[derive(Debug, Clone)]
pub struct McpToolDefinition {
    /// Tool name (the callable ID).
    pub name: String,
    /// Human-readable description.
    pub description: Option<String>,
    /// JSON Schema of the tool's input, as JSON text.
    pub input_schema: Option<String>,
    /// The tool's annotations, as JSON text.
    pub annotations: Option<String>,
    /// The `risk_band` string member of the annotations, when they hold
    /// one.
    pub risk_band: Option<String>,
    /// Server that provides the tool.
    pub server: Option<String>,
}

/// The names of the tools.
pub open spec fn tool_names_of(ts: Seq<McpToolDefinition>) -> Seq<Seq<char>> {
    Seq::new(ts.len(), |i: int| ts[i].name@)
}

/// Whether a tool is not named `name`.
pub open spec fn not_named(name: Seq<char>) -> spec_fn(McpToolDefinition) -> bool {
    |t: McpToolDefinition| t.name@ != name
}

/// The tools kept when those named `name` are removed.
pub open spec fn without_named(ts: Seq<McpToolDefinition>, name: Seq<char>) -> Seq<McpToolDefinition> {
    ts.filter(not_named(name))
}

/// The tools after `tool` is upserted: it replaces the first tool of
/// its name, else it is appended.
pub open spec fn upserted(ts: Seq<McpToolDefinition>, tool: McpToolDefinition) -> Seq<McpToolDefinition> {
    match index_of_first(tool_names_of(ts), tool.name@) {
        Some(i) => ts.update(i, tool),
        None => ts.push(tool),
    }
}

/// Cached tool registry.
pub struct ToolRegistry {
    tools: Vec<McpToolDefinition>,
    last_refresh: Option<std::time::Instant>,
    ttl: core::time::Duration,
}

impl ToolRegistry {
    /// The cached tools, in order.
    pub closed spec fn cached(&self) -> Seq<McpToolDefinition> {
        self.tools@
    }

    /// Whether the cache was ever populated since the last invalidation.
    pub closed spec fn refreshed_once(&self) -> bool {
        self.last_refresh is Some
    }

    /// The time-to-live of a refresh.
    pub closed spec fn ttl(&self) -> core::time::Duration {
        self.ttl
    }

    fn position(&self, name: &str) -> (r: Option<usize>)
        ensures
            match r {
                Some(i) => index_of_first(tool_names_of(self.cached()), name@) == Some(i as int),
                None => index_of_first(tool_names_of(self.cached()), name@) is None,
            },
    {
        let ghost names = tool_names_of(self.tools@);
        let mut i: usize = 0;
        while i < self.tools.len()
            invariant
                i <= self.tools@.len(),
                names == tool_names_of(self.tools@),
                forall|j: int| 0 <= j < i ==> names[j] != name@,
            decreases self.tools@.len() - i,
        {
            if str_eq(self.tools[i].name.as_str(), name) {
                proof {
                    lemma_index_of_first_is(names, name@, i as int);
                }
                return Some(i);
            }
            i = i + 1;
        }
        proof {
            lemma_index_of_first_is(names, name@, self.tools@.len() as int);
        }
        None
    }

    /// An empty registry with the given time-to-live.
    pub fn new(ttl: core::time::Duration) -> (r: Self)
        ensures
            r.cached().len() == 0,
            !r.refreshed_once(),
            r.ttl() == ttl,
    {
        ToolRegistry { tools: Vec::new(), last_refresh: None, ttl }
    }

    /// Whether the cache is stale: never populated (or invalidated), or
    /// older than the time-to-live by the monotonic clock.
    pub fn is_stale(&self) -> (r: bool)
        ensures
            !self.refreshed_once() ==> r,
            self.refreshed_once() ==> exists|age: core::time::Duration| r == #[trigger] duration_longer(age, self.ttl()),
    {
        match &self.last_refresh {
            None => true,
            Some(t) => {
                let age = instant_elapsed(t);
                let r = duration_exceeds(&age, &self.ttl);
                proof {
                    assert(r == duration_longer(age, self.ttl()));
                }
                r
            },
        }
    }

    /// Whether no tool is cached.
    pub fn is_empty(&self) -> (r: bool)
        ensures
            r == (self.cached().len() == 0),
    {
        self.tools.len() == 0
    }

    /// Number of cached tools.
    pub fn tool_count(&self) -> (r: usize)
        ensures
            r == self.cached().len(),
    {
        self.tools.len()
    }

    /// Whether a tool of that name is cached.
    pub fn has_tool(&self, name: &str) -> (r: bool)
        ensures
            r == tool_names_of(self.cached()).contains(name@),
    {
        let p = self.position(name);
        proof {
            lemma_index_of_first(tool_names_of(self.cached()), name@);
        }
        p.is_some()
    }

    /// Invalidate the cache: it counts as stale until repopulated; the
    /// tools stay.
    pub fn invalidate(&mut self)
        ensures
            final(self).cached() == old(self).cached(),
            !final(self).refreshed_once(),
    {
        self.last_refresh = None;
    }

    /// Remove every cached tool of that name; `true` when one was
    /// removed.
    pub fn remove_tool(&mut self, name: &str) -> (r: bool)
        ensures
            final(self).cached() == without_named(old(self).cached(), name@),
            final(self).refreshed_once() == old(self).refreshed_once(),
            r == tool_names_of(old(self).cached()).contains(name@),
    {
        let ghost old_tools = self.tools@;
        let mut kept: Vec<McpToolDefinition> = Vec::new();
        let mut i: usize = 0;
        let mut removed = false;
        while i < self.tools.len()
            invariant
                i <= self.tools@.len(),
                self.tools@ == old_tools,
                kept@ == without_named(old_tools.take(i as int), name@),
                removed == exists|j: int| 0 <= j < i && old_tools[j].name@ == name@,
            decreases self.tools@.len() - i,
        {
            let t = &self.tools[i];
            proof {
                assert(old_tools.take(i + 1) =~= old_tools.take(i as int).push(old_tools[i as int]));
                old_tools.take(i as int).lemma_filter_push(old_tools[i as int], not_named(name@));
            }
            if str_eq(t.name.as_str(), name) {
                removed = true;
            } else {
                kept.push(t.clone_def());
            }
            i = i + 1;
        }
        proof {
            assert(old_tools.take(old_tools.len() as int) =~= old_tools);
            if removed {
                let j = choose|j: int| 0 <= j < old_tools.len() && old_tools[j].name@ == name@;
                assert(tool_names_of(old_tools)[j] == name@);
            }
            if tool_names_of(old_tools).contains(name@) {
                let j = choose|j: int| 0 <= j < tool_names_of(old_tools).len() && tool_names_of(old_tools)[j] == name@;
                assert(old_tools[j].name@ == name@);
            }
        }
        self.tools = kept;
        removed
    }

    /// Add a tool, or replace the first cached tool of its name.
    pub fn upsert_tool(&mut self, tool: McpToolDefinition)
        ensures
            final(self).cached() == upserted(old(self).cached(), tool),
            final(self).refreshed_once() == old(self).refreshed_once(),
    {
        match self.position(tool.name.as_str()) {
            Some(i) => {
                proof {
                    lemma_index_of_first(tool_names_of(self.cached()), tool.name@);
                }
                self.tools.set(i, tool);
            },
            None => {
                self.tools.push(tool);
            },
        }
    }

    /// The first cached tool of that name.
    pub fn get_tool(&self, name: &str) -> (r: Option<&McpToolDefinition>)
        ensures
            match index_of_first(tool_names_of(self.cached()), name@) {
                Some(i) => r == Some(&self.cached()[i]),
                None => r is None,
            },
    {
        match self.position(name) {
            Some(i) => {
                proof {
                    lemma_index_of_first(tool_names_of(self.cached()), name@);
                }
                Some(&self.tools[i])
            },
            None => None,
        }
    }

    /// All cached tools.
    pub fn tools(&self) -> (r: &[McpToolDefinition])
        ensures
            r@ == self.cached(),
    {
        self.tools.as_slice()
    }

    /// The cached tools' names, sorted.
    pub fn tool_names(&self) -> (r: Vec<&str>)
        ensures
            sorted_texts(strs_view(r@)),
            strs_view(r@).to_multiset() == tool_names_of(self.cached()).to_multiset(),
    {
        let mut names: Vec<&str> = Vec::new();
        let mut i: usize = 0;
        while i < self.tools.len()
            invariant
                i <= self.tools@.len(),
                strs_view(names@) == tool_names_of(self.tools@).take(i as int),
            decreases self.tools@.len() - i,
        {
            let ghost before = names@;
            names.push(self.tools[i].name.as_str());
            proof {
                assert(strs_view(names@) =~= strs_view(before).push(self.tools@[i as int].name@));
                assert(tool_names_of(self.tools@).take(i + 1) =~= tool_names_of(self.tools@).take(i as int).push(
                    self.tools@[i as int].name@,
                ));
            }
            i = i + 1;
        }
        proof {
            assert(tool_names_of(self.tools@).take(self.tools@.len() as int) =~= tool_names_of(self.tools@));
        }
        sort_strs(&names)
    }

    /// Time since the last refresh; `None` if never refreshed.
    pub fn age(&self) -> (r: Option<core::time::Duration>)
        ensures
            r is Some == self.refreshed_once(),
    {
        match &self.last_refresh {
            Some(t) => Some(instant_elapsed(t)),
            None => None,
        }
    }

    /// The `risk_band` annotation of the first cached tool of that name,
    /// if it has one.
    pub fn tool_risk_band(&self, name: &str) -> (r: Option<String>)
        ensures
            match index_of_first(tool_names_of(self.cached()), name@) {
                Some(i) => match self.cached()[i].risk_band {
                    Some(b) => r matches Some(s) && s@ == b@,
                    None => r is None,
                },
                None => r is None,
            },
    {
        match self.get_tool(name) {
            Some(t) => match &t.risk_band {
                Some(b) => Some(b.clone()),
                None => None,
            },
            None => None,
        }
    }

    /// Populate from a pre-fetched tool list; the cache counts as fresh.
    pub fn populate(&mut self, tools: Vec<McpToolDefinition>)
        ensures
            final(self).cached() == tools@,
            final(self).refreshed_once(),
    {
        self.tools = tools;
        self.last_refresh = Some(instant_now());
    }

    /// The outcome of a `tools/list` fetch: a fetched list replaces the
    /// cache and counts as fresh; a failure keeps the cached tools as
    /// they were and is handed back.
    pub fn refreshed(&mut self, fetched: Result<Vec<McpToolDefinition>, McpError>) -> (r: Result<(), McpError>)
        ensures
            match fetched {
                Ok(ts) => r is Ok && final(self).cached() == ts@ && final(self).refreshed_once(),
                Err(_) => r is Err && final(self).cached() == old(self).cached()
                    && final(self).refreshed_once() == old(self).refreshed_once(),
            },
    {
        match fetched {
            Ok(tools) => {
                self.populate(tools);
                Ok(())
            },
            Err(e) => Err(e),
        }
    }

    /// Replace the cache with tools loaded from disk: stale data, so it
    /// does not count as a refresh.
    pub fn load_cached(&mut self, tools: Vec<McpToolDefinition>)
        ensures
            final(self).cached() == tools@,
            final(self).refreshed_once() == old(self).refreshed_once(),
    {
        self.tools = tools;
    }

    /// Clear the cache.
    pub fn clear(&mut self)
        ensures
            final(self).cached().len() == 0,
            !final(self).refreshed_once(),
    {
        self.tools = Vec::new();
        self.last_refresh = None;
    }
}

impl McpToolDefinition {
    /// A copy of this definition.
    pub fn clone_def(&self) -> (r: McpToolDefinition)
        ensures
            r == *self,
    {
        McpToolDefinition {
            name: self.name.clone(),
            description: match &self.description {
                Some(d) => Some(d.clone()),
                None => None,
            },
            input_schema: match &self.input_schema {
                Some(d) => Some(d.clone()),
                None => None,
            },
            annotations: match &self.annotations {
                Some(d) => Some(d.clone()),
                None => None,
            },
            risk_band: match &self.risk_band {
                Some(d) => Some(d.clone()),
                None => None,
            },
            server: match &self.server {
                Some(d) => Some(d.clone()),
                None => None,
            },
        }
    }
}

// ─── laws ────────────────────────────────────────────────────

/// After an upsert the tool's name is cached, and the tool found under
/// that name is the one upserted.
pub proof fn lemma_upsert_then_found(ts: Seq<McpToolDefinition>, tool: McpToolDefinition)
    ensures
        tool_names_of(upserted(ts, tool)).contains(tool.name@),
        index_of_first(tool_names_of(upserted(ts, tool)), tool.name@) matches Some(i) && upserted(ts, tool)[i] == tool,
{
    lemma_index_of_first(tool_names_of(ts), tool.name@);
    let u = upserted(ts, tool);
    match index_of_first(tool_names_of(ts), tool.name@) {
        Some(i) => {
            assert(tool_names_of(u) =~= tool_names_of(ts).update(i, tool.name@));
            lemma_index_of_first_is(tool_names_of(u), tool.name@, i);
            assert(tool_names_of(u)[i] == tool.name@);
        },
        None => {
            assert(tool_names_of(u) =~= tool_names_of(ts).push(tool.name@));
            lemma_index_of_first_is(tool_names_of(u), tool.name@, ts.len() as int);
            assert(tool_names_of(u)[ts.len() as int] == tool.name@);
        },
    }
}

/// After a removal no tool of that name is cached.
pub proof fn lemma_removed_is_gone(ts: Seq<McpToolDefinition>, name: Seq<char>)
    ensures
        !tool_names_of(without_named(ts, name)).contains(name),
{
    let w = without_named(ts, name);
    assert forall|k: int| 0 <= k < w.len() implies tool_names_of(w)[k] != name by {
        assert(w[k].name@ != name);
    }
}

} // verus!
