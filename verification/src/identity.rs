//! Identity abstraction: who a principal is and what it may do.

use vstd::prelude::*;
use crate::text::str_eq;

verus! {

/// A principal with a set of capabilities.
pub trait IdentityPort {
    /// Unique identifier for this principal.
    fn principal_id(&self) -> &str;

    /// Whether this principal holds `capability`.
    fn has_capability(&self, capability: &str) -> bool;

    /// All capabilities held by this principal.
    fn capabilities(&self) -> Vec<String>;

    /// Whether this identity is still valid (not expired or revoked).
    fn is_valid(&self) -> bool;
}

/// An in-memory identity: a principal id and its capabilities.
#[derive(Debug, Clone)]
pub struct SimpleIdentity {
    /// The principal identifier.
    pub principal_id: String,
    /// Capabilities held by this principal.
    pub capabilities: Vec<String>,
}

/// Whether `c` is among the capabilities `caps`.
pub open spec fn holds_capability(caps: Seq<String>, c: Seq<char>) -> bool {
    exists|i: int| 0 <= i < caps.len() && (#[trigger] caps[i])@ == c
}

impl SimpleIdentity {
    /// Create an identity with the given principal and capabilities.
    pub fn new(principal_id: String, capabilities: Vec<String>) -> (r: Self)
        ensures
            r.principal_id@ == principal_id@,
            r.capabilities@ == capabilities@,
    {
        SimpleIdentity { principal_id, capabilities }
    }

    /// The anonymous identity: principal `anonymous`, no capabilities.
    pub fn anonymous() -> (r: Self)
        ensures
            r.principal_id@ == seq!['a', 'n', 'o', 'n', 'y', 'm', 'o', 'u', 's'],
            r.capabilities@.len() == 0,
    {
        proof {
            reveal_strlit("anonymous");
            assert("anonymous"@ =~= seq!['a', 'n', 'o', 'n', 'y', 'm', 'o', 'u', 's']);
        }
        SimpleIdentity { principal_id: "anonymous".to_string(), capabilities: Vec::new() }
    }

    /// The principal identifier.
    pub fn principal(&self) -> (r: &str)
        ensures
            r@ == self.principal_id@,
    {
        self.principal_id.as_str()
    }

    /// Whether `capability` is among this identity's capabilities.
    pub fn holds(&self, capability: &str) -> (r: bool)
        ensures
            r == holds_capability(self.capabilities@, capability@),
    {
        let mut i: usize = 0;
        while i < self.capabilities.len()
            invariant
                i <= self.capabilities@.len(),
                forall|j: int| 0 <= j < i ==> (#[trigger] self.capabilities@[j])@ != capability@,
            decreases self.capabilities@.len() - i,
        {
            if str_eq(self.capabilities[i].as_str(), capability) {
                return true;
            }
            i = i + 1;
        }
        false
    }

    /// A copy of the capabilities.
    pub fn capability_list(&self) -> (r: Vec<String>)
        ensures
            r@.len() == self.capabilities@.len(),
            forall|i: int| 0 <= i < r@.len() ==> (#[trigger] r@[i])@ == self.capabilities@[i]@,
    {
        let mut out: Vec<String> = Vec::new();
        let mut i: usize = 0;
        while i < self.capabilities.len()
            invariant
                i <= self.capabilities@.len(),
                out@.len() == i,
                forall|j: int| 0 <= j < i ==> (#[trigger] out@[j])@ == self.capabilities@[j]@,
            decreases self.capabilities@.len() - i,
        {
            out.push(self.capabilities[i].clone());
            i = i + 1;
        }
        out
    }
}

impl IdentityPort for SimpleIdentity {
    fn principal_id(&self) -> (r: &str)
        ensures
            r@ == self.principal_id@,
    {
        self.principal()
    }

    fn has_capability(&self, capability: &str) -> (r: bool)
        ensures
            r == holds_capability(self.capabilities@, capability@),
    {
        self.holds(capability)
    }

    fn capabilities(&self) -> (r: Vec<String>)
        ensures
            r@.len() == self.capabilities@.len(),
            forall|i: int| 0 <= i < r@.len() ==> (#[trigger] r@[i])@ == self.capabilities@[i]@,
    {
        self.capability_list()
    }

    /// A simple identity is always valid.
    fn is_valid(&self) -> (r: bool)
        ensures
            r,
    {
        true
    }
}

} // verus!
