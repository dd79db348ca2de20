use vstd::prelude::*;

verus! {

use crate::definition::ScopeDefinition;
use crate::priority::GLOBAL_RANK;
use crate::priority::RUNTIME_RANK;
use crate::priority::ScopePriority;

/// A scope identifier: one of the two process-reserved scopes, or a
/// caller-defined user scope.
#[derive(Debug)]
pub enum SystemScope<UserScope> {
    Global,
    Runtime,
    User(UserScope),
}

impl<U: ScopeDefinition> SystemScope<U> {
    /// The identity of the scope.  The three classes are disjoint; within the
    /// user class, identity is the user scope's own identity.
    pub open spec fn skey(&self) -> (int, int) {
        match self {
            SystemScope::Global => (0, 0),
            SystemScope::Runtime => (1, 0),
            SystemScope::User(u) => (2, u.sid()),
        }
    }

    /// The priority rank of the scope: `Global` above `Runtime`, `Runtime`
    /// above the rank any user scope claims.
    pub open spec fn srank(&self) -> int {
        match self {
            SystemScope::Global => GLOBAL_RANK as int,
            SystemScope::Runtime => RUNTIME_RANK as int,
            SystemScope::User(u) => u.sprio(),
        }
    }

    /// A scope's rank is a function of its identity.
    pub proof fn skey_determines_srank(&self, other: &Self)
        ensures
            self.skey() == other.skey() ==> self.srank() == other.srank(),
    {
        match (self, other) {
            (SystemScope::User(a), SystemScope::User(b)) => a.sid_determines_sprio(b),
            _ => {},
        }
    }

    /// The priority of the scope.
    pub fn priority(&self) -> (p: ScopePriority)
        ensures
            p.rank() == self.srank(),
    {
        match self {
            SystemScope::Global => ScopePriority::Global,
            SystemScope::Runtime => ScopePriority::Runtime,
            SystemScope::User(u) => u.priority(),
        }
    }

    /// Whether two identifiers denote the same scope.
    pub fn scope_eq(&self, other: &Self) -> (r: bool)
        ensures
            r == (self.skey() == other.skey()),
    {
        match (self, other) {
            (SystemScope::Global, SystemScope::Global) => true,
            (SystemScope::Runtime, SystemScope::Runtime) => true,
            (SystemScope::User(a), SystemScope::User(b)) => a.scope_eq(b),
            _ => false,
        }
    }

    /// A copy denoting the same scope, at the same rank.
    pub fn clone_scope(&self) -> (c: Self)
        ensures
            c.skey() == self.skey(),
            c.srank() == self.srank(),
    {
        match self {
            SystemScope::Global => SystemScope::Global,
            SystemScope::Runtime => SystemScope::Runtime,
            SystemScope::User(u) => {
                let c0 = u.clone_scope();
                SystemScope::User(c0)
            },
        }
    }
}

/// A bare user scope converts into its `SystemScope` identifier.
impl<T: ScopeDefinition> From<T> for SystemScope<T> {
    fn from(value: T) -> (r: Self) {
        SystemScope::User(value)
    }
}

impl<T: ScopeDefinition> vstd::std_specs::convert::FromSpecImpl<T> for SystemScope<T> {
    open spec fn obeys_from_spec() -> bool {
        true
    }

    open spec fn from_spec(v: T) -> Self {
        SystemScope::User(v)
    }
}

} // verus!
