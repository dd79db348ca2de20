use vstd::prelude::*;

verus! {

use crate::priority::ScopePriority;

/// A caller-defined scope class.
///
/// A scope value has an abstract identity, [`Self::sid`], which decides which
/// directory entry it denotes, and claims a priority rank, [`Self::sprio`].
/// Implementors must show that the rank is a function of the identity, so
/// that a scope cannot change rank between two mentions of it.
pub trait ScopeDefinition: Sized {
    /// The abstract identity of this scope value.
    spec fn sid(&self) -> int;

    /// The priority rank this scope claims, as [`ScopePriority::rank`] values.
    spec fn sprio(&self) -> int;

    /// Two scope values with the same identity claim the same rank.
    proof fn sid_determines_sprio(&self, other: &Self)
        ensures
            self.sid() == other.sid() ==> self.sprio() == other.sprio(),
    ;

    /// The priority of this scope.
    fn priority(&self) -> (p: ScopePriority)
        ensures
            p.rank() == self.sprio(),
    ;

    /// Whether two scope values denote the same scope.
    fn scope_eq(&self, other: &Self) -> (r: bool)
        ensures
            r == (self.sid() == other.sid()),
    ;

    /// A copy denoting the same scope.
    fn clone_scope(&self) -> (c: Self)
        ensures
            c.sid() == self.sid(),
            c.sprio() == self.sprio(),
    ;
}

/// The degenerate no-custom-scope case: one single scope whose rank is the
/// maximum user rank, which sorts directly below `Runtime`.
impl ScopeDefinition for () {
    open spec fn sid(&self) -> int {
        0
    }

    open spec fn sprio(&self) -> int {
        u8::MAX as int
    }

    proof fn sid_determines_sprio(&self, other: &Self) {
    }

    fn priority(&self) -> (p: ScopePriority) {
        ScopePriority::User(u8::MAX)
    }

    fn scope_eq(&self, other: &Self) -> (r: bool) {
        true
    }

    fn clone_scope(&self) -> (c: Self) {
    }
}

/// A ready-made user scope distinguished by its rank alone: two `RankScope`s
/// denote the same scope exactly when their ranks are equal.
#[derive(PartialEq, Eq, Structural, Hash, Debug, Clone, Copy)]
pub struct RankScope {
    pub priority: u8,
}

impl ScopeDefinition for RankScope {
    open spec fn sid(&self) -> int {
        self.priority as int
    }

    open spec fn sprio(&self) -> int {
        self.priority as int
    }

    proof fn sid_determines_sprio(&self, other: &Self) {
    }

    fn priority(&self) -> (p: ScopePriority) {
        ScopePriority::User(self.priority)
    }

    fn scope_eq(&self, other: &Self) -> (r: bool) {
        self.priority == other.priority
    }

    fn clone_scope(&self) -> (c: Self) {
        RankScope { priority: self.priority }
    }
}

} // verus!
