use vstd::prelude::*;

verus! {

use core::any::TypeId;
use std::sync::Arc;
use crate::container::DependencyContainer;
use crate::definition::ScopeDefinition;
use crate::store::DashmapDependencyContainer;
use crate::store::ErasedValue;
use crate::store::downcast;
use crate::store::erase;
use crate::store::key_of;
use crate::system::SystemScope;

/// One directory entry: a scope identifier and the registry it owns.
pub type ScopeEntry<UserScope> = (SystemScope<UserScope>, DashmapDependencyContainer);

/// The entry at `i` denotes the scope identified by `key`.
pub open spec fn scope_at<U: ScopeDefinition>(
    s: Seq<ScopeEntry<U>>,
    i: int,
    key: (int, int),
) -> bool {
    0 <= i < s.len() && s[i].0.skey() == key
}

/// Some entry denotes the scope identified by `key`.
pub open spec fn has_scope_key<U: ScopeDefinition>(s: Seq<ScopeEntry<U>>, key: (int, int)) -> bool {
    exists|i: int| scope_at(s, i, key)
}

/// The registry of the entry at `i` holds a value under `k`.
pub open spec fn hit<U: ScopeDefinition>(s: Seq<ScopeEntry<U>>, i: int, k: TypeId) -> bool {
    0 <= i < s.len() && s[i].1.entries().contains_key(k)
}

/// `i` is the entry that scope-agnostic resolution reads for `k`: its
/// registry holds `k`, it has the lowest priority rank among entries that do,
/// and it is the earliest-created among those tied at that rank.
pub open spec fn is_resolve_choice<U: ScopeDefinition>(
    s: Seq<ScopeEntry<U>>,
    k: TypeId,
    i: int,
) -> bool {
    &&& hit(s, i, k)
    &&& forall|j: int|
        hit(s, j, k) && j != i ==> s[i].0.srank() < s[j].0.srank() || (s[i].0.srank()
            == s[j].0.srank() && i < j)
}

/// `i` is the entry that a scope-agnostic registration or deregistration
/// targets: the highest priority rank, latest-created among ties.
pub open spec fn is_write_target<U: ScopeDefinition>(s: Seq<ScopeEntry<U>>, i: int) -> bool {
    &&& 0 <= i < s.len()
    &&& forall|j: int|
        0 <= j < s.len() && j != i ==> s[j].0.srank() < s[i].0.srank() || (s[j].0.srank()
            == s[i].0.srank() && j < i)
}

/// A concurrent map from scope identifier to one registry each, ordered by
/// scope priority.
///
/// Scope-agnostic resolution walks scopes by ascending rank, so local scopes
/// shadow global ones; scope-agnostic registration targets the
/// highest-ranked scope present.  Ties in rank are broken by creation order,
/// which callers must not rely upon.
pub struct ScopedDependencyContainer<UserScope: ScopeDefinition> {
    scopes: Vec<ScopeEntry<UserScope>>,
}

impl<U: ScopeDefinition> ScopedDependencyContainer<U> {
    /// The directory's entries, in creation order.
    pub closed spec fn scopes_seq(&self) -> Seq<ScopeEntry<U>> {
        self.scopes@
    }

    /// Well-formed: no two entries denote the same scope.
    pub open spec fn wf(&self) -> bool {
        forall|i: int, j: int|
            0 <= i < j < self.scopes_seq().len() ==> self.scopes_seq()[i].0.skey()
                != self.scopes_seq()[j].0.skey()
    }

    /// A directory with no scopes at all.
    pub fn new_empty() -> (c: Self)
        ensures
            c.wf(),
            c.scopes_seq().len() == 0,
    {
        ScopedDependencyContainer { scopes: Vec::new() }
    }

    /// The index of the entry denoting `scope`, if the scope exists.
    fn find_scope_index(&self, scope: &SystemScope<U>) -> (r: Option<usize>)
        ensures
            match r {
                Some(i) => scope_at(self.scopes_seq(), i as int, scope.skey()),
                None => !has_scope_key(self.scopes_seq(), scope.skey()),
            },
    {
        let mut i: usize = 0;
        while i < self.scopes.len()
            invariant
                i <= self.scopes_seq().len(),
                forall|j: int| 0 <= j < i ==> self.scopes_seq()[j].0.skey() != scope.skey(),
            decreases self.scopes_seq().len() - i,
        {
            if self.scopes[i].0.scope_eq(scope) {
                return Some(i);
            }
            i += 1;
        }
        None
    }

    /// Insert-if-absent: associate `scope` with `container` unless the scope
    /// already exists, in which case the existing registry is kept and
    /// `container` is discarded.  Returns the registry that ends up
    /// associated with the scope.
    pub fn create_scope(&mut self, scope: SystemScope<U>, container: DashmapDependencyContainer) -> (
        r: &DashmapDependencyContainer)
        requires
            old(self).wf(),
        ensures
            final(self).wf(),
            has_scope_key(old(self).scopes_seq(), scope.skey()) ==> final(self).scopes_seq()
                == old(self).scopes_seq(),
            !has_scope_key(old(self).scopes_seq(), scope.skey()) ==> final(self).scopes_seq()
                =~= old(self).scopes_seq().push((scope, container)),
            exists|i: int|
                scope_at(final(self).scopes_seq(), i, scope.skey()) && *r == final(self).scopes_seq()[i].1,
    {
        match self.find_scope_index(&scope) {
            Some(i) => &self.scopes[i].1,
            None => {
                self.scopes.push((scope, container));
                let n = self.scopes.len();
                proof {
                    assert(scope_at(self.scopes_seq(), n as int - 1, scope.skey()));
                    assert forall|a: int, b: int|
                        0 <= a < b < self.scopes@.len() implies self.scopes@[a].0.skey()
                        != self.scopes@[b].0.skey() by {
                        if b == n as int - 1 {
                            assert(!scope_at(old(self).scopes_seq(), a, scope.skey()));
                        }
                    }
                }
                &self.scopes[n - 1].1
            },
        }
    }

    /// Insert-if-absent with a freshly created empty registry.
    pub fn create_default_scope(&mut self, scope: SystemScope<U>) -> (r:
        &DashmapDependencyContainer)
        requires
            old(self).wf(),
        ensures
            final(self).wf(),
            has_scope_key(old(self).scopes_seq(), scope.skey()) ==> final(self).scopes_seq()
                == old(self).scopes_seq(),
            !has_scope_key(old(self).scopes_seq(), scope.skey()) ==> {
                &&& final(self).scopes_seq().len() == old(self).scopes_seq().len() + 1
                &&& forall|i: int|
                    0 <= i < old(self).scopes_seq().len() ==> final(self).scopes_seq()[i] == old(self).scopes_seq()[i]
                &&& final(self).scopes_seq().last().0 == scope
                &&& forall|k: TypeId|
                    !(#[trigger] final(self).scopes_seq().last().1.entries().contains_key(k))
            },
            exists|i: int|
                scope_at(final(self).scopes_seq(), i, scope.skey()) && *r == final(self).scopes_seq()[i].1,
    {
        let fresh = DashmapDependencyContainer::new();
        self.create_scope(scope, fresh)
    }

    /// Remove the scope and its registry; returns whether the scope existed.
    /// Dropping the registry drops every value solely owned by it.
    pub fn delete_scope(&mut self, scope: SystemScope<U>) -> (r: bool)
        requires
            old(self).wf(),
        ensures
            final(self).wf(),
            r == has_scope_key(old(self).scopes_seq(), scope.skey()),
            !has_scope_key(old(self).scopes_seq(), scope.skey()) ==> final(self).scopes_seq()
                == old(self).scopes_seq(),
            forall|i: int|
                scope_at(old(self).scopes_seq(), i, scope.skey()) ==> final(self).scopes_seq()
                    =~= old(self).scopes_seq().remove(i),
    {
        match self.find_scope_index(&scope) {
            Some(i) => {
                let ghost prev = self.scopes@;
                self.scopes.remove(i);
                proof {
                    assert forall|j: int| scope_at(prev, j, scope.skey()) implies j == i as int by {
                        if j != i as int {
                            assert(prev[j].0.skey() != prev[i as int].0.skey());
                        }
                    }
                    assert forall|a: int, b: int|
                        0 <= a < b < self.scopes@.len() implies self.scopes@[a].0.skey()
                        != self.scopes@[b].0.skey() by {
                        let a0: int = if a < i as int { a } else { a + 1 };
                        let b0: int = if b < i as int { b } else { b + 1 };
                        assert(self.scopes@[a] == prev[a0]);
                        assert(self.scopes@[b] == prev[b0]);
                    }
                }
                true
            },
            None => false,
        }
    }

    /// The registry of `scope`, if the scope exists.
    pub fn get_scope(&self, scope: &SystemScope<U>) -> (r: Option<&DashmapDependencyContainer>)
        ensures
            match r {
                Some(c) => exists|i: int|
                    scope_at(self.scopes_seq(), i, scope.skey()) && *c == self.scopes_seq()[i].1,
                None => !has_scope_key(self.scopes_seq(), scope.skey()),
            },
    {
        match self.find_scope_index(scope) {
            Some(i) => Some(&self.scopes[i].1),
            None => None,
        }
    }

    /// Whether the scope exists.
    pub fn has_scope(&self, scope: &SystemScope<U>) -> (r: bool)
        ensures
            r == has_scope_key(self.scopes_seq(), scope.skey()),
    {
        self.find_scope_index(scope).is_some()
    }

    /// The number of scopes.
    pub fn scope_count(&self) -> (r: usize)
        ensures
            r == self.scopes_seq().len(),
    {
        self.scopes.len()
    }

    /// Remove every scope; every value solely owned by some scope is dropped.
    pub fn clear_scopes(&mut self)
        ensures
            final(self).wf(),
            final(self).scopes_seq().len() == 0,
    {
        self.scopes.clear();
    }
}

impl<U: ScopeDefinition> Default for ScopedDependencyContainer<U> {
    /// A directory holding exactly the two reserved scopes, `Global` and
    /// `Runtime`, each with an empty registry.
    fn default() -> (c: Self)
        ensures
            c.wf(),
            c.scopes_seq().len() == 2,
            c.scopes_seq()[0].0 == SystemScope::<U>::Global,
            c.scopes_seq()[1].0 == SystemScope::<U>::Runtime,
            forall|k: TypeId| !(#[trigger] c.scopes_seq()[0].1.entries().contains_key(k)),
            forall|k: TypeId| !(#[trigger] c.scopes_seq()[1].1.entries().contains_key(k)),
    {
        let mut c = Self::new_empty();
        c.create_default_scope(SystemScope::Global);
        c.create_default_scope(SystemScope::Runtime);
        c
    }
}

impl<U: ScopeDefinition> ScopedDependencyContainer<U> {
    /// Look up `key` in the registry of `scope`.  `None` both when the scope
    /// does not exist and when its registry holds no value under `key`.
    pub fn resolve_key_from_scope(&self, key: &TypeId, scope: &SystemScope<U>) -> (r: Option<
        ErasedValue>)
        requires
            self.wf(),
        ensures
            !has_scope_key(self.scopes_seq(), scope.skey()) ==> r is None,
            forall|i: int|
                scope_at(self.scopes_seq(), i, scope.skey()) ==> match r {
                    Some(e) => self.scopes_seq()[i].1.entries().contains_key(*key) && e
                        == self.scopes_seq()[i].1.entries()[*key],
                    None => !self.scopes_seq()[i].1.entries().contains_key(*key),
                },
    {
        match self.find_scope_index(scope) {
            Some(i) => {
                proof {
                    lemma_unique_scope_at(self.scopes_seq(), scope.skey(), i as int);
                }
                self.scopes[i].1.resolve_key(key)
            },
            None => None,
        }
    }

    /// Swap `value` into the registry of `scope` under `key`.  `None` without
    /// any effect when the scope does not exist; otherwise the value the
    /// key was mapped to before, if there was one.
    pub fn register_entry_with_scope(
        &mut self,
        key: TypeId,
        value: ErasedValue,
        scope: &SystemScope<U>,
    ) -> (prev: Option<ErasedValue>)
        requires
            old(self).wf(),
        ensures
            final(self).wf(),
            !has_scope_key(old(self).scopes_seq(), scope.skey()) ==> prev is None && final(
                self).scopes_seq() == old(self).scopes_seq(),
            forall|i: int|
                scope_at(old(self).scopes_seq(), i, scope.skey()) ==> {
                    &&& final(self).scopes_seq().len() == old(self).scopes_seq().len()
                    &&& (forall|j: int|
                        0 <= j < old(self).scopes_seq().len() && j != i ==> final(
                            self).scopes_seq()[j] == old(self).scopes_seq()[j])
                    &&& final(self).scopes_seq()[i].0 == old(self).scopes_seq()[i].0
                    &&& final(self).scopes_seq()[i].1.entries() == old(
                        self).scopes_seq()[i].1.entries().insert(key, value)
                    &&& match prev {
                        Some(e) => old(self).scopes_seq()[i].1.entries().contains_key(key) && e
                            == old(self).scopes_seq()[i].1.entries()[key],
                        None => !old(self).scopes_seq()[i].1.entries().contains_key(key),
                    }
                },
    {
        match self.find_scope_index(scope) {
            Some(i) => {
                proof {
                    lemma_unique_scope_at(self.scopes_seq(), scope.skey(), i as int);
                }
                let prev = self.scopes[i].1.register_key(key, value);
                proof {
                    lemma_wf_from_same_keys(old(self).scopes_seq(), self.scopes_seq());
                }
                prev
            },
            None => None,
        }
    }

    /// Remove the entry under `key` from the registry of `scope`.  `None`
    /// without any effect when the scope does not exist; otherwise the value
    /// the key was mapped to, if there was one.
    pub fn deregister_key_from_scope(&mut self, key: &TypeId, scope: &SystemScope<U>) -> (prev:
        Option<ErasedValue>)
        requires
            old(self).wf(),
        ensures
            final(self).wf(),
            !has_scope_key(old(self).scopes_seq(), scope.skey()) ==> prev is None && final(
                self).scopes_seq() == old(self).scopes_seq(),
            forall|i: int|
                scope_at(old(self).scopes_seq(), i, scope.skey()) ==> {
                    &&& final(self).scopes_seq().len() == old(self).scopes_seq().len()
                    &&& (forall|j: int|
                        0 <= j < old(self).scopes_seq().len() && j != i ==> final(
                            self).scopes_seq()[j] == old(self).scopes_seq()[j])
                    &&& final(self).scopes_seq()[i].0 == old(self).scopes_seq()[i].0
                    &&& final(self).scopes_seq()[i].1.entries() == old(
                        self).scopes_seq()[i].1.entries().remove(*key)
                    &&& match prev {
                        Some(e) => old(self).scopes_seq()[i].1.entries().contains_key(*key) && e
                            == old(self).scopes_seq()[i].1.entries()[*key],
                        None => !old(self).scopes_seq()[i].1.entries().contains_key(*key),
                    }
                },
    {
        match self.find_scope_index(scope) {
            Some(i) => {
                proof {
                    lemma_unique_scope_at(self.scopes_seq(), scope.skey(), i as int);
                }
                let prev = self.scopes[i].1.deregister_key(key);
                proof {
                    lemma_wf_from_same_keys(old(self).scopes_seq(), self.scopes_seq());
                }
                prev
            },
            None => None,
        }
    }
}

/// In a well-formed sequence, at most one entry denotes a given scope.
proof fn lemma_unique_scope_at<U: ScopeDefinition>(s: Seq<ScopeEntry<U>>, key: (int, int), i: int)
    requires
        forall|a: int, b: int| 0 <= a < b < s.len() ==> s[a].0.skey() != s[b].0.skey(),
        scope_at(s, i, key),
    ensures
        forall|j: int| scope_at(s, j, key) ==> j == i,
{
    assert forall|j: int| scope_at(s, j, key) implies j == i by {
        if j < i {
            assert(s[j].0.skey() != s[i].0.skey());
        } else if j > i {
            assert(s[i].0.skey() != s[j].0.skey());
        }
    }
}

/// Two sequences of entries with the same scope identifiers in the same
/// places are well-formed together.
proof fn lemma_wf_from_same_keys<U: ScopeDefinition>(s0: Seq<ScopeEntry<U>>, s1: Seq<ScopeEntry<U>>)
    requires
        forall|a: int, b: int| 0 <= a < b < s0.len() ==> s0[a].0.skey() != s0[b].0.skey(),
        s1.len() == s0.len(),
        forall|j: int| 0 <= j < s1.len() ==> s1[j].0 == s0[j].0,
    ensures
        forall|a: int, b: int| 0 <= a < b < s1.len() ==> s1[a].0.skey() != s1[b].0.skey(),
{
}

impl<U: ScopeDefinition> ScopedDependencyContainer<U> {
    /// Scope-agnostic lookup of `key`: walk all scopes by ascending priority
    /// rank (earliest-created first among ties) and return the first value
    /// found under `key`.  `None` when no scope holds `key`, in particular
    /// when there is no scope at all.
    pub fn resolve_key(&self, key: &TypeId) -> (r: Option<ErasedValue>)
        ensures
            match r {
                Some(e) => exists|i: int|
                    #[trigger] is_resolve_choice(self.scopes_seq(), *key, i) && e
                        == self.scopes_seq()[i].1.entries()[*key],
                None => forall|i: int| !hit(self.scopes_seq(), i, *key),
            },
    {
        let mut best: Option<ErasedValue> = None;
        let mut best_rank: u16 = 0;
        let ghost mut best_i: int = 0;
        let mut idx: usize = 0;
        while idx < self.scopes.len()
            invariant
                idx <= self.scopes_seq().len(),
                match best {
                    Some(e) => {
                        &&& 0 <= best_i < idx as int
                        &&& hit(self.scopes_seq(), best_i, *key)
                        &&& e == self.scopes_seq()[best_i].1.entries()[*key]
                        &&& best_rank as int == self.scopes_seq()[best_i].0.srank()
                        &&& forall|j: int|
                            hit(self.scopes_seq(), j, *key) && j < idx as int && j != best_i
                                ==> self.scopes_seq()[best_i].0.srank()
                                < self.scopes_seq()[j].0.srank() || (self.scopes_seq()[best_i].0.srank()
                                == self.scopes_seq()[j].0.srank() && best_i < j)
                    },
                    None => forall|j: int| 0 <= j < idx as int ==> !hit(self.scopes_seq(), j, *key),
                },
            decreases self.scopes_seq().len() - idx,
        {
            let found = self.scopes[idx].1.resolve_key(key);
            match found {
                Some(e) => {
                    let rk = self.scopes[idx].0.priority().rank_value();
                    let take = best.is_none() || rk < best_rank;
                    if take {
                        best = Some(e);
                        best_rank = rk;
                        proof {
                            best_i = idx as int;
                        }
                    }
                },
                None => {},
            }
            idx += 1;
        }
        proof {
            if best is Some {
                assert(is_resolve_choice(self.scopes_seq(), *key, best_i));
            }
        }
        best
    }

    /// The index of the scope a scope-agnostic write targets: the
    /// highest-ranked scope, latest-created among ties.  `None` exactly when
    /// there is no scope at all.
    fn find_write_target(&self) -> (r: Option<usize>)
        ensures
            match r {
                Some(i) => is_write_target(self.scopes_seq(), i as int),
                None => self.scopes_seq().len() == 0,
            },
    {
        if self.scopes.len() == 0 {
            return None;
        }
        let mut ti: usize = 0;
        let mut trank: u16 = self.scopes[0].0.priority().rank_value();
        let mut idx: usize = 1;
        while idx < self.scopes.len()
            invariant
                0 < idx <= self.scopes_seq().len(),
                ti < idx,
                trank as int == self.scopes_seq()[ti as int].0.srank(),
                forall|j: int|
                    0 <= j < idx as int && j != ti as int ==> self.scopes_seq()[j].0.srank()
                        < self.scopes_seq()[ti as int].0.srank() || (self.scopes_seq()[j].0.srank()
                        == self.scopes_seq()[ti as int].0.srank() && j < ti as int),
            decreases self.scopes_seq().len() - idx,
        {
            let rk = self.scopes[idx].0.priority().rank_value();
            if rk >= trank {
                ti = idx;
                trank = rk;
            }
            idx += 1;
        }
        Some(ti)
    }

    /// Scope-agnostic registration of `value` under `key`: swap it into the
    /// highest-ranked scope present (latest-created among ties).  `None`
    /// without any effect when there is no scope at all; otherwise the value
    /// that scope's registry held under `key` before, if any.
    pub fn register_key(&mut self, key: TypeId, value: ErasedValue) -> (prev: Option<ErasedValue>)
        ensures
            old(self).wf() ==> final(self).wf(),
            old(self).scopes_seq().len() == 0 ==> prev is None && final(self).scopes_seq() == old(
                self).scopes_seq(),
            old(self).scopes_seq().len() > 0 ==> exists|i: int|
                #[trigger] is_write_target(old(self).scopes_seq(), i),
            forall|i: int|
                is_write_target(old(self).scopes_seq(), i) ==> {
                    &&& final(self).scopes_seq().len() == old(self).scopes_seq().len()
                    &&& (forall|j: int|
                        0 <= j < old(self).scopes_seq().len() && j != i ==> final(
                            self).scopes_seq()[j] == old(self).scopes_seq()[j])
                    &&& final(self).scopes_seq()[i].0 == old(self).scopes_seq()[i].0
                    &&& final(self).scopes_seq()[i].1.entries() == old(
                        self).scopes_seq()[i].1.entries().insert(key, value)
                    &&& match prev {
                        Some(e) => old(self).scopes_seq()[i].1.entries().contains_key(key) && e
                            == old(self).scopes_seq()[i].1.entries()[key],
                        None => !old(self).scopes_seq()[i].1.entries().contains_key(key),
                    }
                },
    {
        match self.find_write_target() {
            Some(ti) => {
                proof {
                    lemma_unique_write_target(self.scopes_seq(), ti as int);
                }
                let prev = self.scopes[ti].1.register_key(key, value);
                proof {
                    if old(self).wf() {
                        lemma_wf_from_same_keys(old(self).scopes_seq(), self.scopes_seq());
                    }
                }
                prev
            },
            None => None,
        }
    }

    /// Scope-agnostic deregistration of `key`: remove it from the
    /// highest-ranked scope present (latest-created among ties).  `None`
    /// without any effect when there is no scope at all; otherwise the value
    /// that scope's registry held under `key`, if any.
    pub fn deregister_key(&mut self, key: &TypeId) -> (prev: Option<ErasedValue>)
        ensures
            old(self).wf() ==> final(self).wf(),
            old(self).scopes_seq().len() == 0 ==> prev is None && final(self).scopes_seq() == old(
                self).scopes_seq(),
            old(self).scopes_seq().len() > 0 ==> exists|i: int|
                #[trigger] is_write_target(old(self).scopes_seq(), i),
            forall|i: int|
                is_write_target(old(self).scopes_seq(), i) ==> {
                    &&& final(self).scopes_seq().len() == old(self).scopes_seq().len()
                    &&& (forall|j: int|
                        0 <= j < old(self).scopes_seq().len() && j != i ==> final(
                            self).scopes_seq()[j] == old(self).scopes_seq()[j])
                    &&& final(self).scopes_seq()[i].0 == old(self).scopes_seq()[i].0
                    &&& final(self).scopes_seq()[i].1.entries() == old(
                        self).scopes_seq()[i].1.entries().remove(*key)
                    &&& match prev {
                        Some(e) => old(self).scopes_seq()[i].1.entries().contains_key(*key) && e
                            == old(self).scopes_seq()[i].1.entries()[*key],
                        None => !old(self).scopes_seq()[i].1.entries().contains_key(*key),
                    }
                },
    {
        match self.find_write_target() {
            Some(ti) => {
                proof {
                    lemma_unique_write_target(self.scopes_seq(), ti as int);
                }
                let prev = self.scopes[ti].1.deregister_key(key);
                proof {
                    if old(self).wf() {
                        lemma_wf_from_same_keys(old(self).scopes_seq(), self.scopes_seq());
                    }
                }
                prev
            },
            None => None,
        }
    }
}

impl<U: ScopeDefinition> ScopedDependencyContainer<U> {
    /// Insert-if-absent, building the registry with `container_fn` (the
    /// factory's output is discarded when the scope already exists).
    /// Returns the registry that ends up associated with the scope.
    pub fn create_scope_with_factory<F: Fn() -> DashmapDependencyContainer>(
        &mut self,
        scope: SystemScope<U>,
        container_fn: F,
    ) -> (r: &DashmapDependencyContainer)
        requires
            old(self).wf(),
            call_requires(container_fn, ()),
        ensures
            final(self).wf(),
            has_scope_key(old(self).scopes_seq(), scope.skey()) ==> final(self).scopes_seq()
                == old(self).scopes_seq(),
            !has_scope_key(old(self).scopes_seq(), scope.skey()) ==> exists|
                c0: DashmapDependencyContainer,
            |
                call_ensures(container_fn, (), c0) && final(self).scopes_seq() =~= old(
                    self).scopes_seq().push((scope, c0)),
            exists|i: int|
                scope_at(final(self).scopes_seq(), i, scope.skey()) && *r == final(
                    self).scopes_seq()[i].1,
    {
        let c0 = container_fn();
        self.create_scope(scope, c0)
    }

    /// Register `key` in the registry of `scope`, creating the scope with an
    /// empty registry first when it is absent.  Never refuses for lack of
    /// the scope; the result is the value the scope's registry held under
    /// `key` before, if any.
    pub fn register_entry_with_default_scope(
        &mut self,
        scope: SystemScope<U>,
        key: TypeId,
        value: ErasedValue,
    ) -> (prev: Option<ErasedValue>)
        requires
            old(self).wf(),
        ensures
            final(self).wf(),
            !has_scope_key(old(self).scopes_seq(), scope.skey()) ==> {
                &&& prev is None
                &&& final(self).scopes_seq().len() == old(self).scopes_seq().len() + 1
                &&& (forall|j: int|
                    0 <= j < old(self).scopes_seq().len() ==> final(self).scopes_seq()[j] == old(
                        self).scopes_seq()[j])
                &&& final(self).scopes_seq().last().0 == scope
                &&& (forall|k2: TypeId|
                    #[trigger] final(self).scopes_seq().last().1.entries().contains_key(k2) <==> k2
                        == key)
                &&& final(self).scopes_seq().last().1.entries()[key] == value
            },
            forall|i: int|
                scope_at(old(self).scopes_seq(), i, scope.skey()) ==> {
                    &&& final(self).scopes_seq().len() == old(self).scopes_seq().len()
                    &&& (forall|j: int|
                        0 <= j < old(self).scopes_seq().len() && j != i ==> final(
                            self).scopes_seq()[j] == old(self).scopes_seq()[j])
                    &&& final(self).scopes_seq()[i].0 == old(self).scopes_seq()[i].0
                    &&& final(self).scopes_seq()[i].1.entries() == old(
                        self).scopes_seq()[i].1.entries().insert(key, value)
                    &&& match prev {
                        Some(e) => old(self).scopes_seq()[i].1.entries().contains_key(key) && e
                            == old(self).scopes_seq()[i].1.entries()[key],
                        None => !old(self).scopes_seq()[i].1.entries().contains_key(key),
                    }
                },
    {
        match self.find_scope_index(&scope) {
            Some(i) => {
                proof {
                    lemma_unique_scope_at(self.scopes_seq(), scope.skey(), i as int);
                }
                let prev = self.scopes[i].1.register_key(key, value);
                proof {
                    lemma_wf_from_same_keys(old(self).scopes_seq(), self.scopes_seq());
                }
                prev
            },
            None => {
                let mut fresh = DashmapDependencyContainer::new();
                let prev = fresh.register_key(key, value);
                self.scopes.push((scope, fresh));
                proof {
                    let n = self.scopes@.len();
                    assert forall|a: int, b: int|
                        0 <= a < b < self.scopes@.len() implies self.scopes@[a].0.skey()
                        != self.scopes@[b].0.skey() by {
                        if b == n - 1 {
                            assert(!scope_at(old(self).scopes_seq(), a, scope.skey()));
                        }
                    }
                }
                prev
            },
        }
    }

    /// Typed form of [`Self::register_entry_with_default_scope`]: register
    /// `dependency` under its own type in `scope`, creating the scope first
    /// when it is absent.
    pub fn register_with_default_scope<T: Send + Sync + 'static>(
        &mut self,
        scope: SystemScope<U>,
        dependency: T,
    ) -> (prev: Option<Arc<T>>)
        requires
            old(self).wf(),
        ensures
            final(self).wf(),
            has_scope_key(old(self).scopes_seq(), scope.skey()) ==> {
                &&& final(self).scopes_seq().len() == old(self).scopes_seq().len()
                &&& (forall|j: int|
                    0 <= j < old(self).scopes_seq().len() ==> final(self).scopes_seq()[j].0 == old(
                        self).scopes_seq()[j].0)
            },
            !has_scope_key(old(self).scopes_seq(), scope.skey()) ==> {
                &&& prev is None
                &&& final(self).scopes_seq().len() == old(self).scopes_seq().len() + 1
                &&& (forall|j: int|
                    0 <= j < old(self).scopes_seq().len() ==> final(self).scopes_seq()[j] == old(
                        self).scopes_seq()[j])
                &&& final(self).scopes_seq().last().0 == scope
            },
    {
        let key = key_of::<T>();
        let erased = erase::<T>(dependency);
        match self.register_entry_with_default_scope(scope, key, erased) {
            Some(e) => downcast::<T>(e),
            None => None,
        }
    }

    /// Register `dependency` under its own type in the registry of `scope`.
    /// `None` without any effect when the scope does not exist — this layer
    /// never inserts into any other scope — and also when the scope held no
    /// prior value of the type.
    pub fn register_with_scope<T: Send + Sync + 'static>(
        &mut self,
        dependency: T,
        scope: SystemScope<U>,
    ) -> (prev: Option<Arc<T>>)
        requires
            old(self).wf(),
        ensures
            final(self).wf(),
            !has_scope_key(old(self).scopes_seq(), scope.skey()) ==> prev is None && final(
                self).scopes_seq() == old(self).scopes_seq(),
            final(self).scopes_seq().len() == old(self).scopes_seq().len(),
            forall|j: int|
                0 <= j < old(self).scopes_seq().len() ==> final(self).scopes_seq()[j].0 == old(
                    self).scopes_seq()[j].0,
    {
        let key = key_of::<T>();
        let erased = erase::<T>(dependency);
        match self.register_entry_with_scope(key, erased, &scope) {
            Some(e) => downcast::<T>(e),
            None => None,
        }
    }

    /// Register `dependency` under its own type in the registry of `scope`,
    /// creating the scope with `container_fn` first when it is absent.
    pub fn register_with_scope_factory<
        T: Send + Sync + 'static,
        F: Fn() -> DashmapDependencyContainer,
    >(
        &mut self,
        dependency: T,
        scope: SystemScope<U>,
        container_fn: F,
    ) -> (prev: Option<Arc<T>>)
        requires
            old(self).wf(),
            call_requires(container_fn, ()),
        ensures
            final(self).wf(),
            has_scope_key(old(self).scopes_seq(), scope.skey()) ==> {
                &&& final(self).scopes_seq().len() == old(self).scopes_seq().len()
                &&& (forall|j: int|
                    0 <= j < old(self).scopes_seq().len() ==> final(self).scopes_seq()[j].0 == old(
                        self).scopes_seq()[j].0)
            },
            !has_scope_key(old(self).scopes_seq(), scope.skey()) ==> {
                &&& final(self).scopes_seq().len() == old(self).scopes_seq().len() + 1
                &&& (forall|j: int|
                    0 <= j < old(self).scopes_seq().len() ==> final(self).scopes_seq()[j] == old(
                        self).scopes_seq()[j])
                &&& final(self).scopes_seq().last().0 == scope
            },
    {
        let key = key_of::<T>();
        let erased = erase::<T>(dependency);
        match self.find_scope_index(&scope) {
            Some(i) => {
                proof {
                    lemma_unique_scope_at(self.scopes_seq(), scope.skey(), i as int);
                }
                let prev = self.scopes[i].1.register_key(key, erased);
                proof {
                    lemma_wf_from_same_keys(old(self).scopes_seq(), self.scopes_seq());
                }
                match prev {
                    Some(e) => downcast::<T>(e),
                    None => None,
                }
            },
            None => {
                let mut fresh = container_fn();
                let prev = fresh.register_key(key, erased);
                self.scopes.push((scope, fresh));
                proof {
                    let n = self.scopes@.len();
                    assert forall|a: int, b: int|
                        0 <= a < b < self.scopes@.len() implies self.scopes@[a].0.skey()
                        != self.scopes@[b].0.skey() by {
                        if b == n - 1 {
                            assert(!scope_at(old(self).scopes_seq(), a, scope.skey()));
                        }
                    }
                }
                match prev {
                    Some(e) => downcast::<T>(e),
                    None => None,
                }
            },
        }
    }

    /// Look up a value of type `T` in the registry of `scope`.  `None` both
    /// when the scope does not exist and when it holds no value of the type.
    pub fn resolve_from_scope<T: Send + Sync + 'static>(&self, scope: &SystemScope<U>) -> (r:
        Option<Arc<T>>)
        requires
            self.wf(),
        ensures
            !has_scope_key(self.scopes_seq(), scope.skey()) ==> r is None,
    {
        let key = key_of::<T>();
        match self.resolve_key_from_scope(&key, scope) {
            Some(e) => downcast::<T>(e),
            None => None,
        }
    }

    /// Remove the value of type `T` from the registry of `scope` and return
    /// it.  `None` without any effect when the scope does not exist.
    pub fn deregister_from_scope<T: Send + Sync + 'static>(&mut self, scope: &SystemScope<U>) -> (
        prev: Option<Arc<T>>)
        requires
            old(self).wf(),
        ensures
            final(self).wf(),
            !has_scope_key(old(self).scopes_seq(), scope.skey()) ==> prev is None && final(
                self).scopes_seq() == old(self).scopes_seq(),
            final(self).scopes_seq().len() == old(self).scopes_seq().len(),
            forall|j: int|
                0 <= j < old(self).scopes_seq().len() ==> final(self).scopes_seq()[j].0 == old(
                    self).scopes_seq()[j].0,
    {
        let key = key_of::<T>();
        match self.deregister_key_from_scope(&key, scope) {
            Some(e) => downcast::<T>(e),
            None => None,
        }
    }
}

impl<U: ScopeDefinition> DependencyContainer for ScopedDependencyContainer<U> {
    /// With no scope at all, every scope-agnostic operation is a no-op.
    open spec fn empty_store(&self) -> bool {
        self.scopes_seq().len() == 0
    }

    fn resolve<T: Send + Sync + 'static>(&self) -> (r: Option<Arc<T>>) {
        let key = key_of::<T>();
        match self.resolve_key(&key) {
            Some(e) => downcast::<T>(e),
            None => None,
        }
    }

    fn register<T: Send + Sync + 'static>(&mut self, dependency: T) -> (prev: Option<Arc<T>>)
        ensures
            final(self).scopes_seq().len() == old(self).scopes_seq().len(),
            old(self).wf() ==> final(self).wf(),
    {
        let key = key_of::<T>();
        let erased = erase::<T>(dependency);
        match self.register_key(key, erased) {
            Some(e) => downcast::<T>(e),
            None => None,
        }
    }

    fn deregister<T: Send + Sync + 'static>(&mut self) -> (prev: Option<Arc<T>>)
        ensures
            final(self).scopes_seq().len() == old(self).scopes_seq().len(),
            old(self).wf() ==> final(self).wf(),
    {
        let key = key_of::<T>();
        match self.deregister_key(&key) {
            Some(e) => downcast::<T>(e),
            None => None,
        }
    }
}

/// A sequence of entries has at most one write target.
proof fn lemma_unique_write_target<U: ScopeDefinition>(s: Seq<ScopeEntry<U>>, i: int)
    requires
        is_write_target(s, i),
    ensures
        forall|j: int| is_write_target(s, j) ==> j == i,
{
    assert forall|j: int| is_write_target(s, j) implies j == i by {
        if j != i {
            assert(s[j].0.srank() < s[i].0.srank() || (s[j].0.srank() == s[i].0.srank() && j < i));
            assert(s[i].0.srank() < s[j].0.srank() || (s[i].0.srank() == s[j].0.srank() && i < j));
        }
    }
}

} // verus!
