use vstd::prelude::*;

verus! {

use core::any::Any;
use core::any::TypeId;
use std::sync::Arc;
use dashmap::DashMap;

/// Declares `core::any::TypeId`, the key of the store: an opaque token whose
/// equality is exact concrete-type equality.
#[verifier::external_type_specification]
#[verifier::external_body]
pub struct ExTypeId(TypeId);

/// A type-erased, shared-ownership container for one registered value.
///
/// The wrapped `Arc` is what the registry, every outstanding resolve handle
/// and every value returned from a deregistration share; the underlying value
/// is destroyed exactly when the last of them is dropped.  Verus treats the
/// value as opaque: two `ErasedValue`s are equal when they share the same
/// underlying allocation.
#[verifier::external_body]
pub struct ErasedValue {
    inner: Arc<dyn Any + Send + Sync>,
}

/// The entries of a store, keyed by the identity of the stored type.
pub uninterp spec fn store_entries(c: DashmapDependencyContainer) -> Map<TypeId, ErasedValue>;

/// A concurrent store mapping a type identity to one type-erased value,
/// backed by `dashmap::DashMap`.
#[verifier::external_body]
pub struct DashmapDependencyContainer {
    dashmap: DashMap<TypeId, Arc<dyn Any + Send + Sync>>,
}

/// Relies on `DashMap::new`: a freshly created map holds no entries.
#[verifier::external_body]
fn store_new() -> (c: DashmapDependencyContainer)
    ensures
        forall|k: TypeId| !store_entries(c).contains_key(k),
{
    DashmapDependencyContainer { dashmap: DashMap::new() }
}

/// Relies on `DashMap::get` and `Arc::clone`: yields the value stored under
/// the key, if any, as a new shared reference to the same allocation.
#[verifier::external_body]
fn store_get(c: &DashmapDependencyContainer, key: &TypeId) -> (r: Option<ErasedValue>)
    ensures
        match r {
            Some(e) => store_entries(*c).contains_key(*key) && e == store_entries(*c)[*key],
            None => !store_entries(*c).contains_key(*key),
        },
{
    c.dashmap.get(key).map(|v| ErasedValue { inner: Arc::clone(&*v) })
}

/// Relies on `DashMap::insert`: maps the key to the value and returns the
/// value previously stored under the key, if there was one.
#[verifier::external_body]
fn store_insert(c: &mut DashmapDependencyContainer, key: TypeId, value: ErasedValue) -> (prev:
    Option<ErasedValue>)
    ensures
        store_entries(*final(c)) == store_entries(*old(c)).insert(key, value),
        match prev {
            Some(e) => store_entries(*old(c)).contains_key(key) && e == store_entries(*old(c))[key],
            None => !store_entries(*old(c)).contains_key(key),
        },
{
    c.dashmap.insert(key, value.inner).map(|v| ErasedValue { inner: v })
}

/// Relies on `DashMap::remove`: deletes the entry stored under the key and
/// returns its value, if there was one.
#[verifier::external_body]
fn store_remove(c: &mut DashmapDependencyContainer, key: &TypeId) -> (prev: Option<ErasedValue>)
    ensures
        store_entries(*final(c)) == store_entries(*old(c)).remove(*key),
        match prev {
            Some(e) => store_entries(*old(c)).contains_key(*key) && e == store_entries(
                *old(c),
            )[*key],
            None => !store_entries(*old(c)).contains_key(*key),
        },
{
    c.dashmap.remove(key).map(|kv| ErasedValue { inner: kv.1 })
}

/// Relies on `TypeId::of`: the runtime identity token of the type `T`.
#[verifier::external_body]
pub(crate) fn key_of<T: Send + Sync + 'static>() -> (k: TypeId) {
    TypeId::of::<T>()
}

/// Relies on `Arc::new`: wraps one value into a fresh shared type-erased
/// container.
#[verifier::external_body]
pub(crate) fn erase<T: Send + Sync + 'static>(value: T) -> (e: ErasedValue) {
    ErasedValue { inner: Arc::new(value) }
}

/// Relies on `Arc::downcast`: recovers a shared handle to the concrete value
/// when the erased container holds exactly the type `T`, and yields nothing
/// otherwise.
#[verifier::external_body]
pub(crate) fn downcast<T: Send + Sync + 'static>(e: ErasedValue) -> (r: Option<Arc<T>>) {
    e.inner.downcast::<T>().ok()
}

impl DashmapDependencyContainer {
    /// The entries currently stored, keyed by type identity.  At most one
    /// value is stored per type identity at any instant.
    pub open spec fn entries(&self) -> Map<TypeId, ErasedValue> {
        store_entries(*self)
    }

    /// Create an empty store.
    pub fn new() -> (c: Self)
        ensures
            c.entries() == Map::<TypeId, ErasedValue>::empty(),
    {
        store_new()
    }

    /// Look up the value stored under `key`; the store is unchanged.
    pub fn resolve_key(&self, key: &TypeId) -> (r: Option<ErasedValue>)
        ensures
            match r {
                Some(e) => self.entries().contains_key(*key) && e == self.entries()[*key],
                None => !self.entries().contains_key(*key),
            },
    {
        store_get(self, key)
    }

    /// Atomically swap `value` into the store under `key`, returning the
    /// value the key held before, if any.
    pub fn register_key(&mut self, key: TypeId, value: ErasedValue) -> (prev: Option<ErasedValue>)
        ensures
            final(self).entries() == old(self).entries().insert(key, value),
            match prev {
                Some(e) => old(self).entries().contains_key(key) && e == old(self).entries()[key],
                None => !old(self).entries().contains_key(key),
            },
    {
        store_insert(self, key, value)
    }

    /// Atomically remove the entry stored under `key`, returning its value if
    /// there was one.
    pub fn deregister_key(&mut self, key: &TypeId) -> (prev: Option<ErasedValue>)
        ensures
            final(self).entries() == old(self).entries().remove(*key),
            match prev {
                Some(e) => old(self).entries().contains_key(*key) && e == old(
                    self,
                ).entries()[*key],
                None => !old(self).entries().contains_key(*key),
            },
    {
        store_remove(self, key)
    }
}

impl Default for DashmapDependencyContainer {
    fn default() -> (c: Self)
        ensures
            c.entries() == Map::<TypeId, ErasedValue>::empty(),
    {
        Self::new()
    }
}

} // verus!
