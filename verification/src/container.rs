use vstd::prelude::*;

verus! {

use std::sync::Arc;
use crate::store::DashmapDependencyContainer;
use crate::store::downcast;
use crate::store::erase;
use crate::store::key_of;

/// The capability set of a type-indexed store: look a value up by its type,
/// swap a value in by its type, remove a value by its type.
///
/// Absence is always an answer, never an error: every operation returns
/// `None` when no value of the requested type is present, and a container
/// that holds nothing at all answers every request with `None`.
pub trait DependencyContainer: Sized {
    /// True when the container can currently satisfy no request.
    spec fn empty_store(&self) -> bool;

    /// Look up the value registered for the type `T`, as a shared handle.
    fn resolve<T: Send + Sync + 'static>(&self) -> (r: Option<Arc<T>>)
        ensures
            self.empty_store() ==> r is None,
    ;

    /// Register `dependency` under the type `T`, returning the value the
    /// type was mapped to before, if there was one.
    fn register<T: Send + Sync + 'static>(&mut self, dependency: T) -> (prev: Option<Arc<T>>)
        ensures
            old(self).empty_store() ==> prev is None,
    ;

    /// Remove the value registered for the type `T` and return it.
    fn deregister<T: Send + Sync + 'static>(&mut self) -> (prev: Option<Arc<T>>)
        ensures
            old(self).empty_store() ==> prev is None,
    ;

    /// Register the default value of `T`, for types with a defined
    /// default-construction rule.
    fn register_default<T: Send + Sync + 'static + Default>(&mut self) -> (prev: Option<Arc<T>>)
        ensures
            old(self).empty_store() ==> prev is None,
    {
        let value = T::default();
        self.register(value)
    }
}

impl DependencyContainer for DashmapDependencyContainer {
    /// The store satisfies no request exactly when it holds no entry.
    open spec fn empty_store(&self) -> bool {
        forall|k: core::any::TypeId| !(#[trigger] self.entries().contains_key(k))
    }

    fn resolve<T: Send + Sync + 'static>(&self) -> (r: Option<Arc<T>>) {
        let key = key_of::<T>();
        match self.resolve_key(&key) {
            Some(e) => downcast::<T>(e),
            None => None,
        }
    }

    fn register<T: Send + Sync + 'static>(&mut self, dependency: T) -> (prev: Option<Arc<T>>)
        ensures
            exists|k: core::any::TypeId, e: crate::store::ErasedValue|
                final(self).entries() == old(self).entries().insert(k, e),
    {
        let key = key_of::<T>();
        let erased = erase::<T>(dependency);
        match self.register_key(key, erased) {
            Some(e) => downcast::<T>(e),
            None => None,
        }
    }

    fn deregister<T: Send + Sync + 'static>(&mut self) -> (prev: Option<Arc<T>>)
        ensures
            exists|k: core::any::TypeId|
                final(self).entries() == old(self).entries().remove(k),
    {
        let key = key_of::<T>();
        match self.deregister_key(&key) {
            Some(e) => downcast::<T>(e),
            None => None,
        }
    }
}

} // verus!
