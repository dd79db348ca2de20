//! A type-indexed dependency registry organized into priority-ordered scopes.
//!
//! Values are stored by their concrete type and looked up the same way, so a
//! lookup can never yield a value of the wrong type.  Scopes partition the
//! store: each scope has a priority rank, lower-ranked (more local) scopes
//! shadow higher-ranked (more global) ones during scope-agnostic resolution,
//! while a scope-agnostic registration targets the highest-ranked scope.

pub mod container;
pub mod definition;
pub mod laws;
pub mod handler;
pub mod path;
pub mod priority;
pub mod route;
pub mod scoped;
pub mod storage;
pub mod store;
pub mod system;
