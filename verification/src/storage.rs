use vstd::prelude::*;

verus! {

use std::collections::HashMap;
use crate::handler::Handler;
use crate::path::RoutePath;
use crate::route::Route;

/// A route table: add a route under its path, look a route up by path.
pub trait RouteStorage<P, O, C, H> where P: RoutePath, H: Handler<O, C> {
    /// Store `handler` under `path`, replacing any route stored there.
    fn add_route(&mut self, path: P, handler: H);

    /// The route stored under `path`, if any.
    fn match_route(&self, path: P) -> Option<Route<P, O, C, H>>;
}

/// A flat route table keyed by the path's canonical string form.
pub struct HashMapStorage<P, O, C, H> where P: RoutePath {
    routes: HashMap<String, Route<P, O, C, H>>,
}

impl<P, O, C, H> HashMapStorage<P, O, C, H> where P: RoutePath, H: Handler<O, C> {
    /// An empty route table.
    pub fn new() -> (r: Self) {
        HashMapStorage { routes: HashMap::new() }
    }
}

impl<P, O, C, H> Default for HashMapStorage<P, O, C, H> where P: RoutePath, H: Handler<O, C> {
    fn default() -> (r: Self) {
        Self::new()
    }
}

impl<P, O, C, H> RouteStorage<P, O, C, H> for HashMapStorage<P, O, C, H> where
    P: RoutePath,
    H: Handler<O, C> + Clone,
 {
    fn add_route(&mut self, path: P, handler: H) {
        let key = path.string_repr();
        self.routes.insert(key, Route::new(path, handler));
    }

    fn match_route(&self, path: P) -> Option<Route<P, O, C, H>> {
        let key = path.string_repr();
        match self.routes.get(&key) {
            Some(r) => Some(r.clone()),
            None => None,
        }
    }
}

} // verus!
