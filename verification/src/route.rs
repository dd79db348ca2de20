use vstd::prelude::*;

verus! {

use core::marker::PhantomData;
use crate::handler::Handler;
use crate::path::RoutePath;

/// A route: a path under which the route is reachable, together with the
/// handler run when the route is dispatched.
pub struct Route<P, O, C, H> where P: RoutePath {
    pub path: P,
    handler: H,
    _o: PhantomData<O>,
    _c: PhantomData<C>,
}

impl<P, O, C, H> Route<P, O, C, H> where P: RoutePath, H: Handler<O, C> {
    /// The route's handler.
    pub closed spec fn handler_spec(&self) -> H {
        self.handler
    }

    /// The route's path.
    pub closed spec fn path_spec(&self) -> P {
        self.path
    }

    /// Build a route from a path and a handler.
    pub fn new(path: P, handler: H) -> (r: Route<P, O, C, H>)
        ensures
            r.path_spec() == path,
            r.handler_spec() == handler,
    {
        Route { path, handler, _o: PhantomData, _c: PhantomData }
    }

    /// Run the route's handler on `container`.
    pub fn handle(&self, container: C) -> (o: O)
        requires
            self.handler_spec().handle_req(container),
        ensures
            self.handler_spec().handle_ens(container, o),
    {
        self.handler.handle(container)
    }
}

impl<P, O, C, H> Clone for Route<P, O, C, H> where P: RoutePath, H: Clone {
    /// A route sharing the same handler, under a path with the same
    /// canonical form.
    fn clone(&self) -> (r: Self) {
        Route {
            path: self.path.clone_path(),
            handler: self.handler.clone(),
            _o: PhantomData,
            _c: PhantomData,
        }
    }
}

} // verus!
