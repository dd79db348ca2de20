use vstd::prelude::*;

verus! {

/// A route handler: a callback taking a dependency container and producing
/// the route's output.  Implemented by every suitable closure.
pub trait Handler<O, C>: Sized {
    /// What must hold of `container` for the handler to accept the call.
    spec fn handle_req(&self, container: C) -> bool;

    /// The handler's possible input-output pairs.
    spec fn handle_ens(&self, container: C, output: O) -> bool;

    /// Run the handler on `container`.
    fn handle(&self, container: C) -> (o: O)
        requires
            self.handle_req(container),
        ensures
            self.handle_ens(container, o),
    ;
}

impl<F: Fn(C) -> O, O, C> Handler<O, C> for F {
    open spec fn handle_req(&self, container: C) -> bool {
        call_requires(*self, (container,))
    }

    open spec fn handle_ens(&self, container: C, output: O) -> bool {
        call_ensures(*self, (container,), output)
    }

    fn handle(&self, container: C) -> (o: O) {
        (self)(container)
    }
}

} // verus!
