use vstd::prelude::*;

verus! {

/// A route path: anything with a canonical string form, used as the lookup
/// key of a route table.
pub trait RoutePath: Sized {
    /// The canonical string form, as a sequence of characters.
    spec fn repr_spec(&self) -> Seq<char>;

    /// The canonical string form.
    fn string_repr(&self) -> (r: String)
        ensures
            r@ == self.repr_spec(),
    ;

    /// A copy with the same canonical form.
    fn clone_path(&self) -> (r: Self)
        ensures
            r.repr_spec() == self.repr_spec(),
    ;
}

impl RoutePath for String {
    open spec fn repr_spec(&self) -> Seq<char> {
        self@
    }

    fn string_repr(&self) -> (r: String) {
        self.clone()
    }

    fn clone_path(&self) -> (r: Self) {
        self.clone()
    }
}

impl<'a> RoutePath for &'a str {
    open spec fn repr_spec(&self) -> Seq<char> {
        self@
    }

    fn string_repr(&self) -> (r: String) {
        (*self).to_owned()
    }

    fn clone_path(&self) -> (r: Self) {
        *self
    }
}

} // verus!
