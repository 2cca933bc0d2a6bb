use vstd::prelude::*;

verus! {

/// A zero-based position in the source text (rendered one-based for people).
#[derive(Clone, Copy, Debug, PartialEq, Eq, Structural)]
pub struct Location {
    pub row: usize,
    pub column: usize,
}

/// A node paired with the location of its first token.
#[derive(Debug)]
pub struct Located<T> {
    pub node: T,
    pub location: Location,
}

/// Attaching a location to a node.
pub trait LocatedExt: Sized {
    fn at(self, location: Location) -> (r: Located<Self>)
        ensures
            r.node == self,
            r.location == location,
    ;
}

} // verus!
