use vstd::prelude::*;

verus! {

/// An opaque, copyable handle wrapping a linear index into a grid's backing
/// storage.  A handle carries no width or height information: it is
/// meaningful only relative to the grid that produced it, and no bounds are
/// checked at construction.
#[derive(Debug, Clone, Copy, PartialEq, Eq, Structural)]
pub struct GridPos {
    pos: usize,
}

impl GridPos {
    /// The linear index this handle wraps.
    pub closed spec fn index(self) -> int {
        self.pos as int
    }

    /// Wraps a raw linear index.  Bounds are checked only when the handle is
    /// used against a specific grid.
    pub fn new(pos: usize) -> (p: GridPos)
        ensures
            p.index() == pos,
    {
        GridPos { pos }
    }

    /// Returns the wrapped linear index.
    pub fn value(self) -> (i: usize)
        ensures
            i == self.index(),
    {
        self.pos
    }
}

/// Handles compare by value: two handles are equal exactly when their
/// linear indices are equal.
pub proof fn lemma_pos_eq(a: GridPos, b: GridPos)
    ensures
        a == b <==> a.index() == b.index(),
{
}

} // verus!
