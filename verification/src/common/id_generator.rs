use vstd::prelude::*;

verus! {

/// Hands out consecutive request ids, starting at -1.
pub struct IDGenerator {
    i: i32,
}

impl View for IDGenerator {
    type V = int;

    /// The id that the next call of `next` returns.
    closed spec fn view(&self) -> int {
        self.i as int
    }
}

impl IDGenerator {
    pub fn new() -> (g: IDGenerator)
        ensures
            g@ == -1,
    {
        IDGenerator { i: -1 }
    }

    /// Whether `next` can be called without overflowing.
    pub fn has_next(&self) -> (b: bool)
        ensures
            b == (self@ < i32::MAX),
    {
        self.i < i32::MAX
    }

    /// Returns the current id and moves to the next one.
    pub fn next(&mut self) -> (id: i32)
        requires
            old(self)@ < i32::MAX,
        ensures
            id == old(self)@,
            final(self)@ == old(self)@ + 1,
    {
        let res = self.i;
        self.i = self.i + 1;
        res
    }
}

} // verus!
