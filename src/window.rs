use vstd::prelude::*;

verus! {

/// Opaque identifier of a managed window.
#[derive(Debug, Clone, Copy, PartialEq, Eq, Hash, Structural)]
pub struct WindowId(pub u64);

/// Hands out window identifiers in increasing order, so none is given twice.
#[derive(Debug)]
pub struct IdArena {
    next: u64,
}

impl IdArena {
    /// The identifier that the next allocation returns.
    pub closed spec fn next_id(&self) -> u64 {
        self.next
    }

    pub fn new() -> (r: IdArena)
        ensures
            r.next_id() == 0,
    {
        IdArena { next: 0 }
    }

    /// Returns a fresh identifier: greater than every one handed out before.
    pub fn fresh(&mut self) -> (r: Option<WindowId>)
        ensures
            old(self).next_id() < u64::MAX ==> r == Some(WindowId(old(self).next_id()))
                && final(self).next_id() == old(self).next_id() + 1,
            old(self).next_id() == u64::MAX ==> r is None && final(self).next_id()
                == old(self).next_id(),
    {
        if self.next == u64::MAX {
            None
        } else {
            let id = WindowId(self.next);
            self.next = self.next + 1;
            Some(id)
        }
    }
}

} // verus!
