//! The item that flows through the buffer.

use vstd::prelude::*;

verus! {

/// One publication. The buffer never looks inside it.
#[derive(Debug)]
pub struct Publication {
    pub id: usize,
}

impl Clone for Publication {
    fn clone(&self) -> (copy: Self)
        ensures
            copy == *self,
    {
        Publication { id: self.id }
    }
}

} // verus!
