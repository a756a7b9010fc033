use vstd::prelude::*;

verus! {

/// Zero-based position of a record within one node's log.
#[derive(Debug, Clone, Copy, PartialEq, Eq, Structural, PartialOrd, Ord, Hash, Default)]
pub struct Offset(pub usize);

impl Offset {
    pub fn new(value: usize) -> (r: Offset)
        ensures
            r.0 == value,
    {
        Offset(value)
    }
}

} // verus!
