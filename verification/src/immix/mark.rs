use vstd::prelude::*;

verus! {

#[derive(Debug, Clone, Copy, PartialEq, Eq, Structural)]
pub enum Mark {
    Unmarked,
    Allocated,
    Marked,
}

} // verus!
