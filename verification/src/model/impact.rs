use vstd::prelude::*;

verus! {

/// What a shot did: nothing, or a hit that leaves the target changed.
#[derive(Debug, Clone, Copy, PartialEq, Eq)]
pub enum Impact<T> {
    Miss,
    Hit(T),
}

} // verus!
