use vstd::prelude::*;

verus! {

/// Where a player stands in the course of a game.
#[derive(Debug, Clone, Copy, PartialEq, Eq, Structural)]
pub enum Status {
    Requested,
    Ready,
    Preparing,
    Idle,
    Due,
    Defeated,
}

impl Default for Status {
    /// A player starts out as having asked to join.
    fn default() -> (s: Status)
        ensures
            s == Status::Requested,
    {
        Status::Requested
    }
}

} // verus!
