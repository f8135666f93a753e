//! The phases of a pool's life.

use vstd::prelude::*;

verus! {

/// The phases a pool moves through, in this order and never backwards.
#[derive(Clone, Copy, Debug, PartialEq, Eq, Structural)]
pub enum PoolState {
    /// Being built: the workers are not yet all in place.
    Created,
    /// Taking submissions and handing out jobs.
    Running,
    /// No longer taking submissions; the workers are being told to stop and joined.
    ShuttingDown,
    /// Every worker has been joined. Final.
    Stopped,
}

impl PoolState {
    /// Position of the phase in the lifecycle.
    pub open spec fn rank(self) -> nat {
        match self {
            PoolState::Created => 0,
            PoolState::Running => 1,
            PoolState::ShuttingDown => 2,
            PoolState::Stopped => 3,
        }
    }

    /// The dispatch queue still has a sending side: more messages may come.
    pub open spec fn is_open(self) -> bool {
        self is Created || self is Running
    }

    /// Whether submissions are taken in this phase.
    pub fn accepts_work(self) -> (b: bool)
        ensures
            b == (self is Running),
    {
        self == PoolState::Running
    }
}

} // verus!
