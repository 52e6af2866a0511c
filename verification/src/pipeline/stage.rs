//! What the three stages of the pipeline have in common: the states a stage
//! passes through, and the ways in which a frame can fail.

use vstd::prelude::*;

verus! {

/// Where a stage stands in its life. A stage starts out running, drains
/// once the stage before it has closed while work is still at hand, and ends
/// closed. It never goes back.
#[derive(Clone, Copy, Debug, PartialEq, Eq, Structural)]
pub enum StageState {
    /// The stage takes in work.
    Running,
    /// The stage before has closed; this one finishes what it holds.
    Draining,
    /// The stage has ended.
    Closed,
}

impl StageState {
    /// How far along its life a stage is.
    pub open spec fn rank(self) -> nat {
        match self {
            StageState::Running => 0,
            StageState::Draining => 1,
            StageState::Closed => 2,
        }
    }

    /// A stage in this state may later be found in state `later`.
    pub open spec fn leads_to(self, later: StageState) -> bool {
        self.rank() <= later.rank()
    }
}

/// Why a frame failed. A frame that fails leaves no picture behind.
#[derive(Clone, Copy, Debug, PartialEq, Eq, Structural)]
pub enum FrameError {
    /// The compute backend reported that a dispatch failed.
    Backend,
    /// The compute backend returned another number of rays than the tile
    /// that was dispatched to it holds.
    ResultLength,
    /// A result names a pixel outside the raster.
    PixelOutsideRaster,
    /// A tile that is not full holds more rays than a strip of one row can
    /// be dispatched with.
    TileTooLong,
    /// A stage was told of something that cannot happen in the state it is
    /// in.
    Protocol,
}

} // verus!
