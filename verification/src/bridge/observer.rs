//! Naming what crosses the bridge, for whoever watches it.

use vstd::prelude::*;

verus! {

/// Which way a frame travelled, from the simulator's point of view.
#[derive(Debug, Clone, Copy, PartialEq, Eq, Structural)]
pub enum FrameDirection {
    /// Into the simulator: sent by whatever is at the far end of the link.
    Received,
    /// Out of the simulator: an ECU answering.
    Sent,
}

impl FrameDirection {
    /// What a direction is called.
    pub open spec fn name(self) -> Seq<char> {
        match self {
            FrameDirection::Received => "rx"@,
            FrameDirection::Sent => "tx"@,
        }
    }

    /// A short name for a log or a wire format.
    pub fn Name(self) -> (strName: &'static str)
        ensures
            strName@ == self.name(),
    {
        match self {
            FrameDirection::Received => "rx",
            FrameDirection::Sent => "tx",
        }
    }
}

} // verus!
