//! Naming what crosses the Ethernet wire, for whoever watches it.

use vstd::prelude::*;

verus! {

/// Which way a message travelled, from the entity's point of view.
#[derive(Debug, Clone, Copy, PartialEq, Eq, Structural)]
pub enum DoIpDirection {
    /// The entity received it.
    Received,
    /// The entity sent it.
    Sent,
}

impl DoIpDirection {
    /// What a direction is called.
    pub open spec fn name(self) -> Seq<char> {
        match self {
            DoIpDirection::Received => "rx"@,
            DoIpDirection::Sent => "tx"@,
        }
    }

    /// A short name for a log or a wire format.
    pub fn Name(self) -> (strName: &'static str)
        ensures
            strName@ == self.name(),
    {
        match self {
            DoIpDirection::Received => "rx",
            DoIpDirection::Sent => "tx",
        }
    }
}

} // verus!
