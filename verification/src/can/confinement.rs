//! Fault confinement: how a CAN node reacts to errors, and when it stops talking.
//!
//! Every node keeps two error counters and is in one of three states derived from them. The
//! states change what the node is allowed to put on the wire, and the last of them takes it off
//! the bus entirely. This is a model of the state machine: the errors are injected by an operator
//! rather than detected on a wire, but the states and the rules between them are real.

use vstd::prelude::*;

use crate::bytes::max_int;
use crate::bytes::min_int;

verus! {

/// Error count above which a node becomes error-passive.
pub const c_u16ErrorPassiveThreshold: u16 = 127;

/// Transmit error count above which a node goes bus-off.
pub const c_u16BusOffThreshold: u16 = 255;

/// What a transmit error adds to the transmit counter.
pub const c_u16TransmitErrorPenalty: u16 = 8;

/// What a receive error adds to the receive counter.
pub const c_u16ReceiveErrorPenalty: u16 = 1;

/// What a successful transmission subtracts.
pub const c_u16TransmitSuccessCredit: u16 = 1;

/// How much of the bus a node is currently allowed to use.
#[derive(Debug, Clone, Copy, PartialEq, Eq, Structural)]
pub enum BusState {
    /// Normal. Transmits, receives, and signals errors actively.
    ErrorActive,
    /// Still on the bus and still answering, but signalling errors passively.
    ErrorPassive,
    /// Off the bus. Transmits nothing and acknowledges nothing, so every request to it times out
    /// rather than being refused.
    BusOff,
}

impl Default for BusState {
    fn default() -> (state: Self)
        ensures
            state == BusState::ErrorActive,
    {
        BusState::ErrorActive
    }
}

impl BusState {
    /// Whether a node in this state may put a frame on the bus at all.
    pub fn CanTransmit(self) -> (bCanTransmit: bool)
        ensures
            bCanTransmit == (self !is BusOff),
    {
        !matches!(self, BusState::BusOff)
    }

    /// What a state is called.
    pub open spec fn description(self) -> Seq<char> {
        match self {
            BusState::ErrorActive => "error active"@,
            BusState::ErrorPassive => "error passive"@,
            BusState::BusOff => "bus off"@,
        }
    }

    /// A phrase for a log line or the UI.
    pub fn Describe(self) -> (strPhrase: &'static str)
        ensures
            strPhrase@ == self.description(),
    {
        match self {
            BusState::ErrorActive => "error active",
            BusState::ErrorPassive => "error passive",
            BusState::BusOff => "bus off",
        }
    }
}

/// A node's error counters and the state they put it in.
#[derive(Debug, Clone, Copy, PartialEq, Eq, Structural)]
pub struct FaultConfinement {
    /// Transmit error counter. Only this one can reach bus-off.
    pub m_u16TransmitErrorCount: u16,
    /// Receive error counter. Can make a node error-passive but never bus-off.
    pub m_u16ReceiveErrorCount: u16,
    /// True once the counters have driven the node off the bus, and until it is recovered. Held
    /// separately because leaving bus-off is a decision to rejoin, not a matter of counting down.
    pub m_bIsBusOff: bool,
}

impl Default for FaultConfinement {
    fn default() -> (confinement: Self)
        ensures
            confinement == fresh_node(),
    {
        FaultConfinement {
            m_u16TransmitErrorCount: 0,
            m_u16ReceiveErrorCount: 0,
            m_bIsBusOff: false,
        }
    }
}

/// A node that has made no errors.
pub open spec fn fresh_node() -> FaultConfinement {
    FaultConfinement { m_u16TransmitErrorCount: 0, m_u16ReceiveErrorCount: 0, m_bIsBusOff: false }
}

/// What can happen to a node.
pub ghost enum NodeEvent {
    TransmitError,
    ReceiveError,
    TransmitSuccess,
    ReceiveSuccess,
}

/// A node after an event. A node that is off the bus takes no part in any.
pub open spec fn after_event(c: FaultConfinement, event: NodeEvent) -> FaultConfinement {
    if c.m_bIsBusOff {
        c
    } else {
        match event {
            NodeEvent::TransmitError => {
                let count = min_int(c.m_u16TransmitErrorCount + 8, 65535) as u16;
                FaultConfinement {
                    m_u16TransmitErrorCount: count,
                    m_bIsBusOff: count > 255,
                    ..c
                }
            },
            NodeEvent::ReceiveError => FaultConfinement {
                m_u16ReceiveErrorCount: min_int(c.m_u16ReceiveErrorCount + 1, 255) as u16,
                ..c
            },
            NodeEvent::TransmitSuccess => FaultConfinement {
                m_u16TransmitErrorCount: max_int(c.m_u16TransmitErrorCount - 1, 0) as u16,
                ..c
            },
            NodeEvent::ReceiveSuccess => FaultConfinement {
                m_u16ReceiveErrorCount: max_int(c.m_u16ReceiveErrorCount - 1, 0) as u16,
                ..c
            },
        }
    }
}

/// A node put straight into a state. Off the bus, the receive counter is left as it is.
pub open spec fn forced(c: FaultConfinement, state: BusState) -> FaultConfinement {
    match state {
        BusState::ErrorActive => fresh_node(),
        BusState::ErrorPassive => FaultConfinement {
            m_u16TransmitErrorCount: 128,
            m_u16ReceiveErrorCount: 0,
            m_bIsBusOff: false,
        },
        BusState::BusOff => FaultConfinement {
            m_u16TransmitErrorCount: 256,
            m_bIsBusOff: true,
            ..c
        },
    }
}

impl FaultConfinement {
    /// The state a node's counters put it in.
    pub open spec fn state(&self) -> BusState {
        if self.m_bIsBusOff {
            BusState::BusOff
        } else if self.m_u16TransmitErrorCount > 127 || self.m_u16ReceiveErrorCount > 127 {
            BusState::ErrorPassive
        } else {
            BusState::ErrorActive
        }
    }

    /// The counters are ones a node can have: off the bus exactly when the transmit counter is
    /// past its threshold.
    pub open spec fn is_consistent(&self) -> bool {
        self.m_bIsBusOff == (self.m_u16TransmitErrorCount > 255)
    }

    /// The state these counters put the node in.
    pub fn State(&self) -> (state: BusState)
        ensures
            state == self.state(),
    {
        if self.m_bIsBusOff {
            return BusState::BusOff;
        }
        let bIsPassive = self.m_u16TransmitErrorCount > c_u16ErrorPassiveThreshold
            || self.m_u16ReceiveErrorCount > c_u16ErrorPassiveThreshold;
        if bIsPassive {
            BusState::ErrorPassive
        } else {
            BusState::ErrorActive
        }
    }

    /// Record a transmit error, which is the one that can end in bus-off.
    pub fn OnTransmitError(&mut self)
        ensures
            *final(self) == after_event(*old(self), NodeEvent::TransmitError),
    {
        if self.m_bIsBusOff {
            return;
        }
        self.m_u16TransmitErrorCount =
        self.m_u16TransmitErrorCount.saturating_add(c_u16TransmitErrorPenalty);
        if self.m_u16TransmitErrorCount > c_u16BusOffThreshold {
            self.m_bIsBusOff = true;
        }
    }

    /// Record a receive error. It can make a node error-passive and no further: a node that
    /// mis-hears is not the one corrupting the bus, so it is never removed from it.
    pub fn OnReceiveError(&mut self)
        ensures
            *final(self) == after_event(*old(self), NodeEvent::ReceiveError),
    {
        if self.m_bIsBusOff {
            return;
        }
        let u16Count: u16 = self.m_u16ReceiveErrorCount.saturating_add(c_u16ReceiveErrorPenalty);
        self.m_u16ReceiveErrorCount = if u16Count < c_u16BusOffThreshold {
            u16Count
        } else {
            c_u16BusOffThreshold
        };
    }

    /// Record a frame sent without error, which earns back one count.
    pub fn OnTransmitSuccess(&mut self)
        ensures
            *final(self) == after_event(*old(self), NodeEvent::TransmitSuccess),
    {
        if self.m_bIsBusOff {
            return;
        }
        self.m_u16TransmitErrorCount =
        self.m_u16TransmitErrorCount.saturating_sub(c_u16TransmitSuccessCredit);
    }

    /// Record a frame received without error.
    pub fn OnReceiveSuccess(&mut self)
        ensures
            *final(self) == after_event(*old(self), NodeEvent::ReceiveSuccess),
    {
        if self.m_bIsBusOff {
            return;
        }
        self.m_u16ReceiveErrorCount = self.m_u16ReceiveErrorCount.saturating_sub(1);
    }

    /// Rejoin the bus with both counters cleared, as a node does after bus-off recovery.
    pub fn Recover(&mut self)
        ensures
            *final(self) == fresh_node(),
    {
        self.m_u16TransmitErrorCount = 0;
        self.m_u16ReceiveErrorCount = 0;
        self.m_bIsBusOff = false;
    }

    /// Put the node straight into a state, for an operator who wants the condition rather than
    /// the sequence of errors that reaches it.
    pub fn ForceState(&mut self, state: BusState)
        ensures
            *final(self) == forced(*old(self), state),
    {
        match state {
            BusState::ErrorActive => self.Recover(),
            BusState::ErrorPassive => {
                self.m_bIsBusOff = false;
                self.m_u16TransmitErrorCount = c_u16ErrorPassiveThreshold + 1;
                self.m_u16ReceiveErrorCount = 0;
            },
            BusState::BusOff => {
                self.m_bIsBusOff = true;
                self.m_u16TransmitErrorCount = c_u16BusOffThreshold + 1;
            },
        }
    }
}

/// A node after a sequence of events.
pub open spec fn after_events(c: FaultConfinement, events: Seq<NodeEvent>) -> FaultConfinement
    decreases events.len(),
{
    if events.len() == 0 {
        c
    } else {
        after_event(after_events(c, events.drop_last()), events.last())
    }
}

/// A bus-off node stays off whatever happens, with its counters as they were: only recovering or
/// forcing a state brings it back.
pub proof fn law_bus_off_is_final(c: FaultConfinement, events: Seq<NodeEvent>)
    requires
        c.m_bIsBusOff,
    ensures
        after_events(c, events) == c,
    decreases events.len(),
{
    if events.len() > 0 {
        law_bus_off_is_final(c, events.drop_last());
    }
}

/// Receive errors alone never take a node off the bus.
pub proof fn law_receive_errors_never_reach_bus_off(c: FaultConfinement, events: Seq<NodeEvent>)
    requires
        !c.m_bIsBusOff,
        forall|i: int| 0 <= i < events.len() ==> (#[trigger] events[i]) !is TransmitError,
    ensures
        !after_events(c, events).m_bIsBusOff,
    decreases events.len(),
{
    if events.len() > 0 {
        law_receive_errors_never_reach_bus_off(c, events.drop_last());
    }
}

/// Every event, recovery and forced state leaves counters a node can have.
pub proof fn law_counters_stay_consistent(c: FaultConfinement, event: NodeEvent, state: BusState)
    requires
        c.is_consistent(),
    ensures
        after_event(c, event).is_consistent(),
        fresh_node().is_consistent(),
        forced(c, state).is_consistent(),
{
}

/// Forcing a state gives that state.
pub proof fn law_forced_state_is_reached(c: FaultConfinement, state: BusState)
    ensures
        forced(c, state).state() == state,
{
}

/// The transmit errors it takes to leave the bus: a node with no errors goes off with the
/// thirty-second, and is error-passive from the sixteenth on.
pub proof fn law_transmit_errors_walk_through_the_states(errors: nat)
    ensures
        ({
            let node = after_events(fresh_node(), Seq::new(errors, |i: int| NodeEvent::TransmitError));
            node.state() == (if errors >= 32 {
                BusState::BusOff
            } else if errors >= 16 {
                BusState::ErrorPassive
            } else {
                BusState::ErrorActive
            })
        }),
{
    lemma_transmit_errors_count(errors);
}

proof fn lemma_transmit_errors_count(errors: nat)
    ensures
        ({
            let node = after_events(fresh_node(), Seq::new(errors, |i: int| NodeEvent::TransmitError));
            &&& node.m_u16TransmitErrorCount == min_int(8 * errors as int, 256)
            &&& node.m_u16ReceiveErrorCount == 0
            &&& node.m_bIsBusOff == (errors >= 32)
        }),
    decreases errors,
{
    if errors > 0 {
        let fewer = (errors - 1) as nat;
        let events = Seq::new(errors, |i: int| NodeEvent::TransmitError);
        lemma_transmit_errors_count(fewer);
        assert(events.drop_last() =~= Seq::new(fewer, |i: int| NodeEvent::TransmitError));
    }
}

} // verus!
