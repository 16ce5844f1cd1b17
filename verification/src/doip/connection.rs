//! The TCP_DATA connection state machine.
//!
//! Pure decision logic: no sockets and no clock. The timers are driven by the caller telling a
//! connection that time has passed.

use vstd::prelude::*;

use crate::bytes::min_int;
use crate::doip::messages::RoutingActivationOutcome;
use crate::doip::messages::RoutingActivationRequest;
use crate::doip::timing::c_u64GeneralInactivityMs;
use crate::doip::timing::c_u64InitialInactivityMs;

verus! {

/// Where a connection has got to. Nothing diagnostic is answered or routed before
/// `RoutingActive`.
#[derive(Debug, Clone, Copy, PartialEq, Eq, Structural)]
pub enum ConnectionState {
    /// TCP established, nothing activated. The initial inactivity timer is running.
    Initialized,
    /// A routing activation request was accepted but authentication is outstanding.
    PendingAuthentication,
    /// Routing is active: diagnostic messages are routed.
    RoutingActive,
    /// Finished: the socket is to be closed and returned to listening.
    Finalize,
}

/// One live TCP_DATA connection.
#[derive(Debug, Clone, Copy, PartialEq, Eq, Structural)]
pub struct Connection {
    m_state: ConnectionState,
    /// The tester address registered on this socket, once one has been.
    m_optU16SourceAddress: Option<u16>,
    /// Milliseconds since anything was sent or received here.
    m_u64IdleMs: u64,
}

/// A connection's state, the tester address registered on it, and how long it has been idle.
pub ghost struct ConnectionView {
    pub state: ConnectionState,
    pub address: Option<u16>,
    pub idle: int,
}

impl View for Connection {
    type V = ConnectionView;

    closed spec fn view(&self) -> ConnectionView {
        ConnectionView {
            state: self.m_state,
            address: self.m_optU16SourceAddress,
            idle: self.m_u64IdleMs as int,
        }
    }
}

/// A freshly established socket.
pub open spec fn fresh_connection() -> ConnectionView {
    ConnectionView { state: ConnectionState::Initialized, address: None, idle: 0 }
}

/// How long a connection may be idle: two seconds before anything was activated, five minutes
/// afterwards.
pub open spec fn idle_limit(state: ConnectionState) -> int {
    if state == ConnectionState::Initialized {
        2_000
    } else {
        300_000
    }
}

/// A connection after time has passed; it is finished once it has been idle for its limit.
pub open spec fn ticked(c: ConnectionView, elapsed: int) -> ConnectionView {
    if c.state == ConnectionState::Finalize {
        c
    } else {
        let idle = min_int(c.idle + elapsed, u64::MAX as int);
        ConnectionView {
            idle,
            state: if idle >= idle_limit(c.state) {
                ConnectionState::Finalize
            } else {
                c.state
            },
            ..c
        }
    }
}

/// What is decided about a routing activation request, in the order the rules apply.
pub open spec fn routing_decision(
    registered: Option<u16>,
    request: RoutingActivationRequest,
    acceptable: bool,
    active_elsewhere: bool,
    free_socket: bool,
) -> RoutingActivationOutcome {
    if request.m_byActivationType > 0x01 {
        RoutingActivationOutcome::DeniedUnsupportedActivationType
    } else if !acceptable {
        RoutingActivationOutcome::DeniedUnknownSourceAddress
    } else if registered == Some(request.m_u16SourceAddress) {
        RoutingActivationOutcome::Activated
    } else if registered is Some {
        RoutingActivationOutcome::DeniedSourceAddressMismatch
    } else if active_elsewhere {
        RoutingActivationOutcome::DeniedSourceAddressInUse
    } else if !free_socket {
        RoutingActivationOutcome::DeniedAllSocketsRegistered
    } else {
        RoutingActivationOutcome::Activated
    }
}

/// A connection after a routing activation was decided on it.
pub open spec fn routed(
    c: ConnectionView,
    address: u16,
    outcome: RoutingActivationOutcome,
) -> ConnectionView {
    match outcome {
        RoutingActivationOutcome::Activated => ConnectionView {
            state: ConnectionState::RoutingActive,
            address: Some(address),
            idle: 0,
        },
        RoutingActivationOutcome::DeniedMissingAuthentication => ConnectionView {
            state: ConnectionState::PendingAuthentication,
            address: Some(address),
            idle: 0,
        },
        _ => ConnectionView { state: ConnectionState::Finalize, idle: 0, ..c },
    }
}

impl Default for Connection {
    fn default() -> (connection: Self)
        ensures
            connection@ == fresh_connection(),
    {
        Connection::New()
    }
}

impl Connection {
    /// A freshly established socket.
    pub fn New() -> (connection: Self)
        ensures
            connection@ == fresh_connection(),
    {
        Connection {
            m_state: ConnectionState::Initialized,
            m_optU16SourceAddress: None,
            m_u64IdleMs: 0,
        }
    }

    /// Where this connection has got to.
    pub fn State(&self) -> (state: ConnectionState)
        ensures
            state == self@.state,
    {
        self.m_state
    }

    /// The tester address registered here, if any.
    pub fn SourceAddress(&self) -> (optU16Address: Option<u16>)
        ensures
            optU16Address == self@.address,
    {
        self.m_optU16SourceAddress
    }

    /// True when diagnostic messages may be routed.
    pub fn IsRoutingActive(&self) -> (bIsActive: bool)
        ensures
            bIsActive == (self@.state == ConnectionState::RoutingActive),
    {
        self.m_state == ConnectionState::RoutingActive
    }

    /// Note that something was sent or received. Both directions count.
    pub fn NoteActivity(&mut self)
        ensures
            final(self)@ == (ConnectionView { idle: 0, ..old(self)@ }),
    {
        self.m_u64IdleMs = 0;
    }

    /// Advance the clock, and say whether this connection has now timed out.
    ///
    /// A socket that never activated gets the short initial timer; one that is activated, or
    /// parked awaiting authentication, gets the long general timer.
    pub fn Tick(&mut self, u64ElapsedMs: u64) -> (bExpired: bool)
        ensures
            final(self)@ == ticked(old(self)@, u64ElapsedMs as int),
            bExpired == (final(self)@.state == ConnectionState::Finalize),
    {
        if self.m_state == ConnectionState::Finalize {
            return true;
        }
        self.m_u64IdleMs = self.m_u64IdleMs.saturating_add(u64ElapsedMs);
        let u64DeadlineMs: u64 = if self.m_state == ConnectionState::Initialized {
            c_u64InitialInactivityMs
        } else {
            c_u64GeneralInactivityMs
        };
        if self.m_u64IdleMs >= u64DeadlineMs {
            self.m_state = ConnectionState::Finalize;
            return true;
        }
        false
    }

    /// Decide a routing activation request against this connection and the others.
    ///
    /// Re-activating the same socket with the same source address is accepted; only a different
    /// address on an already-activated socket is a mismatch. `bIsAddressAcceptable` is the
    /// entity's policy on tester addresses; the other two flags describe the other connections.
    pub fn DecideRoutingActivation(
        &self,
        request: &RoutingActivationRequest,
        bIsAddressAcceptable: bool,
        bIsAddressActiveElsewhere: bool,
        bHasFreeSocket: bool,
    ) -> (outcome: RoutingActivationOutcome)
        ensures
            outcome == routing_decision(
                self@.address,
                *request,
                bIsAddressAcceptable,
                bIsAddressActiveElsewhere,
                bHasFreeSocket,
            ),
    {
        if !IsSupportedActivationType(request.m_byActivationType) {
            return RoutingActivationOutcome::DeniedUnsupportedActivationType;
        }
        if !bIsAddressAcceptable {
            return RoutingActivationOutcome::DeniedUnknownSourceAddress;
        }
        if let Some(u16Registered) = self.m_optU16SourceAddress {
            if u16Registered == request.m_u16SourceAddress {
                return RoutingActivationOutcome::Activated;
            }
            return RoutingActivationOutcome::DeniedSourceAddressMismatch;
        }
        if bIsAddressActiveElsewhere {
            return RoutingActivationOutcome::DeniedSourceAddressInUse;
        }
        if !bHasFreeSocket {
            return RoutingActivationOutcome::DeniedAllSocketsRegistered;
        }
        RoutingActivationOutcome::Activated
    }

    /// Apply a decided outcome to this connection.
    ///
    /// The initial inactivity timer stops on receipt of a valid request, so a connection parked
    /// awaiting authentication moves off the short deadline here although routing is not active.
    pub fn ApplyRoutingActivation(
        &mut self,
        request: &RoutingActivationRequest,
        outcome: RoutingActivationOutcome,
    )
        ensures
            final(self)@ == routed(old(self)@, request.m_u16SourceAddress, outcome),
    {
        self.NoteActivity();
        match outcome {
            RoutingActivationOutcome::Activated => {
                self.m_optU16SourceAddress = Some(request.m_u16SourceAddress);
                self.m_state = ConnectionState::RoutingActive;
            },
            RoutingActivationOutcome::DeniedMissingAuthentication => {
                self.m_optU16SourceAddress = Some(request.m_u16SourceAddress);
                self.m_state = ConnectionState::PendingAuthentication;
            },
            _ => {
                self.m_state = ConnectionState::Finalize;
            },
        }
    }

    /// Mark this connection finished, so the caller closes the socket.
    pub fn Finalize(&mut self)
        ensures
            final(self)@ == (ConnectionView { state: ConnectionState::Finalize, ..old(self)@ }),
    {
        self.m_state = ConnectionState::Finalize;
    }
}

/// Whether this entity supports a routing activation type: `0x00` default and `0x01`
/// required-by-regulation. Everything else is declined rather than pretended.
pub fn IsSupportedActivationType(byActivationType: u8) -> (bSupported: bool)
    ensures
        bSupported == (byActivationType <= 0x01),
{
    byActivationType == 0x00 || byActivationType == 0x01
}

/// Re-activation is idempotent: once a request has activated a socket, the same request on it is
/// activated again whatever the other sockets do, and leaves the connection as it is.
pub proof fn law_reactivation_is_accepted(
    c: ConnectionView,
    request: RoutingActivationRequest,
    acceptable: bool,
    elsewhere: bool,
    free: bool,
    elsewhere_later: bool,
    free_later: bool,
)
    requires
        routing_decision(c.address, request, acceptable, elsewhere, free)
            == RoutingActivationOutcome::Activated,
    ensures
        ({
            let after = routed(c, request.m_u16SourceAddress, RoutingActivationOutcome::Activated);
            &&& routing_decision(after.address, request, acceptable, elsewhere_later, free_later)
                == RoutingActivationOutcome::Activated
            &&& routed(after, request.m_u16SourceAddress, RoutingActivationOutcome::Activated)
                == after
        }),
{
}

/// A connection that is finished stays finished, however much time passes.
pub proof fn law_finished_stays_finished(c: ConnectionView, elapsed: int)
    requires
        c.state == ConnectionState::Finalize,
    ensures
        ticked(c, elapsed) == c,
{
}

/// The short timer only ever ends a socket that never activated: with routing active, a socket
/// idle for less than five minutes stays up.
pub proof fn law_activated_socket_gets_the_long_timer(c: ConnectionView, elapsed: int)
    requires
        c.state == ConnectionState::RoutingActive || c.state
            == ConnectionState::PendingAuthentication,
        0 <= c.idle,
        0 <= elapsed,
        c.idle + elapsed < 300_000,
    ensures
        ticked(c, elapsed).state == c.state,
{
}

} // verus!
