//! UDS server timing: the parameters an ECU advertises and the operator's fault-injection knobs.

use vstd::prelude::*;
use vstd::string::StringExecFns;

use crate::text::decimal;
use crate::text::AppendDecimal;
use crate::text::TextWithNumber;
use crate::text::TextWithNumbers;

verus! {

/// P2Server_max travels in the DiagnosticSessionControl response as two bytes at 1 ms
/// resolution, so it cannot exceed this.
pub const c_u32P2ServerMaxLimitMs: u32 = 65_535;

/// P2*Server_max travels as two bytes at 10 ms resolution.
pub const c_u32P2StarServerMaxLimitMs: u32 = 655_350;

/// The resolution P2*Server_max is advertised at.
pub const c_u32P2StarResolutionMs: u32 = 10;

/// Recommended P2Server_max.
pub const c_u32DefaultP2ServerMaxMs: u32 = 50;

/// Recommended P2*Server_max.
pub const c_u32DefaultP2StarServerMaxMs: u32 = 5_000;

/// P4Server_max default: room for a realistic ResponsePending sequence.
pub const c_u32DefaultP4ServerMaxMs: u32 = 30_000;

/// Upper bound on the operator-injected response delay.
pub const c_u32MaxResponseDelayMs: u32 = 60_000;

/// Upper bound on P4Server_max.
pub const c_u32MaxP4ServerMaxMs: u32 = 600_000;

/// Upper bound on forced ResponsePending repetitions.
pub const c_u8MaxForcedResponsePendingCount: u8 = 10;

/// How many times ResponsePending is repeated when forcing, unless stated: forcing zero
/// repetitions is a contradiction.
pub const c_u8DefaultForcedResponsePendingCount: u8 = 1;

/// ISO-TP block size an ECU advertises unless stated.
pub const c_u8DefaultIsoTpBlockSize: u8 = 1;

/// UDS server timing, in milliseconds.
///
/// Two kinds of value live here and are kept apart by name: the parameters the ECU advertises
/// and is judged against (P2, P2*, P4, the ISO-TP flow-control values), and the operator's
/// fault-injection knobs (response delay, forced ResponsePending, dropped final response).
#[derive(Debug, Clone, Copy, PartialEq, Eq, Structural)]
pub struct EcuTiming {
    /// The deadline to start the response after the request has been completely received.
    pub m_u32P2ServerMaxMs: u32,
    /// The deadline to start the response after a ResponsePending has finished transmitting.
    pub m_u32P2StarServerMaxMs: u32,
    /// The deadline for the final response, measured from request reception. `P4 == P2` means
    /// this server may not use NRC 0x78 at all.
    pub m_u32P4ServerMaxMs: u32,
    /// Operator-injected think-time before the final response. 0 answers immediately.
    pub m_u32ResponseDelayMs: u32,
    /// Emit a ResponsePending sequence even when the delay alone would not require one.
    pub m_bForceResponsePending: bool,
    /// How many NRC 0x78 messages to emit when forcing. If the delay demands more, the larger
    /// value wins.
    pub m_u8ForcedResponsePendingCount: u8,
    /// Withhold the final response entirely after any pending messages: a hung server.
    pub m_bDropFinalResponse: bool,
    /// The ISO-TP block size this ECU advertises in its flow control.
    pub m_u8IsoTpBlockSize: u8,
    /// The raw ISO-TP separation-time byte this ECU advertises in its flow control.
    pub m_byIsoTpSeparationTimeMin: u8,
}

/// The timing every ECU starts from.
pub open spec fn default_timing() -> EcuTiming {
    EcuTiming {
        m_u32P2ServerMaxMs: 50,
        m_u32P2StarServerMaxMs: 5_000,
        m_u32P4ServerMaxMs: 30_000,
        m_u32ResponseDelayMs: 0,
        m_bForceResponsePending: false,
        m_u8ForcedResponsePendingCount: 1,
        m_bDropFinalResponse: false,
        m_u8IsoTpBlockSize: 1,
        m_byIsoTpSeparationTimeMin: 0,
    }
}

impl Default for EcuTiming {
    fn default() -> (timing: Self)
        ensures
            timing == default_timing(),
    {
        EcuTiming {
            m_u32P2ServerMaxMs: c_u32DefaultP2ServerMaxMs,
            m_u32P2StarServerMaxMs: c_u32DefaultP2StarServerMaxMs,
            m_u32P4ServerMaxMs: c_u32DefaultP4ServerMaxMs,
            m_u32ResponseDelayMs: 0,
            m_bForceResponsePending: false,
            m_u8ForcedResponsePendingCount: c_u8DefaultForcedResponsePendingCount,
            m_bDropFinalResponse: false,
            m_u8IsoTpBlockSize: c_u8DefaultIsoTpBlockSize,
            m_byIsoTpSeparationTimeMin: 0,
        }
    }
}

/// Why a proposed set of timing parameters was refused.
///
/// A value that cannot be truthfully put on the wire is rejected, while a behaviour that is on
/// the wire but non-conformant is allowed and flagged on the resulting response plan instead.
#[derive(Debug, Clone, Copy, PartialEq, Eq, Structural)]
pub enum TimingValidationError {
    /// P2Server_max does not fit the two advertised bytes.
    P2ServerMaxTooLarge { u32ValueMs: u32, u32LimitMs: u32 },
    /// P2*Server_max does not fit the two advertised bytes.
    P2StarServerMaxTooLarge { u32ValueMs: u32, u32LimitMs: u32 },
    /// P2*Server_max is advertised in 10 ms units, so a value between units cannot be stated.
    P2StarServerMaxNotAMultiple { u32ValueMs: u32, u32LowerMs: u32, u32UpperMs: u32 },
    /// P4Server_max's minimum is P2Server_max.
    P4ServerMaxBelowP2 { u32P4Ms: u32, u32P2Ms: u32 },
    /// P4Server_max beyond the simulator's sanity limit.
    P4ServerMaxTooLarge { u32ValueMs: u32, u32LimitMs: u32 },
    /// The injected delay is beyond the simulator's sanity limit.
    ResponseDelayTooLarge { u32ValueMs: u32, u32LimitMs: u32 },
    /// The final response must start by P4Server_max, so a longer delay is unreachable.
    ResponseDelayBeyondP4 { u32DelayMs: u32, u32P4Ms: u32 },
    /// Forcing zero repetitions is a contradiction.
    ForcedResponsePendingCountIsZero,
    /// Too many forced repetitions.
    ForcedResponsePendingCountTooLarge { u8Value: u8, u8Limit: u8 },
    /// A ResponsePending with no enhanced budget to spend says nothing.
    ForcedResponsePendingWithoutP2Star,
    /// `P4 == P2` means NRC 0x78 is not allowed for this server.
    ForcedResponsePendingWithP4EqualToP2 { u32P2Ms: u32 },
}

impl EcuTiming {
    /// The parameters can be honestly advertised and honoured.
    pub open spec fn is_valid(&self) -> bool {
        &&& self.m_u32P2ServerMaxMs <= 65_535
        &&& self.m_u32P2StarServerMaxMs <= 655_350
        &&& self.m_u32P2StarServerMaxMs % 10 == 0
        &&& self.m_u32P2ServerMaxMs <= self.m_u32P4ServerMaxMs <= 600_000
        &&& self.m_u32ResponseDelayMs <= 60_000
        &&& self.m_u32ResponseDelayMs <= self.m_u32P4ServerMaxMs
        &&& self.m_bForceResponsePending ==> {
            &&& 1 <= self.m_u8ForcedResponsePendingCount <= 10
            &&& self.m_u32P2StarServerMaxMs > 0
            &&& self.m_u32P4ServerMaxMs != self.m_u32P2ServerMaxMs
        }
    }

    /// The first rule a forced ResponsePending sequence breaks, if it breaks one.
    pub open spec fn forced_error(&self) -> Option<TimingValidationError> {
        if !self.m_bForceResponsePending {
            None
        } else if self.m_u8ForcedResponsePendingCount == 0 {
            Some(TimingValidationError::ForcedResponsePendingCountIsZero)
        } else if self.m_u8ForcedResponsePendingCount > 10 {
            Some(
                TimingValidationError::ForcedResponsePendingCountTooLarge {
                    u8Value: self.m_u8ForcedResponsePendingCount,
                    u8Limit: 10,
                },
            )
        } else if self.m_u32P2StarServerMaxMs == 0 {
            Some(TimingValidationError::ForcedResponsePendingWithoutP2Star)
        } else if self.m_u32P4ServerMaxMs == self.m_u32P2ServerMaxMs {
            Some(
                TimingValidationError::ForcedResponsePendingWithP4EqualToP2 {
                    u32P2Ms: self.m_u32P2ServerMaxMs,
                },
            )
        } else {
            None
        }
    }

    /// The first rule these parameters break, in the order the rules are stated, if any.
    pub open spec fn first_error(&self) -> Option<TimingValidationError> {
        if self.m_u32P2ServerMaxMs > 65_535 {
            Some(
                TimingValidationError::P2ServerMaxTooLarge {
                    u32ValueMs: self.m_u32P2ServerMaxMs,
                    u32LimitMs: 65_535,
                },
            )
        } else if self.m_u32P2StarServerMaxMs > 655_350 {
            Some(
                TimingValidationError::P2StarServerMaxTooLarge {
                    u32ValueMs: self.m_u32P2StarServerMaxMs,
                    u32LimitMs: 655_350,
                },
            )
        } else if self.m_u32P2StarServerMaxMs % 10 != 0 {
            Some(
                TimingValidationError::P2StarServerMaxNotAMultiple {
                    u32ValueMs: self.m_u32P2StarServerMaxMs,
                    u32LowerMs: (self.m_u32P2StarServerMaxMs - self.m_u32P2StarServerMaxMs
                        % 10) as u32,
                    u32UpperMs: (self.m_u32P2StarServerMaxMs - self.m_u32P2StarServerMaxMs % 10
                        + 10) as u32,
                },
            )
        } else if self.m_u32P4ServerMaxMs < self.m_u32P2ServerMaxMs {
            Some(
                TimingValidationError::P4ServerMaxBelowP2 {
                    u32P4Ms: self.m_u32P4ServerMaxMs,
                    u32P2Ms: self.m_u32P2ServerMaxMs,
                },
            )
        } else if self.m_u32P4ServerMaxMs > 600_000 {
            Some(
                TimingValidationError::P4ServerMaxTooLarge {
                    u32ValueMs: self.m_u32P4ServerMaxMs,
                    u32LimitMs: 600_000,
                },
            )
        } else if self.m_u32ResponseDelayMs > 60_000 {
            Some(
                TimingValidationError::ResponseDelayTooLarge {
                    u32ValueMs: self.m_u32ResponseDelayMs,
                    u32LimitMs: 60_000,
                },
            )
        } else if self.m_u32ResponseDelayMs > self.m_u32P4ServerMaxMs {
            Some(
                TimingValidationError::ResponseDelayBeyondP4 {
                    u32DelayMs: self.m_u32ResponseDelayMs,
                    u32P4Ms: self.m_u32P4ServerMaxMs,
                },
            )
        } else {
            self.forced_error()
        }
    }

    /// Check that these parameters can be honestly advertised and honoured.
    ///
    /// Rejects values, never behaviours: a delay above P2 is fine, and so is a deliberately
    /// flooding or hung server. What is refused is a number that cannot be put on the wire
    /// truthfully.
    pub fn Validate(&self) -> (result: Result<(), TimingValidationError>)
        ensures
            result is Ok <==> self.is_valid(),
            result is Err ==> self.first_error() == Some(result->Err_0),
    {
        if self.m_u32P2ServerMaxMs > c_u32P2ServerMaxLimitMs {
            return Err(
                TimingValidationError::P2ServerMaxTooLarge {
                    u32ValueMs: self.m_u32P2ServerMaxMs,
                    u32LimitMs: c_u32P2ServerMaxLimitMs,
                },
            );
        }
        if self.m_u32P2StarServerMaxMs > c_u32P2StarServerMaxLimitMs {
            return Err(
                TimingValidationError::P2StarServerMaxTooLarge {
                    u32ValueMs: self.m_u32P2StarServerMaxMs,
                    u32LimitMs: c_u32P2StarServerMaxLimitMs,
                },
            );
        }
        if self.m_u32P2StarServerMaxMs % c_u32P2StarResolutionMs != 0 {
            let u32LowerMs: u32 = (self.m_u32P2StarServerMaxMs / c_u32P2StarResolutionMs)
                * c_u32P2StarResolutionMs;
            return Err(
                TimingValidationError::P2StarServerMaxNotAMultiple {
                    u32ValueMs: self.m_u32P2StarServerMaxMs,
                    u32LowerMs,
                    u32UpperMs: u32LowerMs + c_u32P2StarResolutionMs,
                },
            );
        }
        if self.m_u32P4ServerMaxMs < self.m_u32P2ServerMaxMs {
            return Err(
                TimingValidationError::P4ServerMaxBelowP2 {
                    u32P4Ms: self.m_u32P4ServerMaxMs,
                    u32P2Ms: self.m_u32P2ServerMaxMs,
                },
            );
        }
        if self.m_u32P4ServerMaxMs > c_u32MaxP4ServerMaxMs {
            return Err(
                TimingValidationError::P4ServerMaxTooLarge {
                    u32ValueMs: self.m_u32P4ServerMaxMs,
                    u32LimitMs: c_u32MaxP4ServerMaxMs,
                },
            );
        }
        if self.m_u32ResponseDelayMs > c_u32MaxResponseDelayMs {
            return Err(
                TimingValidationError::ResponseDelayTooLarge {
                    u32ValueMs: self.m_u32ResponseDelayMs,
                    u32LimitMs: c_u32MaxResponseDelayMs,
                },
            );
        }
        if self.m_u32ResponseDelayMs > self.m_u32P4ServerMaxMs {
            return Err(
                TimingValidationError::ResponseDelayBeyondP4 {
                    u32DelayMs: self.m_u32ResponseDelayMs,
                    u32P4Ms: self.m_u32P4ServerMaxMs,
                },
            );
        }
        self.ValidateForcedResponsePending()
    }

    /// The rules that only apply when the operator forces a ResponsePending sequence.
    fn ValidateForcedResponsePending(&self) -> (result: Result<(), TimingValidationError>)
        ensures
            result is Ok <==> self.forced_error() is None,
            result is Err ==> self.forced_error() == Some(result->Err_0),
    {
        if !self.m_bForceResponsePending {
            return Ok(());
        }
        if self.m_u8ForcedResponsePendingCount == 0 {
            return Err(TimingValidationError::ForcedResponsePendingCountIsZero);
        }
        if self.m_u8ForcedResponsePendingCount > c_u8MaxForcedResponsePendingCount {
            return Err(
                TimingValidationError::ForcedResponsePendingCountTooLarge {
                    u8Value: self.m_u8ForcedResponsePendingCount,
                    u8Limit: c_u8MaxForcedResponsePendingCount,
                },
            );
        }
        if self.m_u32P2StarServerMaxMs == 0 {
            return Err(TimingValidationError::ForcedResponsePendingWithoutP2Star);
        }
        if self.m_u32P4ServerMaxMs == self.m_u32P2ServerMaxMs {
            return Err(
                TimingValidationError::ForcedResponsePendingWithP4EqualToP2 {
                    u32P2Ms: self.m_u32P2ServerMaxMs,
                },
            );
        }
        Ok(())
    }
}

/// Timing that breaks no rule is exactly the timing that can be advertised and honoured.
pub proof fn law_no_error_means_valid(timing: EcuTiming)
    ensures
        timing.first_error() is None <==> timing.is_valid(),
{
}

/// The timing every ECU starts from is accepted.
pub proof fn law_default_timing_is_valid()
    ensures
        default_timing().is_valid(),
{
}

impl TimingValidationError {
    /// What the refusal says.
    pub open spec fn message(&self) -> Seq<char> {
        match self {
            TimingValidationError::P2ServerMaxTooLarge { u32ValueMs, u32LimitMs } =>
                "P2Server_max is "@ + decimal(*u32ValueMs as nat)
                + " ms; it is advertised in two bytes at 1 ms resolution, so the limit is "@ + decimal(*u32LimitMs as nat) + " ms"@,
            TimingValidationError::P2StarServerMaxTooLarge { u32ValueMs, u32LimitMs } =>
                "P2*Server_max is "@ + decimal(*u32ValueMs as nat)
                + " ms; it is advertised in two bytes at 10 ms resolution, so the limit is "@ + decimal(*u32LimitMs as nat) + " ms"@,
            TimingValidationError::P2StarServerMaxNotAMultiple {
                u32ValueMs,
                u32LowerMs,
                u32UpperMs,
            } =>
                "P2*Server_max is "@ + decimal(*u32ValueMs as nat)
                + " ms; it is advertised in 10 ms units, so use "@ + decimal(
                *u32LowerMs as nat,
            ) + " ms or "@ + decimal(*u32UpperMs as nat) + " ms"@,
            TimingValidationError::P4ServerMaxBelowP2 { u32P4Ms, u32P2Ms } =>
                "P4Server_max is "@ + decimal(*u32P4Ms as nat)
                + " ms but must be at least P2Server_max, which is "@ + decimal(
                *u32P2Ms as nat,
            ) + " ms"@,
            TimingValidationError::P4ServerMaxTooLarge { u32ValueMs, u32LimitMs } =>
                "P4Server_max is "@ + decimal(*u32ValueMs as nat)
                + " ms; the simulator's limit is "@ + decimal(*u32LimitMs as nat) + " ms"@,
            TimingValidationError::ResponseDelayTooLarge { u32ValueMs, u32LimitMs } =>
                "response delay is "@ + decimal(*u32ValueMs as nat)
                + " ms; the simulator's limit is "@ + decimal(*u32LimitMs as nat) + " ms"@,
            TimingValidationError::ResponseDelayBeyondP4 { u32DelayMs, u32P4Ms } =>
                "response delay is "@ + decimal(*u32DelayMs as nat)
                + " ms but the final response must start by P4Server_max, which is "@ + decimal(*u32P4Ms as nat) + " ms"@,
            TimingValidationError::ForcedResponsePendingCountIsZero =>
                "ResponsePending is forced but the repetition count is 0"@,
            TimingValidationError::ForcedResponsePendingCountTooLarge { u8Value, u8Limit } =>
                "forced ResponsePending count is "@ + decimal(*u8Value as nat)
                + "; the simulator's limit is "@ + decimal(*u8Limit as nat),
            TimingValidationError::ForcedResponsePendingWithoutP2Star =>
                "ResponsePending is forced but P2*Server_max is 0, so there is no enhanced timing budget to announce"@,
            TimingValidationError::ForcedResponsePendingWithP4EqualToP2 { u32P2Ms } =>
                "ResponsePending is forced but P4Server_max equals P2Server_max ("@ + decimal(
                *u32P2Ms as nat,
            ) + " ms), which means NRC 0x78 is not allowed for this server"@,
        }
    }

    /// What the refusal says, for the operator.
    pub fn Message(&self) -> (strMessage: String)
        ensures
            strMessage@ == self.message(),
    {
        match self {
            TimingValidationError::P2ServerMaxTooLarge { u32ValueMs, u32LimitMs } => TextWithNumbers(
                "P2Server_max is ",
                *u32ValueMs as u64,
                " ms; it is advertised in two bytes at 1 ms resolution, so the limit is ",
                *u32LimitMs as u64,
                " ms",
            ),
            TimingValidationError::P2StarServerMaxTooLarge { u32ValueMs, u32LimitMs } => TextWithNumbers(
                "P2*Server_max is ",
                *u32ValueMs as u64,
                " ms; it is advertised in two bytes at 10 ms resolution, so the limit is ",
                *u32LimitMs as u64,
                " ms",
            ),
            TimingValidationError::P2StarServerMaxNotAMultiple {
                u32ValueMs,
                u32LowerMs,
                u32UpperMs,
            } => {
                let mut strMessage = TextWithNumbers(
                    "P2*Server_max is ",
                    *u32ValueMs as u64,
                    " ms; it is advertised in 10 ms units, so use ",
                    *u32LowerMs as u64,
                    " ms or ",
                );
                AppendDecimal(&mut strMessage, *u32UpperMs as u64);
                strMessage.append(" ms");
                strMessage
            },
            TimingValidationError::P4ServerMaxBelowP2 { u32P4Ms, u32P2Ms } => TextWithNumbers(
                "P4Server_max is ",
                *u32P4Ms as u64,
                " ms but must be at least P2Server_max, which is ",
                *u32P2Ms as u64,
                " ms",
            ),
            TimingValidationError::P4ServerMaxTooLarge { u32ValueMs, u32LimitMs } => TextWithNumbers(
                "P4Server_max is ",
                *u32ValueMs as u64,
                " ms; the simulator's limit is ",
                *u32LimitMs as u64,
                " ms",
            ),
            TimingValidationError::ResponseDelayTooLarge { u32ValueMs, u32LimitMs } => TextWithNumbers(
                "response delay is ",
                *u32ValueMs as u64,
                " ms; the simulator's limit is ",
                *u32LimitMs as u64,
                " ms",
            ),
            TimingValidationError::ResponseDelayBeyondP4 { u32DelayMs, u32P4Ms } => TextWithNumbers(
                "response delay is ",
                *u32DelayMs as u64,
                " ms but the final response must start by P4Server_max, which is ",
                *u32P4Ms as u64,
                " ms",
            ),
            TimingValidationError::ForcedResponsePendingCountIsZero => "ResponsePending is forced but the repetition count is 0".to_string(),
            TimingValidationError::ForcedResponsePendingCountTooLarge { u8Value, u8Limit } => {
                let mut strMessage = TextWithNumber(
                    "forced ResponsePending count is ",
                    *u8Value as u64,
                    "; the simulator's limit is ",
                );
                AppendDecimal(&mut strMessage, *u8Limit as u64);
                strMessage
            },
            TimingValidationError::ForcedResponsePendingWithoutP2Star => "ResponsePending is forced but P2*Server_max is 0, so there is no enhanced timing budget to announce".to_string(),
            TimingValidationError::ForcedResponsePendingWithP4EqualToP2 { u32P2Ms } => TextWithNumber(
                "ResponsePending is forced but P4Server_max equals P2Server_max (",
                *u32P2Ms as u64,
                " ms), which means NRC 0x78 is not allowed for this server",
            ),
        }
    }
}

} // verus!
