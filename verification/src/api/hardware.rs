//! Putting the simulation on a CAN bus: the ports this machine offers, and the bridge that runs on
//! one of them.

use vstd::prelude::*;
use vstd::string::StringExecFns;

use crate::api::diagnostics::no_protocol_text;
use crate::api::diagnostics::NoProtocolText;
use crate::api::doip::api_outcome;
use crate::api::error::bad_request;
use crate::api::error::conflict;
use crate::api::error::ApiError;
use crate::api::error::ErrorView;
use crate::api::events::text_of;
use crate::api::events::CopyText;
use crate::api::input::Quoted;
use crate::bridge::probe::LineSpeedChange;
use crate::bridge::probe::SerialLinkSpeed;
use crate::can::busload::highest;
use crate::can::busload::samples;
use crate::can::busload::BusLoadMeter;
use crate::can::busload::BusLoadSample;
use crate::slcan::is_selectable_bitrate;
use crate::slcan::IsSelectableBitrate;
use crate::slcan::SlcanLineSpeed;
use crate::text::decimal;
use crate::text::AppendDecimal;

verus! {

/// One serial port a user could connect to.
#[derive(Debug, Clone, PartialEq, Eq)]
pub struct SerialPortDto {
    /// What to pass back to open it, e.g. `/dev/tty.usbmodem1101` or `COM3`.
    pub name: String,
    /// A hint about what is plugged in, when the operating system offers one.
    pub description: String,
}

/// The serial ports there are.
#[derive(Debug, Clone, PartialEq, Eq)]
pub struct SerialPortsDto {
    /// False when this build has no serial support, in which case `ports` is empty for that
    /// reason rather than because nothing is plugged in.
    pub serial_supported: bool,
    pub ports: Vec<SerialPortDto>,
}

/// What the engine knows about a running bridge.
pub struct HardwareState {
    /// Whether a bridge is pumping the bus.
    pub m_bIsRunning: bool,
    /// The port it opened.
    pub m_strPortName: String,
    /// The bitrate it opened at.
    pub m_u32BitrateBps: u32,
    /// The host-to-adapter line speed in use, and how that number was arrived at. `None` until a
    /// link has been opened.
    pub m_optLinkSpeed: Option<SerialLinkSpeed>,
}

/// Request body for putting the simulation on a bus.
#[derive(Debug, Clone, PartialEq, Eq)]
pub struct StartHardwareBody {
    /// A port name, or a virtual one such as a pseudo-terminal.
    pub port: String,
    /// Bus speed in bits per second. Must be one an adapter can select.
    pub bitrate_bps: u32,
    /// Host-to-adapter line speed in bits per second, not the CAN bitrate. Left out, the adapter
    /// is asked what it runs at.
    pub serial_baud_bps: Option<u32>,
}

/// Whether the simulation is on a wire, and how much has crossed it.
#[derive(Debug, Clone, PartialEq, Eq)]
pub struct HardwareStatusDto {
    pub running: bool,
    pub port: Option<String>,
    pub bitrate_bps: Option<u32>,
    /// Host-to-adapter line speed, not the CAN bitrate. The pair below say where it came from.
    pub serial_baud_bps: Option<u32>,
    pub serial_baud_source: Option<String>,
    /// What the adapter called itself when it answered the probe, if it did.
    pub adapter_version: Option<String>,
    pub frames_received: u64,
    pub frames_sent: u64,
}

/// Request body for changing the adapter's line speed.
#[derive(Debug, Clone, PartialEq, Eq)]
pub struct CommandLineSpeedBody {
    /// A port name.
    pub port: String,
    /// The host-to-adapter line speed to ask the adapter to switch to, not the CAN bitrate. Must
    /// be one the `U` command can name.
    pub serial_baud_bps: u32,
    /// The speed the adapter is on now. Left out, the adapter is probed first.
    pub current_serial_baud_bps: Option<u32>,
}

/// What became of a line speed change.
#[derive(Debug, Clone, PartialEq, Eq)]
pub struct LineSpeedChangeDto {
    /// `confirmed`, `refused`, `notConfirmed` or `noRealSerialLine`.
    pub outcome: String,
    /// The speed the link is on now, whatever happened.
    pub serial_baud_bps: u32,
    /// The speed that was asked for, which is not the same thing unless it worked.
    pub requested_serial_baud_bps: u32,
    /// What the adapter called itself at the new speed, when it answered.
    pub adapter_version: Option<String>,
    /// The outcome in words.
    pub message: String,
}

/// Whether a line speed change may be tried, and to which speed.
pub open spec fn line_speed_decision(state: HardwareState, body: CommandLineSpeedBody) -> Result<
    (),
    ErrorView,
> {
    if forall|speed: SlcanLineSpeed| (#[trigger] speed.bits_per_second()) != body.serial_baud_bps {
        Err(
            bad_request(
                decimal(body.serial_baud_bps as nat)
                    + " baud is not a line speed the SLCAN U command can select; use 230400, 115200, 57600, 38400, 19200, 9600 or 2400"@,
            ),
        )
    } else if state.m_bIsRunning {
        Err(
            conflict(
                "a bridge is running on "@ + state.m_strPortName@
                    + "; stop it before changing the adapter's line speed, or it will be left talking at a rate the adapter has left"@,
            ),
        )
    } else {
        Ok(())
    }
}

/// A number with text behind it.
fn NumberThen(u32Number: u32, strAfter: &str) -> (strText: String)
    ensures
        strText@ == decimal(u32Number as nat) + strAfter@,
{
    let mut strText = String::new();
    AppendDecimal(&mut strText, u32Number as u64);
    assert(strText@ =~= decimal(u32Number as nat));
    strText.append(strAfter);
    strText
}

/// Decide whether the adapter may be asked to run its UART at another speed.
///
/// Refused while a bridge is running: the live link holds the port, and changing the speed
/// underneath it would leave the bridge talking at a rate the adapter has left.
pub fn CheckLineSpeedChange(state: &HardwareState, body: &CommandLineSpeedBody) -> (result: Result<
    SlcanLineSpeed,
    ApiError,
>)
    ensures
        match result {
            Ok(speed) => line_speed_decision(*state, *body) is Ok && speed.bits_per_second()
                == body.serial_baud_bps,
            Err(error) => line_speed_decision(*state, *body) == Err::<(), ErrorView>(error@),
        },
{
    let speed = match SlcanLineSpeed::FromBitsPerSecond(body.serial_baud_bps) {
        Some(speed) => speed,
        None => {
            return Err(
                ApiError::BadRequest(
                    NumberThen(
                        body.serial_baud_bps,
                        " baud is not a line speed the SLCAN U command can select; use 230400, 115200, 57600, 38400, 19200, 9600 or 2400",
                    ),
                ),
            );
        },
    };
    assert(speed.bits_per_second() == body.serial_baud_bps);
    if state.m_bIsRunning {
        return Err(
            ApiError::Conflict(
                Quoted(
                    "a bridge is running on ",
                    state.m_strPortName.as_str(),
                    "; stop it before changing the adapter's line speed, or it will be left talking at a rate the adapter has left",
                ),
            ),
        );
    }
    Ok(speed)
}

/// What the outcome of a line speed change is called.
pub open spec fn change_name(change: LineSpeedChange) -> Seq<char> {
    match change {
        LineSpeedChange::Confirmed { .. } => "confirmed"@,
        LineSpeedChange::Refused { .. } => "refused"@,
        LineSpeedChange::NotConfirmed { .. } => "notConfirmed"@,
        LineSpeedChange::NoRealSerialLine => "noRealSerialLine"@,
    }
}

/// Describe what became of a line speed change.
pub fn BuildLineSpeedChangeDto(
    change: &LineSpeedChange,
    u32CurrentBaudRate: u32,
    u32RequestedBaudRate: u32,
) -> (dto: LineSpeedChangeDto)
    ensures
        dto.outcome@ == change_name(*change),
        dto.serial_baud_bps == change.effective(u32CurrentBaudRate),
        dto.requested_serial_baud_bps == u32RequestedBaudRate,
        text_of(dto.adapter_version) == (match *change {
            LineSpeedChange::Confirmed { strAdapterVersion, .. } => Some(strAdapterVersion@),
            _ => None,
        }),
        dto.message@ == change.description(),
{
    let strOutcome = match change {
        LineSpeedChange::Confirmed { .. } => "confirmed",
        LineSpeedChange::Refused { .. } => "refused",
        LineSpeedChange::NotConfirmed { .. } => "notConfirmed",
        LineSpeedChange::NoRealSerialLine => "noRealSerialLine",
    };
    let optStrAdapterVersion = match change {
        LineSpeedChange::Confirmed { strAdapterVersion, .. } => Some(strAdapterVersion.clone()),
        _ => None,
    };
    LineSpeedChangeDto {
        outcome: strOutcome.to_string(),
        serial_baud_bps: change.EffectiveBaudRate(u32CurrentBaudRate),
        requested_serial_baud_bps: u32RequestedBaudRate,
        adapter_version: optStrAdapterVersion,
        message: change.Describe(),
    }
}

/// How busy the bus has been, second by second.
#[derive(Debug, Clone, PartialEq, Eq)]
pub struct BusLoadDto {
    /// The bitrate load is measured against. Zero when no link is open, in which case the series
    /// is empty rather than misleading.
    pub bitrate_bps: u32,
    /// One entry per second, oldest first, at most two minutes of history.
    pub samples: Vec<BusLoadSample>,
    /// The second currently being filled: incomplete by definition, so reported apart from the
    /// finished ones.
    pub current: Option<BusLoadSample>,
    /// The busiest finished second in the history.
    pub peak: Option<BusLoadSample>,
    /// True while a load figure is a floor rather than a measurement, which it always is: bit
    /// stuffing cannot be recovered from a decoded frame.
    pub is_nominal_a_floor: bool,
}

/// Say how busy the bus has been. With no link open the series is empty, not a flat line at zero,
/// which would claim a quiet bus was observed when nothing was observed at all.
pub fn GetBusLoad(optMeter: Option<&BusLoadMeter>) -> (dto: BusLoadDto)
    ensures
        dto.is_nominal_a_floor,
        match optMeter {
            None => dto.bitrate_bps == 0 && dto.samples@ == Seq::<BusLoadSample>::empty()
                && dto.current is None && dto.peak is None,
            Some(meter) => {
                let list = samples(meter@);
                &&& dto.bitrate_bps == meter@.bitrate
                &&& dto.samples@ == list
                &&& dto.current == if list.len() == 0 {
                    None
                } else {
                    Some(list.last())
                }
                &&& dto.peak == if list.len() <= 1 {
                    None
                } else {
                    Some(list.drop_last()[highest(list.drop_last())])
                }
            },
        },
{
    match optMeter {
        None => BusLoadDto {
            bitrate_bps: 0,
            samples: Vec::new(),
            current: None,
            peak: None,
            is_nominal_a_floor: true,
        },
        Some(meter) => BusLoadDto {
            bitrate_bps: meter.BitrateBps(),
            samples: meter.Samples(),
            current: meter.Current(),
            peak: meter.Peak(),
            is_nominal_a_floor: true,
        },
    }
}

/// Whether a bridge may be started.
pub open spec fn start_decision(
    state: HardwareState,
    body: StartHardwareBody,
    protocol_loaded: bool,
) -> Result<(), ErrorView> {
    if !is_selectable_bitrate(body.bitrate_bps) {
        Err(
            bad_request(
                decimal(body.bitrate_bps as nat)
                    + " bit/s is not a rate an SLCAN adapter can select; use 10000, 20000, 50000, 100000, 125000, 250000, 500000, 800000 or 1000000"@,
            ),
        )
    } else if !protocol_loaded {
        Err(conflict(no_protocol_text()))
    } else if state.m_bIsRunning {
        Err(conflict("already bridging on "@ + state.m_strPortName@ + "; stop it first"@))
    } else {
        Ok(())
    }
}

/// Decide whether a bridge may be started.
pub fn CheckHardwareStart(
    state: &HardwareState,
    body: &StartHardwareBody,
    bProtocolLoaded: bool,
) -> (result: Result<(), ApiError>)
    ensures
        api_outcome(result) == start_decision(*state, *body, bProtocolLoaded),
{
    if !IsSelectableBitrate(body.bitrate_bps) {
        return Err(
            ApiError::BadRequest(
                NumberThen(
                    body.bitrate_bps,
                    " bit/s is not a rate an SLCAN adapter can select; use 10000, 20000, 50000, 100000, 125000, 250000, 500000, 800000 or 1000000",
                ),
            ),
        );
    }
    if !bProtocolLoaded {
        return Err(ApiError::Conflict(NoProtocolText()));
    }
    if state.m_bIsRunning {
        return Err(
            ApiError::Conflict(
                Quoted("already bridging on ", state.m_strPortName.as_str(), "; stop it first"),
            ),
        );
    }
    Ok(())
}

/// What a monitor is told when the simulation goes on the wire.
pub open spec fn on_the_wire_text(body: StartHardwareBody, speed: SerialLinkSpeed) -> Seq<char> {
    "on the wire: "@ + body.port@ + " at "@ + decimal(body.bitrate_bps as nat)
        + " bit/s, host link "@ + decimal(speed.m_u32BaudRate as nat) + " baud ("@
        + speed.m_source.description() + ")"@
}

/// Note that a bridge runs now; gives what a monitor is told.
pub fn NoteBridging(state: &mut HardwareState, body: &StartHardwareBody, linkSpeed: SerialLinkSpeed)
    -> (strWhat: String)
    ensures
        final(state).m_bIsRunning,
        final(state).m_strPortName@ == body.port@,
        final(state).m_u32BitrateBps == body.bitrate_bps,
        final(state).m_optLinkSpeed == Some(linkSpeed),
        strWhat@ == on_the_wire_text(*body, linkSpeed),
{
    let mut strWhat = "on the wire: ".to_string();
    strWhat.append(body.port.as_str());
    strWhat.append(" at ");
    AppendDecimal(&mut strWhat, body.bitrate_bps as u64);
    strWhat.append(" bit/s, host link ");
    AppendDecimal(&mut strWhat, linkSpeed.m_u32BaudRate as u64);
    strWhat.append(" baud (");
    strWhat.append(linkSpeed.m_source.Describe());
    strWhat.append(")");
    state.m_bIsRunning = true;
    state.m_strPortName = body.port.clone();
    state.m_u32BitrateBps = body.bitrate_bps;
    state.m_optLinkSpeed = Some(linkSpeed);
    strWhat
}

/// Note that no bridge runs any more, and forget what it ran on.
pub fn NoteOffTheWire(state: &mut HardwareState)
    ensures
        !final(state).m_bIsRunning,
        final(state).m_strPortName@ == Seq::<char>::empty(),
        final(state).m_u32BitrateBps == 0,
        final(state).m_optLinkSpeed is None,
{
    state.m_bIsRunning = false;
    state.m_strPortName = String::new();
    state.m_u32BitrateBps = 0;
    state.m_optLinkSpeed = None;
}

/// The line speed a status speaks of: that of a running bridge.
pub open spec fn shown_speed(state: HardwareState) -> Option<SerialLinkSpeed> {
    if state.m_bIsRunning {
        state.m_optLinkSpeed
    } else {
        None
    }
}

/// A status that says what the bridge is doing. The counters are those of the running bridge:
/// frames received, frames sent.
pub open spec fn is_status_of(
    dto: HardwareStatusDto,
    state: HardwareState,
    counters: Option<(u64, u64)>,
) -> bool {
    &&& dto.running == state.m_bIsRunning
    &&& text_of(dto.port) == if state.m_bIsRunning {
        Some(state.m_strPortName@)
    } else {
        None
    }
    &&& dto.bitrate_bps == if state.m_bIsRunning {
        Some(state.m_u32BitrateBps)
    } else {
        None
    }
    &&& dto.serial_baud_bps == match shown_speed(state) {
        Some(speed) => Some(speed.m_u32BaudRate),
        None => None,
    }
    &&& text_of(dto.serial_baud_source) == match shown_speed(state) {
        Some(speed) => Some(speed.m_source.description()),
        None => None,
    }
    &&& text_of(dto.adapter_version) == match shown_speed(state) {
        Some(speed) => text_of(speed.m_optStrAdapterVersion),
        None => None,
    }
    &&& dto.frames_received == match counters {
        Some((received, _)) => received,
        None => 0,
    }
    &&& dto.frames_sent == match counters {
        Some((_, sent)) => sent,
        None => 0,
    }
}

/// Describe whatever the bridge is doing.
pub fn BuildStatusDto(state: &HardwareState, optCounters: Option<(u64, u64)>) -> (dto:
    HardwareStatusDto)
    ensures
        is_status_of(dto, *state, optCounters),
{
    let bIsRunning = state.m_bIsRunning;
    let mut optU32BaudRate: Option<u32> = None;
    let mut optStrSource: Option<String> = None;
    let mut optStrVersion: Option<String> = None;
    if bIsRunning {
        if let Some(speed) = &state.m_optLinkSpeed {
            optU32BaudRate = Some(speed.m_u32BaudRate);
            optStrSource = Some(speed.m_source.Describe().to_string());
            optStrVersion = CopyText(&speed.m_optStrAdapterVersion);
        }
    }
    HardwareStatusDto {
        running: bIsRunning,
        port: if bIsRunning {
            Some(state.m_strPortName.clone())
        } else {
            None
        },
        bitrate_bps: if bIsRunning {
            Some(state.m_u32BitrateBps)
        } else {
            None
        },
        serial_baud_bps: optU32BaudRate,
        serial_baud_source: optStrSource,
        adapter_version: optStrVersion,
        frames_received: match optCounters {
            Some((u64Received, _)) => u64Received,
            None => 0,
        },
        frames_sent: match optCounters {
            Some((_, u64Sent)) => u64Sent,
            None => 0,
        },
    }
}

/// A status names a port, a bitrate and a line speed only while something runs on them.
pub proof fn law_a_stopped_bridge_shows_no_wire(
    dto: HardwareStatusDto,
    state: HardwareState,
    counters: Option<(u64, u64)>,
)
    requires
        is_status_of(dto, state, counters),
        !state.m_bIsRunning,
    ensures
        !dto.running,
        dto.port is None,
        dto.bitrate_bps is None,
        dto.serial_baud_bps is None,
        dto.serial_baud_source is None,
        dto.adapter_version is None,
{
}

} // verus!
