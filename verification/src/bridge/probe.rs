//! Finding out how fast the link to an adapter runs, and asking it to run faster.
//!
//! The line speed between the host and a USB-CAN adapter is not the CAN bitrate and is not
//! discoverable from the operating system. The only way to learn it is to talk to the adapter at
//! a candidate speed and see whether it answers sense. What is done with the answers is decided
//! here; opening ports, writing and waiting are not.

use vstd::prelude::*;
use vstd::string::StringExecFns;

use crate::bytes::CopyAll;
use crate::slcan::SlcanLineSpeed;
use crate::text::decimal;
use crate::text::TextWithNumber;
use crate::text::TextWithNumbers;

verus! {

/// Line speeds to try, fastest first. Fastest first is safe because the reply is checked for
/// shape: a UART reading at the wrong speed delivers mangled bytes, which are not a reply.
pub const c_arrCandidateBaudRates: [u32; 7] = [
    1_000_000,
    921_600,
    500_000,
    460_800,
    250_000,
    230_400,
    115_200,
];

/// A line speed to try.
pub open spec fn candidate_baud_rate(i: int) -> u32 {
    c_arrCandidateBaudRates@[i]
}

/// What to fall back to when nothing answers.
pub const c_u32FallbackBaudRate: u32 = 115_200;

/// How long to wait for one candidate to answer, in milliseconds.
pub const c_u64ProbeTimeoutMs: u64 = 150;

/// How long to let an adapter reconfigure its own UART after acknowledging a change, in
/// milliseconds. It acknowledges at the old speed and switches afterwards.
pub const c_u64LineSpeedSettleMs: u64 = 100;

/// How the line speed in use was arrived at.
#[derive(Debug, Clone, Copy, PartialEq, Eq, Structural)]
pub enum BaudRateSource {
    /// The adapter answered at this speed.
    Detected,
    /// The caller named it, and it was not questioned.
    Requested,
    /// Nothing answered at any candidate speed, so the fallback is in use.
    NoAdapterReply,
    /// There is no UART on this link, so the number is meaningless.
    NoRealSerialLine,
}

impl BaudRateSource {
    /// What a source is described as.
    pub open spec fn description(self) -> Seq<char> {
        match self {
            BaudRateSource::Detected => "detected from the adapter"@,
            BaudRateSource::Requested => "set by the operator"@,
            BaudRateSource::NoAdapterReply => "assumed; the adapter did not answer the probe"@,
            BaudRateSource::NoRealSerialLine => "not applicable; this link has no UART"@,
        }
    }

    /// A phrase for a log line or the UI.
    pub fn Describe(self) -> (strPhrase: &'static str)
        ensures
            strPhrase@ == self.description(),
    {
        match self {
            BaudRateSource::Detected => "detected from the adapter",
            BaudRateSource::Requested => "set by the operator",
            BaudRateSource::NoAdapterReply => "assumed; the adapter did not answer the probe",
            BaudRateSource::NoRealSerialLine => "not applicable; this link has no UART",
        }
    }
}

/// The line speed a link will be opened at, and how that was decided.
#[derive(Debug, Clone, PartialEq, Eq)]
pub struct SerialLinkSpeed {
    /// Bits per second between host and adapter. Not the CAN bitrate.
    pub m_u32BaudRate: u32,
    /// Where the number came from.
    pub m_source: BaudRateSource,
    /// What the adapter said when it identified itself, if it did.
    pub m_optStrAdapterVersion: Option<String>,
}

/// The speed the caller asked for, recorded without questioning it.
pub fn RequestedSerialLinkSpeed(u32BaudRate: u32) -> (speed: SerialLinkSpeed)
    ensures
        speed == (SerialLinkSpeed {
            m_u32BaudRate: u32BaudRate,
            m_source: BaudRateSource::Requested,
            m_optStrAdapterVersion: None,
        }),
{
    SerialLinkSpeed {
        m_u32BaudRate: u32BaudRate,
        m_source: BaudRateSource::Requested,
        m_optStrAdapterVersion: None,
    }
}

/// What trying one line speed brought.
#[derive(Debug, Clone, PartialEq, Eq)]
pub enum ProbeReply {
    /// The port could not be opened at that speed.
    CouldNotOpen,
    /// There is no UART on this link.
    NoUart,
    /// The adapter identified itself.
    Version(String),
    /// Nothing sensible came back.
    Nothing,
}

/// What to do after a reply.
#[derive(Debug, Clone, PartialEq, Eq)]
pub enum ProbeStep {
    /// Try this line speed.
    Try { u32BaudRate: u32 },
    /// The speed is decided.
    Decided(SerialLinkSpeed),
}

/// A search for an adapter's line speed. It never fails: refusing to connect over an unanswered
/// probe would be worse than connecting at the fallback speed.
pub struct LinkProbe {
    m_uAt: usize,
}

impl LinkProbe {
    /// Which candidate is being tried.
    pub closed spec fn at(&self) -> int {
        self.m_uAt as int
    }

    /// Start a search: the first line speed to try.
    pub fn New() -> (started: (Self, u32))
        ensures
            started.0.at() == 0,
            started.1 == candidate_baud_rate(0),
    {
        (LinkProbe { m_uAt: 0 }, c_arrCandidateBaudRates[0])
    }

    /// Take what trying the current line speed brought, and decide what comes next.
    pub fn OnReply(&mut self, reply: ProbeReply) -> (step: ProbeStep)
        requires
            0 <= old(self).at() < 7,
        ensures
            match reply {
                ProbeReply::NoUart => step == ProbeStep::Decided(
                    SerialLinkSpeed {
                        m_u32BaudRate: 115_200,
                        m_source: BaudRateSource::NoRealSerialLine,
                        m_optStrAdapterVersion: None,
                    },
                ) && final(self).at() == old(self).at(),
                ProbeReply::Version(version) => step == ProbeStep::Decided(
                    SerialLinkSpeed {
                        m_u32BaudRate: candidate_baud_rate(old(self).at()),
                        m_source: BaudRateSource::Detected,
                        m_optStrAdapterVersion: Some(version),
                    },
                ) && final(self).at() == old(self).at(),
                _ => if old(self).at() + 1 < 7 {
                    step == (ProbeStep::Try {
                        u32BaudRate: candidate_baud_rate(old(self).at() + 1),
                    }) && final(self).at() == old(self).at() + 1
                } else {
                    step == ProbeStep::Decided(
                        SerialLinkSpeed {
                            m_u32BaudRate: 115_200,
                            m_source: BaudRateSource::NoAdapterReply,
                            m_optStrAdapterVersion: None,
                        },
                    ) && final(self).at() == old(self).at()
                },
            },
    {
        match reply {
            ProbeReply::NoUart => ProbeStep::Decided(
                SerialLinkSpeed {
                    m_u32BaudRate: c_u32FallbackBaudRate,
                    m_source: BaudRateSource::NoRealSerialLine,
                    m_optStrAdapterVersion: None,
                },
            ),
            ProbeReply::Version(strVersion) => ProbeStep::Decided(
                SerialLinkSpeed {
                    m_u32BaudRate: c_arrCandidateBaudRates[self.m_uAt],
                    m_source: BaudRateSource::Detected,
                    m_optStrAdapterVersion: Some(strVersion),
                },
            ),
            _ => {
                if self.m_uAt < 6 {
                    self.m_uAt = self.m_uAt + 1;
                    ProbeStep::Try { u32BaudRate: c_arrCandidateBaudRates[self.m_uAt] }
                } else {
                    ProbeStep::Decided(
                        SerialLinkSpeed {
                            m_u32BaudRate: c_u32FallbackBaudRate,
                            m_source: BaudRateSource::NoAdapterReply,
                            m_optStrAdapterVersion: None,
                        },
                    )
                }
            },
        }
    }
}

/// What happened when an adapter was asked to change its own UART speed.
#[derive(Debug, Clone, PartialEq, Eq)]
pub enum LineSpeedChange {
    /// The adapter acknowledged, and answered at the new speed.
    Confirmed { u32BaudRate: u32, strAdapterVersion: String },
    /// The adapter refused: this firmware does not offer that speed. Nothing changed.
    Refused { u32BaudRate: u32 },
    /// The adapter said nothing, so the change could not be confirmed, and the link was put back
    /// the way it was. Guessing wrong would mean talking at the wrong line speed, which delivers
    /// garbage in both directions.
    NotConfirmed { u32BaudRate: u32, u32RevertedToBaudRate: u32 },
    /// There is no UART on this link, so there is nothing to command.
    NoRealSerialLine,
}

impl LineSpeedChange {
    /// What a change is described as.
    pub open spec fn description(&self) -> Seq<char> {
        match self {
            LineSpeedChange::Confirmed { u32BaudRate, strAdapterVersion } =>
                "the adapter is now running at "@ + decimal(*u32BaudRate as nat) + " baud ("@
                + strAdapterVersion@ + ")"@,
            LineSpeedChange::Refused { u32BaudRate } => "the adapter refused "@ + decimal(
                *u32BaudRate as nat,
            ) + " baud; its firmware does not offer it"@,
            LineSpeedChange::NotConfirmed { u32BaudRate, u32RevertedToBaudRate } =>
                "the adapter did not answer at "@ + decimal(*u32BaudRate as nat)
                + " baud, so the link was put back to "@ + decimal(*u32RevertedToBaudRate as nat)
                + "; this adapter cannot confirm a speed change"@,
            LineSpeedChange::NoRealSerialLine =>
                "this link has no UART, so there is no line speed to command"@,
        }
    }

    /// A sentence for a log line or the UI.
    pub fn Describe(&self) -> (strSentence: String)
        ensures
            strSentence@ == self.description(),
    {
        match self {
            LineSpeedChange::Confirmed { u32BaudRate, strAdapterVersion } => {
                let mut strSentence = TextWithNumber(
                    "the adapter is now running at ",
                    *u32BaudRate as u64,
                    " baud (",
                );
                strSentence.append(strAdapterVersion.as_str());
                strSentence.append(")");
                strSentence
            },
            LineSpeedChange::Refused { u32BaudRate } => TextWithNumber(
                "the adapter refused ",
                *u32BaudRate as u64,
                " baud; its firmware does not offer it",
            ),
            LineSpeedChange::NotConfirmed { u32BaudRate, u32RevertedToBaudRate } => TextWithNumbers(
                "the adapter did not answer at ",
                *u32BaudRate as u64,
                " baud, so the link was put back to ",
                *u32RevertedToBaudRate as u64,
                "; this adapter cannot confirm a speed change",
            ),
            LineSpeedChange::NoRealSerialLine =>
                "this link has no UART, so there is no line speed to command".to_string(),
        }
    }

    /// The speed a link ended up at.
    pub open spec fn effective(&self, current: u32) -> u32 {
        match self {
            LineSpeedChange::Confirmed { u32BaudRate, .. } => *u32BaudRate,
            LineSpeedChange::NotConfirmed { u32RevertedToBaudRate, .. } => *u32RevertedToBaudRate,
            _ => current,
        }
    }

    /// The speed the link ended up at, whatever the outcome.
    pub fn EffectiveBaudRate(&self, u32CurrentBaudRate: u32) -> (u32BaudRate: u32)
        ensures
            u32BaudRate == self.effective(u32CurrentBaudRate),
    {
        match self {
            LineSpeedChange::Confirmed { u32BaudRate, .. } => *u32BaudRate,
            LineSpeedChange::Refused { .. } => u32CurrentBaudRate,
            LineSpeedChange::NotConfirmed { u32RevertedToBaudRate, .. } => *u32RevertedToBaudRate,
            LineSpeedChange::NoRealSerialLine => u32CurrentBaudRate,
        }
    }
}

/// What happened on the port since the last step of commanding a line speed.
#[derive(Debug, Clone, PartialEq, Eq)]
pub enum CommandEvent {
    /// A port could not be opened.
    OpenFailed,
    /// The port is open, and has no UART.
    OpenedWithoutUart,
    /// The port is open.
    Opened,
    /// The command could not be written.
    WriteFailed,
    /// The command was written, and this is what the adapter answered, if anything.
    Answered(Option<bool>),
    /// The adapter was asked to identify itself, and this is what it said, if anything.
    Identified(Option<String>),
}

/// What to do next when commanding a line speed.
#[derive(Debug, Clone, PartialEq, Eq)]
pub enum CommandStep {
    /// Open the port at this speed.
    Open { u32BaudRate: u32 },
    /// Write the line speed command and wait for its answer.
    Command,
    /// Close the port, let the adapter settle, and open the port at this speed.
    Reopen { u32BaudRate: u32 },
    /// Ask the adapter to identify itself.
    Identify,
    /// Put the adapter back to the speed it was on, by writing that speed's command at each of
    /// these speeds, and stop with this outcome. First comes the speed it was asked to move to,
    /// because that is where it is if it moved; if it did not move, it is not listening there and
    /// the command is harmlessly lost. There is no command for a speed that the `U` command cannot
    /// name.
    Revert {
        u32FirstBaudRate: u32,
        u32SecondBaudRate: u32,
        optSpeed: Option<SlcanLineSpeed>,
        change: LineSpeedChange,
    },
    /// Stop with this outcome.
    Done(LineSpeedChange),
}

/// Where commanding a line speed has got to.
#[derive(Debug, Clone, Copy, PartialEq, Eq, Structural)]
pub enum CommandPhase {
    /// The port is being opened at the speed in use.
    Opening,
    /// The command has been sent.
    Commanding,
    /// The port is being opened at the new speed.
    Reopening,
    /// The adapter is being asked to identify itself at the new speed.
    Identifying,
    /// It is over.
    Done,
}

/// Asks an adapter to run its UART at another speed, and believes it only if it answers there.
///
/// The adapter acknowledges at the old speed and only then switches, so the answer is read before
/// the port is opened at the new one. If nothing answers there, the adapter is put back.
#[derive(Debug, Clone, Copy, PartialEq, Eq, Structural)]
pub struct LineSpeedCommander {
    pub m_u32CurrentBaudRate: u32,
    pub m_speed: SlcanLineSpeed,
    pub m_phase: CommandPhase,
}

impl LineSpeedCommander {
    /// The change as it is reported when it could not be confirmed.
    pub open spec fn not_confirmed(&self) -> LineSpeedChange {
        LineSpeedChange::NotConfirmed {
            u32BaudRate: self.m_speed.bits_per_second(),
            u32RevertedToBaudRate: self.m_u32CurrentBaudRate,
        }
    }

    /// The phase and step an event leads to. An event that cannot occur in a phase ends the
    /// command unconfirmed.
    pub open spec fn follows(&self, event: CommandEvent, phase: CommandPhase, step: CommandStep) -> bool {
        match (self.m_phase, event) {
            (CommandPhase::Opening, CommandEvent::OpenedWithoutUart) => {
                &&& phase is Done
                &&& step == CommandStep::Done(LineSpeedChange::NoRealSerialLine)
            },
            (CommandPhase::Opening, CommandEvent::Opened) => {
                &&& phase is Commanding
                &&& step is Command
            },
            (CommandPhase::Commanding, CommandEvent::Answered(Some(false))) => {
                &&& phase is Done
                &&& step == CommandStep::Done(
                    LineSpeedChange::Refused { u32BaudRate: self.m_speed.bits_per_second() },
                )
            },
            (CommandPhase::Commanding, CommandEvent::Answered(_)) => {
                &&& phase is Reopening
                &&& step == (CommandStep::Reopen { u32BaudRate: self.m_speed.bits_per_second() })
            },
            (CommandPhase::Reopening, CommandEvent::Opened) => {
                &&& phase is Identifying
                &&& step is Identify
            },
            (CommandPhase::Reopening, CommandEvent::OpenedWithoutUart) => {
                &&& phase is Identifying
                &&& step is Identify
            },
            (CommandPhase::Identifying, CommandEvent::Identified(Some(version))) => {
                &&& phase is Done
                &&& step == CommandStep::Done(
                    LineSpeedChange::Confirmed {
                        u32BaudRate: self.m_speed.bits_per_second(),
                        strAdapterVersion: version,
                    },
                )
            },
            (CommandPhase::Identifying, CommandEvent::Identified(None)) => {
                &&& phase is Done
                &&& step matches CommandStep::Revert {
                    u32FirstBaudRate,
                    u32SecondBaudRate,
                    optSpeed,
                    change,
                }
                &&& u32FirstBaudRate == self.m_speed.bits_per_second()
                &&& u32SecondBaudRate == self.m_u32CurrentBaudRate
                &&& change == self.not_confirmed()
                &&& match optSpeed {
                    Some(speed) => speed.bits_per_second() == self.m_u32CurrentBaudRate,
                    None => forall|s: SlcanLineSpeed|
                        (#[trigger] s.bits_per_second()) != self.m_u32CurrentBaudRate,
                }
            },
            _ => {
                &&& phase is Done
                &&& step == CommandStep::Done(self.not_confirmed())
            },
        }
    }

    /// Start commanding: the port is opened at the speed in use.
    pub fn New(u32CurrentBaudRate: u32, speed: SlcanLineSpeed) -> (started: (Self, CommandStep))
        ensures
            started.0 == (LineSpeedCommander {
                m_u32CurrentBaudRate: u32CurrentBaudRate,
                m_speed: speed,
                m_phase: CommandPhase::Opening,
            }),
            started.1 == (CommandStep::Open { u32BaudRate: u32CurrentBaudRate }),
    {
        (
            LineSpeedCommander {
                m_u32CurrentBaudRate: u32CurrentBaudRate,
                m_speed: speed,
                m_phase: CommandPhase::Opening,
            },
            CommandStep::Open { u32BaudRate: u32CurrentBaudRate },
        )
    }

    /// Take what happened and decide what comes next.
    pub fn OnEvent(&mut self, event: CommandEvent) -> (step: CommandStep)
        ensures
            old(self).follows(event, final(self).m_phase, step),
            final(self).m_u32CurrentBaudRate == old(self).m_u32CurrentBaudRate,
            final(self).m_speed == old(self).m_speed,
    {
        let u32Target: u32 = self.m_speed.ToBitsPerSecond();
        let notConfirmed = LineSpeedChange::NotConfirmed {
            u32BaudRate: u32Target,
            u32RevertedToBaudRate: self.m_u32CurrentBaudRate,
        };
        match (self.m_phase, event) {
            (CommandPhase::Opening, CommandEvent::OpenedWithoutUart) => {
                self.m_phase = CommandPhase::Done;
                CommandStep::Done(LineSpeedChange::NoRealSerialLine)
            },
            (CommandPhase::Opening, CommandEvent::Opened) => {
                self.m_phase = CommandPhase::Commanding;
                CommandStep::Command
            },
            (CommandPhase::Commanding, CommandEvent::Answered(Some(false))) => {
                self.m_phase = CommandPhase::Done;
                CommandStep::Done(LineSpeedChange::Refused { u32BaudRate: u32Target })
            },
            // A mute acknowledgement and a mute adapter are not the same thing, and only the
            // reopened port can tell them apart.
            (CommandPhase::Commanding, CommandEvent::Answered(_)) => {
                self.m_phase = CommandPhase::Reopening;
                CommandStep::Reopen { u32BaudRate: u32Target }
            },
            (CommandPhase::Reopening, CommandEvent::Opened) => {
                self.m_phase = CommandPhase::Identifying;
                CommandStep::Identify
            },
            (CommandPhase::Reopening, CommandEvent::OpenedWithoutUart) => {
                self.m_phase = CommandPhase::Identifying;
                CommandStep::Identify
            },
            (CommandPhase::Identifying, CommandEvent::Identified(Some(strVersion))) => {
                self.m_phase = CommandPhase::Done;
                CommandStep::Done(
                    LineSpeedChange::Confirmed {
                        u32BaudRate: u32Target,
                        strAdapterVersion: strVersion,
                    },
                )
            },
            (CommandPhase::Identifying, CommandEvent::Identified(None)) => {
                self.m_phase = CommandPhase::Done;
                CommandStep::Revert {
                    u32FirstBaudRate: u32Target,
                    u32SecondBaudRate: self.m_u32CurrentBaudRate,
                    optSpeed: SlcanLineSpeed::FromBitsPerSecond(self.m_u32CurrentBaudRate),
                    change: notConfirmed,
                }
            },
            _ => {
                self.m_phase = CommandPhase::Done;
                CommandStep::Done(notConfirmed)
            },
        }
    }
}

/// A link is reported at another speed only when the adapter answered there: whatever the outcome,
/// the effective speed is the one in use before, unless the adapter identified itself at the new
/// one.
pub proof fn law_unconfirmed_change_leaves_the_link(
    commander: LineSpeedCommander,
    event: CommandEvent,
    phase: CommandPhase,
    step: CommandStep,
)
    requires
        commander.follows(event, phase, step),
    ensures
        step matches CommandStep::Done(change) ==> (change.effective(
            commander.m_u32CurrentBaudRate,
        ) == commander.m_u32CurrentBaudRate || (commander.m_phase is Identifying
            && event is Identified)),
        step matches CommandStep::Revert { change, .. } ==> change.effective(
            commander.m_u32CurrentBaudRate,
        ) == commander.m_u32CurrentBaudRate,
{
}

/// The pieces between terminators. There is always one more piece than there are terminators.
pub open spec fn split_lines(received: Seq<u8>) -> Seq<Seq<u8>>
    decreases received.len(),
{
    if received.len() == 0 {
        seq![seq![]]
    } else {
        let before = split_lines(received.drop_last());
        if received.last() == 0x0D {
            before.push(seq![])
        } else {
            before.drop_last().push(before.last().push(received.last()))
        }
    }
}

/// The byte strings of a list.
pub open spec fn line_contents(lines: Seq<Vec<u8>>) -> Seq<Seq<u8>> {
    Seq::new(lines.len(), |i: int| lines[i]@)
}

/// Split what an adapter has sent so far into its lines, in which a reply is looked for. Kept
/// across reads: a reply routinely arrives split in two.
pub fn SplitLines(arrReceived: &[u8]) -> (vecLines: Vec<Vec<u8>>)
    ensures
        line_contents(vecLines@) == split_lines(arrReceived@),
{
    let mut vecLines: Vec<Vec<u8>> = Vec::new();
    let mut vecLine: Vec<u8> = Vec::new();
    let mut uAt: usize = 0;
    assert(arrReceived@.take(0) =~= seq![]);
    assert(line_contents(vecLines@).push(vecLine@) =~= split_lines(arrReceived@.take(0)));
    while uAt < arrReceived.len()
        invariant
            uAt <= arrReceived@.len(),
            line_contents(vecLines@).push(vecLine@) == split_lines(arrReceived@.take(uAt as int)),
        decreases arrReceived@.len() - uAt,
    {
        let ghost lines = line_contents(vecLines@);
        let ghost line = vecLine@;
        let ghost before = split_lines(arrReceived@.take(uAt as int));
        assert(arrReceived@.take(uAt + 1).drop_last() =~= arrReceived@.take(uAt as int));
        assert(before.drop_last() =~= lines);
        assert(before.last() == line);
        let byByte: u8 = arrReceived[uAt];
        if byByte == 0x0D {
            vecLines.push(vecLine);
            vecLine = Vec::new();
            assert(line_contents(vecLines@) =~= lines.push(line));
            assert(vecLine@ =~= seq![]);
        } else {
            vecLine.push(byByte);
        }
        uAt += 1;
        assert(line_contents(vecLines@).push(vecLine@) =~= split_lines(
            arrReceived@.take(uAt as int),
        ));
    }
    assert(arrReceived@.take(uAt as int) =~= arrReceived@);
    let ghost lines = line_contents(vecLines@);
    let ghost line = vecLine@;
    vecLines.push(vecLine);
    assert(line_contents(vecLines@) =~= lines.push(line));
    vecLines
}

/// What to make of what an adapter has sent so far.
#[derive(Debug, Clone, PartialEq, Eq)]
pub enum VersionReading {
    /// It identified itself with this line.
    Identified(Vec<u8>),
    /// Nothing sensible yet.
    KeepReading,
    /// More has come than a reply can be long: noise from the wrong line speed, which is dropped
    /// rather than collected forever.
    GiveUp,
}

/// The first line that is an identity reply, among lines of which it is known whether they are.
pub open spec fn first_identity(verdicts: Seq<bool>) -> Option<int>
    decreases verdicts.len(),
{
    if verdicts.len() == 0 {
        None
    } else {
        match first_identity(verdicts.drop_last()) {
            Some(i) => Some(i),
            None => if verdicts.last() {
                Some(verdicts.len() - 1)
            } else {
                None
            },
        }
    }
}

proof fn lemma_first_identity(verdicts: Seq<bool>, k: int)
    requires
        0 <= k < verdicts.len(),
        verdicts[k],
        forall|i: int| 0 <= i < k ==> !#[trigger] verdicts[i],
    ensures
        first_identity(verdicts) == Some(k),
    decreases verdicts.len(),
{
    if k < verdicts.len() - 1 {
        lemma_first_identity(verdicts.drop_last(), k);
    } else {
        lemma_no_identity(verdicts.drop_last());
    }
}

proof fn lemma_no_identity(verdicts: Seq<bool>)
    requires
        forall|i: int| 0 <= i < verdicts.len() ==> !#[trigger] verdicts[i],
    ensures
        first_identity(verdicts) is None,
    decreases verdicts.len(),
{
    if verdicts.len() > 0 {
        lemma_no_identity(verdicts.drop_last());
        assert(!verdicts[verdicts.len() - 1]);
    }
}

/// Decide what to make of what an adapter has sent so far. Of each of its lines it is known
/// whether it is an identity reply. Looked at across reads, not within one: a reply that arrives
/// split in two is a reply.
pub fn JudgeReceived(arrReceived: &[u8], arrIsIdentity: &[bool], uMaxLineLength: usize) -> (reading:
    VersionReading)
    requires
        arrIsIdentity@.len() == split_lines(arrReceived@).len(),
    ensures
        match reading {
            VersionReading::Identified(line) => first_identity(arrIsIdentity@) matches Some(i)
                && line@ == split_lines(arrReceived@)[i],
            VersionReading::KeepReading => first_identity(arrIsIdentity@) is None
                && arrReceived@.len() <= uMaxLineLength,
            VersionReading::GiveUp => first_identity(arrIsIdentity@) is None && arrReceived@.len()
                > uMaxLineLength,
        },
{
    let mut uAt: usize = 0;
    while uAt < arrIsIdentity.len()
        invariant
            uAt <= arrIsIdentity@.len(),
            arrIsIdentity@.len() == split_lines(arrReceived@).len(),
            forall|i: int| 0 <= i < uAt ==> !#[trigger] arrIsIdentity@[i],
        decreases arrIsIdentity@.len() - uAt,
    {
        if arrIsIdentity[uAt] {
            proof {
                lemma_first_identity(arrIsIdentity@, uAt as int);
            }
            let vecLines = SplitLines(arrReceived);
            assert(line_contents(vecLines@)[uAt as int] == vecLines@[uAt as int]@);
            return VersionReading::Identified(CopyAll(vecLines[uAt].as_slice()));
        }
        uAt += 1;
    }
    proof {
        lemma_no_identity(arrIsIdentity@);
    }
    if arrReceived.len() > uMaxLineLength {
        VersionReading::GiveUp
    } else {
        VersionReading::KeepReading
    }
}

} // verus!
