//! The parts of the SLCAN serial protocol that decide something: which rates its commands can
//! name, and what an adapter's answer to a command means.

use vstd::prelude::*;

verus! {

/// What ends an SLCAN line, and what an adapter acknowledges a command with.
pub const c_byTerminator: u8 = 0x0D;

/// What an adapter refuses a command with.
pub const c_byBell: u8 = 0x07;

/// A line speed between host and adapter that the `U` command can select.
#[derive(Debug, Clone, Copy, PartialEq, Eq, Structural)]
pub enum SlcanLineSpeed {
    Baud230400,
    Baud115200,
    Baud57600,
    Baud38400,
    Baud19200,
    Baud9600,
    Baud2400,
}

impl SlcanLineSpeed {
    /// A speed in bits per second.
    pub open spec fn bits_per_second(self) -> u32 {
        match self {
            SlcanLineSpeed::Baud230400 => 230_400,
            SlcanLineSpeed::Baud115200 => 115_200,
            SlcanLineSpeed::Baud57600 => 57_600,
            SlcanLineSpeed::Baud38400 => 38_400,
            SlcanLineSpeed::Baud19200 => 19_200,
            SlcanLineSpeed::Baud9600 => 9_600,
            SlcanLineSpeed::Baud2400 => 2_400,
        }
    }

    /// The digit the `U` command names a speed with.
    pub open spec fn command_digit(self) -> char {
        match self {
            SlcanLineSpeed::Baud230400 => '0',
            SlcanLineSpeed::Baud115200 => '1',
            SlcanLineSpeed::Baud57600 => '2',
            SlcanLineSpeed::Baud38400 => '3',
            SlcanLineSpeed::Baud19200 => '4',
            SlcanLineSpeed::Baud9600 => '5',
            SlcanLineSpeed::Baud2400 => '6',
        }
    }

    /// This speed in bits per second.
    pub fn ToBitsPerSecond(self) -> (u32BaudRate: u32)
        ensures
            u32BaudRate == self.bits_per_second(),
    {
        match self {
            SlcanLineSpeed::Baud230400 => 230_400,
            SlcanLineSpeed::Baud115200 => 115_200,
            SlcanLineSpeed::Baud57600 => 57_600,
            SlcanLineSpeed::Baud38400 => 38_400,
            SlcanLineSpeed::Baud19200 => 19_200,
            SlcanLineSpeed::Baud9600 => 9_600,
            SlcanLineSpeed::Baud2400 => 2_400,
        }
    }

    /// The digit the `U` command names this speed with.
    pub fn ToCommandDigit(self) -> (cDigit: char)
        ensures
            cDigit == self.command_digit(),
    {
        match self {
            SlcanLineSpeed::Baud230400 => '0',
            SlcanLineSpeed::Baud115200 => '1',
            SlcanLineSpeed::Baud57600 => '2',
            SlcanLineSpeed::Baud38400 => '3',
            SlcanLineSpeed::Baud19200 => '4',
            SlcanLineSpeed::Baud9600 => '5',
            SlcanLineSpeed::Baud2400 => '6',
        }
    }

    /// The speed with this rate, or `None` for one the command cannot name. Nothing is rounded: an
    /// operator told that a link is faster than it is would look for losses in the wrong place.
    pub fn FromBitsPerSecond(u32BaudRate: u32) -> (optSpeed: Option<Self>)
        ensures
            match optSpeed {
                Some(speed) => speed.bits_per_second() == u32BaudRate,
                None => forall|s: SlcanLineSpeed| (#[trigger] s.bits_per_second()) != u32BaudRate,
            },
    {
        match u32BaudRate {
            230_400 => Some(SlcanLineSpeed::Baud230400),
            115_200 => Some(SlcanLineSpeed::Baud115200),
            57_600 => Some(SlcanLineSpeed::Baud57600),
            38_400 => Some(SlcanLineSpeed::Baud38400),
            19_200 => Some(SlcanLineSpeed::Baud19200),
            9_600 => Some(SlcanLineSpeed::Baud9600),
            2_400 => Some(SlcanLineSpeed::Baud2400),
            _ => None,
        }
    }
}

/// The command that sets an adapter's line speed.
pub fn LineSpeedCommand(speed: SlcanLineSpeed) -> (strCommand: String)
    ensures
        strCommand@ == seq!['U', speed.command_digit(), '\r'],
{
    let mut strCommand = String::new();
    strCommand.push('U');
    strCommand.push(speed.ToCommandDigit());
    strCommand.push('\r');
    assert(strCommand@ =~= seq!['U', speed.command_digit(), '\r']);
    strCommand
}

/// The CAN bitrates an adapter can select.
pub open spec fn is_selectable_bitrate(bitrate: u32) -> bool {
    ||| bitrate == 10_000
    ||| bitrate == 20_000
    ||| bitrate == 50_000
    ||| bitrate == 100_000
    ||| bitrate == 125_000
    ||| bitrate == 250_000
    ||| bitrate == 500_000
    ||| bitrate == 800_000
    ||| bitrate == 1_000_000
}

/// Whether an adapter can select a CAN bitrate.
pub fn IsSelectableBitrate(u32BitrateBps: u32) -> (bIsSelectable: bool)
    ensures
        bIsSelectable == is_selectable_bitrate(u32BitrateBps),
{
    u32BitrateBps == 10_000 || u32BitrateBps == 20_000 || u32BitrateBps == 50_000 || u32BitrateBps
        == 100_000 || u32BitrateBps == 125_000 || u32BitrateBps == 250_000 || u32BitrateBps
        == 500_000 || u32BitrateBps == 800_000 || u32BitrateBps == 1_000_000
}

/// The answer among some bytes: the first that is an acknowledgement or a refusal. Nothing yet is
/// neither.
pub open spec fn acknowledgement(received: Seq<u8>) -> Option<bool>
    decreases received.len(),
{
    if received.len() == 0 {
        None
    } else {
        match acknowledgement(received.drop_last()) {
            Some(accepted) => Some(accepted),
            None => if received.last() == 0x0D {
                Some(true)
            } else if received.last() == 0x07 {
                Some(false)
            } else {
                None
            },
        }
    }
}

proof fn lemma_acknowledgement_stays(received: Seq<u8>, upto: int)
    requires
        0 <= upto <= received.len(),
        acknowledgement(received.take(upto)) is Some,
    ensures
        acknowledgement(received) == acknowledgement(received.take(upto)),
    decreases received.len() - upto,
{
    if upto == received.len() {
        assert(received.take(upto) =~= received);
    } else {
        assert(received.take(upto + 1).drop_last() =~= received.take(upto));
        lemma_acknowledgement_stays(received, upto + 1);
    }
}

/// Read an adapter's answer to a command: accepted, refused, or nothing yet. A refusal still
/// counts when it arrives behind leftover noise.
pub fn ReadAcknowledgement(arrReceived: &[u8]) -> (optAccepted: Option<bool>)
    ensures
        optAccepted == acknowledgement(arrReceived@),
{
    let mut uAt: usize = 0;
    assert(arrReceived@.take(0) =~= seq![]);
    while uAt < arrReceived.len()
        invariant
            uAt <= arrReceived@.len(),
            acknowledgement(arrReceived@.take(uAt as int)) is None,
        decreases arrReceived@.len() - uAt,
    {
        assert(arrReceived@.take(uAt + 1).drop_last() =~= arrReceived@.take(uAt as int));
        if arrReceived[uAt] == c_byTerminator {
            proof {
                lemma_acknowledgement_stays(arrReceived@, uAt + 1);
            }
            return Some(true);
        }
        if arrReceived[uAt] == c_byBell {
            proof {
                lemma_acknowledgement_stays(arrReceived@, uAt + 1);
            }
            return Some(false);
        }
        uAt += 1;
    }
    assert(arrReceived@.take(uAt as int) =~= arrReceived@);
    None
}

/// An answer, once there is one, does not change when more bytes arrive.
pub proof fn law_acknowledgement_is_final(received: Seq<u8>, more: Seq<u8>)
    requires
        acknowledgement(received) is Some,
    ensures
        acknowledgement(received + more) == acknowledgement(received),
{
    assert((received + more).take(received.len() as int) =~= received);
    lemma_acknowledgement_stays(received + more, received.len() as int);
}

} // verus!
