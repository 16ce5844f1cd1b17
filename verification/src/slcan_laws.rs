//! What an SLCAN adapter is told and how its answers are read.

use vstd::prelude::*;

use crate::slcan::acknowledgement;
use crate::slcan::SlcanLineSpeed;

verus! {

/// The answer is the first byte that is one: a carriage return accepts, a bell refuses, and as long
/// as neither has come there is no answer.
pub proof fn law_the_first_answer_counts(received: Seq<u8>)
    ensures
        match acknowledgement(received) {
            Some(accepted) => exists|i: int|
                0 <= i < received.len() && #[trigger] received[i] == (if accepted {
                    0x0Du8
                } else {
                    0x07u8
                }) && (forall|j: int|
                    0 <= j < i ==> (#[trigger] received[j]) != 0x0D && received[j] != 0x07),
            None => forall|j: int|
                0 <= j < received.len() ==> (#[trigger] received[j]) != 0x0D && received[j] != 0x07,
        },
    decreases received.len(),
{
    if received.len() > 0 {
        let front = received.drop_last();
        law_the_first_answer_counts(front);
        assert(forall|j: int| 0 <= j < front.len() ==> #[trigger] received[j] == front[j]);
        match acknowledgement(front) {
            Some(accepted) => {
                let i = choose|i: int|
                    0 <= i < front.len() && #[trigger] front[i] == (if accepted {
                        0x0Du8
                    } else {
                        0x07u8
                    }) && (forall|j: int|
                        0 <= j < i ==> (#[trigger] front[j]) != 0x0D && front[j] != 0x07);
                assert(received[i] == front[i]);
                assert forall|j: int| 0 <= j < i implies (#[trigger] received[j]) != 0x0D
                    && received[j] != 0x07 by {
                    assert(front[j] == received[j]);
                }
            },
            None => {
                let last = received.len() - 1;
                assert(received[last] == received.last());
                assert forall|j: int| 0 <= j < last implies (#[trigger] received[j]) != 0x0D
                    && received[j] != 0x07 by {
                    assert(front[j] == received[j]);
                }
            },
        }
    }
}

/// The digits of the line-speed command count down from the fastest: of two speeds the one with
/// the higher digit is the slower, from 230400 under 0 to 2400 under 6.
pub proof fn law_higher_digits_are_slower(a: SlcanLineSpeed, b: SlcanLineSpeed)
    ensures
        a.command_digit() < b.command_digit() <==> a.bits_per_second() > b.bits_per_second(),
        a.command_digit() == b.command_digit() ==> a == b,
        a.bits_per_second() == b.bits_per_second() ==> a == b,
        '0' <= a.command_digit() <= '6',
        a.command_digit() == '0' ==> a.bits_per_second() == 230_400,
        a.command_digit() == '1' ==> a.bits_per_second() == 115_200,
        a.command_digit() == '2' ==> a.bits_per_second() == 57_600,
        a.command_digit() == '3' ==> a.bits_per_second() == 38_400,
        a.command_digit() == '4' ==> a.bits_per_second() == 19_200,
        a.command_digit() == '5' ==> a.bits_per_second() == 9_600,
        a.command_digit() == '6' ==> a.bits_per_second() == 2_400,
{
}

} // verus!
