//! How numbers and bytes are written, and how texts are ordered.

use vstd::prelude::*;

use crate::bytes::be16_at;
use crate::bytes::be32_at;
use crate::bytes::le16_at;
use crate::bytes::le32_at;
use crate::order::in_order;
use crate::order::text_before;
use crate::order::text_numbers;
use crate::text::can_id_text;
use crate::text::digit;
use crate::text::hex;
use crate::text::hex_bytes;
use crate::text::hex_number;
use crate::text::hex_value;
use crate::text::hexadecimal;
use crate::text::lower_digit;
use crate::text::lower_hexadecimal;

verus! {

/// A digit as it is written in capitals.
pub open spec fn is_capital_digit(c: char) -> bool {
    '0' <= c <= '9' || 'A' <= c <= 'F'
}

proof fn lemma_hexadecimal_digits(n: nat)
    ensures
        hexadecimal(n).len() > 0,
        forall|i: int|
            0 <= i < hexadecimal(n).len() ==> is_capital_digit(#[trigger] hexadecimal(n)[i]),
        n > 0 ==> hexadecimal(n)[0] != '0',
        hexadecimal(n).last() == digit((n % 16) as int),
    decreases n,
{
    if n >= 16 {
        lemma_hexadecimal_digits(n / 16);
    }
}

/// Numbers are written in capital hexadecimal digits, at least as many as asked for, and with no
/// zero in front where there are more.
pub proof fn law_numbers_are_written_in_capitals(n: nat, width: nat)
    ensures
        hex(n, width).len() >= width,
        forall|i: int| 0 <= i < hex(n, width).len() ==> is_capital_digit(#[trigger] hex(n, width)[i]),
        hex(n, width).len() > width && n > 0 ==> hex(n, width)[0] != '0',
{
    lemma_hexadecimal_digits(n);
}

proof fn lemma_few_digits(n: nat)
    ensures
        n < 0x10 ==> hexadecimal(n).len() == 1,
        n < 0x100 ==> hexadecimal(n).len() <= 2,
        n < 0x1000 ==> hexadecimal(n).len() <= 3,
        n < 0x1_0000_0000 ==> hexadecimal(n).len() <= 8,
{
    reveal_with_fuel(hexadecimal, 9);
}

/// An identifier of eleven bits is written with three digits, a longer one with eight.
pub proof fn law_identifiers_have_a_fixed_width(id: u32)
    ensures
        id <= 0x7FF ==> can_id_text(id).len() == 3,
        id > 0x7FF ==> can_id_text(id).len() == 8,
{
    lemma_few_digits(id as nat);
}

proof fn lemma_byte_digits(b: u8)
    ensures
        hex(b as nat, 2).len() == 2,
        hex_value(hex(b as nat, 2)[0]) == Some((b as nat) / 16),
        hex_value(hex(b as nat, 2)[1]) == Some((b as nat) % 16),
{
    reveal_with_fuel(hexadecimal, 3);
}

/// Bytes are written as two digits each with a space between, the upper four bits first.
pub proof fn law_bytes_are_written_in_pairs(bytes: Seq<u8>, i: int)
    requires
        0 <= i < bytes.len(),
    ensures
        hex_bytes(bytes).len() == 3 * bytes.len() - 1,
        hex_value(hex_bytes(bytes)[3 * i]) == Some((bytes[i] as nat) / 16),
        hex_value(hex_bytes(bytes)[3 * i + 1]) == Some((bytes[i] as nat) % 16),
        i < bytes.len() - 1 ==> hex_bytes(bytes)[3 * i + 2] == ' ',
    decreases bytes.len(),
{
    let last = bytes.len() - 1;
    lemma_byte_digits(bytes[last]);
    if bytes.len() > 1 {
        let front = bytes.drop_last();
        let before = hex_bytes(front);
        let text = hex_bytes(bytes);
        law_bytes_are_written_in_pairs(front, if i < last {
            i
        } else {
            0
        });
        assert(text == before + seq![' '] + hex(bytes[last] as nat, 2));
        if i < last {
            assert(front[i] == bytes[i]);
            assert(text[3 * i] == before[3 * i] && text[3 * i + 1] == before[3 * i + 1]);
            if i < last - 1 {
                assert(text[3 * i + 2] == before[3 * i + 2]);
            }
        }
    }
}

/// In small letters a number reads back as itself too, and is written without zeros in front.
pub proof fn law_numbers_in_small_letters(n: nat)
    ensures
        lower_hexadecimal(n).len() > 0,
        hex_number(lower_hexadecimal(n)) == Some(n),
        forall|i: int|
            0 <= i < lower_hexadecimal(n).len() ==> '0' <= (#[trigger] lower_hexadecimal(n)[i])
                <= '9' || 'a' <= lower_hexadecimal(n)[i] <= 'f',
        n > 0 ==> lower_hexadecimal(n)[0] != '0',
    decreases n,
{
    let text = lower_hexadecimal(n);
    if n >= 16 {
        law_numbers_in_small_letters(n / 16);
        assert(text.drop_last() =~= lower_hexadecimal(n / 16));
        assert(text.last() == lower_digit((n % 16) as int));
    } else {
        assert(text.drop_last() =~= seq![]);
        assert(hex_number(seq![]) == Some(0nat));
    }
}

proof fn lemma_shared_front(front: Seq<nat>, a: Seq<nat>, b: Seq<nat>)
    ensures
        in_order(front + a, front + b) == in_order(a, b),
    decreases front.len(),
{
    if front.len() == 0 {
        assert(front + a =~= a);
        assert(front + b =~= b);
    } else {
        lemma_shared_front(front.skip(1), a, b);
        assert((front + a).skip(1) =~= front.skip(1) + a);
        assert((front + b).skip(1) =~= front.skip(1) + b);
    }
}

/// The first character in which two texts differ decides which comes first; where one is the
/// beginning of the other, it does.
pub proof fn law_the_first_difference_decides(
    front: Seq<char>,
    x: char,
    y: char,
    a: Seq<char>,
    b: Seq<char>,
)
    ensures
        x < y ==> text_before(front + seq![x] + a, front + seq![y] + b),
        x < y ==> !text_before(front + seq![y] + b, front + seq![x] + a),
        text_before(front, front + seq![x] + a),
        !text_before(front, front),
{
    let one = front + seq![x] + a;
    let two = front + seq![y] + b;
    let shared = text_numbers(front);
    let tail_one = seq![x as nat] + text_numbers(a);
    let tail_two = seq![y as nat] + text_numbers(b);
    assert(text_numbers(one) =~= shared + tail_one);
    assert(text_numbers(two) =~= shared + tail_two);
    lemma_shared_front(shared, tail_one, tail_two);
    lemma_shared_front(shared, tail_two, tail_one);
    assert(shared =~= shared + Seq::<nat>::empty());
    lemma_shared_front(shared, Seq::<nat>::empty(), tail_one);
    assert(one[front.len() as int] == x && two[front.len() as int] == y);
    assert(one.len() > front.len());
}

/// A number written the other way round is read from the same bytes the other way round.
pub proof fn law_the_two_byte_orders_mirror_each_other(data: Seq<u8>, at: int)
    requires
        0 <= at,
        at + 4 <= data.len(),
    ensures
        le32_at(data, at) == be32_at(data.subrange(at, at + 4).reverse(), 0),
        le16_at(data, at) == be16_at(data.subrange(at, at + 2).reverse(), 0),
        be32_at(data, at) == 65536 * be16_at(data, at) + be16_at(data, at + 2),
        be16_at(data, at) == 256 * data[at] + data[at + 1],
{
}

} // verus!
