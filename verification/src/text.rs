//! Text building blocks: decimal and hexadecimal numerals, and the parsing of hexadecimal text.

use vstd::prelude::*;
use vstd::string::StringExecFns;

verus! {

/// `String::push` appends one character to the end of a string.
pub assume_specification[ String::push ](text: &mut String, c: char)
    ensures
        final(text)@ == old(text)@.push(c),
;

/// The upper-case digit of a number below sixteen.
pub open spec fn digit(n: int) -> char {
    if n < 10 {
        (48 + n) as char
    } else {
        (55 + n) as char
    }
}

/// A number in decimal.
pub open spec fn decimal(n: nat) -> Seq<char>
    decreases n,
{
    if n < 10 {
        seq![digit(n as int)]
    } else {
        decimal(n / 10).push(digit((n % 10) as int))
    }
}

/// A number in upper-case hexadecimal, without leading zeros.
pub open spec fn hexadecimal(n: nat) -> Seq<char>
    decreases n,
{
    if n < 16 {
        seq![digit(n as int)]
    } else {
        hexadecimal(n / 16).push(digit((n % 16) as int))
    }
}

/// Text filled up with leading zeros to a least width.
pub open spec fn zero_filled(text: Seq<char>, width: nat) -> Seq<char> {
    if text.len() < width {
        Seq::new((width - text.len()) as nat, |i: int| '0') + text
    } else {
        text
    }
}

/// A number in upper-case hexadecimal, with leading zeros up to a least width.
pub open spec fn hex(n: nat, width: nat) -> Seq<char> {
    zero_filled(hexadecimal(n), width)
}

/// The digit of a number below sixteen.
fn Digit(u8Value: u8) -> (c: char)
    requires
        u8Value < 16,
    ensures
        c == digit(u8Value as int),
{
    if u8Value < 10 {
        (48 + u8Value) as char
    } else {
        (55 + u8Value) as char
    }
}

/// Appends a number in decimal.
pub(crate) fn AppendDecimal(text: &mut String, u64Value: u64)
    ensures
        final(text)@ == old(text)@ + decimal(u64Value as nat),
    decreases u64Value,
{
    if u64Value >= 10 {
        AppendDecimal(text, u64Value / 10);
    }
    text.push(Digit((u64Value % 10) as u8));
    assert(text@ =~= old(text)@ + decimal(u64Value as nat));
}

/// Appends a number in upper-case hexadecimal with at least the given number of digits.
pub(crate) fn AppendHex(text: &mut String, u64Value: u64, uWidth: usize)
    ensures
        final(text)@ == old(text)@ + hex(u64Value as nat, uWidth as nat),
    decreases u64Value,
{
    let ghost before = text@;
    if u64Value < 16 {
        let mut uZeros: usize = 1;
        while uZeros < uWidth
            invariant
                1 <= uZeros,
                uZeros <= uWidth || uZeros == 1,
                text@ == before + Seq::new((uZeros - 1) as nat, |i: int| '0'),
            decreases uWidth - uZeros,
        {
            text.push('0');
            uZeros = uZeros + 1;
            assert(text@ =~= before + Seq::new((uZeros - 1) as nat, |i: int| '0'));
        }
        text.push(Digit(u64Value as u8));
        assert(text@ =~= before + hex(u64Value as nat, uWidth as nat));
    } else {
        let uShorter: usize = if uWidth > 0 {
            uWidth - 1
        } else {
            0
        };
        AppendHex(text, u64Value / 16, uShorter);
        text.push(Digit((u64Value % 16) as u8));
        assert(text@ =~= before + hex(u64Value as nat, uWidth as nat));
    }
}

/// The lower-case digit of a number below sixteen.
pub open spec fn lower_digit(n: int) -> char {
    if n < 10 {
        (48 + n) as char
    } else {
        (87 + n) as char
    }
}

/// A number in lower-case hexadecimal, without leading zeros.
pub open spec fn lower_hexadecimal(n: nat) -> Seq<char>
    decreases n,
{
    if n < 16 {
        seq![lower_digit(n as int)]
    } else {
        lower_hexadecimal(n / 16).push(lower_digit((n % 16) as int))
    }
}

/// Appends a number in lower-case hexadecimal.
pub(crate) fn AppendLowerHex(text: &mut String, u64Value: u64)
    ensures
        final(text)@ == old(text)@ + lower_hexadecimal(u64Value as nat),
    decreases u64Value,
{
    if u64Value >= 16 {
        AppendLowerHex(text, u64Value / 16);
    }
    let u8Digit: u8 = (u64Value % 16) as u8;
    if u8Digit < 10 {
        text.push((48 + u8Digit) as char);
    } else {
        text.push((87 + u8Digit) as char);
    }
    assert(text@ =~= old(text)@ + lower_hexadecimal(u64Value as nat));
}

/// Text with a decimal number in the middle.
pub(crate) fn TextWithNumber(strBefore: &str, u64Value: u64, strAfter: &str) -> (strText: String)
    ensures
        strText@ == strBefore@ + decimal(u64Value as nat) + strAfter@,
{
    let mut strText = strBefore.to_string();
    AppendDecimal(&mut strText, u64Value);
    strText.append(strAfter);
    strText
}

/// Text with two decimal numbers in it.
pub(crate) fn TextWithNumbers(
    strBefore: &str,
    u64First: u64,
    strBetween: &str,
    u64Second: u64,
    strAfter: &str,
) -> (strText: String)
    ensures
        strText@ == strBefore@ + decimal(u64First as nat) + strBetween@ + decimal(u64Second as nat)
            + strAfter@,
{
    let mut strText = TextWithNumber(strBefore, u64First, strBetween);
    AppendDecimal(&mut strText, u64Second);
    strText.append(strAfter);
    strText
}

/// The value of a hexadecimal digit in either case.
pub open spec fn hex_value(c: char) -> Option<nat> {
    if '0' <= c <= '9' {
        Some((c as nat - 48) as nat)
    } else if 'A' <= c <= 'F' {
        Some((c as nat - 55) as nat)
    } else if 'a' <= c <= 'f' {
        Some((c as nat - 87) as nat)
    } else {
        None
    }
}

/// The number a run of hexadecimal digits stands for; `None` when one of them is no digit.
pub open spec fn hex_number(digits: Seq<char>) -> Option<nat>
    decreases digits.len(),
{
    if digits.len() == 0 {
        Some(0)
    } else {
        match (hex_number(digits.drop_last()), hex_value(digits.last())) {
            (Some(high), Some(low)) => Some(high * 16 + low),
            _ => None,
        }
    }
}

/// The number hexadecimal text stands for: an optional leading `+`, then one or more digits.
pub open spec fn parsed_hex(text: Seq<char>) -> Option<nat> {
    let digits = if text.len() > 1 && text[0] == '+' {
        text.skip(1)
    } else {
        text
    };
    if digits.len() == 0 {
        None
    } else {
        hex_number(digits)
    }
}

/// The value of a hexadecimal digit in either case.
fn HexValue(c: char) -> (optU8Value: Option<u8>)
    ensures
        match optU8Value {
            Some(n) => hex_value(c) == Some(n as nat) && n < 16,
            None => hex_value(c) is None,
        },
{
    if '0' <= c && c <= '9' {
        Some((c as u32 - 48) as u8)
    } else if 'A' <= c && c <= 'F' {
        Some((c as u32 - 55) as u8)
    } else if 'a' <= c && c <= 'f' {
        Some((c as u32 - 87) as u8)
    } else {
        None
    }
}

proof fn lemma_hex_number_grows(digits: Seq<char>, k: int)
    requires
        0 <= k <= digits.len(),
        hex_number(digits) is Some,
    ensures
        hex_number(digits.take(k)) is Some,
        hex_number(digits.take(k))->0 <= hex_number(digits)->0,
    decreases digits.len(),
{
    if k < digits.len() {
        assert(digits.drop_last().take(k) =~= digits.take(k));
        lemma_hex_number_grows(digits.drop_last(), k);
    } else {
        assert(digits.take(k) =~= digits);
    }
}

/// Reads hexadecimal text that stands for a number up to the given maximum.
pub(crate) fn ParseHexNumber(vecText: &Vec<char>, u64Max: u64) -> (optU64Value: Option<u64>)
    requires
        u64Max <= 0xFFFF_FFFF,
    ensures
        match optU64Value {
            Some(n) => parsed_hex(vecText@) == Some(n as nat) && n <= u64Max,
            None => parsed_hex(vecText@) is None || parsed_hex(vecText@)->0 > u64Max,
        },
{
    let uStart: usize = if vecText.len() > 1 && vecText[0] == '+' {
        1
    } else {
        0
    };
    let ghost digits = vecText@.skip(uStart as int);
    proof {
        if uStart == 0 {
            assert(digits =~= vecText@);
        }
    }
    if uStart == vecText.len() {
        return None;
    }
    let mut u64Value: u64 = 0;
    let mut uIndex: usize = uStart;
    assert(digits.take(0) =~= seq![]);
    while uIndex < vecText.len()
        invariant
            uStart <= uIndex <= vecText@.len(),
            digits == vecText@.skip(uStart as int),
            hex_number(digits.take(uIndex - uStart)) == Some(u64Value as nat),
            u64Value <= u64Max <= 0xFFFF_FFFF,
            parsed_hex(vecText@) == hex_number(digits),
        decreases vecText@.len() - uIndex,
    {
        let ghost upto = digits.take(uIndex - uStart + 1);
        assert(upto.drop_last() =~= digits.take(uIndex - uStart));
        assert(upto.last() == vecText@[uIndex as int]);
        match HexValue(vecText[uIndex]) {
            None => {
                proof {
                    if hex_number(digits) is Some {
                        lemma_hex_number_grows(digits, uIndex - uStart + 1);
                    }
                }
                return None;
            },
            Some(u8Digit) => {
                u64Value = u64Value * 16 + u8Digit as u64;
                if u64Value > u64Max {
                    proof {
                        if hex_number(digits) is Some {
                            lemma_hex_number_grows(digits, uIndex - uStart + 1);
                        }
                    }
                    return None;
                }
            },
        }
        uIndex = uIndex + 1;
    }
    assert(digits.take(uIndex - uStart) =~= digits);
    Some(u64Value)
}

/// The characters of a string.
pub(crate) fn Characters(strText: &str) -> (vecCharacters: Vec<char>)
    ensures
        vecCharacters@ == strText@,
{
    let mut vecCharacters: Vec<char> = Vec::new();
    for c in itCharacters: strText.chars()
        invariant
            itCharacters.seq() == strText@,
            vecCharacters@ == itCharacters.seq().take(itCharacters.index()),
    {
        vecCharacters.push(c);
        assert(itCharacters.seq().take(itCharacters.index() + 1) =~= itCharacters.seq().take(
            itCharacters.index(),
        ).push(c));
    }
    assert(strText@.take(strText@.len() as int) =~= strText@);
    vecCharacters
}

/// A string made of the given characters.
pub(crate) fn FromCharacters(vecCharacters: &Vec<char>) -> (strText: String)
    ensures
        strText@ == vecCharacters@,
{
    let mut strText = String::new();
    let mut uIndex: usize = 0;
    while uIndex < vecCharacters.len()
        invariant
            uIndex <= vecCharacters@.len(),
            strText@ == vecCharacters@.take(uIndex as int),
        decreases vecCharacters@.len() - uIndex,
    {
        strText.push(vecCharacters[uIndex]);
        uIndex = uIndex + 1;
        assert(vecCharacters@.take(uIndex as int) =~= vecCharacters@.take(uIndex - 1).push(
            vecCharacters@[uIndex - 1],
        ));
    }
    assert(vecCharacters@.take(uIndex as int) =~= vecCharacters@);
    strText
}

/// Whether two texts are the same.
pub(crate) fn SameText(strLeft: &str, strRight: &str) -> (bSame: bool)
    ensures
        bSame == (strLeft@ == strRight@),
{
    strLeft.to_string() == strRight.to_string()
}

/// Bytes as space-separated upper-case hexadecimal pairs.
pub open spec fn hex_bytes(bytes: Seq<u8>) -> Seq<char>
    decreases bytes.len(),
{
    if bytes.len() == 0 {
        seq![]
    } else if bytes.len() == 1 {
        hex(bytes[0] as nat, 2)
    } else {
        hex_bytes(bytes.drop_last()) + seq![' '] + hex(bytes.last() as nat, 2)
    }
}

/// Space-separated upper-case hexadecimal, the form every byte string is shown in.
pub fn FormatHexBytes(vecBytes: &[u8]) -> (strText: String)
    ensures
        strText@ == hex_bytes(vecBytes@),
{
    let mut strText = String::new();
    let mut uIndex: usize = 0;
    assert(vecBytes@.take(0) =~= seq![]);
    while uIndex < vecBytes.len()
        invariant
            uIndex <= vecBytes@.len(),
            strText@ == hex_bytes(vecBytes@.take(uIndex as int)),
        decreases vecBytes@.len() - uIndex,
    {
        let ghost upto = vecBytes@.take(uIndex + 1);
        let ghost shown = strText@;
        assert(upto.drop_last() =~= vecBytes@.take(uIndex as int));
        if uIndex > 0 {
            strText.push(' ');
            assert(strText@ =~= shown + seq![' ']);
        }
        AppendHex(&mut strText, vecBytes[uIndex] as u64, 2);
        assert(strText@ =~= hex_bytes(upto));
        uIndex = uIndex + 1;
    }
    assert(vecBytes@.take(uIndex as int) =~= vecBytes@);
    strText
}

/// A CAN identifier the way every surface shows it: at least three hexadecimal digits for an
/// 11-bit identifier, eight for a 29-bit one.
pub open spec fn can_id_text(id: u32) -> Seq<char> {
    if id > 0x7FF {
        hex(id as nat, 8)
    } else {
        hex(id as nat, 3)
    }
}

/// Format a CAN identifier: bare upper-case hexadecimal, at least three digits for 11-bit
/// identifiers and eight for 29-bit ones.
pub fn FormatCanId(u32CanId: u32) -> (strText: String)
    ensures
        strText@ == can_id_text(u32CanId),
{
    let mut strText = String::new();
    if u32CanId > 0x7FF {
        AppendHex(&mut strText, u32CanId as u64, 8);
    } else {
        AppendHex(&mut strText, u32CanId as u64, 3);
    }
    assert(strText@ =~= can_id_text(u32CanId));
    strText
}

} // verus!
