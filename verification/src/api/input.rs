//! Reading what a person types: hexadecimal bytes, request patterns and CAN identifiers.

use vstd::prelude::*;
use vstd::string::StringExecFns;

use crate::bytes::min_int;
use crate::text::hex;
use crate::text::hexadecimal;
use crate::text::parsed_hex;
use crate::text::AppendHex;
use crate::text::Characters;
use crate::text::FromCharacters;
use crate::text::ParseHexNumber;
use vstd::utf8::encode_utf8;

verus! {

/// The characters with the Unicode White_Space property.
pub open spec fn is_white_space(c: char) -> bool {
    ||| 0x09 <= c as u32 <= 0x0D
    ||| c as u32 == 0x20
    ||| c as u32 == 0x85
    ||| c as u32 == 0xA0
    ||| c as u32 == 0x1680
    ||| 0x2000 <= c as u32 <= 0x200A
    ||| c as u32 == 0x2028
    ||| c as u32 == 0x2029
    ||| c as u32 == 0x202F
    ||| c as u32 == 0x205F
    ||| c as u32 == 0x3000
}

/// `char::is_whitespace` tells whether a character has the Unicode White_Space property: the
/// twenty-five characters listed in `is_white_space`.
pub assume_specification[ char::is_whitespace ](c: char) -> (bIsWhiteSpace: bool)
    ensures
        bIsWhiteSpace == is_white_space(c),
;

/// How many bytes a text takes in UTF-8.
pub open spec fn byte_length(text: Seq<char>) -> usize {
    encode_utf8(text).len() as usize
}

/// Text without the white space in front of it.
pub open spec fn trimmed_start(text: Seq<char>) -> Seq<char>
    decreases text.len(),
{
    if text.len() > 0 && is_white_space(text[0]) {
        trimmed_start(text.drop_first())
    } else {
        text
    }
}

/// Text without the white space behind it.
pub open spec fn trimmed_end(text: Seq<char>) -> Seq<char>
    decreases text.len(),
{
    if text.len() > 0 && is_white_space(text.last()) {
        trimmed_end(text.drop_last())
    } else {
        text
    }
}

/// Text without the white space around it.
pub open spec fn trimmed(text: Seq<char>) -> Seq<char> {
    trimmed_end(trimmed_start(text))
}

/// Text without any white space.
pub open spec fn without_white_space(text: Seq<char>) -> Seq<char>
    decreases text.len(),
{
    if text.len() == 0 {
        text
    } else {
        let before = without_white_space(text.drop_last());
        if is_white_space(text.last()) {
            before
        } else {
            before.push(text.last())
        }
    }
}

/// Text without the white space around it.
pub fn Trim(strText: &str) -> (vecTrimmed: Vec<char>)
    ensures
        vecTrimmed@ == trimmed(strText@),
{
    let vecText = Characters(strText);
    let mut uStart: usize = 0;
    assert(vecText@.skip(0) =~= vecText@);
    while uStart < vecText.len() && vecText[uStart].is_whitespace()
        invariant
            uStart <= vecText@.len(),
            trimmed_start(vecText@.skip(uStart as int)) == trimmed_start(vecText@),
        decreases vecText@.len() - uStart,
    {
        assert(vecText@.skip(uStart as int).drop_first() =~= vecText@.skip(uStart + 1));
        uStart += 1;
    }
    let ghost front = vecText@.skip(uStart as int);
    assert(trimmed_start(vecText@) == front);
    let mut uEnd: usize = vecText.len();
    assert(vecText@.subrange(uStart as int, uEnd as int) =~= front);
    while uEnd > uStart && vecText[uEnd - 1].is_whitespace()
        invariant
            uStart <= uEnd <= vecText@.len(),
            trimmed_end(vecText@.subrange(uStart as int, uEnd as int)) == trimmed_end(front),
        decreases uEnd,
    {
        assert(vecText@.subrange(uStart as int, uEnd as int).drop_last() =~= vecText@.subrange(
            uStart as int,
            uEnd - 1,
        ));
        uEnd = uEnd - 1;
    }
    let mut vecTrimmed: Vec<char> = Vec::new();
    let mut uAt: usize = uStart;
    while uAt < uEnd
        invariant
            uStart <= uAt <= uEnd <= vecText@.len(),
            vecTrimmed@ == vecText@.subrange(uStart as int, uAt as int),
        decreases uEnd - uAt,
    {
        vecTrimmed.push(vecText[uAt]);
        uAt += 1;
        assert(vecTrimmed@ =~= vecText@.subrange(uStart as int, uAt as int));
    }
    vecTrimmed
}

/// Text without any white space.
pub fn RemoveWhiteSpace(strText: &str) -> (vecClean: Vec<char>)
    ensures
        vecClean@ == without_white_space(strText@),
{
    let vecText = Characters(strText);
    let mut vecClean: Vec<char> = Vec::new();
    let mut uAt: usize = 0;
    assert(vecText@.take(0) =~= seq![]);
    while uAt < vecText.len()
        invariant
            uAt <= vecText@.len(),
            vecClean@ == without_white_space(vecText@.take(uAt as int)),
        decreases vecText@.len() - uAt,
    {
        assert(vecText@.take(uAt + 1).drop_last() =~= vecText@.take(uAt as int));
        if !vecText[uAt].is_whitespace() {
            vecClean.push(vecText[uAt]);
        }
        uAt += 1;
    }
    assert(vecText@.take(uAt as int) =~= vecText@);
    vecClean
}

/// A reading's result, with its error as text.
pub open spec fn outcome<T>(result: Result<T, String>) -> Result<T, Seq<char>> {
    match result {
        Ok(value) => Ok(value),
        Err(error) => Err(error@),
    }
}

/// Text in single quotes with something in front of and behind it.
pub(crate) fn Quoted(strBefore: &str, strText: &str, strAfter: &str) -> (strQuoted: String)
    ensures
        strQuoted@ == strBefore@ + strText@ + strAfter@,
{
    let mut strQuoted = strBefore.to_string();
    strQuoted.append(strText);
    strQuoted.append(strAfter);
    strQuoted
}

/// The digits of a CAN identifier: what stands behind a `0x` or `0X` prefix, if there is one.
pub open spec fn without_prefix(text: Seq<char>) -> Seq<char> {
    if text.len() >= 2 && text[0] == '0' && (text[1] == 'x' || text[1] == 'X') {
        text.skip(2)
    } else {
        text
    }
}

/// The CAN identifier that trimmed input stands for. Twenty-nine bits is the widest there is.
pub open spec fn can_id(input: Seq<char>, trimmed: Seq<char>) -> Result<u32, Seq<char>> {
    if trimmed.len() == 0 {
        Err("empty CAN id"@)
    } else {
        match parsed_hex(without_prefix(trimmed)) {
            Some(n) if n <= 0x1FFF_FFFF => Ok(n as u32),
            Some(n) if n <= 0xFFFF_FFFF => Err(
                "CAN id 0x"@ + hexadecimal(n) + " is wider than the 29-bit maximum"@,
            ),
            _ => Err("'"@ + input + "' is not a hex CAN id"@),
        }
    }
}

/// Parse a CAN identifier written as hexadecimal, with or without a `0x` prefix.
pub fn ParseCanId(strInput: &str) -> (result: Result<u32, String>)
    ensures
        outcome(result) == can_id(strInput@, trimmed(strInput@)),
{
    let vecTrimmed = Trim(strInput);
    if vecTrimmed.len() == 0 {
        return Err("empty CAN id".to_string());
    }
    let bHasPrefix = vecTrimmed.len() >= 2 && vecTrimmed[0] == '0' && (vecTrimmed[1] == 'x'
        || vecTrimmed[1] == 'X');
    let vecDigits = if bHasPrefix {
        SkipCharacters(&vecTrimmed, 2)
    } else {
        SkipCharacters(&vecTrimmed, 0)
    };
    assert(vecDigits@ =~= without_prefix(vecTrimmed@));
    let u64CanId: u64 = match ParseHexNumber(&vecDigits, 0xFFFF_FFFF) {
        Some(u64CanId) => u64CanId,
        None => {
            return Err(Quoted("'", strInput, "' is not a hex CAN id"));
        },
    };
    // 29 bits is the widest identifier CAN defines.
    if u64CanId > 0x1FFF_FFFF {
        let mut strError = "CAN id 0x".to_string();
        AppendHex(&mut strError, u64CanId, 1);
        strError.append(" is wider than the 29-bit maximum");
        proof {
            lemma_hex_without_width(u64CanId as nat);
        }
        return Err(strError);
    }
    Ok(u64CanId as u32)
}

proof fn lemma_hex_without_width(n: nat)
    ensures
        hex(n, 1) == hexadecimal(n),
        hexadecimal(n).len() >= 1,
    decreases n,
{
    if n >= 16 {
        lemma_hex_without_width(n / 16);
    }
}

/// The characters from a place on.
pub(crate) fn SkipCharacters(vecText: &Vec<char>, uFrom: usize) -> (vecRest: Vec<char>)
    requires
        uFrom <= vecText@.len(),
    ensures
        vecRest@ == vecText@.skip(uFrom as int),
{
    PartOf(vecText, uFrom, vecText.len())
}

/// The characters between two places.
fn PartOf(vecText: &Vec<char>, uFrom: usize, uTo: usize) -> (vecPart: Vec<char>)
    requires
        uFrom <= uTo <= vecText@.len(),
    ensures
        vecPart@ == vecText@.subrange(uFrom as int, uTo as int),
{
    let mut vecPart: Vec<char> = Vec::new();
    let mut uAt: usize = uFrom;
    while uAt < uTo
        invariant
            uFrom <= uAt <= uTo <= vecText@.len(),
            vecPart@ == vecText@.subrange(uFrom as int, uAt as int),
        decreases uTo - uAt,
    {
        vecPart.push(vecText[uAt]);
        uAt += 1;
        assert(vecPart@ =~= vecText@.subrange(uFrom as int, uAt as int));
    }
    vecPart
}

/// The byte two hexadecimal digits stand for.
pub open spec fn hex_byte(token: Seq<char>) -> Option<u8> {
    match parsed_hex(token) {
        Some(n) if n <= 255 => Some(n as u8),
        _ => None,
    }
}

/// Read the byte two hexadecimal digits stand for.
fn HexByte(vecToken: &Vec<char>) -> (optByByte: Option<u8>)
    ensures
        optByByte == hex_byte(vecToken@),
{
    match ParseHexNumber(vecToken, 255) {
        Some(u64Value) => Some(u64Value as u8),
        None => None,
    }
}

/// The bytes the first pairs of characters stand for, or the first pair that is no byte.
pub open spec fn hex_pairs(clean: Seq<char>, pairs: nat) -> Result<Seq<u8>, Seq<char>>
    decreases pairs,
{
    if pairs == 0 {
        Ok(seq![])
    } else {
        match hex_pairs(clean, (pairs - 1) as nat) {
            Err(error) => Err(error),
            Ok(bytes) => {
                let token = clean.subrange(2 * (pairs - 1), 2 * (pairs - 1) + 2);
                match hex_byte(token) {
                    Some(b) => Ok(bytes.push(b)),
                    None => Err("invalid hex byte '"@ + token + "'"@),
                }
            },
        }
    }
}

/// The bytes that hexadecimal text without white space stands for. Whether it has an even number
/// of digits is judged by its length in bytes, and again by its characters.
pub open spec fn hex_input(clean: Seq<char>) -> Result<Seq<u8>, Seq<char>> {
    if clean.len() == 0 {
        Err("empty request"@)
    } else if byte_length(clean) % 2 != 0 {
        Err("hex string must have an even number of digits"@)
    } else {
        match hex_pairs(clean, clean.len() / 2) {
            Err(error) => Err(error),
            Ok(bytes) => if clean.len() % 2 != 0 {
                Err("hex string must have an even number of digits"@)
            } else {
                Ok(bytes)
            },
        }
    }
}

/// The value of a reading of bytes.
pub open spec fn bytes_outcome(result: Result<Vec<u8>, String>) -> Result<Seq<u8>, Seq<char>> {
    match result {
        Ok(bytes) => Ok(bytes@),
        Err(error) => Err(error@),
    }
}

proof fn lemma_hex_pairs_error_stays(clean: Seq<char>, some: nat, all: nat)
    requires
        some <= all,
        hex_pairs(clean, some) is Err,
    ensures
        hex_pairs(clean, all) == hex_pairs(clean, some),
    decreases all,
{
    if some < all {
        lemma_hex_pairs_error_stays(clean, some, (all - 1) as nat);
    }
}

/// Parse a hexadecimal string (spaces optional, "22 F1 90" or "22F190") into bytes.
pub fn ParseHex(strInput: &str) -> (result: Result<Vec<u8>, String>)
    ensures
        bytes_outcome(result) == hex_input(without_white_space(strInput@)),
{
    let vecClean = RemoveWhiteSpace(strInput);
    if vecClean.len() == 0 {
        return Err("empty request".to_string());
    }
    let strClean = FromCharacters(&vecClean);
    if strClean.as_str().len() % 2 != 0 {
        return Err("hex string must have an even number of digits".to_string());
    }
    let uPairs: usize = vecClean.len() / 2;
    let mut vecBytes: Vec<u8> = Vec::new();
    let mut uAt: usize = 0;
    assert(vecBytes@ =~= seq![]);
    while uAt < uPairs
        invariant
            uAt <= uPairs,
            uPairs == vecClean@.len() / 2,
            hex_pairs(vecClean@, uAt as nat) == Ok::<Seq<u8>, Seq<char>>(vecBytes@),
            vecClean@ == without_white_space(strInput@),
            vecClean@.len() > 0,
            byte_length(vecClean@) % 2 == 0,
        decreases uPairs - uAt,
    {
        let vecToken = PartOf(&vecClean, 2 * uAt, 2 * uAt + 2);
        match HexByte(&vecToken) {
            Some(byByte) => {
                vecBytes.push(byByte);
            },
            None => {
                proof {
                    lemma_hex_pairs_error_stays(vecClean@, uAt as nat + 1, uPairs as nat);
                }
                let strToken = FromCharacters(&vecToken);
                return Err(Quoted("invalid hex byte '", strToken.as_str(), "'"));
            },
        }
        uAt += 1;
    }
    if vecClean.len() % 2 != 0 {
        return Err("hex string must have an even number of digits".to_string());
    }
    Ok(vecBytes)
}

/// A spelling of "any value" a person might reasonably type.
pub open spec fn is_wildcard(token: Seq<char>) -> bool {
    ||| token == seq!['*', '*']
    ||| token == seq!['?', '?']
    ||| token == seq!['.', '.']
    ||| token == seq!['x', 'x']
    ||| token == seq!['X', 'X']
}

/// True for the spellings of "any value" a person might reasonably type.
pub fn IsWildcardToken(vecToken: &Vec<char>) -> (bIsWildcard: bool)
    ensures
        bIsWildcard == is_wildcard(vecToken@),
{
    if vecToken.len() != 2 || vecToken[0] != vecToken[1] {
        return false;
    }
    let cSpelling: char = vecToken[0];
    assert(vecToken@ =~= seq![cSpelling, cSpelling]);
    assert(seq!['*', '*'][0] == '*' && seq!['?', '?'][0] == '?' && seq!['.', '.'][0] == '.' && seq![
        'x',
        'x',
    ][0] == 'x' && seq!['X', 'X'][0] == 'X');
    cSpelling == '*' || cSpelling == '?' || cSpelling == '.' || cSpelling == 'x' || cSpelling
        == 'X'
}

/// How many two-character tokens a text splits into; the last one may be a single character.
pub open spec fn token_count(clean: Seq<char>) -> int {
    (clean.len() as int + 1) / 2
}

/// A two-character token of a text.
pub open spec fn token(clean: Seq<char>, i: int) -> Seq<char> {
    clean.subrange(2 * i, min_int(2 * i + 2, clean.len() as int))
}

/// The texts of a list of tokens.
pub open spec fn token_texts(tokens: Seq<Vec<char>>) -> Seq<Seq<char>> {
    Seq::new(tokens.len(), |i: int| tokens[i]@)
}

/// Split a pattern into two-character tokens, accepting both `22 F1 90` and `22F190`.
pub fn SplitPatternTokens(strInput: &str) -> (vecTokens: Vec<Vec<char>>)
    ensures
        ({
            let clean = without_white_space(strInput@);
            token_texts(vecTokens@) == Seq::new(
                token_count(clean) as nat,
                |i: int| token(clean, i),
            )
        }),
{
    let vecClean = RemoveWhiteSpace(strInput);
    let ghost clean = vecClean@;
    let mut vecTokens: Vec<Vec<char>> = Vec::new();
    let mut uAt: usize = 0;
    while uAt < vecClean.len()
        invariant
            uAt <= vecClean@.len(),
            clean == vecClean@,
            clean == without_white_space(strInput@),
            uAt % 2 == 0 || uAt == clean.len(),
            vecTokens@.len() == (uAt as int + 1) / 2,
            forall|i: int| 0 <= i < vecTokens@.len() ==> (#[trigger] vecTokens@[i])@ == token(clean, i),
        decreases vecClean@.len() - uAt,
    {
        let uEnd: usize = if vecClean.len() - uAt >= 2 {
            uAt + 2
        } else {
            vecClean.len()
        };
        vecTokens.push(PartOf(&vecClean, uAt, uEnd));
        uAt = uEnd;
    }
    assert(token_texts(vecTokens@) =~= Seq::new(
        token_count(clean) as nat,
        |i: int| token(clean, i),
    ));
    vecTokens
}

/// The pattern and mask the first tokens stand for, or the first token that is neither a byte nor
/// a wildcard.
pub open spec fn pattern_of(tokens: Seq<Seq<char>>, count: nat) -> Result<
    (Seq<u8>, Seq<u8>),
    Seq<char>,
>
    decreases count,
{
    if count == 0 {
        Ok((seq![], seq![]))
    } else {
        match pattern_of(tokens, (count - 1) as nat) {
            Err(error) => Err(error),
            Ok((pattern, mask)) => {
                let word = tokens[count - 1];
                if is_wildcard(word) {
                    Ok((pattern.push(0x00), mask.push(0x00)))
                } else {
                    match hex_byte(word) {
                        Some(b) => Ok((pattern.push(b), mask.push(0xFF))),
                        None => Err("'"@ + word + "' is not a hex byte or a wildcard (**)"@),
                    }
                }
            },
        }
    }
}

/// The pattern and mask that tokens stand for.
pub open spec fn pattern_input(tokens: Seq<Seq<char>>) -> Result<(Seq<u8>, Seq<u8>), Seq<char>> {
    match pattern_of(tokens, tokens.len()) {
        Err(error) => Err(error),
        Ok((pattern, mask)) => if pattern.len() == 0 {
            Err("the request pattern is empty"@)
        } else {
            Ok((pattern, mask))
        },
    }
}

/// The tokens of a text.
pub open spec fn tokens_of(text: Seq<char>) -> Seq<Seq<char>> {
    let clean = without_white_space(text);
    Seq::new(token_count(clean) as nat, |i: int| token(clean, i))
}

/// The value of a reading of a pattern.
pub open spec fn pattern_outcome(result: Result<(Vec<u8>, Vec<u8>), String>) -> Result<
    (Seq<u8>, Seq<u8>),
    Seq<char>,
> {
    match result {
        Ok((pattern, mask)) => Ok((pattern@, mask@)),
        Err(error) => Err(error@),
    }
}

proof fn lemma_pattern_error_stays(tokens: Seq<Seq<char>>, some: nat, all: nat)
    requires
        some <= all,
        pattern_of(tokens, some) is Err,
    ensures
        pattern_of(tokens, all) == pattern_of(tokens, some),
    decreases all,
{
    if some < all {
        lemma_pattern_error_stays(tokens, some, (all - 1) as nat);
    }
}

/// Parse a request pattern: hexadecimal bytes where `**` (also `??`, `..` or `xx`) means "any
/// value".
///
/// Returns the pattern bytes alongside the mask they imply, so a caller never has to keep two
/// lists in step.
pub fn ParseHexPattern(strInput: &str) -> (result: Result<(Vec<u8>, Vec<u8>), String>)
    ensures
        pattern_outcome(result) == pattern_input(tokens_of(strInput@)),
{
    let vecTokens = SplitPatternTokens(strInput);
    let ghost tokens = tokens_of(strInput@);
    let mut vecPattern: Vec<u8> = Vec::new();
    let mut vecMask: Vec<u8> = Vec::new();
    let mut uAt: usize = 0;
    assert(vecPattern@ =~= seq![]);
    assert(vecMask@ =~= seq![]);
    while uAt < vecTokens.len()
        invariant
            uAt <= vecTokens@.len(),
            tokens == tokens_of(strInput@),
            token_texts(vecTokens@) == tokens,
            pattern_of(tokens, uAt as nat) == Ok::<(Seq<u8>, Seq<u8>), Seq<char>>(
                (vecPattern@, vecMask@),
            ),
        decreases vecTokens@.len() - uAt,
    {
        assert(tokens[uAt as int] == vecTokens@[uAt as int]@);
        if IsWildcardToken(&vecTokens[uAt]) {
            vecPattern.push(0x00);
            vecMask.push(0x00);
        } else {
            match HexByte(&vecTokens[uAt]) {
                Some(byValue) => {
                    vecPattern.push(byValue);
                    vecMask.push(0xFF);
                },
                None => {
                    proof {
                        lemma_pattern_error_stays(tokens, uAt as nat + 1, tokens.len());
                    }
                    let strToken = FromCharacters(&vecTokens[uAt]);
                    return Err(
                        Quoted("'", strToken.as_str(), "' is not a hex byte or a wildcard (**)"),
                    );
                },
            }
        }
        uAt += 1;
    }
    if vecPattern.len() == 0 {
        return Err("the request pattern is empty".to_string());
    }
    Ok((vecPattern, vecMask))
}

/// One byte of a pattern as text: a wildcard where the mask allows any value.
pub open spec fn pattern_word(pattern: Seq<u8>, mask: Seq<u8>, i: int) -> Seq<char> {
    if i < mask.len() && mask[i] == 0x00 {
        seq!['*', '*']
    } else {
        hex(pattern[i] as nat, 2)
    }
}

/// The first bytes of a pattern as text, with spaces between them.
pub open spec fn pattern_text(pattern: Seq<u8>, mask: Seq<u8>, count: nat) -> Seq<char>
    decreases count,
{
    if count == 0 {
        seq![]
    } else if count == 1 {
        pattern_word(pattern, mask, 0)
    } else {
        pattern_text(pattern, mask, (count - 1) as nat) + seq![' '] + pattern_word(
            pattern,
            mask,
            count - 1,
        )
    }
}

/// Render a pattern and its mask back as one string, with wildcards where the mask allows any
/// value.
pub fn FormatHexPattern(vecPattern: &[u8], vecMask: &[u8]) -> (strText: String)
    ensures
        strText@ == pattern_text(vecPattern@, vecMask@, vecPattern@.len()),
{
    let mut strText = String::new();
    let mut uAt: usize = 0;
    assert(strText@ =~= seq![]);
    while uAt < vecPattern.len()
        invariant
            uAt <= vecPattern@.len(),
            strText@ == pattern_text(vecPattern@, vecMask@, uAt as nat),
        decreases vecPattern@.len() - uAt,
    {
        let ghost shown = strText@;
        if uAt > 0 {
            strText.push(' ');
            assert(strText@ =~= shown + seq![' ']);
        }
        let ghost spaced = strText@;
        let bIsWildcard = uAt < vecMask.len() && vecMask[uAt] == 0x00;
        if bIsWildcard {
            strText.push('*');
            strText.push('*');
            assert(strText@ =~= spaced + seq!['*', '*']);
        } else {
            AppendHex(&mut strText, vecPattern[uAt] as u64, 2);
        }
        assert(strText@ =~= pattern_text(vecPattern@, vecMask@, uAt as nat + 1));
        uAt += 1;
    }
    strText
}

} // verus!
