//! What holds of reading and writing hexadecimal text together.

use vstd::prelude::*;

use crate::api::input::byte_length;
use crate::api::input::can_id;
use crate::api::input::hex_byte;
use crate::api::input::hex_input;
use crate::api::input::hex_pairs;
use crate::api::input::is_white_space;
use crate::api::input::is_wildcard;
use crate::api::input::pattern_input;
use crate::api::input::pattern_of;
use crate::api::input::pattern_text;
use crate::api::input::pattern_word;
use crate::api::input::token;
use crate::api::input::tokens_of;
use crate::api::input::trimmed;
use crate::api::input::without_prefix;
use crate::api::input::without_white_space;
use crate::text::can_id_text;
use crate::text::digit;
use crate::text::hex;
use crate::text::hex_bytes;
use crate::text::hex_number;
use crate::text::hex_value;
use crate::text::hexadecimal;
use crate::text::parsed_hex;
use vstd::utf8::is_ascii_chars;

verus! {

/// The digits a number is written with.
spec fn is_digit(c: char) -> bool {
    exists|n: int| 0 <= n < 16 && c == #[trigger] digit(n)
}

spec fn all_digits(text: Seq<char>) -> bool {
    forall|i: int| 0 <= i < text.len() ==> is_digit(#[trigger] text[i])
}

proof fn lemma_digit(c: char)
    requires
        is_digit(c),
    ensures
        hex_value(c) is Some,
        !is_white_space(c),
        c != '+',
        c != '*',
        c != '?',
        c != '.',
        c != 'x',
        c != 'X',
        '\0' <= c <= '\u{7f}',
{
}

proof fn lemma_hexadecimal(n: nat)
    ensures
        hexadecimal(n).len() >= 1,
        all_digits(hexadecimal(n)),
        hex_number(hexadecimal(n)) == Some(n),
    decreases n,
{
    let text = hexadecimal(n);
    if n < 16 {
        assert(text[0] == digit(n as int));
        assert(text.drop_last() =~= seq![]);
        assert(hex_number(seq![]) == Some(0nat));
    } else {
        lemma_hexadecimal(n / 16);
        assert(text.drop_last() =~= hexadecimal(n / 16));
        assert(text.last() == digit((n % 16) as int));
        assert forall|i: int| 0 <= i < text.len() implies is_digit(#[trigger] text[i]) by {
            if i < text.len() - 1 {
                assert(text[i] == hexadecimal(n / 16)[i]);
            }
        }
    }
}

proof fn lemma_leading_zeros(zeros: nat, text: Seq<char>)
    ensures
        hex_number(Seq::new(zeros, |i: int| '0') + text) == hex_number(text),
    decreases zeros + text.len(),
{
    let front = Seq::new(zeros, |i: int| '0');
    let whole = front + text;
    if text.len() > 0 {
        lemma_leading_zeros(zeros, text.drop_last());
        assert(whole.drop_last() =~= front + text.drop_last());
    } else if zeros > 0 {
        let fewer = (zeros - 1) as nat;
        lemma_leading_zeros(fewer, text);
        assert(whole.drop_last() =~= Seq::new(fewer, |i: int| '0') + text);
        assert(whole.last() == '0');
        assert(hex_number(text) == Some(0nat));
    } else {
        assert(whole =~= text);
    }
}

proof fn lemma_hex(n: nat, width: nat)
    ensures
        hex(n, width).len() >= 1,
        hex(n, width).len() >= width,
        all_digits(hex(n, width)),
        parsed_hex(hex(n, width)) == Some(n),
{
    lemma_hexadecimal(n);
    let digits = hexadecimal(n);
    let text = hex(n, width);
    if digits.len() < width {
        lemma_leading_zeros((width - digits.len()) as nat, digits);
        assert forall|i: int| 0 <= i < text.len() implies is_digit(#[trigger] text[i]) by {
            if i < width - digits.len() {
                assert(text[i] == digit(0));
            } else {
                assert(text[i] == digits[i - (width - digits.len())]);
            }
        }
    }
    lemma_digit(text[0]);
}

proof fn lemma_short_number(n: nat, digits: nat)
    requires
        n < 16 && digits == 1 || n < 256 && digits == 2,
    ensures
        hexadecimal(n).len() <= digits,
    decreases n,
{
    if n >= 16 {
        lemma_short_number(n / 16, 1);
    }
}

/// A byte is written with two digits that read back as it.
proof fn lemma_byte_word(b: u8)
    ensures
        hex(b as nat, 2).len() == 2,
        all_digits(hex(b as nat, 2)),
        hex_byte(hex(b as nat, 2)) == Some(b),
        !is_wildcard(hex(b as nat, 2)),
{
    lemma_hex(b as nat, 2);
    lemma_short_number(b as nat, 2);
    let text = hex(b as nat, 2);
    lemma_digit(text[0]);
    assert(seq!['*', '*'][0] == '*' && seq!['?', '?'][0] == '?' && seq!['.', '.'][0] == '.' && seq![
        'x',
        'x',
    ][0] == 'x' && seq!['X', 'X'][0] == 'X');
}

proof fn lemma_removal_splits(a: Seq<char>, b: Seq<char>)
    ensures
        without_white_space(a + b) == without_white_space(a) + without_white_space(b),
    decreases b.len(),
{
    if b.len() == 0 {
        assert(a + b =~= a);
        assert(without_white_space(b) =~= seq![]);
        assert(without_white_space(a) + without_white_space(b) =~= without_white_space(a));
    } else {
        lemma_removal_splits(a, b.drop_last());
        assert((a + b).drop_last() =~= a + b.drop_last());
        assert(without_white_space(a + b) =~= without_white_space(a) + without_white_space(b));
    }
}

proof fn lemma_nothing_to_remove(text: Seq<char>)
    requires
        forall|i: int| 0 <= i < text.len() ==> !is_white_space(#[trigger] text[i]),
    ensures
        without_white_space(text) == text,
    decreases text.len(),
{
    if text.len() > 0 {
        let front = text.drop_last();
        assert forall|i: int| 0 <= i < front.len() implies !is_white_space(#[trigger] front[i]) by {
            assert(front[i] == text[i]);
        }
        lemma_nothing_to_remove(front);
        assert(front.push(text.last()) =~= text);
    }
}

/// The words of a pattern without the spaces between them.
spec fn packed(pattern: Seq<u8>, mask: Seq<u8>, count: nat) -> Seq<char>
    decreases count,
{
    if count == 0 {
        seq![]
    } else {
        packed(pattern, mask, (count - 1) as nat) + pattern_word(pattern, mask, count - 1)
    }
}

proof fn lemma_word(pattern: Seq<u8>, mask: Seq<u8>, i: int)
    ensures
        pattern_word(pattern, mask, i).len() == 2,
        forall|k: int|
            0 <= k < 2 ==> !is_white_space(#[trigger] pattern_word(pattern, mask, i)[k]) && '\0'
                <= pattern_word(pattern, mask, i)[k] <= '\u{7f}',
{
    let word = pattern_word(pattern, mask, i);
    lemma_byte_word(pattern[i]);
    assert forall|k: int| 0 <= k < 2 implies !is_white_space(#[trigger] word[k]) && '\0' <= word[k]
        <= '\u{7f}' by {
        if is_digit(word[k]) {
            lemma_digit(word[k]);
        }
    }
}

proof fn lemma_packed(pattern: Seq<u8>, mask: Seq<u8>, count: nat)
    ensures
        without_white_space(pattern_text(pattern, mask, count)) == packed(pattern, mask, count),
        packed(pattern, mask, count).len() == 2 * count,
        is_ascii_chars(packed(pattern, mask, count)),
    decreases count,
{
    if count > 0 {
        let fewer = (count - 1) as nat;
        lemma_packed(pattern, mask, fewer);
        lemma_word(pattern, mask, count - 1);
        let word = pattern_word(pattern, mask, count - 1);
        lemma_nothing_to_remove(word);
        let front = pattern_text(pattern, mask, fewer);
        if count == 1 {
            assert(packed(pattern, mask, 0) =~= seq![]);
            assert(packed(pattern, mask, count) =~= word);
        } else {
            lemma_removal_splits(front + seq![' '], word);
            lemma_removal_splits(front, seq![' ']);
            let space = seq![' '];
            assert(space.drop_last() =~= seq![]);
            assert(without_white_space(space.drop_last()) =~= seq![]);
            assert(is_white_space(space.last()));
            assert(without_white_space(space) =~= seq![]);
            assert(without_white_space(front) + without_white_space(seq![' '])
                =~= without_white_space(front));
        }
        let whole = packed(pattern, mask, count);
        assert forall|i: int| 0 <= i < whole.len() implies '\0' <= #[trigger] whole[i]
            <= '\u{7f}' by {
            if i < 2 * fewer {
                assert(whole[i] == packed(pattern, mask, fewer)[i]);
            } else {
                assert(whole[i] == word[i - 2 * fewer]);
            }
        }
    }
}

proof fn lemma_packed_word(pattern: Seq<u8>, mask: Seq<u8>, count: nat, i: int)
    requires
        0 <= i < count,
    ensures
        packed(pattern, mask, count).len() == 2 * count,
        packed(pattern, mask, count).subrange(2 * i, 2 * i + 2) == pattern_word(pattern, mask, i),
    decreases count,
{
    let fewer = (count - 1) as nat;
    let whole = packed(pattern, mask, count);
    lemma_packed(pattern, mask, count);
    lemma_packed(pattern, mask, fewer);
    lemma_word(pattern, mask, count - 1);
    if i == count - 1 {
        assert(whole.subrange(2 * i, 2 * i + 2) =~= pattern_word(pattern, mask, i));
    } else {
        lemma_packed_word(pattern, mask, fewer, i);
        assert(whole.subrange(2 * i, 2 * i + 2) =~= packed(pattern, mask, fewer).subrange(
            2 * i,
            2 * i + 2,
        ));
    }
}

proof fn lemma_tokens_read_back(pattern: Seq<u8>, mask: Seq<u8>, tokens: Seq<Seq<char>>, count: nat)
    requires
        count <= pattern.len(),
        pattern.len() == mask.len() == tokens.len(),
        forall|i: int| 0 <= i < tokens.len() ==> #[trigger] tokens[i] == pattern_word(pattern, mask, i),
        forall|i: int| 0 <= i < mask.len() ==> #[trigger] mask[i] == 0xFF || mask[i] == 0x00 && pattern[i] == 0x00,
    ensures
        pattern_of(tokens, count) == Ok::<(Seq<u8>, Seq<u8>), Seq<char>>(
            (pattern.take(count as int), mask.take(count as int)),
        ),
    decreases count,
{
    if count == 0 {
        assert(pattern.take(0) =~= seq![]);
        assert(mask.take(0) =~= seq![]);
    } else {
        let last = count - 1;
        lemma_tokens_read_back(pattern, mask, tokens, last as nat);
        lemma_byte_word(pattern[last]);
        assert(tokens[last] == pattern_word(pattern, mask, last));
        assert(mask[last] == 0xFF || mask[last] == 0x00);
        assert(pattern.take(last).push(pattern[last]) =~= pattern.take(count as int));
        assert(mask.take(last).push(mask[last]) =~= mask.take(count as int));
    }
}

/// A pattern round-trips through its string form: written with wildcards where any value will do
/// and read again, it is the same pattern with the same mask.
pub proof fn law_pattern_reads_back(pattern: Seq<u8>, mask: Seq<u8>)
    requires
        pattern.len() > 0,
        mask.len() == pattern.len(),
        forall|i: int|
            0 <= i < mask.len() ==> #[trigger] mask[i] == 0xFF || mask[i] == 0x00 && pattern[i]
                == 0x00,
    ensures
        pattern_input(tokens_of(pattern_text(pattern, mask, pattern.len()))) == Ok::<
            (Seq<u8>, Seq<u8>),
            Seq<char>,
        >((pattern, mask)),
{
    let count = pattern.len();
    let clean = packed(pattern, mask, count);
    let tokens = tokens_of(pattern_text(pattern, mask, count));
    lemma_packed(pattern, mask, count);
    assert(tokens.len() == count);
    assert forall|i: int| 0 <= i < tokens.len() implies #[trigger] tokens[i] == pattern_word(
        pattern,
        mask,
        i,
    ) by {
        lemma_packed_word(pattern, mask, count, i);
        assert(tokens[i] == token(clean, i));
    }
    lemma_tokens_read_back(pattern, mask, tokens, count);
    assert(pattern.take(count as int) =~= pattern);
    assert(mask.take(count as int) =~= mask);
}

/// A pattern that was read has a mask of its own length, whose every byte either fixes the whole
/// byte of the pattern or leaves it open.
pub proof fn law_pattern_carries_its_own_mask(tokens: Seq<Seq<char>>, count: nat)
    requires
        pattern_of(tokens, count) is Ok,
    ensures
        pattern_of(tokens, count)->Ok_0.0.len() == count,
        pattern_of(tokens, count)->Ok_0.1.len() == count,
        forall|i: int|
            #![trigger pattern_of(tokens, count)->Ok_0.1[i]]
            #![trigger pattern_of(tokens, count)->Ok_0.0[i]]
            0 <= i < count ==> {
                let (pattern, mask) = pattern_of(tokens, count)->Ok_0;
                mask[i] == (if is_wildcard(tokens[i]) {
                    0x00u8
                } else {
                    0xFFu8
                }) && (mask[i] == 0x00 ==> pattern[i] == 0x00)
            },
    decreases count,
{
    if count > 0 {
        law_pattern_carries_its_own_mask(tokens, (count - 1) as nat);
    }
}

/// Spacing is presentation, not meaning: two spellings that differ only in white space read the
/// same, as bytes and as a pattern.
pub proof fn law_spacing_is_presentation(a: Seq<char>, b: Seq<char>)
    requires
        without_white_space(a) == without_white_space(b),
    ensures
        hex_input(without_white_space(a)) == hex_input(without_white_space(b)),
        pattern_input(tokens_of(a)) == pattern_input(tokens_of(b)),
{
}

proof fn lemma_pairs_read_back(bytes: Seq<u8>, clean: Seq<char>, count: nat)
    requires
        count <= bytes.len(),
        forall|i: int|
            0 <= i < bytes.len() ==> #[trigger] clean.subrange(2 * i, 2 * i + 2) == hex(
                bytes[i] as nat,
                2,
            ),
    ensures
        hex_pairs(clean, count) == Ok::<Seq<u8>, Seq<char>>(bytes.take(count as int)),
    decreases count,
{
    if count == 0 {
        assert(bytes.take(0) =~= seq![]);
    } else {
        let last = count - 1;
        lemma_pairs_read_back(bytes, clean, last as nat);
        lemma_byte_word(bytes[last]);
        assert(clean.subrange(2 * last, 2 * last + 2) == hex(bytes[last] as nat, 2));
        assert(bytes.take(last).push(bytes[last]) =~= bytes.take(count as int));
    }
}

proof fn lemma_bytes_are_a_pattern(bytes: Seq<u8>, count: nat)
    requires
        count <= bytes.len(),
    ensures
        hex_bytes(bytes.take(count as int)) == pattern_text(bytes, seq![], count),
    decreases count,
{
    let some = bytes.take(count as int);
    if count == 1 {
        assert(some[0] == bytes[0]);
    } else if count > 1 {
        lemma_bytes_are_a_pattern(bytes, (count - 1) as nat);
        assert(some.drop_last() =~= bytes.take(count - 1));
        assert(some.last() == bytes[count - 1]);
    }
}

/// Bytes shown as hexadecimal text read back as the same bytes.
pub proof fn law_hex_text_reads_back(bytes: Seq<u8>)
    requires
        bytes.len() > 0,
        2 * bytes.len() <= usize::MAX,
    ensures
        hex_input(without_white_space(hex_bytes(bytes))) == Ok::<Seq<u8>, Seq<char>>(bytes),
{
    let count = bytes.len();
    let clean = packed(bytes, seq![], count);
    lemma_bytes_are_a_pattern(bytes, count);
    assert(bytes.take(count as int) =~= bytes);
    lemma_packed(bytes, seq![], count);
    vstd::utf8::is_ascii_chars_encode_utf8(clean);
    assert(byte_length(clean) == 2 * count);
    assert forall|i: int| 0 <= i < count implies #[trigger] clean.subrange(2 * i, 2 * i + 2) == hex(
        bytes[i] as nat,
        2,
    ) by {
        lemma_packed_word(bytes, seq![], count, i);
    }
    lemma_pairs_read_back(bytes, clean, count);
}

proof fn lemma_nothing_to_trim(text: Seq<char>)
    requires
        text.len() > 0,
        !is_white_space(text[0]),
        !is_white_space(text.last()),
    ensures
        trimmed(text) == text,
{
}

/// A CAN identifier shown the way every identifier is shown reads back as itself.
pub proof fn law_can_id_reads_back(id: u32)
    requires
        id <= 0x1FFF_FFFF,
    ensures
        can_id(can_id_text(id), trimmed(can_id_text(id))) == Ok::<u32, Seq<char>>(id),
{
    let text = can_id_text(id);
    lemma_hex(id as nat, 3);
    lemma_hex(id as nat, 8);
    lemma_digit(text[0]);
    lemma_digit(text[1]);
    lemma_digit(text.last());
    lemma_nothing_to_trim(text);
    assert(without_prefix(text) == text);
}

/// A number shown in hexadecimal digits reads back as itself, however many digits it is padded to.
pub proof fn law_a_number_reads_back(n: nat, width: nat)
    ensures
        parsed_hex(hex(n, width)) == Some(n),
        hex(n, width).len() >= width,
{
    lemma_hex(n, width);
}

} // verus!
