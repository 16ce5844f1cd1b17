//! Reading what a person types.

#![allow(non_snake_case, non_upper_case_globals)]

use vehicle_sim::api::input::FormatHexPattern;
use vehicle_sim::api::input::IsWildcardToken;
use vehicle_sim::api::input::ParseCanId;
use vehicle_sim::api::input::ParseHex;
use vehicle_sim::api::input::ParseHexPattern;
use vehicle_sim::api::input::RemoveWhiteSpace;
use vehicle_sim::api::input::SplitPatternTokens;
use vehicle_sim::api::input::Trim;
use vehicle_sim::text::FormatCanId;
use vehicle_sim::text::FormatHexBytes;

#[test]
fn parses_can_ids_with_and_without_a_prefix() {
    assert_eq!(ParseCanId("7E0"), Ok(0x7E0));
    assert_eq!(ParseCanId("0x7e0"), Ok(0x7E0));
    assert_eq!(ParseCanId(" 18DA10F1 "), Ok(0x18DA10F1));
}

#[test]
fn rejects_malformed_and_oversized_can_ids() {
    assert!(ParseCanId("").is_err());
    assert!(ParseCanId("zz").is_err());
    assert!(ParseCanId("FFFFFFFF").is_err());
}

#[test]
fn a_pattern_carries_its_own_wildcards() {
    assert_eq!(
        ParseHexPattern("22 ** **"),
        Ok((vec![0x22, 0x00, 0x00], vec![0xFF, 0x00, 0x00]))
    );
    assert_eq!(
        ParseHexPattern("19 02 FF"),
        Ok((vec![0x19, 0x02, 0xFF], vec![0xFF, 0xFF, 0xFF]))
    );
    assert_eq!(
        ParseHexPattern("19 04 12 34 56 01"),
        Ok((vec![0x19, 0x04, 0x12, 0x34, 0x56, 0x01], vec![0xFF; 6]))
    );
}

#[test]
fn a_pattern_round_trips_through_its_string_form() {
    for strPattern in ["19 02 FF", "22 ** **", "2E FD 01 55", "36 **"] {
        let (vecPattern, vecMask) = ParseHexPattern(strPattern).expect("a valid pattern");
        assert_eq!(FormatHexPattern(&vecPattern, &vecMask), strPattern);
    }
}

#[test]
fn a_pattern_accepts_unspaced_hex_and_rejects_nonsense() {
    assert_eq!(
        ParseHexPattern("19 0A"),
        ParseHexPattern("190A"),
        "spacing is presentation, not meaning"
    );
    assert!(ParseHexPattern("").is_err());
    assert!(ParseHexPattern("ZZ 01").is_err());
}

#[test]
fn formats_11_bit_and_29_bit_ids_differently() {
    assert_eq!(FormatCanId(0x7E0), "7E0");
    assert_eq!(FormatCanId(0x18DA10F1), "18DA10F1");
}

#[test]
fn a_can_id_error_says_what_is_wrong() {
    assert_eq!(ParseCanId("  "), Err("empty CAN id".to_string()));
    assert_eq!(
        ParseCanId(" zz"),
        Err("' zz' is not a hex CAN id".to_string())
    );
    assert_eq!(ParseCanId("0x"), Err("'0x' is not a hex CAN id".to_string()));
    assert_eq!(
        ParseCanId("20000000"),
        Err("CAN id 0x20000000 is wider than the 29-bit maximum".to_string())
    );
    assert_eq!(ParseCanId("0X1FFFFFFF"), Ok(0x1FFF_FFFF));
    assert_eq!(ParseCanId("+7E0"), Ok(0x7E0));
}

#[test]
fn hexadecimal_bytes_are_read_with_or_without_spaces() {
    assert_eq!(ParseHex("22 F1 90"), Ok(vec![0x22, 0xF1, 0x90]));
    assert_eq!(ParseHex("22f190"), Ok(vec![0x22, 0xF1, 0x90]));
    assert_eq!(ParseHex(" \t2 2\n"), Ok(vec![0x22]));
    assert_eq!(ParseHex("\u{3000}22\u{85}"), Ok(vec![0x22]));
}

#[test]
fn a_hexadecimal_error_says_what_is_wrong() {
    assert_eq!(ParseHex(" "), Err("empty request".to_string()));
    assert_eq!(
        ParseHex("22F"),
        Err("hex string must have an even number of digits".to_string())
    );
    assert_eq!(ParseHex("22ZZ"), Err("invalid hex byte 'ZZ'".to_string()));
    assert_eq!(ParseHex("\u{e9}1"), Err("hex string must have an even number of digits".to_string()));
}

#[test]
fn bytes_read_back_from_their_text() {
    for vecBytes in [vec![0x00u8], vec![0xFF, 0x0A], (0..=255u8).collect()] {
        assert_eq!(ParseHex(&FormatHexBytes(&vecBytes)), Ok(vecBytes));
    }
}

#[test]
fn identifiers_read_back_from_their_text() {
    for u32CanId in [0u32, 0x7, 0x7E0, 0x7FF, 0x800, 0x18DA_10F1, 0x1FFF_FFFF] {
        assert_eq!(ParseCanId(&FormatCanId(u32CanId)), Ok(u32CanId));
    }
}

#[test]
fn a_pattern_error_says_what_is_wrong() {
    assert_eq!(
        ParseHexPattern("ZZ 01"),
        Err("'ZZ' is not a hex byte or a wildcard (**)".to_string())
    );
    assert_eq!(
        ParseHexPattern(" "),
        Err("the request pattern is empty".to_string())
    );
    assert_eq!(ParseHexPattern("22 5"), Ok((vec![0x22, 0x05], vec![0xFF, 0xFF])));
}

#[test]
fn any_value_can_be_spelled_in_several_ways() {
    for strSpelling in ["**", "??", "..", "xx", "XX"] {
        assert_eq!(ParseHexPattern(strSpelling), Ok((vec![0x00], vec![0x00])));
        assert!(IsWildcardToken(&strSpelling.chars().collect()));
    }
    assert!(!IsWildcardToken(&"*?".chars().collect()));
    assert!(!IsWildcardToken(&vec!['*']));
}

#[test]
fn a_pattern_without_a_mask_is_shown_in_full() {
    assert_eq!(FormatHexPattern(&[0x22, 0x00], &[]), "22 00");
    assert_eq!(FormatHexPattern(&[], &[]), "");
}

#[test]
fn white_space_is_dropped_where_it_means_nothing() {
    assert_eq!(Trim(" a b\n"), vec!['a', ' ', 'b']);
    assert_eq!(Trim("\u{2003}"), Vec::<char>::new());
    assert_eq!(RemoveWhiteSpace(" a b\n"), vec!['a', 'b']);
    assert_eq!(
        SplitPatternTokens("12 3"),
        vec![vec!['1', '2'], vec!['3']]
    );
}
