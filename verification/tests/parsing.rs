use hamming::BitVec;
use hamming::BitVecError;
use std::str::FromStr;

fn stored<const N: usize>(text: &str) -> Option<[u8; N]> {
    BitVec::<N>::from_str(text).ok().map(|v| *v.elems())
}

fn refusal<const N: usize>(text: &str) -> Option<BitVecError> {
    BitVec::<N>::from_str(text).err()
}

#[test]
fn every_text_of_eight_digits_parses_to_its_ascii_codes() {
    for n in 0u32..256 {
        let text = format!("{:08b}", n);
        assert_eq!(text.len(), 8);
        let mut expected = [0u8; 8];
        expected.copy_from_slice(text.as_bytes());
        assert_eq!(stored::<8>(&text), Some(expected), "{}", text);
    }
}

#[test]
fn parsed_vector_holds_codes_not_bit_values() {
    assert_eq!(
        stored::<8>("11110000"),
        Some([49, 49, 49, 49, 48, 48, 48, 48])
    );
    assert_eq!(stored::<8>("00000000"), Some([48; 8]));
    assert_eq!(stored::<8>("11111111"), Some([49; 8]));
}

#[test]
fn parse_through_the_string_method() {
    let v: BitVec<8> = "10100000".parse().unwrap_or(BitVec::new([0; 8]));
    assert_eq!(*v.elems(), [49, 48, 49, 48, 48, 48, 48, 48]);
}

#[test]
fn other_widths_parse_too() {
    assert_eq!(stored::<0>(""), Some([]));
    assert_eq!(stored::<1>("1"), Some([49]));
    assert_eq!(stored::<3>("010"), Some([48, 49, 48]));
    assert_eq!(refusal::<3>("0101"), Some(BitVecError::InvalidLength));
    assert_eq!(refusal::<0>("0"), Some(BitVecError::InvalidLength));
}

#[test]
fn short_text_is_an_invalid_length() {
    assert_eq!(refusal::<8>("1234"), Some(BitVecError::InvalidLength));
    assert_eq!(refusal::<8>(""), Some(BitVecError::InvalidLength));
    assert_eq!(refusal::<8>("1111000"), Some(BitVecError::InvalidLength));
}

#[test]
fn long_text_is_an_invalid_length_even_if_all_digits() {
    assert_eq!(refusal::<8>("111100001"), Some(BitVecError::InvalidLength));
    assert_eq!(refusal::<8>("0000000000000000"), Some(BitVecError::InvalidLength));
}

#[test]
fn length_is_judged_before_the_characters() {
    assert_eq!(refusal::<8>("12345678X"), Some(BitVecError::InvalidLength));
    assert_eq!(refusal::<8>("X"), Some(BitVecError::InvalidLength));
}

#[test]
fn every_length_but_eight_is_refused() {
    for len in 0usize..40 {
        let text = "1".repeat(len);
        let r = refusal::<8>(&text);
        if len == 8 {
            assert_eq!(r, None);
        } else {
            assert_eq!(r, Some(BitVecError::InvalidLength), "length {}", len);
        }
    }
}

#[test]
fn foreign_character_is_an_invalid_value() {
    assert_eq!(refusal::<8>("1111000X"), Some(BitVecError::InvalidValue));
    assert_eq!(refusal::<8>("X1110000"), Some(BitVecError::InvalidValue));
    assert_eq!(refusal::<8>("12345678"), Some(BitVecError::InvalidValue));
    assert_eq!(refusal::<8>("1111 000"), Some(BitVecError::InvalidValue));
    assert_eq!(refusal::<8>("0000000\n"), Some(BitVecError::InvalidValue));
}

#[test]
fn one_foreign_character_at_any_position_is_an_invalid_value() {
    for at in 0usize..8 {
        for c in ['2', '/', 'a', ' ', '\0', '\u{7f}'] {
            let mut text = String::from("01010101");
            text.replace_range(at..at + 1, &c.to_string());
            assert_eq!(refusal::<8>(&text), Some(BitVecError::InvalidValue), "{:?}", text);
        }
    }
}

#[test]
fn length_counts_bytes_not_characters() {
    // "é" takes two bytes: eight characters, nine bytes.
    assert_eq!(refusal::<8>("1111000é"), Some(BitVecError::InvalidLength));
    // Seven characters, eight bytes.
    assert_eq!(refusal::<8>("111100é"), Some(BitVecError::InvalidValue));
    assert_eq!(refusal::<8>("é111100"), Some(BitVecError::InvalidValue));
    // Two characters of four bytes each.
    assert_eq!(refusal::<8>("\u{1F600}\u{1F600}"), Some(BitVecError::InvalidValue));
}

#[test]
fn line_is_trimmed_before_it_is_parsed() {
    let expected = Some([49u8, 49, 49, 49, 48, 48, 48, 48]);
    assert_eq!(BitVec::<8>::from_line("11110000\n").ok().map(|v| *v.elems()), expected);
    assert_eq!(BitVec::<8>::from_line("11110000\r\n").ok().map(|v| *v.elems()), expected);
    assert_eq!(BitVec::<8>::from_line("  \t11110000  ").ok().map(|v| *v.elems()), expected);
    assert_eq!(BitVec::<8>::from_line("11110000").ok().map(|v| *v.elems()), expected);
}

#[test]
fn line_keeps_the_white_space_inside() {
    assert_eq!(
        BitVec::<8>::from_line(" 1111 000 \n").err(),
        Some(BitVecError::InvalidValue)
    );
    assert_eq!(
        BitVec::<8>::from_line("1111 0000\n").err(),
        Some(BitVecError::InvalidLength)
    );
}

#[test]
fn empty_line_is_an_invalid_length() {
    assert_eq!(BitVec::<8>::from_line("").err(), Some(BitVecError::InvalidLength));
    assert_eq!(BitVec::<8>::from_line("\n").err(), Some(BitVecError::InvalidLength));
    assert_eq!(BitVec::<8>::from_line("1234\n").err(), Some(BitVecError::InvalidLength));
}

#[test]
fn line_with_a_foreign_character_is_an_invalid_value() {
    assert_eq!(
        BitVec::<8>::from_line("1111000X\n").err(),
        Some(BitVecError::InvalidValue)
    );
}

#[test]
fn error_messages() {
    assert_eq!(BitVecError::InvalidLength.message(), "Invalid Length for BitVec");
    assert_eq!(
        BitVecError::InvalidValue.message(),
        "Invalid value for BitVec - elements can only be 0 or 1"
    );
}

#[test]
fn errors_compare_by_variant() {
    assert_eq!(BitVecError::InvalidLength, BitVecError::InvalidLength);
    assert_ne!(BitVecError::InvalidLength, BitVecError::InvalidValue);
}
