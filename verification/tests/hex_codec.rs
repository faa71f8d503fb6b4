use ecverify::error::Error;
use ecverify::hex::{append_hex, hex_char, hex_digit_value, Signature};

fn sample() -> Signature<2> {
    Signature::from_components([0xde, 0xad], [0xbe, 0x0f])
}

#[test]
fn upper_case_example_decodes() {
    let sig = Signature::<1>::from_str("FF00").unwrap();
    assert_eq!(sig.to_bytes(), vec![0xFF, 0x00]);
    assert_eq!(sig.r, [0xFF]);
    assert_eq!(sig.s, [0x00]);
}

#[test]
fn lower_case_example_decodes_identically() {
    let lower = Signature::<1>::from_str("ff00").unwrap();
    let upper = Signature::<1>::from_str("FF00").unwrap();
    assert_eq!(lower.to_bytes(), vec![0xFF, 0x00]);
    assert_eq!(lower, upper);
}

#[test]
fn mixed_case_example_fails() {
    assert_eq!(Signature::<1>::from_str("Ff00"), Err(Error));
    assert_eq!(Signature::<1>::from_str("fF00"), Err(Error));
}

#[test]
fn lower_hex_is_exact() {
    assert_eq!(sample().to_lower_hex(), "deadbe0f");
}

#[test]
fn upper_hex_is_exact() {
    assert_eq!(sample().to_upper_hex(), "DEADBE0F");
}

#[test]
fn first_component_is_written_first() {
    let sig = Signature::<1>::from_components([0x01], [0xa0]);
    assert_eq!(sig.to_lower_hex(), "01a0");
    assert_eq!(sig.to_upper_hex(), "01A0");
}

#[test]
fn every_byte_takes_two_digits() {
    let sig = Signature::<3>::from_components([0, 1, 2], [9, 10, 255]);
    let text = sig.to_lower_hex();
    assert_eq!(text.len(), 12);
    assert_eq!(text, "000102090aff");
}

#[test]
fn empty_signature_has_empty_text() {
    let sig = Signature::<0>::from_components([], []);
    assert_eq!(sig.to_lower_hex(), "");
    assert_eq!(Signature::<0>::from_str(""), Ok(sig));
    assert_eq!(Signature::<0>::from_str("00"), Err(Error));
}

#[test]
fn round_trip_lower() {
    let sig = sample();
    assert_eq!(Signature::<2>::from_str(&sig.to_lower_hex()), Ok(sig));
}

#[test]
fn round_trip_upper() {
    let sig = sample();
    assert_eq!(Signature::<2>::from_str(&sig.to_upper_hex()), Ok(sig));
}

#[test]
fn round_trip_of_every_byte_value() {
    let mut b: u16 = 0;
    while b < 256 {
        let sig = Signature::<1>::from_components([b as u8], [255 - b as u8]);
        assert_eq!(Signature::<1>::from_str(&sig.to_lower_hex()), Ok(sig));
        assert_eq!(Signature::<1>::from_str(&sig.to_upper_hex()), Ok(sig));
        b += 1;
    }
}

#[test]
fn round_trip_of_a_long_signature() {
    let mut r = [0u8; 57];
    let mut s = [0u8; 57];
    for i in 0..57 {
        r[i] = (i * 7 + 3) as u8;
        s[i] = 255 - (i * 5) as u8;
    }
    let sig = Signature::<57>::from_components(r, s);
    let lower = sig.to_lower_hex();
    let upper = sig.to_upper_hex();
    assert_eq!(lower.len(), 228);
    assert_eq!(upper, lower.to_uppercase());
    assert_eq!(Signature::<57>::from_str(&lower), Ok(sig));
    assert_eq!(Signature::<57>::from_str(&upper), Ok(sig));
}

#[test]
fn wrong_length_is_rejected() {
    assert_eq!(Signature::<1>::from_str(""), Err(Error));
    assert_eq!(Signature::<1>::from_str("FF"), Err(Error));
    assert_eq!(Signature::<1>::from_str("FF0"), Err(Error));
    assert_eq!(Signature::<1>::from_str("FF000"), Err(Error));
    assert_eq!(Signature::<1>::from_str("FF0000"), Err(Error));
    assert_eq!(Signature::<2>::from_str("FF00"), Err(Error));
    assert_eq!(Signature::<2>::from_str("FF00FF00FF"), Err(Error));
}

#[test]
fn mixed_case_is_rejected_at_any_position() {
    assert_eq!(Signature::<2>::from_str("aB000000"), Err(Error));
    assert_eq!(Signature::<2>::from_str("a000000B"), Err(Error));
    assert_eq!(Signature::<2>::from_str("B000000a"), Err(Error));
    assert_eq!(Signature::<2>::from_str("000aB000"), Err(Error));
    assert_eq!(Signature::<2>::from_str("0000000a").map(|s| s.to_bytes()), Ok(vec![0, 0, 0, 10]));
    assert_eq!(Signature::<2>::from_str("0000000B").map(|s| s.to_bytes()), Ok(vec![0, 0, 0, 11]));
}

#[test]
fn all_digits_are_accepted() {
    let sig = Signature::<2>::from_str("01234567").unwrap();
    assert_eq!(sig.to_bytes(), vec![0x01, 0x23, 0x45, 0x67]);
    let sig = Signature::<1>::from_str("9999").unwrap();
    assert_eq!(sig.to_bytes(), vec![0x99, 0x99]);
}

#[test]
fn letters_beyond_f_are_rejected() {
    assert_eq!(Signature::<1>::from_str("gg00"), Err(Error));
    assert_eq!(Signature::<1>::from_str("GG00"), Err(Error));
    assert_eq!(Signature::<1>::from_str("00zz"), Err(Error));
    assert_eq!(Signature::<1>::from_str("0f0g"), Err(Error));
    assert_eq!(Signature::<1>::from_str("0F0G"), Err(Error));
}

#[test]
fn other_characters_are_rejected() {
    assert_eq!(Signature::<1>::from_str("+f00"), Err(Error));
    assert_eq!(Signature::<1>::from_str("0x00"), Err(Error));
    assert_eq!(Signature::<1>::from_str(" f00"), Err(Error));
    assert_eq!(Signature::<1>::from_str("ff 0"), Err(Error));
    assert_eq!(Signature::<1>::from_str("ff0\n"), Err(Error));
    assert_eq!(Signature::<1>::from_str("-100"), Err(Error));
    assert_eq!(Signature::<1>::from_str("ff/0"), Err(Error));
    assert_eq!(Signature::<1>::from_str("ff:0"), Err(Error));
    assert_eq!(Signature::<1>::from_str("ff@0"), Err(Error));
    assert_eq!(Signature::<1>::from_str("ff[0"), Err(Error));
    assert_eq!(Signature::<1>::from_str("ff`0"), Err(Error));
    assert_eq!(Signature::<1>::from_str("ff{0"), Err(Error));
}

#[test]
fn text_outside_ascii_is_rejected() {
    // two characters of two bytes each: four bytes, none of them a digit
    assert_eq!(Signature::<1>::from_str("\u{e9}\u{e9}"), Err(Error));
    // four characters, six bytes
    assert_eq!(Signature::<1>::from_str("ff\u{e9}\u{e9}"), Err(Error));
}

#[test]
fn hex_bytes_decode_like_text() {
    assert_eq!(
        Signature::<1>::from_hex_bytes(b"FF00").map(|s| s.to_bytes()),
        Ok(vec![0xFF, 0x00])
    );
    assert_eq!(Signature::<1>::from_hex_bytes(b"Ff00"), Err(Error));
    assert_eq!(Signature::<1>::from_hex_bytes(&[0xff, 0x30, 0x30, 0x30]), Err(Error));
}

#[test]
fn from_slice_checks_the_length() {
    assert_eq!(Signature::<2>::from_slice(&[1, 2, 3, 4]), Ok(Signature::from_components([1, 2], [3, 4])));
    assert_eq!(Signature::<2>::from_slice(&[1, 2, 3]), Err(Error));
    assert_eq!(Signature::<2>::from_slice(&[1, 2, 3, 4, 5]), Err(Error));
    assert_eq!(Signature::<2>::from_slice(&[]), Err(Error));
    assert_eq!(Signature::<2>::from_slice(&[1, 2]), Err(Error));
}

#[test]
fn components_and_bytes_agree() {
    let sig = sample();
    assert_eq!(sig.r_bytes(), &[0xde, 0xad]);
    assert_eq!(sig.s_bytes(), &[0xbe, 0x0f]);
    assert_eq!(sig.to_bytes(), vec![0xde, 0xad, 0xbe, 0x0f]);
    assert_eq!(Signature::<2>::byte_size(), 4);
    assert_eq!(Signature::<57>::byte_size(), 114);
}

#[test]
fn digit_values() {
    assert_eq!(hex_digit_value(b'0'), Some(0));
    assert_eq!(hex_digit_value(b'9'), Some(9));
    assert_eq!(hex_digit_value(b'a'), Some(10));
    assert_eq!(hex_digit_value(b'f'), Some(15));
    assert_eq!(hex_digit_value(b'A'), Some(10));
    assert_eq!(hex_digit_value(b'F'), Some(15));
    assert_eq!(hex_digit_value(b'g'), None);
    assert_eq!(hex_digit_value(b'G'), None);
    assert_eq!(hex_digit_value(b'/'), None);
    assert_eq!(hex_digit_value(b':'), None);
    assert_eq!(hex_digit_value(b'@'), None);
    assert_eq!(hex_digit_value(b'`'), None);
}

#[test]
fn digit_characters() {
    assert_eq!(hex_char(0, false), '0');
    assert_eq!(hex_char(9, true), '9');
    assert_eq!(hex_char(10, false), 'a');
    assert_eq!(hex_char(10, true), 'A');
    assert_eq!(hex_char(15, false), 'f');
    assert_eq!(hex_char(15, true), 'F');
}

#[test]
fn append_hex_keeps_what_was_there() {
    let mut text = String::from("id=");
    append_hex(&mut text, &[0x0a, 0xb1], false);
    assert_eq!(text, "id=0ab1");
    append_hex(&mut text, &[0x0a, 0xb1], true);
    assert_eq!(text, "id=0ab10AB1");
    append_hex(&mut text, &[], true);
    assert_eq!(text, "id=0ab10AB1");
}

#[test]
fn failures_carry_nothing() {
    let short = Signature::<1>::from_str("FF").unwrap_err();
    let mixed = Signature::<1>::from_str("Ff00").unwrap_err();
    let letter = Signature::<1>::from_str("gg00").unwrap_err();
    assert_eq!(short, mixed);
    assert_eq!(mixed, letter);
    assert_eq!(letter, Error::new());
}
