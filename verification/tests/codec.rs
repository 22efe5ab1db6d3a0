use otpcodes::base32::{decode, encode, is_well_formed, normalized, unpack};
use otpcodes::error::OtpError;
use otpcodes::text::{parse_digits, parse_u64, same_ignoring_case, same_text, to_upper};

#[test]
fn decode_reads_unpadded_text() {
    assert_eq!(
        decode("JBSWY3DPEHPK3PXP"),
        Ok(vec![0x48, 0x65, 0x6c, 0x6c, 0x6f, 0x21, 0xde, 0xad, 0xbe, 0xef])
    );
}

#[test]
fn decode_reads_rfc4648_vectors() {
    assert_eq!(decode(""), Ok(vec![]));
    assert_eq!(decode("MY======"), Ok(b"f".to_vec()));
    assert_eq!(decode("MZXQ===="), Ok(b"fo".to_vec()));
    assert_eq!(decode("MZXW6==="), Ok(b"foo".to_vec()));
    assert_eq!(decode("MZXW6YQ="), Ok(b"foob".to_vec()));
    assert_eq!(decode("MZXW6YTB"), Ok(b"fooba".to_vec()));
    assert_eq!(decode("MZXW6YTBOI======"), Ok(b"foobar".to_vec()));
}

#[test]
fn decode_accepts_missing_padding() {
    assert_eq!(decode("MY"), Ok(b"f".to_vec()));
    assert_eq!(decode("MZXW6YQ"), Ok(b"foob".to_vec()));
    assert_eq!(decode("MZXW6YTBOI"), Ok(b"foobar".to_vec()));
}

#[test]
fn decode_ignores_case_and_whitespace() {
    assert_eq!(decode("mzxw6ytboi"), Ok(b"foobar".to_vec()));
    assert_eq!(decode("MZXW 6YTB\tOI\r\n"), Ok(b"foobar".to_vec()));
    assert_eq!(decode("jbsw y3dp ehpk 3pxp"), decode("JBSWY3DPEHPK3PXP"));
}

#[test]
fn decode_is_not_the_identity() {
    let decoded = decode("GEZDGNBVGY3TQOJQGEZDGNBVGY3TQOJQ").unwrap();
    assert_eq!(decoded, b"12345678901234567890".to_vec());
    assert_ne!(decoded, b"GEZDGNBVGY3TQOJQGEZDGNBVGY3TQOJQ".to_vec());
}

#[test]
fn decode_rejects_characters_outside_the_alphabet() {
    assert_eq!(decode("1O0="), Err(OtpError::InvalidEncoding));
    assert_eq!(decode("MZXW6YT!"), Err(OtpError::InvalidEncoding));
    assert_eq!(decode("MZXW6YT8"), Err(OtpError::InvalidEncoding));
    assert_eq!(decode("MZXW6YT\u{e9}"), Err(OtpError::InvalidEncoding));
}

#[test]
fn decode_rejects_symbol_counts_without_whole_bytes() {
    assert_eq!(decode("M"), Err(OtpError::InvalidEncoding));
    assert_eq!(decode("MZX"), Err(OtpError::InvalidEncoding));
    assert_eq!(decode("MZXW6Y"), Err(OtpError::InvalidEncoding));
    assert_eq!(decode("MZXW6YTBO"), Err(OtpError::InvalidEncoding));
}

#[test]
fn normalized_strips_and_folds() {
    let n: String = normalized(" mz xw=6\n==").into_iter().collect();
    assert_eq!(n, "MZXW6");
    assert!(is_well_formed(&normalized("mzxw6===")));
    assert!(!is_well_formed(&normalized("mzx")));
    assert!(!is_well_formed(&normalized("mz1w6")));
}

#[test]
fn encoding_the_decoded_bytes_gives_the_normal_form() {
    for s in ["JBSWY3DPEHPK3PXP", "mzxw6ytboi======", "MZ XW 6Y Q=", "my", ""] {
        let bytes = decode(s).unwrap();
        assert_eq!(encode(&bytes), normalized(s));
    }
}

#[test]
fn stray_bits_in_the_last_symbol_are_dropped() {
    assert_eq!(decode("MZ"), Ok(b"f".to_vec()));
    let again: String = encode(&b"f".to_vec()).into_iter().collect();
    assert_eq!(again, "MY");
}

#[test]
fn encode_writes_rfc4648_vectors_without_padding() {
    let text = |bytes: &[u8]| -> String { encode(&bytes.to_vec()).into_iter().collect() };
    assert_eq!(text(b""), "");
    assert_eq!(text(b"f"), "MY");
    assert_eq!(text(b"fo"), "MZXQ");
    assert_eq!(text(b"foo"), "MZXW6");
    assert_eq!(text(b"foob"), "MZXW6YQ");
    assert_eq!(text(b"fooba"), "MZXW6YTB");
    assert_eq!(text(b"foobar"), "MZXW6YTBOI");
    assert_eq!(text(&[0xff; 5]), "77777777");
    assert_eq!(text(&[0x00; 5]), "AAAAAAAA");
}

#[test]
fn decoding_the_encoded_bytes_gives_the_bytes() {
    let mut bytes: Vec<u8> = Vec::new();
    for i in 0u32..70 {
        let symbols = encode(&bytes);
        let text: String = symbols.iter().collect();
        assert_eq!(unpack(&symbols), bytes);
        assert_eq!(decode(&text), Ok(bytes.clone()));
        bytes.push((i * 37 + 11) as u8);
    }
}

#[test]
fn the_codec_agrees_with_the_base32_crate() {
    let alphabet = base32::Alphabet::RFC4648 { padding: false };
    let mut bytes: Vec<u8> = Vec::new();
    for i in 0u32..40 {
        let ours: String = encode(&bytes).into_iter().collect();
        assert_eq!(ours, base32::encode(alphabet, &bytes));
        assert_eq!(decode(&ours).ok(), base32::decode(alphabet, &ours));
        bytes.push((i * 101 + 7) as u8);
    }
    for s in ["MZ", "MZXW6YR", "77", "JBSWY3DPEHPK3PXP"] {
        assert_eq!(decode(s).ok(), base32::decode(alphabet, s));
    }
}

#[test]
fn numerals_are_read_exactly() {
    assert_eq!(parse_u64("0"), Some(0));
    assert_eq!(parse_u64("6"), Some(6));
    assert_eq!(parse_u64("0030"), Some(30));
    assert_eq!(parse_u64("18446744073709551615"), Some(u64::MAX));
    assert_eq!(parse_u64("18446744073709551616"), None);
    assert_eq!(parse_u64("99999999999999999999999"), None);
    assert_eq!(parse_u64(""), None);
    assert_eq!(parse_u64("six"), None);
    assert_eq!(parse_u64("-1"), None);
    assert_eq!(parse_u64("1 "), None);
    assert_eq!(parse_u64("+6"), Some(6));
    assert_eq!(parse_u64("+"), None);
    assert_eq!(parse_u64("++6"), None);
    assert_eq!(parse_u64("6+"), None);
    assert_eq!(parse_digits("+6"), None);
    assert_eq!(parse_digits("42"), Some(42));
}

#[test]
fn case_is_folded_for_ascii_letters_only() {
    assert_eq!(to_upper('a'), 'A');
    assert_eq!(to_upper('z'), 'Z');
    assert_eq!(to_upper('A'), 'A');
    assert_eq!(to_upper('7'), '7');
    assert_eq!(to_upper('{'), '{');
    assert!(same_ignoring_case("ToTp", "totp"));
    assert!(!same_ignoring_case("totp", "hotp"));
    assert!(!same_ignoring_case("totp", "totpx"));
    assert!(same_text("secret", "secret"));
    assert!(!same_text("secret", "Secret"));
}
