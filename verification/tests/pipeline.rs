// End-to-end tests of the TOTP pipeline: the RFC 4226 Appendix D
// known answers, determinism, time-step behaviour, Base32 round trips,
// input rejection and display formatting.
use totp::TotpError;
use totp::base32_round_trip;
use totp::compute_code;
use totp::decode_key_bytes;
use totp::decode_key_round_trip;
use totp::counter_bytes;
use totp::current_code;
use totp::decode_key;
use totp::format_code;
use totp::get_timestamp;
use totp::get_totp_code;
use totp::hotp_code;
use totp::normalize_secret;
use totp::time_step_counter;
use totp::totp_code_at;

/// The RFC 4226 Appendix D test secret, "12345678901234567890", as
/// unpadded Base32.
const RFC_SECRET: &str = "GEZDGNBVGY3TQOJQGEZDGNBVGY3TQOJQ";
const RFC_KEY: &[u8] = b"12345678901234567890";

/// The HOTP values RFC 4226 Appendix D publishes for counters 0 to 9.
const RFC_CODES: [u32; 10] = [
    755224, 287082, 359152, 969429, 338314, 254676, 287922, 162583, 399871, 520489,
];

#[test]
fn known_answer_counter_one() {
    assert_eq!(compute_code(RFC_SECRET, 1), Ok(287082));
}

#[test]
fn known_answer_rfc_table() {
    for (counter, expected) in RFC_CODES.iter().enumerate() {
        assert_eq!(compute_code(RFC_SECRET, counter as u64), Ok(*expected));
        assert_eq!(hotp_code(RFC_KEY, counter as u64), *expected);
    }
}

#[test]
fn determinism_fixed_counter() {
    for counter in [0u64, 1, 2, 59, 1000, u64::MAX] {
        let first = compute_code(RFC_SECRET, counter).unwrap();
        let second = compute_code(RFC_SECRET, counter).unwrap();
        assert_eq!(first, second);
        assert_eq!(hotp_code(RFC_KEY, counter), first);
    }
}

#[test]
fn time_step_stability_same_window() {
    assert_eq!(totp_code_at(RFC_KEY, 0), totp_code_at(RFC_KEY, 29));
    assert_eq!(totp_code_at(RFC_KEY, 30), totp_code_at(RFC_KEY, 59));
    assert_eq!(totp_code_at(RFC_KEY, 31), totp_code_at(RFC_KEY, 59));
    assert_eq!(totp_code_at(RFC_KEY, 0), hotp_code(RFC_KEY, 0));
}

#[test]
fn time_step_change_adjacent_windows() {
    assert_eq!(time_step_counter(59), 1);
    assert_eq!(time_step_counter(60), 2);
    // Each reading's code is still determined by its own counter when
    // recomputed with that counter fixed.
    assert_eq!(totp_code_at(RFC_KEY, 59), hotp_code(RFC_KEY, 1));
    assert_eq!(totp_code_at(RFC_KEY, 60), hotp_code(RFC_KEY, 2));
    assert_eq!(hotp_code(RFC_KEY, 1), 287082);
    assert_eq!(hotp_code(RFC_KEY, 2), 359152);
}

#[test]
fn counter_serialization_is_big_endian() {
    assert_eq!(counter_bytes(0), [0u8; 8]);
    assert_eq!(counter_bytes(1), [0, 0, 0, 0, 0, 0, 0, 1]);
    assert_eq!(
        counter_bytes(0x0102030405060708),
        [1, 2, 3, 4, 5, 6, 7, 8]
    );
    assert_eq!(counter_bytes(u64::MAX), [0xff; 8]);
}

#[test]
fn truncation_known_digest() {
    let digest: [u8; 20] = [
        0, 1, 2, 3, 4, 5, 6, 7, 8, 9, 10, 11, 12, 13, 14, 15, 16, 17, 18, 19,
    ];
    // Last byte 19 gives offset 3; bytes 3..7 read big-endian are
    // 0x03040506 = 50595078; the top bit is clear; mod 10^6.
    assert_eq!(get_totp_code(&digest), 595078);
}

#[test]
fn decode_known_secret() {
    assert_eq!(decode_key(RFC_SECRET), Ok(RFC_KEY.to_vec()));
}

#[test]
fn decode_is_case_insensitive_and_trims() {
    assert_eq!(
        decode_key(" \tgezdgnbvgy3tqojqgezdgnbvgy3tqojq\n"),
        Ok(RFC_KEY.to_vec())
    );
    assert_eq!(decode_key("ae"), Ok(vec![1]));
}

#[test]
fn decode_rejects_non_base32_digits() {
    // "1" and "0" are not in the Base32 alphabet A-Z 2-7.
    assert_eq!(decode_key("12345"), Err(TotpError::Decode));
}

#[test]
fn decode_rejects_bad_lengths() {
    // 1, 3 and 6 symbols cannot represent a whole number of bytes.
    assert_eq!(decode_key("A"), Err(TotpError::Decode));
    assert_eq!(decode_key("ABC"), Err(TotpError::Decode));
    assert_eq!(decode_key("AAAAAA"), Err(TotpError::Decode));
}

#[test]
fn decode_rejects_padding_and_trailing_bits() {
    // '=' is not accepted by the unpadded alphabet.
    assert_eq!(decode_key("MZXW6==="), Err(TotpError::Decode));
    // "AB" has the right length but non-zero trailing bits.
    assert_eq!(decode_key("AB"), Err(TotpError::Decode));
}

#[test]
fn decode_rejects_empty_secret() {
    assert_eq!(decode_key(""), Err(TotpError::Decode));
    assert_eq!(decode_key(" \t\r\n"), Err(TotpError::Decode));
}

#[test]
fn normalization_trims_and_uppercases() {
    assert_eq!(normalize_secret(b"  mzxW6ytb "), b"MZXW6YTB".to_vec());
    assert_eq!(normalize_secret(b""), Vec::<u8>::new());
    assert_eq!(normalize_secret(b"   "), Vec::<u8>::new());
}

#[test]
fn normalization_trims_all_unicode_whitespace() {
    // Every Unicode White_Space character, in all three UTF-8 widths.
    let spaces = [
        "\t", "\n", "\u{b}", "\u{c}", "\r", " ", "\u{85}", "\u{a0}", "\u{1680}", "\u{2000}",
        "\u{2001}", "\u{2002}", "\u{2003}", "\u{2004}", "\u{2005}", "\u{2006}", "\u{2007}",
        "\u{2008}", "\u{2009}", "\u{200a}", "\u{2028}", "\u{2029}", "\u{202f}", "\u{205f}",
        "\u{3000}",
    ];
    for space in spaces {
        assert!(space.chars().all(char::is_whitespace));
        let wrapped = format!("{space}{space}mzxW6ytb{space}");
        // The byte-level trim agrees with str::trim on valid UTF-8.
        assert_eq!(wrapped.trim(), "mzxW6ytb");
        assert_eq!(normalize_secret(wrapped.as_bytes()), b"MZXW6YTB".to_vec());
        assert_eq!(decode_key(&wrapped), Ok(b"fooba".to_vec()));
    }
}

#[test]
fn normalization_keeps_non_whitespace() {
    // U+200B (zero-width space) is not Unicode White_Space; str::trim
    // keeps it and so does the library (and decoding then fails).
    assert_eq!("\u{200b}A".trim(), "\u{200b}A");
    assert_eq!(
        normalize_secret("\u{200b}ab".as_bytes()),
        "\u{200b}AB".as_bytes().to_vec()
    );
    assert_eq!(decode_key("\u{200b}GEZDGNBV"), Err(TotpError::Decode));
}

#[test]
fn decode_round_trips_through_decoder() {
    let cases: [&[u8]; 5] = [
        b"\x00",
        b"12345678901234567890",
        b"\xff\x00\x80\x7f",
        b"hello world",
        b"\x01",
    ];
    for bytes in cases {
        assert_eq!(decode_key_round_trip(bytes), bytes.to_vec());
        let text = data_encoding::BASE32_NOPAD.encode(bytes);
        assert_eq!(decode_key(&text), Ok(bytes.to_vec()));
        assert_eq!(decode_key_bytes(text.as_bytes()), Ok(bytes.to_vec()));
    }
}

#[test]
fn base32_round_trips() {
    let cases: [&[u8]; 6] = [
        b"",
        b"\x00",
        b"12345678901234567890",
        b"\xff\x00\x80\x7f",
        b"hello world",
        b"\x01",
    ];
    for bytes in cases {
        assert_eq!(base32_round_trip(bytes), bytes.to_vec());
    }
}

#[test]
fn decode_matches_independent_encoder() {
    // Encode with data_encoding directly and decode through the
    // library: the decoder must invert an encoder it never saw.
    let inputs: [&[u8]; 3] = [b"12345678901234567890", b"\x00\x01\x02", b"K"];
    for bytes in inputs {
        let text = data_encoding::BASE32_NOPAD.encode(bytes);
        assert_eq!(decode_key(&text), Ok(bytes.to_vec()));
    }
}

#[test]
fn formatting_pads_to_six_digits() {
    assert_eq!(format_code(7), "000007");
    assert_eq!(format_code(0), "000000");
    assert_eq!(format_code(123456), "123456");
    assert_eq!(format_code(999999), "999999");
}

#[test]
fn displayed_codes_are_six_decimal_digits() {
    for counter in 0u64..50 {
        let code = compute_code(RFC_SECRET, counter).unwrap();
        assert!(code < 1_000_000);
        let shown = format_code(code);
        assert_eq!(shown.len(), 6);
        assert!(shown.chars().all(|c| c.is_ascii_digit()));
    }
}

#[test]
fn timestamp_reads_the_clock() {
    // The test machine's clock is past the epoch, so a counter comes
    // back; its high bytes are zero for any present-day time.
    let bytes = get_timestamp().expect("clock before the Unix epoch");
    assert_eq!(bytes.len(), 8);
    assert_eq!(&bytes[0..2], &[0, 0]);
}

#[test]
fn current_code_produces_displayable_code() {
    let shown = current_code(RFC_SECRET).expect("pipeline failed");
    assert_eq!(shown.len(), 6);
    assert!(shown.chars().all(|c| c.is_ascii_digit()));
}

#[test]
fn current_code_rejects_bad_secret() {
    assert_eq!(current_code("12345"), Err(TotpError::Decode));
    assert_eq!(current_code(""), Err(TotpError::Decode));
}
