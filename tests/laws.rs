use rust_decimal::Decimal;
use solana_text_codecs::b58_pubkey::B58Pubkey;
use solana_text_codecs::b58_signature::B58Signature;
use solana_text_codecs::b64_buffer::B64Buffer;
use solana_text_codecs::b64_legacy_tx::B64LegacyTx;
use solana_text_codecs::b64_versioned_tx::B64VersionedTx;
use solana_text_codecs::decimal_str::DecimalStr;
use solana_text_codecs::error::CodecError;
use solana_text_codecs::u64_str::U64Str;

#[test]
fn pubkey_round_trip_on_fixed_pattern() {
    let key = B58Pubkey([7u8; 32]);
    let text = key.encode();
    assert_eq!(text, "US517G5965aydkZ46HS38QLi7UQiSojurfbQfKCELFx");
    assert_eq!(B58Pubkey::decode(&text).unwrap().0, [7u8; 32]);
}

#[test]
fn pubkey_canonical_text_round_trip() {
    let text = "JEKNVnkbo3jma5nREBBJCDoXFVeKkD56V3xKrvRmWxFG";
    let key = B58Pubkey::decode(text).unwrap();
    assert_eq!(key.0, [255u8; 32]);
    assert_eq!(key.encode(), text);
}

#[test]
fn pubkey_rejects_wrong_decoded_length() {
    let ones_31 = "1".repeat(31);
    let ones_33 = "1".repeat(33);
    assert_eq!(B58Pubkey::decode(&ones_31), Err(CodecError::InvalidFormat));
    assert_eq!(B58Pubkey::decode(&ones_33), Err(CodecError::InvalidFormat));
    assert_eq!(
        B58Pubkey::decode("4uQeVj5tqViQh7yWWGStvkEG1Zmhx6uasJtWCJziofL"),
        Err(CodecError::InvalidFormat)
    );
    assert_eq!(
        B58Pubkey::decode("2K3n5t4wSaF5mj27Tw9vStXWLWyRjjiH5Cp3CFLpKVCr1c"),
        Err(CodecError::InvalidFormat)
    );
    assert!(B58Pubkey::decode(&"1".repeat(32)).is_ok());
}

#[test]
fn signature_rejects_wrong_decoded_length() {
    assert_eq!(B58Signature::decode(&"1".repeat(63)), Err(CodecError::InvalidFormat));
    assert_eq!(B58Signature::decode(&"1".repeat(65)), Err(CodecError::InvalidFormat));
    assert_eq!(
        B58Signature::decode(
            "2AFv15MNPuA84RmU66xw2uMzGipcVxNpzAffoacGVvjFue3CBmf633fAWuiP9cwL9C3z3CJiGgRSFjJfeEcA6QW"
        ),
        Err(CodecError::InvalidFormat)
    );
    assert_eq!(
        B58Signature::decode(
            "PbGvaomYRfb7uHHdgYrHrM2HMLhjLftSPTPiKpZnXVnaXWyAn4HxUWeMm3wbfQZ2BFkN3q7HqdxMLECGdmX1jgorv"
        ),
        Err(CodecError::InvalidFormat)
    );
    let full = "67rpwLCuS5DGA8KGZXKsVQ7dnPb9goRLoKfgGbLfQg9WoLUgNY77E2jT11fem3coV9nAkguBACzrU1iyZM4B8roQ";
    let sig = B58Signature::decode(full).unwrap();
    assert_eq!(sig.0, [255u8; 64]);
    assert_eq!(sig.encode(), full);
}

#[test]
fn base58_rejects_zero_character() {
    let mut key_text = "1".repeat(31);
    key_text.push('0');
    assert_eq!(B58Pubkey::decode(&key_text), Err(CodecError::InvalidFormat));
    let mut sig_text = "1".repeat(63);
    sig_text.push('0');
    assert_eq!(B58Signature::decode(&sig_text), Err(CodecError::InvalidFormat));
}

#[test]
fn buffer_rejects_bang() {
    assert_eq!(B64Buffer::decode("AA!A"), Err(CodecError::InvalidEncoding));
    assert_eq!(B64Buffer::decode("!"), Err(CodecError::InvalidEncoding));
}

#[test]
fn buffer_zero_length() {
    assert_eq!(B64Buffer(vec![]).encode(), "");
    assert_eq!(B64Buffer::decode("").unwrap().0, Vec::<u8>::new());
}

#[test]
fn buffer_known_texts() {
    assert_eq!(B64Buffer(b"Hello world".to_vec()).encode(), "SGVsbG8gd29ybGQ=");
    assert_eq!(B64Buffer::decode("SGVsbG8gd29ybGQ=").unwrap().0, b"Hello world".to_vec());
    assert_eq!(B64Buffer(vec![0, 1, 2, 3, 4, 5]).encode(), "AAECAwQF");
    assert_eq!(B64Buffer::decode("SGVsbG8gd29ybGQ").err(), Some(CodecError::InvalidEncoding));
}

#[test]
fn u64_overflow_boundary() {
    assert_eq!(U64Str::decode("18446744073709551616"), Err(CodecError::NumberOverflow));
    assert_eq!(U64Str::decode("18446744073709551615").unwrap().0, u64::MAX);
    assert_eq!(U64Str(u64::MAX).encode(), "18446744073709551615");
}

#[test]
fn u64_grammar() {
    assert_eq!(U64Str::decode(""), Err(CodecError::InvalidNumber));
    assert_eq!(U64Str::decode("+5"), Err(CodecError::InvalidNumber));
    assert_eq!(U64Str::decode("-5"), Err(CodecError::InvalidNumber));
    assert_eq!(U64Str::decode("12a"), Err(CodecError::InvalidNumber));
    assert_eq!(U64Str::decode("99999999999999999999x"), Err(CodecError::InvalidNumber));
    assert_eq!(U64Str::decode("007").unwrap().0, 7);
    assert_eq!(U64Str::decode("007").unwrap().encode(), "7");
    assert_eq!(U64Str(0).encode(), "0");
    assert_eq!(U64Str::decode("0").unwrap().0, 0);
}

#[test]
fn u64_canonical_text_round_trip() {
    for text in ["0", "1", "10", "2134324", "18446744073709551615"] {
        assert_eq!(U64Str::decode(text).unwrap().encode(), text);
    }
    for v in [0u64, 9, 10, 99, 100, 12345678901234567890] {
        assert_eq!(U64Str::decode(&U64Str(v).encode()).unwrap().0, v);
    }
}

#[test]
fn decimal_sign_and_fraction() {
    let d = DecimalStr::decode("-3.1400").unwrap();
    assert_eq!(d.mantissa, -31400);
    assert_eq!(d.scale, 4);
    let text = d.encode();
    assert_eq!(text, "-3.1400");
    let reread: Decimal = text.parse().unwrap();
    assert_eq!(reread, Decimal::new(-314, 2));
}

#[test]
fn decimal_rejects_bad_text() {
    assert_eq!(DecimalStr::decode(""), Err(CodecError::InvalidNumber));
    assert_eq!(DecimalStr::decode("abc"), Err(CodecError::InvalidNumber));
    assert_eq!(DecimalStr::decode("1.2.3"), Err(CodecError::InvalidNumber));
    for text in ["+1", "1_000", "1e5", ".5", "5.", "-", "1-2", "--1", " 1", "1.-2"] {
        assert_eq!(DecimalStr::decode(text), Err(CodecError::InvalidNumber), "{}", text);
    }
}

#[test]
fn decimal_range_limits() {
    assert_eq!(
        DecimalStr::decode("79228162514264337593543950336"),
        Err(CodecError::InvalidNumber)
    );
    assert_eq!(
        DecimalStr::decode("-79228162514264337593543950336"),
        Err(CodecError::InvalidNumber)
    );
    let max = DecimalStr::decode("79228162514264337593543950335").unwrap();
    assert_eq!((max.mantissa, max.scale), (79228162514264337593543950335, 0));
    let fine = DecimalStr::decode("7.9228162514264337593543950335").unwrap();
    assert_eq!((fine.mantissa, fine.scale), (79228162514264337593543950335, 28));
    assert_eq!(
        DecimalStr::decode("0.00000000000000000000000000001"),
        Err(CodecError::InvalidNumber)
    );
    let zero = DecimalStr::decode("-0").unwrap();
    assert_eq!((zero.mantissa, zero.scale), (0, 0));
    assert_eq!(zero.encode(), "0");
    let padded = DecimalStr::decode("000.50").unwrap();
    assert_eq!((padded.mantissa, padded.scale), (50, 2));
    assert_eq!(padded.encode(), "0.50");
}

#[test]
fn decimal_numeric_order() {
    let a = DecimalStr::decode("1.5").unwrap();
    let b = DecimalStr::decode("1.25").unwrap();
    let c = DecimalStr::decode("-2").unwrap();
    assert!(a > b);
    assert!(c < b);
    assert!(DecimalStr::decode("2.000").unwrap() == DecimalStr::decode("2").unwrap());
    assert_eq!(a.partial_cmp(&DecimalStr::decode("1.50").unwrap()), Some(std::cmp::Ordering::Equal));
}

#[test]
fn decimal_keeps_scale() {
    let a = DecimalStr::decode("1.0").unwrap();
    let b = DecimalStr::decode("1.00").unwrap();
    assert_eq!(a, b);
    assert_eq!((a.mantissa, a.scale), (10, 1));
    assert_eq!((b.mantissa, b.scale), (100, 2));
    assert_eq!(a.encode(), "1.0");
    assert_eq!(b.encode(), "1.00");
    let small = DecimalStr::new(1, 28).unwrap();
    assert_eq!(small.encode(), "0.0000000000000000000000000001");
    assert_eq!(DecimalStr::decode(&small.encode()).unwrap(), small);
    let big = DecimalStr::new(-79228162514264337593543950335, 0).unwrap();
    assert_eq!(big.encode(), "-79228162514264337593543950335");
    assert_eq!(DecimalStr::decode(&big.encode()).unwrap(), big);
    assert!(DecimalStr::new(1, 29).is_none());
    assert!(DecimalStr::new(79228162514264337593543950336, 0).is_none());
}

#[test]
fn legacy_transaction_text_written_back() {
    let payer = solana_program::pubkey::Pubkey::new_unique();
    #[allow(deprecated)]
    let tx = solana_sdk::transaction::Transaction::new_with_payer(
        &[solana_program::system_instruction::transfer(&payer, &payer, 7)],
        Some(&payer),
    );
    let text = B64LegacyTx(tx).encode().unwrap();
    let read = B64LegacyTx::decode(&text).unwrap();
    assert_eq!(read.encode().unwrap(), text);
}

#[test]
fn transaction_two_stage_failure() {
    assert_eq!(B64LegacyTx::decode("AAAA").err(), Some(CodecError::InvalidRecord));
    assert_eq!(B64LegacyTx::decode("").err(), Some(CodecError::InvalidRecord));
    assert_eq!(B64LegacyTx::decode("!!!!").err(), Some(CodecError::InvalidEncoding));
    assert_eq!(B64VersionedTx::decode("AAAA").err(), Some(CodecError::InvalidRecord));
    assert_eq!(B64VersionedTx::decode("").err(), Some(CodecError::InvalidRecord));
    assert_eq!(B64VersionedTx::decode("AA=A").err(), Some(CodecError::InvalidEncoding));
}

#[test]
fn schema_descriptors() {
    let sig = B58Signature::schema();
    assert_eq!(sig.name, "B58Signature");
    assert_eq!(sig.schema_type, "string");
    assert_eq!(sig.description, "base-58 encoded solana signature");
    assert_eq!(B58Pubkey::schema().name, "B58Pubkey");
    assert_eq!(B64Buffer::schema().description, "base-64 encoded byte buffer");
    assert_eq!(B64LegacyTx::schema().name, "B64LegacyTx");
    assert_eq!(B64VersionedTx::schema().name, "B64VersionedTx");
    assert_eq!(DecimalStr::schema().description, "rust decimal serialized as a string");
    assert_eq!(U64Str::schema().schema_type, "string");
}

#[test]
fn signature_default_is_zero() {
    let sig = B58Signature::default();
    assert_eq!(sig.0, [0u8; 64]);
    assert_eq!(sig.encode(), "1".repeat(64));
    assert_eq!(B58Signature::decode(&"1".repeat(64)).unwrap(), sig);
}

#[test]
fn buffer_accepts_padding_between_blocks() {
    let b = B64Buffer::decode("SGVsbA==byB3b3JsZA==").unwrap();
    assert_eq!(b.0, b"Hello world".to_vec());
    assert_eq!(b.encode(), "SGVsbG8gd29ybGQ=");
}
