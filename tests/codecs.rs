#![allow(deprecated)]

use data_encoding::BASE64;
use rust_decimal::Decimal;
use solana_program::message::{v0, VersionedMessage};
use solana_program::pubkey::Pubkey;
use solana_program::system_instruction;
use solana_sdk::signature::Signature;
use solana_sdk::transaction::{Transaction, VersionedTransaction};
use solana_text_codecs::b58_pubkey::B58Pubkey;
use solana_text_codecs::b58_signature::B58Signature;
use solana_text_codecs::b64_buffer::B64Buffer;
use solana_text_codecs::b64_legacy_tx::B64LegacyTx;
use solana_text_codecs::b64_versioned_tx::B64VersionedTx;
use solana_text_codecs::decimal_str::DecimalStr;
use solana_text_codecs::error::CodecError;
use solana_text_codecs::u64_str::U64Str;

#[test]
fn b58_pubkey_serde_round_trip() {
    let actual = Pubkey::new_unique();

    let ser = B58Pubkey(actual.to_bytes()).encode();
    assert_eq!(format!("\"{}\"", ser), format!("\"{}\"", actual));

    let de = B58Pubkey::decode(&ser).unwrap();
    assert_eq!(de.0, actual.to_bytes());
}

#[test]
fn b58_signature_serde_round_trip() {
    let actual = Signature::new_unique();
    let bytes: [u8; 64] = actual.into();

    let ser = B58Signature(bytes).encode();
    assert_eq!(format!("\"{}\"", ser), format!("\"{}\"", actual));

    let de = B58Signature::decode(&ser).unwrap();
    assert_eq!(de.0, bytes);
}

#[test]
fn b64_buffer_serde_round_trip() {
    let actual: Vec<u8> = vec![0, 1, 2, 3, 4, 5];

    let ser = B64Buffer(actual.clone()).encode();
    assert_eq!(format!("\"{}\"", ser), format!("\"{}\"", BASE64.encode(&actual)));

    let de = B64Buffer::decode(&ser).unwrap();
    assert_eq!(de.0, actual);
}

#[test]
fn b64_legacy_tx_serde_round_trip() {
    let payer = Pubkey::new_unique();
    let actual = Transaction::new_with_payer(
        &[system_instruction::transfer(&payer, &payer, 69)],
        Some(&payer),
    );

    let ser = B64LegacyTx(actual.clone()).encode().unwrap();
    let quoted = format!("\"{}\"", ser);
    assert!(quoted.starts_with('"'));
    assert!(quoted.ends_with('"'));

    let de = B64LegacyTx::decode(&ser).unwrap();
    assert_eq!(de.0, actual);
}

#[test]
fn b64_versioned_tx_serde_round_trip() {
    let payer = Pubkey::new_unique();
    let actual = VersionedTransaction {
        message: VersionedMessage::V0(
            v0::Message::try_compile(
                &payer,
                &[system_instruction::transfer(&payer, &payer, 69)],
                &[],
                solana_program::hash::Hash::default(),
            )
            .unwrap(),
        ),
        signatures: vec![],
    };

    let ser = B64VersionedTx(actual.clone()).encode().unwrap();
    let quoted = format!("\"{}\"", ser);
    assert!(quoted.starts_with('"'));
    assert!(quoted.ends_with('"'));
    // ensure valid base64
    BASE64.decode(quoted[1..quoted.len() - 1].as_bytes()).unwrap();

    let de = B64VersionedTx::decode(&ser).unwrap();
    assert_eq!(de.0, actual);
}

#[test]
fn decimal_str_serde_round_trip() {
    let actual: Decimal = Decimal::from_f64_retain(std::f64::consts::PI).unwrap();
    let value = DecimalStr::new(actual.mantissa(), actual.scale()).unwrap();

    let ser = value.encode();
    assert_eq!(format!("\"{}\"", ser), format!("\"{}\"", actual));

    let de = DecimalStr::decode(&ser).unwrap();
    assert_eq!(Decimal::from_i128_with_scale(de.mantissa, de.scale), actual);
}

#[test]
fn u64_str_serde_roundtrip() {
    let actual = 2134324u64;

    let ser = U64Str(actual).encode();
    assert_eq!(format!("\"{}\"", ser), format!("\"{}\"", actual));

    let de = U64Str::decode(&ser).unwrap();
    assert_eq!(de.0, actual);
}
