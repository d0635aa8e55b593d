#[allow(deprecated)]
use solana_sdk::transaction::VersionedTransaction;
use vstd::prelude::*;

use crate::b64_buffer::{
    base64_bytes, base64_text, decode_base64_bytes, encode_base64_bytes, BASE64_TEXT_LIMIT,
};
use crate::b64_legacy_tx::is_prefix;
use crate::error::CodecError;
use crate::schema::{string_schema, SchemaDescriptor};

verus! {

/// A versioned Solana transaction (legacy or v0 message) written as base-64 text of
/// its bincode record.
pub struct B64VersionedTx(pub VersionedTransaction);

#[verifier::external_type_specification]
#[verifier::external_body]
pub struct ExVersionedTransaction(VersionedTransaction);

/// Whether bincode reads the bytes as a versioned transaction record.
pub uninterp spec fn versioned_tx_record(b: Seq<u8>) -> bool;

/// The record that bincode writes for a versioned transaction, if it can write one.
pub uninterp spec fn versioned_tx_bytes(tx: VersionedTransaction) -> Option<Seq<u8>>;

/// Relies on `bincode::deserialize::<VersionedTransaction>`: whether it succeeds depends
/// on the bytes alone, and what it reads is written again as the bytes it consumed, which
/// start the input (short vectors are read in their strict form only). It need not read a
/// record back into the transaction written: a legacy message whose header claims 128 or
/// more signatures is written with a first byte that reads back as a version prefix.
#[verifier::external_body]
fn versioned_tx_from_record(b: &[u8]) -> (r: Result<VersionedTransaction, Box<bincode::ErrorKind>>)
    ensures
        (r is Ok) == versioned_tx_record(b@),
        r is Ok ==> (versioned_tx_bytes(r->Ok_0) is Some && is_prefix(
            versioned_tx_bytes(r->Ok_0)->Some_0,
            b@,
        )),
{
    bincode::deserialize::<VersionedTransaction>(b)
}

/// Relies on `bincode::serialize` of a `VersionedTransaction`: the result depends on the
/// transaction alone.
#[verifier::external_body]
fn versioned_tx_to_record(tx: &VersionedTransaction) -> (r: Result<Vec<u8>, Box<bincode::ErrorKind>>)
    ensures
        match r {
            Ok(b) => versioned_tx_bytes(*tx) == Some(b@),
            Err(_) => versioned_tx_bytes(*tx) is None,
        },
{
    bincode::serialize(tx)
}

impl B64VersionedTx {
    /// Reads a transaction in two stages: base-64 text to bytes, then bytes to a record.
    ///
    /// Text that is not base-64 (or longer than `BASE64_TEXT_LIMIT` characters) gives
    /// `InvalidEncoding`; base-64 text whose bytes are not a transaction record gives
    /// `InvalidRecord`. What is read is written again as the record it was read from.
    pub fn decode(text: &str) -> (r: Result<B64VersionedTx, CodecError>)
        ensures
            text@.len() > BASE64_TEXT_LIMIT ==> (r is Err && r->Err_0
                == CodecError::InvalidEncoding),
            text@.len() <= BASE64_TEXT_LIMIT ==> match base64_bytes(text@) {
                None => (r is Err && r->Err_0 == CodecError::InvalidEncoding),
                Some(b) => if versioned_tx_record(b) {
                    r is Ok && versioned_tx_bytes(r->Ok_0.0) is Some && is_prefix(
                        versioned_tx_bytes(r->Ok_0.0)->Some_0,
                        b,
                    )
                } else {
                    (r is Err && r->Err_0 == CodecError::InvalidRecord)
                },
            },
    {
        let bytes = match decode_base64_bytes(text) {
            Ok(v) => v,
            Err(e) => {
                return Err(e);
            },
        };
        match versioned_tx_from_record(bytes.as_slice()) {
            Ok(tx) => Ok(B64VersionedTx(tx)),
            Err(_) => Err(CodecError::InvalidRecord),
        }
    }

    /// How API documentation describes this type.
    pub fn schema() -> (r: SchemaDescriptor)
        ensures
            r.name@ == "B64VersionedTx"@,
            r.schema_type@ == "string"@,
            r.description@ == "base-64 encoded solana versioned transaction. Encoded bytes can be created by calling `transaction.serialize()` in `@solana/web3.js`"@,
    {
        string_schema("B64VersionedTx", "base-64 encoded solana versioned transaction. Encoded bytes can be created by calling `transaction.serialize()` in `@solana/web3.js`")
    }

    /// Writes the transaction's bincode record as base-64 text.
    ///
    /// Fails with `InvalidRecord` exactly where bincode cannot write the transaction, or
    /// where its record is beyond the `usize::MAX / 512` bytes that base-64 encoding handles.
    pub fn encode(&self) -> (r: Result<String, CodecError>)
        ensures
            match versioned_tx_bytes(self.0) {
                Some(b) => if b.len() <= usize::MAX / 512 {
                    r is Ok && r->Ok_0@ == base64_text(b)
                } else {
                    (r is Err && r->Err_0 == CodecError::InvalidRecord)
                },
                None => (r is Err && r->Err_0 == CodecError::InvalidRecord),
            },
    {
        match versioned_tx_to_record(&self.0) {
            Ok(bytes) => {
                if bytes.len() <= usize::MAX / 512 {
                    Ok(encode_base64_bytes(&bytes))
                } else {
                    Err(CodecError::InvalidRecord)
                }
            },
            Err(_) => Err(CodecError::InvalidRecord),
        }
    }

    pub fn new(tx: VersionedTransaction) -> (r: B64VersionedTx)
        ensures
            r.0 == tx,
    {
        B64VersionedTx(tx)
    }

    pub fn into_inner(self) -> (r: VersionedTransaction)
        ensures
            r == self.0,
    {
        self.0
    }
}

} // verus!
