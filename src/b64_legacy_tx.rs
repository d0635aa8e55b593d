#[allow(deprecated)]
use solana_sdk::transaction::Transaction;
use vstd::prelude::*;

use crate::b64_buffer::{
    base64_bytes, base64_text, decode_base64_bytes, encode_base64_bytes, BASE64_TEXT_LIMIT,
};
use crate::error::CodecError;
use crate::schema::{string_schema, SchemaDescriptor};

verus! {

/// A legacy Solana transaction written as base-64 text of its bincode record.
pub struct B64LegacyTx(pub Transaction);

#[verifier::external_type_specification]
#[verifier::external_body]
pub struct ExTransaction(Transaction);

#[verifier::external_type_specification]
#[verifier::external_body]
pub struct ExBincodeErrorKind(bincode::ErrorKind);

/// Whether bincode reads the bytes as a legacy transaction record.
pub uninterp spec fn legacy_tx_record(b: Seq<u8>) -> bool;

/// The record that bincode writes for a legacy transaction, if it can write one.
pub uninterp spec fn legacy_tx_bytes(tx: Transaction) -> Option<Seq<u8>>;

/// `p` is the start of `b`.
pub open spec fn is_prefix(p: Seq<u8>, b: Seq<u8>) -> bool {
    p.len() <= b.len() && b.subrange(0, p.len() as int) == p
}

/// Relies on `bincode::deserialize::<Transaction>`: whether it succeeds depends on the
/// bytes alone; it reads a record that `bincode::serialize` wrote back into the very
/// transaction written (all its fields are derived serde, and short vectors are read in
/// their strict form only); and what it reads is written again as the bytes it consumed,
/// which start the input.
#[verifier::external_body]
fn legacy_tx_from_record(b: &[u8]) -> (r: Result<Transaction, Box<bincode::ErrorKind>>)
    ensures
        (r is Ok) == legacy_tx_record(b@),
        forall|t: Transaction|
            #[trigger] legacy_tx_bytes(t) == Some(b@) ==> (r is Ok && r->Ok_0 == t),
        r is Ok ==> (legacy_tx_bytes(r->Ok_0) is Some && is_prefix(
            legacy_tx_bytes(r->Ok_0)->Some_0,
            b@,
        )),
{
    bincode::deserialize::<Transaction>(b)
}

/// Relies on `bincode::serialize` of a `Transaction`: the result depends on the
/// transaction alone.
#[verifier::external_body]
fn legacy_tx_to_record(tx: &Transaction) -> (r: Result<Vec<u8>, Box<bincode::ErrorKind>>)
    ensures
        match r {
            Ok(b) => legacy_tx_bytes(*tx) == Some(b@),
            Err(_) => legacy_tx_bytes(*tx) is None,
        },
{
    bincode::serialize(tx)
}

impl B64LegacyTx {
    /// Reads a transaction in two stages: base-64 text to bytes, then bytes to a record.
    ///
    /// Text that is not base-64 (or longer than `BASE64_TEXT_LIMIT` characters) gives
    /// `InvalidEncoding`; base-64 text whose bytes are not a transaction record gives
    /// `InvalidRecord`. The bytes of the record of a transaction read back as that very
    /// transaction, and what is read is written again as the record it was read from.
    pub fn decode(text: &str) -> (r: Result<B64LegacyTx, CodecError>)
        ensures
            text@.len() > BASE64_TEXT_LIMIT ==> (r is Err && r->Err_0
                == CodecError::InvalidEncoding),
            text@.len() <= BASE64_TEXT_LIMIT ==> match base64_bytes(text@) {
                None => (r is Err && r->Err_0 == CodecError::InvalidEncoding),
                Some(b) => if legacy_tx_record(b) {
                    r is Ok && legacy_tx_bytes(r->Ok_0.0) is Some && is_prefix(
                        legacy_tx_bytes(r->Ok_0.0)->Some_0,
                        b,
                    )
                } else {
                    (r is Err && r->Err_0 == CodecError::InvalidRecord)
                },
            },
            forall|t: Transaction, b: Seq<u8>|
                #![trigger legacy_tx_bytes(t), base64_text(b)]
                legacy_tx_bytes(t) == Some(b) && base64_text(b) == text@ && text@.len()
                    <= BASE64_TEXT_LIMIT ==> (r is Ok && r->Ok_0.0 == t),
    {
        let bytes = match decode_base64_bytes(text) {
            Ok(v) => v,
            Err(e) => {
                return Err(e);
            },
        };
        match legacy_tx_from_record(bytes.as_slice()) {
            Ok(tx) => Ok(B64LegacyTx(tx)),
            Err(_) => Err(CodecError::InvalidRecord),
        }
    }

    /// How API documentation describes this type.
    pub fn schema() -> (r: SchemaDescriptor)
        ensures
            r.name@ == "B64LegacyTx"@,
            r.schema_type@ == "string"@,
            r.description@ == "base-64 encoded solana legacy transaction. Can be created by calling `transaction.serialize()` in `@solana/web3.js`"@,
    {
        string_schema("B64LegacyTx", "base-64 encoded solana legacy transaction. Can be created by calling `transaction.serialize()` in `@solana/web3.js`")
    }

    /// Writes the transaction's bincode record as base-64 text.
    ///
    /// Fails with `InvalidRecord` exactly where bincode cannot write the transaction, or
    /// where its record is beyond the `usize::MAX / 512` bytes that base-64 encoding handles.
    pub fn encode(&self) -> (r: Result<String, CodecError>)
        ensures
            match legacy_tx_bytes(self.0) {
                Some(b) => if b.len() <= usize::MAX / 512 {
                    r is Ok && r->Ok_0@ == base64_text(b)
                } else {
                    (r is Err && r->Err_0 == CodecError::InvalidRecord)
                },
                None => (r is Err && r->Err_0 == CodecError::InvalidRecord),
            },
    {
        match legacy_tx_to_record(&self.0) {
            Ok(bytes) => {
                if bytes.len() <= usize::MAX / 512 {
                    Ok(encode_base64_bytes(&bytes))
                } else {
                    Err(CodecError::InvalidRecord)
                }
            },
            Err(_) => Err(CodecError::InvalidRecord),
        }
    }

    pub fn new(tx: Transaction) -> (r: B64LegacyTx)
        ensures
            r.0 == tx,
    {
        B64LegacyTx(tx)
    }

    pub fn into_inner(self) -> (r: Transaction)
        ensures
            r == self.0,
    {
        self.0
    }
}

} // verus!
