use std::str::FromStr;

use solana_sdk::signature::{ParseSignatureError, Signature};
use vstd::prelude::*;

use crate::b58::is_base58_char;
use crate::error::CodecError;
use crate::schema::{string_schema, SchemaDescriptor};

verus! {

/// A 64-byte Solana signature written as base-58 text.
#[derive(Clone, Copy, Debug, PartialEq, Eq, PartialOrd, Ord, Hash)]
pub struct B58Signature(pub [u8; 64]);

#[verifier::external_type_specification]
#[verifier::external_body]
pub struct ExParseSignatureError(ParseSignatureError);

/// The base-58 text that a signature's `Display` writes for its 64 bytes.
pub uninterp spec fn signature_text(b: Seq<u8>) -> Seq<char>;

/// Relies on `Display` for solana_sdk's `Signature` (five8::encode_64 of the bytes): base-58
/// characters only, at most 88 of them (its output buffer), and at least 64 (one `1` per
/// leading zero byte, and at least one digit per further byte).
#[verifier::external_body]
fn signature_to_text(b: &[u8; 64]) -> (r: String)
    ensures
        r@ == signature_text(b@),
        64 <= r@.len() <= 88,
        forall|i: int| 0 <= i < r@.len() ==> is_base58_char(#[trigger] r@[i]),
{
    Signature::from(*b).to_string()
}

/// Relies on `Signature::from_str`: five8::decode_64 accepts exactly the texts that
/// five8::encode_64 writes for some 64 bytes (one text per array, one array per text),
/// and refuses every character outside the base-58 alphabet.
#[verifier::external_body]
fn signature_from_text(s: &str) -> (r: Result<[u8; 64], ParseSignatureError>)
    ensures
        match r {
            Ok(b) => signature_text(b@) == s@ && forall|c: Seq<u8>|
                c.len() == 64 && #[trigger] signature_text(c) == s@ ==> c == b@,
            Err(_) => forall|c: Seq<u8>| c.len() == 64 ==> #[trigger] signature_text(c) != s@,
        },
        r is Ok ==> forall|i: int| 0 <= i < s@.len() ==> is_base58_char(#[trigger] s@[i]),
{
    match Signature::from_str(s) {
        Ok(p) => Ok(p.into()),
        Err(e) => Err(e),
    }
}

impl Default for B58Signature {
    /// The all-zero signature.
    fn default() -> (r: B58Signature)
        ensures
            r@ == Seq::new(64, |i: int| 0u8),
    {
        let r = B58Signature([0u8; 64]);
        proof {
            assert(r@ =~= Seq::new(64, |i: int| 0u8));
        }
        r
    }
}

impl View for B58Signature {
    type V = Seq<u8>;

    open spec fn view(&self) -> Seq<u8> {
        self.0@
    }
}

impl B58Signature {
    /// Reads a signature from its base-58 text.
    ///
    /// Succeeds exactly on the texts that `encode` writes, and then gives back the signature
    /// that was written; every other text (a character outside the alphabet, or a text
    /// that stands for more or fewer than 64 bytes) is refused with `InvalidFormat`.
    pub fn decode(text: &str) -> (r: Result<B58Signature, CodecError>)
        ensures
            match r {
                Ok(k) => signature_text(k@) == text@,
                Err(e) => e == CodecError::InvalidFormat && forall|c: Seq<u8>|
                    c.len() == 64 ==> #[trigger] signature_text(c) != text@,
            },
            forall|c: Seq<u8>|
                c.len() == 64 && #[trigger] signature_text(c) == text@ ==> (r is Ok && r->Ok_0@ == c),
            (exists|i: int| 0 <= i < text@.len() && !is_base58_char(#[trigger] text@[i])) ==> r is Err,
    {
        match signature_from_text(text) {
            Ok(b) => Ok(B58Signature(b)),
            Err(_) => Err(CodecError::InvalidFormat),
        }
    }

    /// How API documentation describes this type.
    pub fn schema() -> (r: SchemaDescriptor)
        ensures
            r.name@ == "B58Signature"@,
            r.schema_type@ == "string"@,
            r.description@ == "base-58 encoded solana signature"@,
    {
        string_schema("B58Signature", "base-58 encoded solana signature")
    }

    /// Writes the signature as base-58 text.
    pub fn encode(&self) -> (r: String)
        ensures
            r@ == signature_text(self@),
            64 <= r@.len() <= 88,
            forall|i: int| 0 <= i < r@.len() ==> is_base58_char(#[trigger] r@[i]),
    {
        signature_to_text(&self.0)
    }

    pub fn new(bytes: [u8; 64]) -> (r: B58Signature)
        ensures
            r@ == bytes@,
    {
        B58Signature(bytes)
    }

    pub fn to_bytes(&self) -> (r: [u8; 64])
        ensures
            r@ == self@,
    {
        self.0
    }
}

} // verus!
