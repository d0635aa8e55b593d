use std::str::FromStr;

use solana_program::pubkey::{ParsePubkeyError, Pubkey};
use vstd::prelude::*;

use crate::b58::is_base58_char;
use crate::error::CodecError;
use crate::schema::{string_schema, SchemaDescriptor};

verus! {

/// A 32-byte Solana public key written as base-58 text.
#[derive(Clone, Copy, Debug, Default, PartialEq, Eq, PartialOrd, Ord, Hash)]
pub struct B58Pubkey(pub [u8; 32]);

#[verifier::external_type_specification]
#[verifier::external_body]
pub struct ExParsePubkeyError(ParsePubkeyError);

/// The base-58 text that a public key's `Display` writes for its 32 bytes.
pub uninterp spec fn pubkey_text(b: Seq<u8>) -> Seq<char>;

/// Relies on `Display` for solana_program's `Pubkey` (five8::encode_32 of the bytes): base-58
/// characters only, at most 44 of them (its output buffer), and at least 32 (one `1` per
/// leading zero byte, and at least one digit per further byte).
#[verifier::external_body]
fn pubkey_to_text(b: &[u8; 32]) -> (r: String)
    ensures
        r@ == pubkey_text(b@),
        32 <= r@.len() <= 44,
        forall|i: int| 0 <= i < r@.len() ==> is_base58_char(#[trigger] r@[i]),
{
    Pubkey::new_from_array(*b).to_string()
}

/// Relies on `Pubkey::from_str`: five8::decode_32 accepts exactly the texts that
/// five8::encode_32 writes for some 32 bytes (one text per array, one array per text),
/// and refuses every character outside the base-58 alphabet.
#[verifier::external_body]
fn pubkey_from_text(s: &str) -> (r: Result<[u8; 32], ParsePubkeyError>)
    ensures
        match r {
            Ok(b) => pubkey_text(b@) == s@ && forall|c: Seq<u8>|
                c.len() == 32 && #[trigger] pubkey_text(c) == s@ ==> c == b@,
            Err(_) => forall|c: Seq<u8>| c.len() == 32 ==> #[trigger] pubkey_text(c) != s@,
        },
        r is Ok ==> forall|i: int| 0 <= i < s@.len() ==> is_base58_char(#[trigger] s@[i]),
{
    match Pubkey::from_str(s) {
        Ok(p) => Ok(p.to_bytes()),
        Err(e) => Err(e),
    }
}

impl View for B58Pubkey {
    type V = Seq<u8>;

    open spec fn view(&self) -> Seq<u8> {
        self.0@
    }
}

impl B58Pubkey {
    /// Reads a public key from its base-58 text.
    ///
    /// Succeeds exactly on the texts that `encode` writes, and then gives back the key
    /// that was written; every other text (a character outside the alphabet, or a text
    /// that stands for more or fewer than 32 bytes) is refused with `InvalidFormat`.
    pub fn decode(text: &str) -> (r: Result<B58Pubkey, CodecError>)
        ensures
            match r {
                Ok(k) => pubkey_text(k@) == text@,
                Err(e) => e == CodecError::InvalidFormat && forall|c: Seq<u8>|
                    c.len() == 32 ==> #[trigger] pubkey_text(c) != text@,
            },
            forall|c: Seq<u8>|
                c.len() == 32 && #[trigger] pubkey_text(c) == text@ ==> (r is Ok && r->Ok_0@ == c),
            (exists|i: int| 0 <= i < text@.len() && !is_base58_char(#[trigger] text@[i])) ==> r is Err,
    {
        match pubkey_from_text(text) {
            Ok(b) => Ok(B58Pubkey(b)),
            Err(_) => Err(CodecError::InvalidFormat),
        }
    }

    /// How API documentation describes this type.
    pub fn schema() -> (r: SchemaDescriptor)
        ensures
            r.name@ == "B58Pubkey"@,
            r.schema_type@ == "string"@,
            r.description@ == "base-58 encoded solana pubkey"@,
    {
        string_schema("B58Pubkey", "base-58 encoded solana pubkey")
    }

    /// Writes the key as base-58 text.
    pub fn encode(&self) -> (r: String)
        ensures
            r@ == pubkey_text(self@),
            32 <= r@.len() <= 44,
            forall|i: int| 0 <= i < r@.len() ==> is_base58_char(#[trigger] r@[i]),
    {
        pubkey_to_text(&self.0)
    }

    pub fn new(bytes: [u8; 32]) -> (r: B58Pubkey)
        ensures
            r@ == bytes@,
    {
        B58Pubkey(bytes)
    }

    pub fn to_bytes(&self) -> (r: [u8; 32])
        ensures
            r@ == self@,
    {
        self.0
    }
}

} // verus!
