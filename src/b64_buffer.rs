use vstd::prelude::*;

use crate::error::CodecError;
use crate::schema::{string_schema, SchemaDescriptor};

verus! {

/// A byte buffer written as padded standard base-64 text.
#[derive(Clone, Debug, Default, PartialEq, Eq, PartialOrd, Ord, Hash)]
pub struct B64Buffer(pub Vec<u8>);

#[verifier::external_type_specification]
#[verifier::external_body]
pub struct ExDecodeError(data_encoding::DecodeError);

/// The text that padded standard base-64 (RFC 4648) writes for the bytes.
pub uninterp spec fn base64_text(b: Seq<u8>) -> Seq<char>;

/// What padded standard base-64 decoding makes of a text, if it accepts it.
pub uninterp spec fn base64_bytes(s: Seq<char>) -> Option<Seq<u8>>;

/// A character of the standard base-64 alphabet (padding excluded).
pub open spec fn is_base64_alpha(c: char) -> bool {
    ('A' <= c && c <= 'Z') || ('a' <= c && c <= 'z') || ('0' <= c && c <= '9') || c == '+'
        || c == '/'
}

/// A character of the standard base-64 alphabet, or the padding character.
pub open spec fn is_base64_symbol(c: char) -> bool {
    is_base64_alpha(c) || c == '='
}

/// How many `=` end the padded base-64 text of `n` bytes.
pub open spec fn base64_padding(n: nat) -> nat {
    ((3 - n % 3) % 3) as nat
}

/// The shape of padded base-64 text for `n` bytes: four characters for each started group
/// of three bytes, alphabet characters, then `base64_padding(n)` padding characters.
pub open spec fn is_base64_shape(t: Seq<char>, n: nat) -> bool {
    &&& t.len() == 4 * ((n + 2) / 3)
    &&& forall|i: int|
        0 <= i < t.len() ==> if i < t.len() - base64_padding(n) {
            is_base64_alpha(#[trigger] t[i])
        } else {
            t[i] == '='
        }
}

/// The longest text (in characters) that is handed to the base-64 decoder: its length in
/// bytes, at most four per character, then stays within the decoder's `usize::MAX / 8`.
pub const BASE64_TEXT_LIMIT: usize = usize::MAX / 32;

/// Relies on data_encoding::BASE64.encode (RFC 4648, padded): the result is determined by
/// the bytes, and has the padded base-64 shape. It only promises not to panic up to
/// `usize::MAX / 512` bytes.
#[verifier::external_body]
fn base64_encode(b: &[u8]) -> (r: String)
    requires
        b@.len() <= usize::MAX / 512,
    ensures
        r@ == base64_text(b@),
        is_base64_shape(r@, b@.len()),
{
    data_encoding::BASE64.encode(b)
}

/// Relies on data_encoding::BASE64.decode: it reads any text that BASE64.encode wrote
/// back into the bytes it came from, reads the empty text as no bytes, and refuses any
/// symbol outside the alphabet and the padding character. Its `decode_len` asserts that
/// the input has at most `usize::MAX / 8` bytes, which the bound on characters ensures.
#[verifier::external_body]
fn base64_decode(s: &str) -> (r: Result<Vec<u8>, data_encoding::DecodeError>)
    requires
        s@.len() <= BASE64_TEXT_LIMIT,
    ensures
        match r {
            Ok(v) => base64_bytes(s@) == Some(v@),
            Err(_) => base64_bytes(s@) is None,
        },
        forall|b: Seq<u8>| #[trigger] base64_text(b) == s@ ==> (r is Ok && r->Ok_0@ == b),
        s@.len() == 0 ==> (r is Ok && r->Ok_0@.len() == 0),
        r is Ok ==> forall|i: int| 0 <= i < s@.len() ==> is_base64_symbol(#[trigger] s@[i]),
{
    data_encoding::BASE64.decode(s.as_bytes())
}

/// Base-64 decoding with the error of the library; a text longer than
/// `BASE64_TEXT_LIMIT` characters is refused without decoding.
pub(crate) fn decode_base64_bytes(text: &str) -> (r: Result<Vec<u8>, CodecError>)
    ensures
        text@.len() > BASE64_TEXT_LIMIT ==> (r is Err && r->Err_0 == CodecError::InvalidEncoding),
        text@.len() <= BASE64_TEXT_LIMIT ==> match base64_bytes(text@) {
            Some(b) => r is Ok && r->Ok_0@ == b,
            None => (r is Err && r->Err_0 == CodecError::InvalidEncoding),
        },
        text@.len() <= BASE64_TEXT_LIMIT ==> forall|b: Seq<u8>| #[trigger] base64_text(b)
            == text@ ==> base64_bytes(text@) == Some(b),
        text@.len() == 0 ==> base64_bytes(text@) == Some(Seq::<u8>::empty()),
        r is Ok ==> forall|i: int| 0 <= i < text@.len() ==> is_base64_symbol(#[trigger] text@[i]),
{
    if text.unicode_len() > BASE64_TEXT_LIMIT {
        return Err(CodecError::InvalidEncoding);
    }
    match base64_decode(text) {
        Ok(v) => {
            proof {
                if text@.len() == 0 {
                    assert(v@ =~= Seq::<u8>::empty());
                }
            }
            Ok(v)
        },
        Err(_) => Err(CodecError::InvalidEncoding),
    }
}

/// Base-64 encoding of a byte vector.
pub(crate) fn encode_base64_bytes(b: &Vec<u8>) -> (r: String)
    requires
        b@.len() <= usize::MAX / 512,
    ensures
        r@ == base64_text(b@),
        is_base64_shape(r@, b@.len()),
{
    base64_encode(b.as_slice())
}

impl View for B64Buffer {
    type V = Seq<u8>;

    open spec fn view(&self) -> Seq<u8> {
        self.0@
    }
}

impl B64Buffer {
    /// Reads padded standard base-64 text.
    ///
    /// The text that `encode` writes for some bytes always decodes to those bytes; the
    /// empty text decodes to no bytes; a text with a character outside the alphabet and
    /// `=`, or one longer than `BASE64_TEXT_LIMIT` characters, is refused with
    /// `InvalidEncoding`.
    pub fn decode(text: &str) -> (r: Result<B64Buffer, CodecError>)
        ensures
            text@.len() > BASE64_TEXT_LIMIT ==> (r is Err && r->Err_0
                == CodecError::InvalidEncoding),
            text@.len() <= BASE64_TEXT_LIMIT ==> match base64_bytes(text@) {
                Some(b) => r is Ok && r->Ok_0@ == b,
                None => (r is Err && r->Err_0 == CodecError::InvalidEncoding),
            },
            forall|b: Seq<u8>|
                #[trigger] base64_text(b) == text@ && text@.len() <= BASE64_TEXT_LIMIT ==> (r is Ok
                    && r->Ok_0@ == b),
            r is Ok && (exists|b: Seq<u8>| #[trigger] base64_text(b) == text@) ==> base64_text(
                r->Ok_0@,
            ) == text@,
            text@.len() == 0 ==> (r is Ok && r->Ok_0@.len() == 0),
            (exists|i: int| 0 <= i < text@.len() && !is_base64_symbol(#[trigger] text@[i]))
                ==> (r is Err && r->Err_0 == CodecError::InvalidEncoding),
    {
        match decode_base64_bytes(text) {
            Ok(v) => Ok(B64Buffer(v)),
            Err(e) => Err(e),
        }
    }

    /// How API documentation describes this type.
    pub fn schema() -> (r: SchemaDescriptor)
        ensures
            r.name@ == "B64Buffer"@,
            r.schema_type@ == "string"@,
            r.description@ == "base-64 encoded byte buffer"@,
    {
        string_schema("B64Buffer", "base-64 encoded byte buffer")
    }

    /// Writes the bytes as padded standard base-64; no bytes give the empty text.
    pub fn encode(&self) -> (r: String)
        requires
            self@.len() <= usize::MAX / 512,
        ensures
            r@ == base64_text(self@),
            is_base64_shape(r@, self@.len()),
            self@.len() == 0 ==> r@.len() == 0,
    {
        encode_base64_bytes(&self.0)
    }

    pub fn new(bytes: Vec<u8>) -> (r: B64Buffer)
        ensures
            r@ == bytes@,
    {
        B64Buffer(bytes)
    }

    pub fn as_bytes(&self) -> (r: &Vec<u8>)
        ensures
            r@ == self@,
    {
        &self.0
    }

    pub fn into_inner(self) -> (r: Vec<u8>)
        ensures
            r@ == self@,
    {
        self.0
    }
}

} // verus!
