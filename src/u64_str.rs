use vstd::prelude::*;

use crate::error::CodecError;
use crate::schema::{string_schema, SchemaDescriptor};

verus! {

/// An unsigned 64-bit integer written as a base-10 digit string.
///
/// Decoding accepts leading zeros (`"007"` is 7); encoding never writes them.
#[derive(Clone, Copy, Debug, Default, PartialEq, Eq, PartialOrd, Ord, Hash)]
pub struct U64Str(pub u64);

pub open spec fn is_digit(c: char) -> bool {
    '0' <= c && c <= '9'
}

pub open spec fn all_digits(s: Seq<char>) -> bool {
    forall|i: int| 0 <= i < s.len() ==> is_digit(#[trigger] s[i])
}

pub open spec fn digit_value(c: char) -> nat {
    (c as u32 - '0' as u32) as nat
}

/// The number that a string of decimal digits denotes, most significant digit first.
pub open spec fn digits_value(s: Seq<char>) -> nat
    decreases s.len(),
{
    if s.len() == 0 {
        0
    } else {
        digits_value(s.drop_last()) * 10 + digit_value(s.last())
    }
}

pub open spec fn digit_char(d: nat) -> char {
    if d == 0 {
        '0'
    } else if d == 1 {
        '1'
    } else if d == 2 {
        '2'
    } else if d == 3 {
        '3'
    } else if d == 4 {
        '4'
    } else if d == 5 {
        '5'
    } else if d == 6 {
        '6'
    } else if d == 7 {
        '7'
    } else if d == 8 {
        '8'
    } else {
        '9'
    }
}

/// The base-10 form of `n`, with no leading zeros ("0" for zero).
pub open spec fn decimal_digits(n: nat) -> Seq<char>
    decreases n,
{
    if n < 10 {
        seq![digit_char(n)]
    } else {
        decimal_digits(n / 10).push(digit_char(n % 10))
    }
}

/// The text form that `encode` produces: digits only, no sign, no leading zero.
pub open spec fn is_canonical_u64_text(s: Seq<char>) -> bool {
    &&& s.len() > 0
    &&& all_digits(s)
    &&& (s[0] == '0' ==> s.len() == 1)
    &&& digits_value(s) <= u64::MAX
}

/// Relies on String::push: the character is appended at the end.
#[verifier::external_body]
pub(crate) fn push_char(s: &mut String, c: char)
    ensures
        final(s)@ == old(s)@.push(c),
{
    s.push(c);
}

fn digit_char_exec(d: u64) -> (c: char)
    requires
        d < 10,
    ensures
        c == digit_char(d as nat),
{
    if d == 0 {
        '0'
    } else if d == 1 {
        '1'
    } else if d == 2 {
        '2'
    } else if d == 3 {
        '3'
    } else if d == 4 {
        '4'
    } else if d == 5 {
        '5'
    } else if d == 6 {
        '6'
    } else if d == 7 {
        '7'
    } else if d == 8 {
        '8'
    } else {
        '9'
    }
}

fn push_decimal_digits(n: u64, out: &mut String)
    ensures
        final(out)@ == old(out)@ + decimal_digits(n as nat),
    decreases n,
{
    if n >= 10 {
        push_decimal_digits(n / 10, out);
    }
    push_char(out, digit_char_exec(n % 10));
    proof {
        assert(final(out)@ =~= old(out)@ + decimal_digits(n as nat));
    }
}

pub(crate) proof fn lemma_digits_value_prefix(s: Seq<char>, k: int)
    requires
        0 <= k <= s.len(),
    ensures
        digits_value(s.subrange(0, k)) <= digits_value(s),
    decreases s.len() - k,
{
    if k < s.len() {
        lemma_digits_value_prefix(s, k + 1);
        assert(s.subrange(0, k + 1).drop_last() =~= s.subrange(0, k));
    } else {
        assert(s.subrange(0, k) =~= s);
    }
}

pub(crate) proof fn lemma_digit_char_value(d: nat)
    requires
        d < 10,
    ensures
        is_digit(digit_char(d)),
        digit_value(digit_char(d)) == d,
{
}

pub(crate) proof fn lemma_digit_value_char(c: char)
    requires
        is_digit(c),
    ensures
        digit_value(c) < 10,
        digit_char(digit_value(c)) == c,
{
    assert(c == '0' || c == '1' || c == '2' || c == '3' || c == '4' || c == '5' || c == '6'
        || c == '7' || c == '8' || c == '9') by {
        let v = c as u32;
        assert('0' as u32 == 48 && '9' as u32 == 57);
    };
}

proof fn lemma_leading_nonzero_positive(s: Seq<char>)
    requires
        s.len() > 0,
        all_digits(s),
        s[0] != '0',
    ensures
        digits_value(s) > 0,
    decreases s.len(),
{
    if s.len() > 1 {
        let t = s.drop_last();
        assert(t[0] == s[0]);
        lemma_leading_nonzero_positive(t);
    } else {
        lemma_digit_value_char(s[0]);
        assert(s.last() == s[0]);
    }
}

/// Decoding the text that `encode` writes for `v` gives back `v`.
pub proof fn lemma_u64_round_trip(v: nat)
    ensures
        is_canonical_u64_text(decimal_digits(v)) || v > u64::MAX,
        all_digits(decimal_digits(v)),
        decimal_digits(v).len() > 0,
        digits_value(decimal_digits(v)) == v,
        decimal_digits(v)[0] == '0' ==> v == 0,
    decreases v,
{
    let s = decimal_digits(v);
    if v < 10 {
        lemma_digit_char_value(v);
    } else {
        lemma_u64_round_trip(v / 10);
        lemma_digit_char_value(v % 10);
        assert(s.drop_last() =~= decimal_digits(v / 10));
        assert(s[0] == decimal_digits(v / 10)[0]);
    }
}

/// Encoding the value of a canonical text gives back that very text.
pub proof fn lemma_u64_canonical_round_trip(s: Seq<char>)
    requires
        is_canonical_u64_text(s),
    ensures
        decimal_digits(digits_value(s)) == s,
    decreases s.len(),
{
    let v = digits_value(s);
    if s.len() == 1 {
        lemma_digit_value_char(s[0]);
        assert(s.drop_last() =~= Seq::<char>::empty());
        assert(s.last() == s[0]);
        assert(digits_value(s.drop_last()) == 0);
        assert(v == digit_value(s[0]));
        assert(decimal_digits(v) == seq![digit_char(v)]);
        assert(decimal_digits(v) =~= s);
    } else {
        let t = s.drop_last();
        assert(t[0] == s[0]);
        lemma_leading_nonzero_positive(t);
        lemma_digit_value_char(s.last());
        assert(v == digits_value(t) * 10 + digit_value(s.last()));
        assert(v / 10 == digits_value(t) && v % 10 == digit_value(s.last())) by (nonlinear_arith)
            requires
                v == digits_value(t) * 10 + digit_value(s.last()),
                digit_value(s.last()) < 10,
        ;
        lemma_u64_canonical_round_trip(t);
        assert(decimal_digits(v) =~= t.push(s.last()));
        assert(t.push(s.last()) =~= s);
    }
}

impl U64Str {
    pub open spec fn view(&self) -> nat {
        self.0 as nat
    }

    /// Reads a base-10 digit string.
    ///
    /// Any character other than `0`..`9` (a sign included), or an empty text, gives
    /// `InvalidNumber`; a digit string whose value exceeds `u64::MAX` gives `NumberOverflow`.
    pub fn decode(text: &str) -> (r: Result<U64Str, CodecError>)
        ensures
            match r {
                Ok(v) => text@.len() > 0 && all_digits(text@) && digits_value(text@) == v.0,
                Err(CodecError::NumberOverflow) => text@.len() > 0 && all_digits(text@)
                    && digits_value(text@) > u64::MAX,
                Err(CodecError::InvalidNumber) => text@.len() == 0 || !all_digits(text@),
                Err(_) => false,
            },
    {
        let n = text.unicode_len();
        if n == 0 {
            return Err(CodecError::InvalidNumber);
        }
        let mut i: usize = 0;
        while i < n
            invariant
                n == text@.len(),
                i <= n,
                forall|j: int| 0 <= j < i ==> is_digit(#[trigger] text@[j]),
            decreases n - i,
        {
            let c = text.get_char(i);
            if !('0' <= c && c <= '9') {
                return Err(CodecError::InvalidNumber);
            }
            i = i + 1;
        }
        let mut acc: u64 = 0;
        let mut i: usize = 0;
        while i < n
            invariant
                n == text@.len(),
                i <= n,
                all_digits(text@),
                acc == digits_value(text@.subrange(0, i as int)),
            decreases n - i,
        {
            let c = text.get_char(i);
            let d = (c as u32 - '0' as u32) as u64;
            proof {
                let p = text@.subrange(0, i as int + 1);
                assert(p.drop_last() =~= text@.subrange(0, i as int));
                assert(p.last() == c);
                assert(digits_value(p) == acc * 10 + d);
            }
            match acc.checked_mul(10) {
                Some(m) => match m.checked_add(d) {
                    Some(next) => {
                        acc = next;
                    },
                    None => {
                        proof {
                            lemma_digits_value_prefix(text@, i as int + 1);
                        }
                        return Err(CodecError::NumberOverflow);
                    },
                },
                None => {
                    proof {
                        lemma_digits_value_prefix(text@, i as int + 1);
                    }
                    return Err(CodecError::NumberOverflow);
                },
            }
            i = i + 1;
        }
        proof {
            assert(text@.subrange(0, n as int) =~= text@);
        }
        Ok(U64Str(acc))
    }

    /// How API documentation describes this type.
    pub fn schema() -> (r: SchemaDescriptor)
        ensures
            r.name@ == "U64Str"@,
            r.schema_type@ == "string"@,
            r.description@ == "unsigned 64-bit integer serialized as a string"@,
    {
        string_schema("U64Str", "unsigned 64-bit integer serialized as a string")
    }

    /// Writes the value as base-10 digits, without sign or leading zeros.
    pub fn encode(&self) -> (r: String)
        ensures
            r@ == decimal_digits(self.0 as nat),
            is_canonical_u64_text(r@),
            digits_value(r@) == self.0,
    {
        let mut out = String::new();
        push_decimal_digits(self.0, &mut out);
        proof {
            assert(out@ =~= decimal_digits(self.0 as nat));
            lemma_u64_round_trip(self.0 as nat);
        }
        out
    }

    pub fn new(value: u64) -> (r: U64Str)
        ensures
            r.0 == value,
    {
        U64Str(value)
    }

    pub fn get(&self) -> (r: u64)
        ensures
            r == self.0,
    {
        self.0
    }
}

} // verus!
