use std::str::FromStr;

use core::cmp::Ordering;
use rust_decimal::Decimal;
use vstd::prelude::*;

use crate::error::CodecError;
use crate::schema::{string_schema, SchemaDescriptor};
use crate::u64_str::{
    all_digits, decimal_digits, digit_char, digits_value, is_digit, lemma_digit_char_value,
    lemma_digits_value_prefix, lemma_u64_round_trip,
};

verus! {

/// The largest scale (number of fractional digits) a decimal can carry.
pub const MAX_SCALE: u32 = 28;

/// One more than the largest magnitude of a decimal's mantissa (a 96-bit integer).
pub const MANTISSA_LIMIT: i128 = 0x1_0000_0000_0000_0000_0000_0000;

/// A signed decimal number written as base-10 text, such as `"-3.1400"`.
///
/// The value is `mantissa / 10^scale`. Equality and order are those of the number: `1.0`
/// and `1.00` are equal, though each is written back with the fractional digits it was
/// read with.
#[derive(Clone, Copy, Debug, Default, Eq)]
pub struct DecimalStr {
    pub mantissa: i128,
    pub scale: u32,
}

#[verifier::external_type_specification]
#[verifier::external_body]
pub struct ExDecimalError(rust_decimal::Error);

/// A mantissa and scale that a decimal can hold.
pub open spec fn decimal_parts_fit(mantissa: int, scale: int) -> bool {
    &&& -MANTISSA_LIMIT < mantissa < MANTISSA_LIMIT
    &&& 0 <= scale <= MAX_SCALE
}

pub open spec fn pow10(n: nat) -> nat
    decreases n,
{
    if n == 0 {
        1
    } else {
        10 * pow10((n - 1) as nat)
    }
}

/// The last `w` decimal digits of `v`, zeros in front included.
pub open spec fn padded_digits(v: nat, w: nat) -> Seq<char>
    decreases w,
{
    if w == 0 {
        Seq::empty()
    } else {
        padded_digits(v / 10, (w - 1) as nat).push(digit_char(v % 10))
    }
}

pub open spec fn magnitude(m: int) -> nat {
    if m < 0 {
        (-m) as nat
    } else {
        m as nat
    }
}

/// The text of `mantissa / 10^scale`: a `-` for a negative number, the integer digits
/// without leading zeros, and, for a positive scale, a point and exactly `scale` digits.
pub open spec fn decimal_display(mantissa: int, scale: nat) -> Seq<char> {
    let a = magnitude(mantissa);
    let sign = if mantissa < 0 {
        seq!['-']
    } else {
        Seq::<char>::empty()
    };
    let whole = decimal_digits(a / pow10(scale));
    if scale == 0 {
        sign + whole
    } else {
        sign + whole + seq!['.'] + padded_digits(a % pow10(scale), scale)
    }
}

pub open spec fn has_minus(s: Seq<char>) -> bool {
    s.len() > 0 && s[0] == '-'
}

/// The text after an optional leading `-`.
pub open spec fn unsigned_part(s: Seq<char>) -> Seq<char> {
    if has_minus(s) {
        s.subrange(1, s.len() as int)
    } else {
        s
    }
}

/// `b` is digits, with at most one `.` at index `k` that has digits on both sides;
/// `k == b.len()` when there is no point.
pub open spec fn decimal_split(b: Seq<char>, k: int) -> bool {
    &&& 0 < k <= b.len()
    &&& k < b.len() ==> (k + 1 < b.len() && b[k] == '.')
    &&& forall|j: int| 0 <= j < b.len() && j != k ==> is_digit(#[trigger] b[j])
}

/// The digits of `b` without its point at `k`.
pub open spec fn split_digits(b: Seq<char>, k: int) -> Seq<char> {
    if k < b.len() {
        b.subrange(0, k) + b.subrange(k + 1, b.len() as int)
    } else {
        b
    }
}

pub open spec fn split_scale(b: Seq<char>, k: int) -> nat {
    if k < b.len() {
        (b.len() - k - 1) as nat
    } else {
        0
    }
}

/// The mantissa and scale that a text of the grammar `-?digits(.digits)?` denotes exactly.
pub open spec fn decimal_parse(s: Seq<char>) -> Option<(int, nat)> {
    let b = unsigned_part(s);
    if exists|k: int| decimal_split(b, k) {
        let k = choose|k: int| decimal_split(b, k);
        let a = digits_value(split_digits(b, k)) as int;
        Some((if has_minus(s) { -a } else { a }, split_scale(b, k)))
    } else {
        None
    }
}

/// The order of the numbers `m1 / 10^s1` and `m2 / 10^s2`.
pub open spec fn decimal_order(m1: int, s1: nat, m2: int, s2: nat) -> Ordering {
    let l = m1 * pow10(s2);
    let r = m2 * pow10(s1);
    if l < r {
        Ordering::Less
    } else if l == r {
        Ordering::Equal
    } else {
        Ordering::Greater
    }
}

/// Relies on `Display` for `Decimal::from_i128_with_scale(mantissa, scale)`, which
/// panics outside the 96-bit mantissa and the scale 28: a `-` when negative, the integer
/// digits (`0` when there are none), and for a positive scale a point followed by exactly
/// `scale` digits.
#[verifier::external_body]
fn decimal_to_text(mantissa: i128, scale: u32) -> (r: String)
    requires
        decimal_parts_fit(mantissa as int, scale as int),
    ensures
        r@ == decimal_display(mantissa as int, scale as nat),
{
    Decimal::from_i128_with_scale(mantissa, scale).to_string()
}

/// Relies on `Decimal::from_str`, read back through `mantissa` and `scale`: every
/// decimal it makes fits the 96-bit mantissa and the scale 28, and a text of the plain
/// grammar `-?digits(.digits)?` whose exact mantissa and scale fit is read as exactly
/// those.
#[verifier::external_body]
fn decimal_from_text(s: &str) -> (r: Result<(i128, u32), rust_decimal::Error>)
    ensures
        r is Ok ==> decimal_parts_fit(r->Ok_0.0 as int, r->Ok_0.1 as int),
        decimal_parse(s@) is Some && decimal_parts_fit(
            decimal_parse(s@)->Some_0.0,
            decimal_parse(s@)->Some_0.1 as int,
        ) ==> (r is Ok && r->Ok_0.0 == decimal_parse(s@)->Some_0.0 && r->Ok_0.1
            == decimal_parse(s@)->Some_0.1),
{
    match Decimal::from_str(s) {
        Ok(d) => Ok((d.mantissa(), d.scale())),
        Err(e) => Err(e),
    }
}

/// Relies on `Ord` for `Decimal` (built by `Decimal::from_i128_with_scale`), which orders
/// by numeric value.
#[verifier::external_body]
fn decimal_cmp(m1: i128, s1: u32, m2: i128, s2: u32) -> (r: Ordering)
    requires
        decimal_parts_fit(m1 as int, s1 as int),
        decimal_parts_fit(m2 as int, s2 as int),
    ensures
        r == decimal_order(m1 as int, s1 as nat, m2 as int, s2 as nat),
{
    Decimal::from_i128_with_scale(m1, s1).cmp(&Decimal::from_i128_with_scale(m2, s2))
}

proof fn lemma_pow10_positive(n: nat)
    ensures
        pow10(n) > 0,
    decreases n,
{
    if n > 0 {
        lemma_pow10_positive((n - 1) as nat);
    }
}

proof fn lemma_digits_value_append(a: Seq<char>, b: Seq<char>)
    ensures
        digits_value(a + b) == digits_value(a) * pow10(b.len()) + digits_value(b),
    decreases b.len(),
{
    if b.len() == 0 {
        assert(a + b =~= a);
        assert(pow10(0) == 1);
        assert(digits_value(b) == 0);
        assert(digits_value(a) * 1 == digits_value(a));
    } else {
        let c = b.drop_last();
        lemma_digits_value_append(a, c);
        assert((a + b).drop_last() =~= a + c);
        assert((a + b).last() == b.last());
        let p = pow10(c.len());
        assert(pow10(b.len()) == 10 * p);
        let x = digits_value(a);
        let y = digits_value(c);
        let last = crate::u64_str::digit_value(b.last());
        assert(digits_value(a + b) == digits_value(a + c) * 10 + last);
        assert(digits_value(b) == y * 10 + last);
        assert(digits_value(a + c) == x * p + y);
        assert((x * p + y) * 10 + last == x * (10 * p) + (y * 10 + last)) by (nonlinear_arith);
        assert(digits_value(a + b) == x * pow10(b.len()) + digits_value(b));
    }
}

proof fn lemma_padded_digits(v: nat, w: nat)
    requires
        v < pow10(w),
    ensures
        padded_digits(v, w).len() == w,
        all_digits(padded_digits(v, w)),
        digits_value(padded_digits(v, w)) == v,
    decreases w,
{
    if w > 0 {
        let p = pow10((w - 1) as nat);
        assert(v / 10 < p) by (nonlinear_arith)
            requires
                v < 10 * p,
        ;
        lemma_padded_digits(v / 10, (w - 1) as nat);
        lemma_digit_char_value(v % 10);
        let s = padded_digits(v, w);
        assert(s.drop_last() =~= padded_digits(v / 10, (w - 1) as nat));
        assert forall|i: int| 0 <= i < s.len() implies is_digit(#[trigger] s[i]) by {
            if i < s.len() - 1 {
                assert(s[i] == padded_digits(v / 10, (w - 1) as nat)[i]);
            }
        }
    } else {
        assert(v == 0);
    }
}

proof fn lemma_split_unique(b: Seq<char>, k1: int, k2: int)
    requires
        decimal_split(b, k1),
        decimal_split(b, k2),
    ensures
        k1 == k2,
{
    if k1 < k2 {
        assert(b[k1] == '.' && is_digit(b[k1]));
    } else if k2 < k1 {
        assert(b[k2] == '.' && is_digit(b[k2]));
    }
}

/// Reading the text that `encode` writes for `mantissa / 10^scale` gives back that
/// mantissa and scale.
pub proof fn lemma_decimal_round_trip(mantissa: int, scale: nat)
    ensures
        decimal_parse(decimal_display(mantissa, scale)) == Some((mantissa, scale)),
{
    let t = decimal_display(mantissa, scale);
    let a = magnitude(mantissa);
    let p = pow10(scale);
    lemma_pow10_positive(scale);
    let q = a / p;
    let rem = a % p;
    let whole = decimal_digits(q);
    lemma_u64_round_trip(q);
    let frac = padded_digits(rem, scale);
    lemma_padded_digits(rem, scale);
    let b = if scale == 0 {
        whole
    } else {
        whole + seq!['.'] + frac
    };
    let sign = if mantissa < 0 {
        seq!['-']
    } else {
        Seq::<char>::empty()
    };
    assert(t =~= sign + b);
    if mantissa < 0 {
        assert(has_minus(t));
        assert(unsigned_part(t) =~= b);
    } else {
        assert(t =~= b);
        assert(is_digit(whole[0]));
        assert(!has_minus(t));
    }
    let k = whole.len() as int;
    assert forall|j: int| 0 <= j < b.len() && j != k implies is_digit(#[trigger] b[j]) by {
        if j < k {
            assert(b[j] == whole[j]);
        } else {
            assert(b[j] == frac[j - k - 1]);
        }
    }
    assert(decimal_split(b, k));
    let kc = choose|k: int| decimal_split(b, k);
    lemma_split_unique(b, k, kc);
    let d = if scale == 0 {
        whole
    } else {
        whole + frac
    };
    assert(split_digits(b, k) =~= d);
    if scale == 0 {
        assert(d =~= whole + frac);
    }
    lemma_digits_value_append(whole, frac);
    assert(a == p * q + rem) by {
        vstd::arithmetic::div_mod::lemma_fundamental_div_mod(a as int, p as int);
    }
    assert(digits_value(d) == q * p + rem) by (nonlinear_arith)
        requires
            digits_value(d) == digits_value(whole) * pow10(frac.len()) + digits_value(frac),
            digits_value(whole) == q,
            frac.len() == scale,
            pow10(scale) == p,
            digits_value(frac) == rem,
    ;
    assert(split_scale(b, k) == scale);
    assert(unsigned_part(t) == b);
    assert(decimal_split(unsigned_part(t), k));
    assert(split_digits(b, kc) == d);
    assert(digits_value(d) == a);
    if mantissa < 0 {
        assert(-(a as int) == mantissa);
    } else {
        assert(a as int == mantissa);
    }
}

impl DecimalStr {
    /// A value that a decimal can hold: a 96-bit mantissa and at most 28 fractional digits.
    pub open spec fn wf(&self) -> bool {
        decimal_parts_fit(self.mantissa as int, self.scale as int)
    }

    pub open spec fn same_number(&self, other: &DecimalStr) -> bool {
        if self.wf() && other.wf() {
            decimal_order(
                self.mantissa as int,
                self.scale as nat,
                other.mantissa as int,
                other.scale as nat,
            ) == Ordering::Equal
        } else {
            self.mantissa == other.mantissa && self.scale == other.scale
        }
    }

    pub open spec fn number_order(&self, other: &DecimalStr) -> Option<Ordering> {
        if self.wf() && other.wf() {
            Some(
                decimal_order(
                    self.mantissa as int,
                    self.scale as nat,
                    other.mantissa as int,
                    other.scale as nat,
                ),
            )
        } else if self.mantissa == other.mantissa && self.scale == other.scale {
            Some(Ordering::Equal)
        } else {
            None
        }
    }

    pub fn fits(&self) -> (r: bool)
        ensures
            r == self.wf(),
    {
        self.scale <= MAX_SCALE && -MANTISSA_LIMIT < self.mantissa && self.mantissa
            < MANTISSA_LIMIT
    }

    /// Reads a decimal number of the grammar `-?digits(.digits)?`: an optional `-`,
    /// digits, and an optional point followed by digits.
    ///
    /// The result is the exact mantissa and scale of the text. A text outside the grammar
    /// (a `+`, `_`, an exponent, a second point, a point without digits on both sides, the
    /// empty text), or one whose mantissa needs more than 96 bits or whose scale exceeds
    /// 28, gives `InvalidNumber`.
    pub fn decode(text: &str) -> (r: Result<DecimalStr, CodecError>)
        ensures
            match decimal_parse(text@) {
                Some(p) => if decimal_parts_fit(p.0, p.1 as int) {
                    r is Ok && r->Ok_0.mantissa == p.0 && r->Ok_0.scale == p.1
                } else {
                    (r is Err && r->Err_0 == CodecError::InvalidNumber)
                },
                None => (r is Err && r->Err_0 == CodecError::InvalidNumber),
            },
            forall|m: int, sc: nat|
                decimal_parts_fit(m, sc as int) && #[trigger] decimal_display(m, sc) == text@ ==> (
                r is Ok && r->Ok_0.mantissa == m && r->Ok_0.scale == sc),
    {
        proof {
            assert forall|m: int, sc: nat|
                decimal_parts_fit(m, sc as int) && #[trigger] decimal_display(m, sc)
                    == text@ implies decimal_parse(text@) == Some((m, sc)) by {
                lemma_decimal_round_trip(m, sc);
            }
        }
        let n = text.unicode_len();
        let neg = n > 0 && text.get_char(0) == '-';
        let start: usize = if neg {
            1
        } else {
            0
        };
        let ghost b = unsigned_part(text@);
        proof {
            assert(b =~= text@.subrange(start as int, n as int));
        }
        if start >= n {
            return Err(CodecError::InvalidNumber);
        }
        // First pass: the grammar, and where the point stands.

        let mut found = false;
        let mut point: usize = n;
        let mut i: usize = start;
        while i < n
            invariant
                n == text@.len(),
                b == text@.subrange(start as int, n as int),
                b == unsigned_part(text@),
                forall|m: int, sc: nat|
                    decimal_parts_fit(m, sc as int) && #[trigger] decimal_display(m, sc) == text@
                        ==> decimal_parse(text@) == Some((m, sc)),
                start < n,
                start <= i <= n,
                found ==> (start < point < i && text@[point as int] == '.'),
                !found ==> point == n,
                forall|j: int| start <= j < i && j != point ==> is_digit(#[trigger] text@[j]),
            decreases n - i,
        {
            let c = text.get_char(i);
            if c == '.' {
                if found || i == start {
                    proof {
                        assert forall|k: int| !decimal_split(b, k) by {
                            if decimal_split(b, k) {
                                assert(b[i - start] == '.');
                                if found {
                                    assert(b[point - start] == '.');
                                } else {
                                    assert(i - start == 0);
                                }
                            }
                        }
                    }
                    return Err(CodecError::InvalidNumber);
                }
                found = true;
                point = i;
            } else if !('0' <= c && c <= '9') {
                proof {
                    assert forall|k: int| !decimal_split(b, k) by {
                        if decimal_split(b, k) {
                            assert(b[i - start] == c);
                        }
                    }
                }
                return Err(CodecError::InvalidNumber);
            }
            i = i + 1;
        }
        if found && point + 1 == n {
            proof {
                assert forall|k: int| !decimal_split(b, k) by {
                    if decimal_split(b, k) {
                        assert(b[point - start] == '.');
                    }
                }
            }
            return Err(CodecError::InvalidNumber);
        }
        let ghost k = point - start;
        proof {
            assert forall|j: int| 0 <= j < b.len() && j != k implies is_digit(#[trigger] b[j]) by {
                assert(b[j] == text@[start + j]);
            }
            if found {
                assert(b[k] == text@[point as int]);
            }
            assert(decimal_split(b, k));
            let kc = choose|k: int| decimal_split(b, k);
            lemma_split_unique(b, k, kc);
        }
        let ghost d = split_digits(b, k);
        let scale: usize = if found {
            n - point - 1
        } else {
            0
        };
        if scale > MAX_SCALE as usize {
            return Err(CodecError::InvalidNumber);
        }
        // Second pass: the magnitude, digit by digit, while it stays below 2^96.

        let count: usize = if found {
            n - start - 1
        } else {
            n - start
        };
        proof {
            assert(d.len() == count);
        }
        let mut acc: u128 = 0;
        let mut j: usize = 0;
        while j < count
            invariant
                n == text@.len(),
                b == text@.subrange(start as int, n as int),
                b == unsigned_part(text@),
                forall|m: int, sc: nat|
                    decimal_parts_fit(m, sc as int) && #[trigger] decimal_display(m, sc) == text@
                        ==> decimal_parse(text@) == Some((m, sc)),
                decimal_split(b, k),
                d == split_digits(b, k),
                d.len() == count,
                k == point - start,
                found ==> point < n,
                !found ==> point == n,
                start < n,
                j <= count,
                acc == digits_value(d.subrange(0, j as int)),
                acc < MANTISSA_LIMIT,
                decimal_parse(text@) == Some(
                    (
                        if has_minus(text@) {
                            -(digits_value(d) as int)
                        } else {
                            digits_value(d) as int
                        },
                        split_scale(b, k),
                    ),
                ),
            decreases count - j,
        {
            let idx: usize = if j + start < point {
                start + j
            } else {
                start + j + 1
            };
            let c = text.get_char(idx);
            proof {
                if j + start < point {
                    assert(d[j as int] == b[j as int]);
                } else {
                    assert(d[j as int] == b[j + 1]);
                }
                assert(b[idx - start] == c);
                assert(is_digit(b[idx - start]));
            }
            let digit = (c as u32 - '0' as u32) as u128;
            let next = acc * 10 + digit;
            proof {
                let pre = d.subrange(0, j + 1);
                assert(pre.drop_last() =~= d.subrange(0, j as int));
                assert(pre.last() == c);
            }
            if next >= MANTISSA_LIMIT as u128 {
                proof {
                    lemma_digits_value_prefix(d, j + 1);
                }
                return Err(CodecError::InvalidNumber);
            }
            acc = next;
            j = j + 1;
        }
        proof {
            assert(d.subrange(0, count as int) =~= d);
        }
        match decimal_from_text(text) {
            Ok((m, sc)) => Ok(DecimalStr { mantissa: m, scale: sc }),
            Err(_) => Err(CodecError::InvalidNumber),
        }
    }

    /// How API documentation describes this type.
    pub fn schema() -> (r: SchemaDescriptor)
        ensures
            r.name@ == "DecimalStr"@,
            r.schema_type@ == "string"@,
            r.description@ == "rust decimal serialized as a string"@,
    {
        string_schema("DecimalStr", "rust decimal serialized as a string")
    }

    /// Writes the number in base 10 with exactly `scale` fractional digits.
    pub fn encode(&self) -> (r: String)
        requires
            self.wf(),
        ensures
            r@ == decimal_display(self.mantissa as int, self.scale as nat),
            decimal_parse(r@) == Some((self.mantissa as int, self.scale as nat)),
    {
        proof {
            lemma_decimal_round_trip(self.mantissa as int, self.scale as nat);
        }
        decimal_to_text(self.mantissa, self.scale)
    }

    /// The decimal `mantissa / 10^scale`, or `None` where it does not fit.
    pub fn new(mantissa: i128, scale: u32) -> (r: Option<DecimalStr>)
        ensures
            match r {
                Some(v) => decimal_parts_fit(mantissa as int, scale as int) && v.mantissa
                    == mantissa && v.scale == scale,
                None => !decimal_parts_fit(mantissa as int, scale as int),
            },
    {
        if scale <= MAX_SCALE && -MANTISSA_LIMIT < mantissa && mantissa < MANTISSA_LIMIT {
            Some(DecimalStr { mantissa, scale })
        } else {
            None
        }
    }
}

impl PartialEq for DecimalStr {
    fn eq(&self, other: &DecimalStr) -> (r: bool) {
        if self.fits() && other.fits() {
            match decimal_cmp(self.mantissa, self.scale, other.mantissa, other.scale) {
                Ordering::Equal => true,
                _ => false,
            }
        } else {
            self.mantissa == other.mantissa && self.scale == other.scale
        }
    }
}

impl vstd::std_specs::cmp::PartialEqSpecImpl for DecimalStr {
    open spec fn obeys_eq_spec() -> bool {
        true
    }

    open spec fn eq_spec(&self, other: &DecimalStr) -> bool {
        self.same_number(other)
    }
}

impl PartialOrd for DecimalStr {
    fn partial_cmp(&self, other: &DecimalStr) -> (r: Option<Ordering>) {
        if self.fits() && other.fits() {
            Some(decimal_cmp(self.mantissa, self.scale, other.mantissa, other.scale))
        } else if self.mantissa == other.mantissa && self.scale == other.scale {
            Some(Ordering::Equal)
        } else {
            None
        }
    }
}

impl vstd::std_specs::cmp::PartialOrdSpecImpl for DecimalStr {
    open spec fn obeys_partial_cmp_spec() -> bool {
        true
    }

    open spec fn partial_cmp_spec(&self, other: &DecimalStr) -> Option<Ordering> {
        self.number_order(other)
    }
}

} // verus!
