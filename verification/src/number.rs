//! Exact decimal numbers: an integer mantissa and a count of fractional
//! digits, within the limits of a 96-bit decimal.

use crate::text::{chars_of, digit_char, natural_text};
use vstd::prelude::*;

verus! {

/// The largest mantissa a number can have: 2^96 - 1.
pub const MAX_MANTISSA: i128 = 79_228_162_514_264_337_593_543_950_335;

/// The largest count of fractional digits.
pub const MAX_SCALE: u32 = 28;

/// The number `mantissa / 10^scale`.
#[derive(Clone, Copy, Debug)]
pub struct Number {
    mantissa: i128,
    scale: u32,
}

pub open spec fn pow10(n: nat) -> int
    decreases n,
{
    if n == 0 {
        1
    } else {
        10 * pow10((n - 1) as nat)
    }
}

pub open spec fn is_digit(c: char) -> bool {
    '0' <= c <= '9'
}

pub open spec fn digit_value(c: char) -> int {
    c as int - '0' as int
}

/// The integer that the digits of `text` spell, decimal points passed over.
pub open spec fn mantissa_of(text: Seq<char>) -> int
    decreases text.len(),
{
    if text.len() == 0 {
        0
    } else if text.last() == '.' {
        mantissa_of(text.drop_last())
    } else {
        mantissa_of(text.drop_last()) * 10 + digit_value(text.last())
    }
}

/// `text` is digits, or digits, a point at index `dot` and digits again;
/// `dot` is the length of `text` where it has no point.
pub open spec fn literal_shape(text: Seq<char>, dot: int) -> bool {
    &&& 0 < dot <= text.len()
    &&& forall|i: int| 0 <= i < text.len() && i != dot ==> is_digit(#[trigger] text[i])
    &&& dot < text.len() ==> text[dot] == '.' && dot + 1 < text.len()
}

/// The index of the first decimal point of `text`, or its length.
pub open spec fn first_dot(text: Seq<char>) -> int
    decreases text.len(),
{
    if text.len() == 0 || text[0] == '.' {
        0
    } else {
        1 + first_dot(text.drop_first())
    }
}

/// The count of fractional digits of a literal with its point at `dot`.
pub open spec fn scale_of(text: Seq<char>, dot: int) -> int {
    if dot < text.len() {
        text.len() - dot - 1
    } else {
        0
    }
}

/// The value of a numeric literal, as mantissa and scale: `None` where `text`
/// is not a literal or its value does not fit a number exactly.
#[verifier::opaque]
pub open spec fn literal_value(text: Seq<char>) -> Option<(int, int)> {
    let dot = first_dot(text);
    if literal_shape(text, dot) && mantissa_of(text) <= MAX_MANTISSA && scale_of(text, dot)
        <= MAX_SCALE {
        Some((mantissa_of(text), scale_of(text, dot)))
    } else {
        None
    }
}

/// The integer part of `mantissa / 10^scale`, rounded towards zero.
pub open spec fn trunc_of(mantissa: int, scale: int) -> int {
    if mantissa >= 0 {
        mantissa / pow10(scale as nat)
    } else {
        -((-mantissa) / pow10(scale as nat))
    }
}

/// `n` in exactly `width` decimal digits: its last `width` digits, with zeros
/// before them where it has fewer.
pub open spec fn padded_text(n: nat, width: nat) -> Seq<char>
    decreases width,
{
    if width == 0 {
        Seq::empty()
    } else {
        padded_text(n / 10, (width - 1) as nat).push(digit_char(n % 10))
    }
}

/// The text that shows `mantissa / 10^scale`: a `-` where it is negative, the
/// digits of the integer part, and, where there is a scale, a point and the
/// fraction in exactly `scale` digits.
pub open spec fn decimal_text(mantissa: int, scale: int) -> Seq<char> {
    let size = if mantissa < 0 {
        -mantissa
    } else {
        mantissa
    };
    let unit = pow10(scale as nat);
    let sign = if mantissa < 0 {
        seq!['-']
    } else {
        Seq::empty()
    };
    let whole = natural_text((size / unit) as nat);
    if scale > 0 {
        sign + whole + seq!['.'] + padded_text((size % unit) as nat, scale as nat)
    } else {
        sign + whole
    }
}

impl Number {
    #[verifier::type_invariant]
    spec fn wf(self) -> bool {
        &&& -MAX_MANTISSA <= self.mantissa <= MAX_MANTISSA
        &&& self.scale <= MAX_SCALE
    }

    /// The number as the pair of integers that stands for it: mantissa and
    /// scale.
    pub closed spec fn view(&self) -> (int, int) {
        (self.mantissa as int, self.scale as int)
    }

    /// The integer part of the number, rounded towards zero.
    pub open spec fn trunc(&self) -> int {
        trunc_of(self@.0, self@.1)
    }

    /// Whether the number is an integer.
    pub open spec fn is_integer(&self) -> bool {
        self@.0 == self.trunc() * pow10(self@.1 as nat)
    }

    /// The text that shows the number.
    pub open spec fn text(&self) -> Seq<char> {
        decimal_text(self@.0, self@.1)
    }

    /// The number `mantissa / 10^scale`, where the decimal type can hold it.
    pub fn new(mantissa: i128, scale: u32) -> (r: Option<Number>)
        ensures
            r is Some <==> -MAX_MANTISSA <= mantissa <= MAX_MANTISSA && scale <= MAX_SCALE,
            r matches Some(n) ==> n@ == (mantissa as int, scale as int),
    {
        if -MAX_MANTISSA <= mantissa && mantissa <= MAX_MANTISSA && scale <= MAX_SCALE {
            Some(Number { mantissa, scale })
        } else {
            None
        }
    }

    pub fn mantissa(&self) -> (r: i128)
        ensures
            r == self@.0,
            -MAX_MANTISSA <= r <= MAX_MANTISSA,
    {
        proof {
            use_type_invariant(self);
        }
        self.mantissa
    }

    pub fn scale(&self) -> (r: u32)
        ensures
            r == self@.1,
            r <= MAX_SCALE,
    {
        proof {
            use_type_invariant(self);
        }
        self.scale
    }

    /// Whether the number is zero.
    pub fn is_zero(&self) -> (r: bool)
        ensures
            r == (self@.0 == 0),
    {
        self.mantissa == 0
    }

    /// Whether the number has no fractional part.
    pub fn has_no_fraction(&self) -> (r: bool)
        ensures
            r == self.is_integer(),
    {
        let part = fract(*self);
        proof {
            use_type_invariant(self);
            use_type_invariant(part);
            lemma_pow10_positive(self.scale as nat);
            lemma_pow10_positive(part.scale as nat);
            lemma_zero_product(
                part.mantissa as int,
                pow10(self.scale as nat),
                self.mantissa - self.trunc() * pow10(self.scale as nat),
                pow10(part.scale as nat),
            );
        }
        part.is_zero()
    }
}

pub proof fn lemma_pow10_positive(n: nat)
    ensures
        pow10(n) > 0,
    decreases n,
{
    if n > 0 {
        lemma_pow10_positive((n - 1) as nat);
    }
}

proof fn lemma_zero_product(a: int, p: int, b: int, q: int)
    by (nonlinear_arith)
    requires
        a * p == b * q,
        p > 0,
        q > 0,
    ensures
        a == 0 <==> b == 0,
{
}

/// `Decimal::fract` gives the fractional portion of a decimal: the number less
/// its integer part, exactly, at some scale of its own.
#[verifier::external_body]
pub(crate) fn fract(n: Number) -> (r: Number)
    ensures
        r@.0 * pow10(n@.1 as nat) == (n@.0 - n.trunc() * pow10(n@.1 as nat)) * pow10(r@.1 as nat),
{
    let part = rust_decimal::Decimal::from_i128_with_scale(n.mantissa, n.scale).fract();
    Number { mantissa: part.mantissa(), scale: part.scale() }
}

/// `ToPrimitive::to_i32` on a decimal gives its integer part, rounded towards
/// zero, where an `i32` can hold it, and nothing otherwise.
#[verifier::external_body]
pub(crate) fn to_i32(n: Number) -> (r: Option<i32>)
    ensures
        r == if i32::MIN <= n.trunc() <= i32::MAX {
            Some(n.trunc() as i32)
        } else {
            None
        },
{
    rust_decimal::prelude::ToPrimitive::to_i32(
        &rust_decimal::Decimal::from_i128_with_scale(n.mantissa, n.scale),
    )
}

/// `Decimal`'s `Display` writes a decimal in plain decimal notation: the sign
/// where the number is negative, the integer part without leading zeros, and,
/// where the scale is not zero, a point and as many digits as the scale says.
#[verifier::external_body]
pub(crate) fn to_text(n: Number) -> (r: String)
    ensures
        r@ == decimal_text(n@.0, n@.1),
{
    rust_decimal::Decimal::from_i128_with_scale(n.mantissa, n.scale).to_string()
}

/// `first_dot` is the one index before which no point stands and at which one
/// does, or the length.
pub proof fn lemma_first_dot(text: Seq<char>, dot: int)
    requires
        0 <= dot <= text.len(),
        forall|j: int| 0 <= j < dot ==> text[j] != '.',
        dot < text.len() ==> text[dot] == '.',
    ensures
        first_dot(text) == dot,
    decreases text.len(),
{
    if text.len() != 0 && text[0] != '.' {
        let rest = text.drop_first();
        assert forall|j: int| 0 <= j < dot - 1 implies rest[j] != '.' by {
            assert(rest[j] == text[j + 1]);
        }
        lemma_first_dot(rest, dot - 1);
    }
}

/// Over digits and points, the digits read so far never spell more than all
/// of them do.
pub proof fn lemma_mantissa_prefix(text: Seq<char>, k: int)
    requires
        0 <= k <= text.len(),
        forall|j: int| 0 <= j < text.len() ==> is_digit(#[trigger] text[j]) || text[j] == '.',
    ensures
        0 <= mantissa_of(text.take(k)) <= mantissa_of(text),
    decreases text.len() - k,
{
    if k == text.len() {
        assert(text.take(k) == text);
        lemma_mantissa_nonnegative(text);
    } else {
        lemma_mantissa_prefix(text, k + 1);
        lemma_mantissa_nonnegative(text.take(k));
        assert(text.take(k + 1).drop_last() == text.take(k));
        assert(text.take(k + 1).last() == text[k]);
    }
}

pub proof fn lemma_mantissa_nonnegative(text: Seq<char>)
    requires
        forall|j: int| 0 <= j < text.len() ==> is_digit(#[trigger] text[j]) || text[j] == '.',
    ensures
        0 <= mantissa_of(text),
    decreases text.len(),
{
    if text.len() != 0 {
        assert(is_digit(text[text.len() - 1]) || text[text.len() - 1] == '.');
        lemma_mantissa_nonnegative(text.drop_last());
    }
}

impl Number {
    /// Reads a numeric literal: digits, or digits, a point and digits. The
    /// value is exact; a literal too long for a number is refused, not
    /// rounded.
    pub fn from_literal(text: &str) -> (r: Option<Number>)
        ensures
            match literal_value(text@) {
                Some(v) => r matches Some(n) && n@ == v,
                None => r is None,
            },
    {
        proof {
            reveal(literal_value);
        }
        let chars = chars_of(text);
        let n: usize = chars.len();
        let mut dot: usize = n;
        let mut i: usize = 0;
        while i < n
            invariant
                chars@ == text@,
                n == chars.len(),
                0 <= i <= n,
                dot <= n,
                dot < n ==> dot < i && chars@[dot as int] == '.',
                forall|j: int| 0 <= j < i && j != dot ==> is_digit(#[trigger] chars@[j]),
            decreases n - i,
        {
            proof {
                reveal(literal_value);
            }
            let c: char = chars[i];
            if c == '.' {
                if dot != n {
                    proof {
                        lemma_first_dot(text@, dot as int);
                    }
                    return None;
                }
                dot = i;
            } else if !('0' <= c && c <= '9') {
                proof {
                    if dot < n {
                        lemma_first_dot(text@, dot as int);
                    } else {
                        lemma_first_dot_bounds(text@);
                    }
                }
                return None;
            }
            i += 1;
        }
        proof {
            lemma_first_dot(text@, dot as int);
        }
        if dot == 0 || (dot < n && dot + 1 == n) {
            return None;
        }
        if dot < n && n - dot - 1 > MAX_SCALE as usize {
            return None;
        }
        let scale: u32 = if dot < n {
            (n - dot - 1) as u32
        } else {
            0
        };
        let mut m: i128 = 0;
        i = 0;
        while i < n
            invariant
                chars@ == text@,
                n == chars.len(),
                0 <= i <= n,
                literal_shape(text@, dot as int),
                first_dot(text@) == dot,
                0 <= m <= MAX_MANTISSA,
                m == mantissa_of(text@.take(i as int)),
            decreases n - i,
        {
            let c: char = chars[i];
            proof {
                reveal(literal_value);
                assert(text@.take(i + 1).drop_last() == text@.take(i as int));
                assert(text@.take(i + 1).last() == text@[i as int]);
            }
            if c != '.' {
                assert(is_digit(text@[i as int]));
                let d: i128 = (c as u32 - '0' as u32) as i128;
                if m > (MAX_MANTISSA - d) / 10 {
                    proof {
                        lemma_mantissa_prefix(text@, i + 1);
                    }
                    return None;
                }
                m = m * 10 + d;
            }
            i += 1;
        }
        assert(text@.take(n as int) == text@);
        Some(Number { mantissa: m, scale })
    }
}

/// `first_dot` lies within the text, at a point where it is not the length.
pub proof fn lemma_first_dot_bounds(text: Seq<char>)
    ensures
        0 <= first_dot(text) <= text.len(),
        first_dot(text) < text.len() ==> text[first_dot(text)] == '.',
    decreases text.len(),
{
    if text.len() != 0 && text[0] != '.' {
        lemma_first_dot_bounds(text.drop_first());
    }
}

} // verus!
