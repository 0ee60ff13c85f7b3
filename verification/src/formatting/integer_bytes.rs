//! Numeric and byte renderers for already parsed, canonical directives, and
//! the admission of operands for them. No format parser, evaluation, router,
//! float formatter or error-flag policy.

use crate::byte_buffer::ByteBuffer;
use crate::formatting::argument::{argument_kind_name, FormatArgument};
use crate::formatting::format_parser::first_nul_from;
use crate::formatting::format_types::{
    check_size, limit_error_for, max_int, min_int, repeated, FormatSpec, OutputLimit,
};
use vstd::arithmetic::div_mod::lemma_div_decreases;
use vstd::arithmetic::power2::{lemma2_to64, lemma2_to64_rest, lemma_pow2_adds, pow2};
use vstd::prelude::*;

verus! {

/// The integer/radix conversions.
#[derive(Clone, Copy, Debug, PartialEq, Eq)]
pub enum IntegerConversion {
    Decimal,
    Octal,
    Hex,
    Unsigned,
}

/// Why an operand cannot feed an integer conversion. Classification only.
#[derive(Clone, Copy, Debug, PartialEq, Eq)]
pub enum IntegerArgumentError {
    NotNumeric(&'static str),
    NonFinite,
    OutsideSignedRange,
}

/// Why an operand cannot feed `%s` or `%c`.
#[derive(Clone, Copy, Debug, PartialEq, Eq)]
pub enum ByteArgumentError {
    ExpectedLexeme(&'static str),
    ExpectedCharacter(&'static str),
}

// ---------------------------------------------------------------------------
// IEEE-754 binary64 truncation.
// ---------------------------------------------------------------------------

/// The biased exponent field of a binary64 bit pattern.
pub open spec fn float_exponent(bits: u64) -> nat {
    ((bits as nat / pow2(52)) % 2048) as nat
}

/// The fraction field of a binary64 bit pattern.
pub open spec fn float_fraction(bits: u64) -> nat {
    (bits as nat % pow2(52)) as nat
}

/// Whether the sign bit of a binary64 bit pattern is set.
pub open spec fn float_negative(bits: u64) -> bool {
    bits as nat >= pow2(63)
}

/// The magnitude of a finite binary64 value, truncated toward zero.
pub open spec fn float_truncated_magnitude(bits: u64) -> nat {
    let e = float_exponent(bits);
    let m = pow2(52) + float_fraction(bits);
    if e == 0 {
        0
    } else if e >= 1075 {
        m * pow2((e - 1075) as nat)
    } else {
        m / pow2((1075 - e) as nat)
    }
}

/// The admission of an operand by an integer conversion.
pub open spec fn spec_integer_argument(value: FormatArgument<'_>) -> Result<i64, IntegerArgumentError> {
    match value {
        FormatArgument::Integer(v) => Ok(v),
        FormatArgument::Float(bits) => {
            let magnitude = float_truncated_magnitude(bits);
            if float_exponent(bits) == 2047 {
                Err(IntegerArgumentError::NonFinite)
            } else if float_negative(bits) {
                if magnitude <= pow2(63) {
                    Ok((-magnitude) as i64)
                } else {
                    Err(IntegerArgumentError::OutsideSignedRange)
                }
            } else if magnitude < pow2(63) {
                Ok(magnitude as i64)
            } else {
                Err(IntegerArgumentError::OutsideSignedRange)
            }
        },
        other => Err(IntegerArgumentError::NotNumeric(argument_kind_name(other))),
    }
}

pub(crate) proof fn lemma_pow2_facts()
    ensures
        pow2(52) == 0x10_0000_0000_0000,
        pow2(53) == 0x20_0000_0000_0000,
        pow2(63) == 0x8000_0000_0000_0000,
        pow2(64) == 0x1_0000_0000_0000_0000,
        pow2(11) == 2048,
{
    lemma2_to64();
    lemma2_to64_rest();
}

/// `2^k` for `k < 64`.
fn pow2_u64(k: u64) -> (p: u64)
    requires
        k < 64,
    ensures
        p == pow2(k as nat),
{
    let mut p: u64 = 1;
    let mut i: u64 = 0;
    proof {
        lemma2_to64();
        lemma2_to64_rest();
    }
    while i < k
        invariant
            i <= k < 64,
            p == pow2(i as nat),
        decreases k - i,
    {
        proof {
            lemma_pow2_adds(i as nat, 1);
            lemma2_to64();
            lemma2_to64_rest();
            vstd::arithmetic::power2::lemma_pow2_strictly_increases((i + 1) as nat, 64);
        }
        p = p * 2;
        i += 1;
    }
    p
}

/// Truncate a FLOAT toward zero into the signed 64-bit range.
fn float_to_integer(bits: u64) -> (result: Result<i64, IntegerArgumentError>)
    ensures
        result == spec_integer_argument(FormatArgument::Float(bits)),
{
    proof {
        lemma_pow2_facts();
    }
    let exponent = (bits / 0x10_0000_0000_0000) % 2048;
    let fraction = bits % 0x10_0000_0000_0000;
    let negative = bits >= 0x8000_0000_0000_0000;
    if exponent == 2047 {
        return Err(IntegerArgumentError::NonFinite);
    }
    let magnitude: u64 = if exponent == 0 {
        0
    } else {
        let mantissa = 0x10_0000_0000_0000 + fraction;
        if exponent >= 1075 {
            let shift = exponent - 1075;
            if shift >= 12 {
                proof {
                    lemma_pow2_adds(12, (shift - 12) as nat);
                    vstd::arithmetic::power2::lemma_pow2_pos((shift - 12) as nat);
                    lemma_pow2_adds(52, 12);
                    assert(pow2(12) == 4096) by {
                        lemma2_to64();
                    }
                    assert(mantissa * pow2(shift as nat) >= pow2(52) * pow2(12)) by (nonlinear_arith)
                        requires
                            mantissa >= pow2(52),
                            pow2(shift as nat) == pow2(12) * pow2((shift - 12) as nat),
                            pow2((shift - 12) as nat) >= 1,
                    ;
                }
                return Err(IntegerArgumentError::OutsideSignedRange);
            }
            let scale = pow2_u64(shift);
            proof {
                if shift < 11 {
                    vstd::arithmetic::power2::lemma_pow2_strictly_increases(shift as nat, 11);
                }
                assert(mantissa * scale < 0x20_0000_0000_0000 * 2048) by (nonlinear_arith)
                    requires
                        mantissa < 0x20_0000_0000_0000,
                        scale <= 2048,
                ;
            }
            mantissa * scale
        } else {
            let shift = 1075 - exponent;
            if shift >= 64 {
                proof {
                    vstd::arithmetic::power2::lemma_pow2_strictly_increases(53, shift as nat);
                    vstd::arithmetic::div_mod::lemma_basic_div(mantissa as int, pow2(shift as nat) as int);
                }
                0
            } else {
                let divisor = pow2_u64(shift);
                proof {
                    vstd::arithmetic::power2::lemma_pow2_pos(shift as nat);
                }
                mantissa / divisor
            }
        }
    };
    if negative {
        if magnitude <= 0x8000_0000_0000_0000 {
            if magnitude == 0x8000_0000_0000_0000 {
                Ok(i64::MIN)
            } else {
                Ok(-(magnitude as i64))
            }
        } else {
            Err(IntegerArgumentError::OutsideSignedRange)
        }
    } else if magnitude < 0x8000_0000_0000_0000 {
        Ok(magnitude as i64)
    } else {
        Err(IntegerArgumentError::OutsideSignedRange)
    }
}

/// Admit an operand for `d`, `o`, `x` or `u`: an INTEGER as is, or a finite
/// FLOAT truncated toward zero inside the signed 64-bit range.
pub fn integer_argument(value: FormatArgument<'_>) -> (result: Result<i64, IntegerArgumentError>)
    ensures
        result == spec_integer_argument(value),
{
    match value {
        FormatArgument::Integer(value) => Ok(value),
        FormatArgument::Float(bits) => float_to_integer(bits),
        other => Err(IntegerArgumentError::NotNumeric(other.kind_name())),
    }
}

/// The admission of an operand by `%s`.
pub open spec fn spec_lexeme_argument<'a>(value: FormatArgument<'a>) -> Result<&'a [u8], ByteArgumentError> {
    match value {
        FormatArgument::String(bytes) => Ok(bytes),
        FormatArgument::Symbol(bytes) => Ok(bytes),
        FormatArgument::InstanceName(bytes) => Ok(bytes),
        other => Err(ByteArgumentError::ExpectedLexeme(argument_kind_name(other))),
    }
}

/// Admit an operand for `%s`: the bytes of a STRING, SYMBOL or INSTANCE-NAME.
pub fn lexeme_argument<'a>(value: FormatArgument<'a>) -> (result: Result<&'a [u8], ByteArgumentError>)
    ensures
        result == spec_lexeme_argument(value),
{
    match value {
        FormatArgument::String(bytes) => Ok(bytes),
        FormatArgument::Symbol(bytes) => Ok(bytes),
        FormatArgument::InstanceName(bytes) => Ok(bytes),
        other => Err(ByteArgumentError::ExpectedLexeme(other.kind_name())),
    }
}

/// The admission of an operand by `%c`: the low byte of an INTEGER, or the
/// first byte (NUL for an empty one) of a STRING or SYMBOL.
pub open spec fn spec_character_argument(value: FormatArgument<'_>) -> Result<u8, ByteArgumentError> {
    match value {
        FormatArgument::Integer(v) => Ok(v as u8),
        FormatArgument::String(bytes) => Ok(
            if bytes@.len() == 0 {
                0u8
            } else {
                bytes@[0]
            },
        ),
        FormatArgument::Symbol(bytes) => Ok(
            if bytes@.len() == 0 {
                0u8
            } else {
                bytes@[0]
            },
        ),
        other => Err(ByteArgumentError::ExpectedCharacter(argument_kind_name(other))),
    }
}

/// Admit an operand for `%c`. Unlike `%s`, INSTANCE-NAME and FLOAT are
/// excluded.
pub fn character_argument(value: FormatArgument<'_>) -> (result: Result<u8, ByteArgumentError>)
    ensures
        result == spec_character_argument(value),
{
    let bytes = match value {
        FormatArgument::Integer(value) => {
            return Ok(value as u8);
        },
        FormatArgument::String(bytes) => bytes,
        FormatArgument::Symbol(bytes) => bytes,
        other => {
            return Err(ByteArgumentError::ExpectedCharacter(other.kind_name()));
        },
    };
    if bytes.len() == 0 {
        Ok(0)
    } else {
        Ok(bytes[0])
    }
}

// ---------------------------------------------------------------------------
// Digits.
// ---------------------------------------------------------------------------

/// The lower-case ASCII digit for a value below sixteen.
pub open spec fn digit_char(d: nat) -> u8 {
    if d < 10 {
        (48 + d) as u8
    } else {
        (87 + d) as u8
    }
}

/// The digits of `n` in `radix`, most significant first, without leading
/// zeros (zero is the single digit `0`).
pub open spec fn radix_digits(n: nat, radix: nat) -> Seq<u8>
    decreases n,
{
    if radix < 2 || n < radix {
        seq![digit_char(n)]
    } else {
        proof {
            lemma_div_decreases(n as int, radix as int);
        }
        radix_digits(n / radix, radix).push(digit_char(n % radix))
    }
}

/// Append the digits of `n` in `radix`.
pub(crate) fn push_digits(out: &mut ByteBuffer, n: u64, radix: u64)
    requires
        2 <= radix <= 16,
        old(out)@.len() + radix_digits(n as nat, radix as nat).len() <= usize::MAX,
    ensures
        final(out)@ == old(out)@ + radix_digits(n as nat, radix as nat),
    decreases n,
{
    let ghost start = out@;
    if n >= radix {
        proof {
            lemma_div_decreases(n as int, radix as int);
            assert(radix_digits(n as nat, radix as nat) == radix_digits((n / radix) as nat, radix as nat).push(
                digit_char((n % radix) as nat),
            ));
        }
        push_digits(out, n / radix, radix);
    } else {
        proof {
            vstd::arithmetic::div_mod::lemma_small_mod(n as nat, radix as nat);
        }
    }
    let d = n % radix;
    let byte = if d < 10 {
        48 + d as u8
    } else {
        87 + d as u8
    };
    assert(byte == digit_char(d as nat));
    out.push_byte(byte);
    proof {
        assert(out@ =~= start + radix_digits(n as nat, radix as nat));
    }
}

/// The number of digits of `n` in `radix`.
pub(crate) fn digit_count(n: u64, radix: u64) -> (count: usize)
    requires
        2 <= radix <= 16,
    ensures
        count == radix_digits(n as nat, radix as nat).len(),
        count <= 64,
    decreases n,
{
    if n >= radix {
        proof {
            lemma_div_decreases(n as int, radix as int);
            vstd::arithmetic::div_mod::lemma_div_is_ordered_by_denominator(n as int, 2, radix as int);
        }
        let count = digit_count(n / radix, radix);
        proof {
            lemma_pow2_facts();
            lemma_digit_count_bound(n as nat, radix as nat);
        }
        count + 1
    } else {
        1
    }
}

proof fn lemma_digit_count_bound(n: nat, radix: nat)
    requires
        2 <= radix,
        n < pow2(64),
    ensures
        radix_digits(n, radix).len() <= 64,
{
    lemma_digits_len_pow2(n, radix, 64);
}

proof fn lemma_digits_len_pow2(n: nat, radix: nat, k: nat)
    requires
        2 <= radix,
        n < pow2(k),
    ensures
        radix_digits(n, radix).len() <= if k == 0 {
            1
        } else {
            k
        },
    decreases n,
{
    if n >= radix {
        lemma_div_decreases(n as int, radix as int);
        vstd::arithmetic::div_mod::lemma_div_is_ordered_by_denominator(n as int, 2, radix as int);
        if k == 0 {
            vstd::arithmetic::power2::lemma2_to64();
        } else {
            vstd::arithmetic::power2::lemma_pow2_unfold(k);
            let half = pow2((k - 1) as nat);
            assert(n / 2 < half) by (nonlinear_arith)
                requires
                    n < 2 * half,
            ;
            lemma_digits_len_pow2(n / radix, radix, (k - 1) as nat);
            if k == 1 {
                vstd::arithmetic::power2::lemma2_to64();
            }
        }
    }
}

// ---------------------------------------------------------------------------
// Rendering.
// ---------------------------------------------------------------------------

/// The unsigned magnitude rendered for an integer conversion: `d` keeps sign
/// and magnitude, `o x u` reinterpret all 64 bits.
pub open spec fn integer_magnitude(conversion: IntegerConversion, value: i64) -> nat {
    if conversion is Decimal {
        if value < 0 {
            (-value) as nat
        } else {
            value as nat
        }
    } else if value < 0 {
        (value + pow2(64)) as nat
    } else {
        value as nat
    }
}

/// The radix of an integer conversion.
pub open spec fn integer_radix(conversion: IntegerConversion) -> nat {
    match conversion {
        IntegerConversion::Octal => 8,
        IntegerConversion::Hex => 16,
        _ => 10,
    }
}

/// The digits rendered for an integer conversion; an explicit zero precision
/// suppresses a zero value.
pub open spec fn integer_digits(conversion: IntegerConversion, value: i64, spec: FormatSpec) -> Seq<u8> {
    if value == 0 && spec.precision == Some(0usize) {
        Seq::<u8>::empty()
    } else {
        radix_digits(integer_magnitude(conversion, value), integer_radix(conversion))
    }
}

/// Zeros added to reach the precision.
pub open spec fn integer_precision_zeroes(conversion: IntegerConversion, value: i64, spec: FormatSpec) -> int {
    match spec.precision {
        Some(p) => max_int(p - integer_digits(conversion, value, spec).len(), 0),
        None => 0,
    }
}

/// Whether a minus sign is rendered.
pub open spec fn integer_negative(conversion: IntegerConversion, value: i64) -> bool {
    conversion is Decimal && value < 0
}

/// Length of the sign, precision zeros and digits.
pub open spec fn integer_body_len(conversion: IntegerConversion, value: i64, spec: FormatSpec) -> int {
    integer_digits(conversion, value, spec).len() + integer_precision_zeroes(conversion, value, spec) + (
    if integer_negative(conversion, value) {
        1int
    } else {
        0int
    })
}

/// Padding, sign, zeros and digits in printf order.
pub open spec fn integer_layout(
    pad: int,
    negative: bool,
    width_zeroes: bool,
    left_align: bool,
    precision_zeroes: int,
    digits: Seq<u8>,
) -> Seq<u8> {
    (if !left_align && !width_zeroes {
        repeated(32, pad)
    } else {
        Seq::<u8>::empty()
    }) + (if negative {
        seq![45u8]
    } else {
        Seq::<u8>::empty()
    }) + (if width_zeroes {
        repeated(48, pad)
    } else {
        Seq::<u8>::empty()
    }) + repeated(48, precision_zeroes) + digits + (if left_align {
        repeated(32, pad)
    } else {
        Seq::<u8>::empty()
    })
}

/// The complete rendered field of an integer directive.
pub open spec fn integer_field(conversion: IntegerConversion, value: i64, spec: FormatSpec) -> Seq<u8> {
    integer_layout(
        max_int(spec.width - integer_body_len(conversion, value, spec), 0),
        integer_negative(conversion, value),
        spec.zero_pad && !spec.left_align && spec.precision is None,
        spec.left_align,
        integer_precision_zeroes(conversion, value, spec),
        integer_digits(conversion, value, spec),
    )
}

/// Write an integer layout whose digits are those of `magnitude`, or none.
fn write_integer_layout(
    out: &mut ByteBuffer,
    pad: usize,
    negative: bool,
    width_zeroes: bool,
    left_align: bool,
    precision_zeroes: usize,
    suppress: bool,
    magnitude: u64,
    radix: u64,
)
    requires
        2 <= radix <= 16,
        old(out)@.len() + integer_layout(
            pad as int,
            negative,
            width_zeroes,
            left_align,
            precision_zeroes as int,
            if suppress {
                Seq::<u8>::empty()
            } else {
                radix_digits(magnitude as nat, radix as nat)
            },
        ).len() <= usize::MAX,
    ensures
        final(out)@ == old(out)@ + integer_layout(
            pad as int,
            negative,
            width_zeroes,
            left_align,
            precision_zeroes as int,
            if suppress {
                Seq::<u8>::empty()
            } else {
                radix_digits(magnitude as nat, radix as nat)
            },
        ),
{
    let ghost start = out@;
    if !left_align && !width_zeroes {
        out.push_repeated(32, pad);
    }
    if negative {
        out.push_byte(45);
    }
    if width_zeroes {
        out.push_repeated(48, pad);
    }
    out.push_repeated(48, precision_zeroes);
    if !suppress {
        push_digits(out, magnitude, radix);
    }
    if left_align {
        out.push_repeated(32, pad);
    }
    proof {
        assert(out@ =~= start + integer_layout(
            pad as int,
            negative,
            width_zeroes,
            left_align,
            precision_zeroes as int,
            if suppress {
                Seq::<u8>::empty()
            } else {
                radix_digits(magnitude as nat, radix as nat)
            },
        ));
    }
}

/// The rejection of an integer directive that does not fit the allowance.
pub open spec fn integer_limit_error(
    existing: int,
    conversion: IntegerConversion,
    value: i64,
    spec: FormatSpec,
    allowed: usize,
) -> OutputLimit {
    let body = integer_body_len(conversion, value, spec);
    if body > usize::MAX {
        OutputLimit { required: None, allowed }
    } else {
        limit_error_for(existing, max_int(spec.width as int, body), allowed)
    }
}

/// An integer field is exactly as wide as the larger of its width and its
/// body: padding never truncates the number.
pub proof fn lemma_integer_field_len(conversion: IntegerConversion, value: i64, spec: FormatSpec)
    ensures
        integer_field(conversion, value, spec).len() == max_int(
            spec.width as int,
            integer_body_len(conversion, value, spec),
        ),
{
}

/// The magnitude and radix rendered for an integer conversion.
fn magnitude_and_radix(conversion: IntegerConversion, value: i64) -> (result: (u64, u64))
    ensures
        result.0 == integer_magnitude(conversion, value),
        result.1 == integer_radix(conversion),
        2 <= result.1 <= 16,
{
    proof {
        lemma_pow2_facts();
    }
    let magnitude: u64 = if matches!(conversion, IntegerConversion::Decimal) {
        if value < 0 {
            if value == i64::MIN {
                0x8000_0000_0000_0000
            } else {
                (-value) as u64
            }
        } else {
            value as u64
        }
    } else if value < 0 {
        ((value + i64::MAX) + 1) as u64 + 0x8000_0000_0000_0000
    } else {
        value as u64
    };
    let radix: u64 = match conversion {
        IntegerConversion::Octal => 8,
        IntegerConversion::Hex => 16,
        _ => 10,
    };
    (magnitude, radix)
}

/// Render an integer directive. Succeeds exactly when the whole field fits the
/// allowance; a rejection leaves the output unchanged.
pub fn render_integer(
    out: &mut ByteBuffer,
    conversion: IntegerConversion,
    value: i64,
    spec: FormatSpec,
    allowed: usize,
) -> (result: Result<(), OutputLimit>)
    ensures
        result is Ok <==> old(out)@.len() + integer_field(conversion, value, spec).len() <= allowed,
        match result {
            Ok(()) => final(out)@ == old(out)@ + integer_field(conversion, value, spec),
            Err(e) => final(out)@ == old(out)@ && e == integer_limit_error(
                old(out)@.len() as int,
                conversion,
                value,
                spec,
                allowed,
            ),
        },
{
    proof {
        lemma_integer_field_len(conversion, value, spec);
    }
    let negative = matches!(conversion, IntegerConversion::Decimal) && value < 0;
    let (magnitude, radix) = magnitude_and_radix(conversion, value);
    let suppress = value == 0 && spec.precision == Some(0usize);
    let digits_len: usize = if suppress {
        0
    } else {
        digit_count(magnitude, radix)
    };
    let ghost digits = integer_digits(conversion, value, spec);
    assert(digits_len == digits.len());
    let precision_zeroes = match spec.precision {
        Some(p) => if p > digits_len {
            p - digits_len
        } else {
            0
        },
        None => 0,
    };
    assert(precision_zeroes == integer_precision_zeroes(conversion, value, spec));
    let sign_len: usize = if negative {
        1
    } else {
        0
    };
    let body_len = match digits_len.checked_add(precision_zeroes) {
        Some(length) => match length.checked_add(sign_len) {
            Some(length) => length,
            None => {
                return Err(OutputLimit { required: None, allowed });
            },
        },
        None => {
            return Err(OutputLimit { required: None, allowed });
        },
    };
    assert(body_len == integer_body_len(conversion, value, spec));
    let field_len = if spec.width > body_len {
        spec.width
    } else {
        body_len
    };
    match check_size(out.len(), field_len, allowed) {
        Ok(()) => {},
        Err(error) => {
            return Err(error);
        },
    }
    let width_padding = field_len - body_len;
    let width_zeroes = spec.zero_pad && !spec.left_align && spec.precision.is_none();
    write_integer_layout(
        out,
        width_padding,
        negative,
        width_zeroes,
        spec.left_align,
        precision_zeroes,
        suppress,
        magnitude,
        radix,
    );
    Ok(())
}

/// The bytes `%s` renders: `strlen` applies before the optional precision.
pub open spec fn lexeme_used(bytes: Seq<u8>, spec: FormatSpec) -> int {
    match spec.precision {
        Some(p) => min_int(p as int, first_nul_from(bytes, 0)),
        None => first_nul_from(bytes, 0),
    }
}

/// The complete rendered field of a `%s` directive. Zero fill is ignored.
pub open spec fn lexeme_field(bytes: Seq<u8>, spec: FormatSpec) -> Seq<u8> {
    let used = lexeme_used(bytes, spec);
    let pad = max_int(spec.width - used, 0);
    (if !spec.left_align {
        repeated(32, pad)
    } else {
        Seq::<u8>::empty()
    }) + bytes.take(used) + (if spec.left_align {
        repeated(32, pad)
    } else {
        Seq::<u8>::empty()
    })
}

/// Render a `%s` directive.
pub fn render_lexeme(out: &mut ByteBuffer, bytes: &[u8], spec: FormatSpec, allowed: usize) -> (result:
    Result<(), OutputLimit>)
    ensures
        result is Ok <==> old(out)@.len() + lexeme_field(bytes@, spec).len() <= allowed,
        match result {
            Ok(()) => final(out)@ == old(out)@ + lexeme_field(bytes@, spec),
            Err(e) => final(out)@ == old(out)@ && e == limit_error_for(
                old(out)@.len() as int,
                lexeme_field(bytes@, spec).len() as int,
                allowed,
            ),
        },
{
    let len = bytes.len();
    let mut c_length: usize = 0;
    while c_length < len && bytes[c_length] != 0
        invariant
            len == bytes@.len(),
            c_length <= len,
            first_nul_from(bytes@, 0) == first_nul_from(bytes@, c_length as int),
        decreases len - c_length,
    {
        c_length += 1;
    }
    let used = match spec.precision {
        Some(precision) => if precision < c_length {
            precision
        } else {
            c_length
        },
        None => c_length,
    };
    let padding = if spec.width > used {
        spec.width - used
    } else {
        0
    };
    let field_len = if spec.width > used {
        spec.width
    } else {
        used
    };
    assert(field_len == lexeme_field(bytes@, spec).len());
    match check_size(out.len(), field_len, allowed) {
        Ok(()) => {},
        Err(error) => {
            return Err(error);
        },
    }
    let ghost start = out@;
    if !spec.left_align {
        out.push_repeated(32, padding);
    }
    out.push_bytes(vstd::slice::slice_subrange(bytes, 0, used));
    if spec.left_align {
        out.push_repeated(32, padding);
    }
    proof {
        assert(out@ =~= start + lexeme_field(bytes@, spec));
    }
    Ok(())
}

/// The complete rendered field of a `%c` directive. Precision and zero fill
/// are ignored. A NUL byte ends the per-conversion C string: right-aligned
/// spaces precede it and stay, left-aligned spaces follow it and vanish.
pub open spec fn character_field(byte: u8, spec: FormatSpec) -> Seq<u8> {
    let pad = max_int(spec.width - 1, 0);
    if byte == 0 {
        if spec.left_align {
            Seq::<u8>::empty()
        } else {
            repeated(32, pad)
        }
    } else {
        (if !spec.left_align {
            repeated(32, pad)
        } else {
            Seq::<u8>::empty()
        }) + seq![byte] + (if spec.left_align {
            repeated(32, pad)
        } else {
            Seq::<u8>::empty()
        })
    }
}

/// Render a `%c` directive.
pub fn render_character(out: &mut ByteBuffer, byte: u8, spec: FormatSpec, allowed: usize) -> (result:
    Result<(), OutputLimit>)
    ensures
        result is Ok <==> old(out)@.len() + character_field(byte, spec).len() <= allowed,
        match result {
            Ok(()) => final(out)@ == old(out)@ + character_field(byte, spec),
            Err(e) => final(out)@ == old(out)@ && e == limit_error_for(
                old(out)@.len() as int,
                character_field(byte, spec).len() as int,
                allowed,
            ),
        },
{
    let padding = if spec.width > 0 {
        spec.width - 1
    } else {
        0
    };
    let ghost start = out@;
    if byte == 0 {
        let visible = if spec.left_align {
            0
        } else {
            padding
        };
        match check_size(out.len(), visible, allowed) {
            Ok(()) => {},
            Err(error) => {
                return Err(error);
            },
        }
        out.push_repeated(32, visible);
        proof {
            assert(out@ =~= start + character_field(byte, spec));
        }
        return Ok(());
    }
    let field_len = if spec.width > 1 {
        spec.width
    } else {
        1
    };
    match check_size(out.len(), field_len, allowed) {
        Ok(()) => {},
        Err(error) => {
            return Err(error);
        },
    }
    if !spec.left_align {
        out.push_repeated(32, padding);
    }
    out.push_byte(byte);
    if spec.left_align {
        out.push_repeated(32, padding);
    }
    proof {
        assert(out@ =~= start + character_field(byte, spec));
    }
    Ok(())
}

/// `%s` counts bytes, stops at the first NUL, keeps the bytes it uses
/// verbatim, pads with spaces to the width, and ignores the zero flag.
pub proof fn lemma_lexeme_field_shape(bytes: Seq<u8>, spec: FormatSpec)
    ensures
        lexeme_field(bytes, spec).len() == max_int(spec.width as int, lexeme_used(bytes, spec)),
        lexeme_used(bytes, spec) <= first_nul_from(bytes, 0),
        lexeme_field(bytes, spec) == lexeme_field(
            bytes,
            FormatSpec {
                left_align: spec.left_align,
                zero_pad: !spec.zero_pad,
                width: spec.width,
                precision: spec.precision,
            },
        ),
{
    crate::formatting::format_parser::lemma_first_nul_bounds(bytes, 0);
}

/// Signed extrema do not overflow, and `o x u` reinterpret the 64 bits of a
/// negative value: every magnitude fits in 64 bits, and only an explicit zero
/// precision of a zero value renders no digits.
pub proof fn lemma_integer_magnitude_fits(conversion: IntegerConversion, value: i64, spec: FormatSpec)
    ensures
        integer_magnitude(conversion, value) < pow2(64),
        !(conversion is Decimal) && value < 0 ==> integer_magnitude(conversion, value) == value
            + pow2(64),
        (integer_digits(conversion, value, spec).len() == 0) <==> (value == 0 && spec.precision
            == Some(0usize)),
{
    lemma_pow2_facts();
    if !(value == 0 && spec.precision == Some(0usize)) {
        lemma_radix_digits_nonempty(integer_magnitude(conversion, value), integer_radix(conversion));
    }
}

proof fn lemma_radix_digits_nonempty(n: nat, radix: nat)
    ensures
        radix_digits(n, radix).len() >= 1,
    decreases n,
{
    if !(radix < 2 || n < radix) {
        lemma_div_decreases(n as int, radix as int);
        lemma_radix_digits_nonempty(n / radix, radix);
    }
}

} // verus!
