//! Layout of canonical `f`, `e` and `g` directives around the decimal text
//! of a double's magnitude. The embedding owns the double arithmetic: it
//! classifies the operand and formats its magnitude with the precision that
//! `float_precision` returns, fixed-point for `f` and lower-exponent
//! (`d.ddde-x`) otherwise.

use crate::byte_buffer::ByteBuffer;
use crate::formatting::format_parser::{decimal_value, is_digit};
use crate::formatting::format_types::{check_size, limit_error_for, max_int, min_int, repeated, FormatSpec, OutputLimit};
use crate::formatting::integer_bytes::{digit_count, digit_char, push_digits, radix_digits};
use vstd::prelude::*;
use vstd::slice::slice_subrange;

verus! {

/// The floating conversions `f`, `e` and `g`.
#[derive(Clone, Copy, Debug, PartialEq, Eq)]
pub enum FloatConversion {
    Fixed,
    Scientific,
    General,
}

/// The classified operand of a floating directive: the formatter's text of a
/// finite magnitude, or a nonfinite value.
#[derive(Clone, Copy, Debug, PartialEq, Eq)]
pub enum FloatText<'t> {
    Finite(&'t [u8]),
    NotANumber,
    Infinite,
}

/// Every finite double has at most 309 integer and 1074 fractional decimal
/// positions, so this many significant digits represent it exactly.
pub const EXACT_SIGNIFICANT_BOUND: usize = 1384;

/// The scratch bound for a `g` text: the exact digits, a point, and an
/// exponent.
pub const GENERAL_SCRATCH_BOUND: usize = 1392;

/// A rejection whose final size was intentionally not computed.
pub open spec fn unsized_limit(allowed: usize) -> OutputLimit {
    OutputLimit { required: None, allowed }
}

// ---------------------------------------------------------------------------
// Lower-exponent text.

/// The index of the first `e` at or after `i`, or the length.
pub open spec fn exponent_marker(text: Seq<u8>, i: int) -> int
    decreases text.len() - i,
{
    if 0 <= i < text.len() && text[i] != 101 {
        exponent_marker(text, i + 1)
    } else {
        i
    }
}

/// The bytes before the `e`.
pub open spec fn text_mantissa(text: Seq<u8>) -> Seq<u8> {
    text.take(exponent_marker(text, 0))
}

/// The bytes after the `e`.
pub open spec fn exponent_field(text: Seq<u8>) -> Seq<u8> {
    text.skip(exponent_marker(text, 0) + 1)
}

pub open spec fn exponent_negative(text: Seq<u8>) -> bool {
    exponent_field(text).len() > 0 && exponent_field(text)[0] == 45
}

pub open spec fn exponent_digits(text: Seq<u8>) -> Seq<u8> {
    if exponent_negative(text) {
        exponent_field(text).skip(1)
    } else {
        exponent_field(text)
    }
}

/// The decimal exponent written after the `e`.
pub open spec fn text_exponent(text: Seq<u8>) -> int {
    if exponent_negative(text) {
        -(decimal_value(exponent_digits(text)) as int)
    } else {
        decimal_value(exponent_digits(text)) as int
    }
}

/// A mantissa, `e`, an optional `-` and one to four decimal digits: the
/// lower-exponent text of a finite double.
pub open spec fn is_exponent_text(text: Seq<u8>) -> bool {
    &&& exponent_marker(text, 0) < text.len()
    &&& 1 <= exponent_digits(text).len() <= 4
    &&& forall|i: int|
        0 <= i < exponent_digits(text).len() ==> is_digit(#[trigger] exponent_digits(text)[i])
}

/// `e`, the sign, and at least two exponent digits.
pub open spec fn exponent_suffix(exponent: int) -> Seq<u8> {
    let magnitude: nat = if exponent < 0 {
        (-exponent) as nat
    } else {
        exponent as nat
    };
    seq![
        101u8,
        if exponent < 0 {
            45u8
        } else {
            43u8
        },
    ] + (if magnitude < 10 {
        seq![48u8]
    } else {
        Seq::<u8>::empty()
    }) + radix_digits(magnitude, 10)
}

/// The `e` body: the mantissa as formatted and the C exponent spelling.
pub open spec fn scientific_text(text: Seq<u8>) -> Seq<u8> {
    text_mantissa(text) + exponent_suffix(text_exponent(text))
}

/// The mantissa without its decimal point.
pub open spec fn drop_points(m: Seq<u8>) -> Seq<u8>
    decreases m.len(),
{
    if m.len() == 0 {
        m
    } else if m.last() == 46 {
        drop_points(m.drop_last())
    } else {
        drop_points(m.drop_last()).push(m.last())
    }
}

/// Trailing zeros removed, keeping at least one digit.
pub open spec fn strip_zeros(d: Seq<u8>) -> Seq<u8>
    decreases d.len(),
{
    if d.len() > 1 && d.last() == 48 {
        strip_zeros(d.drop_last())
    } else {
        d
    }
}

/// The significant digits of a lower-exponent text.
pub open spec fn significant_digits(text: Seq<u8>) -> Seq<u8> {
    strip_zeros(drop_points(text_mantissa(text)))
}

/// Whether `g` uses fixed notation for a decimal exponent.
pub open spec fn general_uses_fixed(exponent: int, requested: int) -> bool {
    exponent >= -4 && (exponent < 0 || exponent < requested)
}

/// The `g` body: C `%g` layout of the significant digits, without trailing
/// zeros, fixed for exponents from -4 below the requested precision.
pub open spec fn general_text(text: Seq<u8>, requested: int) -> Seq<u8> {
    let digits = significant_digits(text);
    let e = text_exponent(text);
    if digits == seq![48u8] {
        seq![48u8]
    } else if !general_uses_fixed(e, requested) {
        seq![digits[0]] + (if digits.len() > 1 {
            seq![46u8] + digits.skip(1)
        } else {
            Seq::<u8>::empty()
        }) + exponent_suffix(e)
    } else if e < 0 {
        seq![48u8, 46u8] + repeated(48u8, -e - 1) + digits
    } else {
        let point = e + 1;
        if point >= digits.len() {
            digits + repeated(48u8, point - digits.len())
        } else {
            digits.take(point) + seq![46u8] + digits.skip(point)
        }
    }
}

// ---------------------------------------------------------------------------
// The whole field.

/// The precision `p` of a directive, 6 by default.
pub open spec fn requested_precision(spec: FormatSpec) -> int {
    match spec.precision {
        Some(p) => p as int,
        None => 6,
    }
}

/// The significant digits asked of `g`: at least one.
pub open spec fn general_requested(spec: FormatSpec) -> int {
    max_int(requested_precision(spec), 1)
}

/// The smallest `f` or `e` body for a precision: the digits, a point when
/// the precision is positive, and for `e` an exponent of at least two digits.
pub open spec fn minimum_body(conversion: FloatConversion, precision: int) -> int {
    if conversion is Fixed {
        if precision == 0 {
            1
        } else {
            precision + 2
        }
    } else if precision == 0 {
        5
    } else {
        precision + 6
    }
}

pub open spec fn sign_len(negative: bool) -> int {
    if negative {
        1
    } else {
        0
    }
}

/// The width and sign checks that every floating directive makes first.
pub open spec fn float_prefix_error(existing: int, negative: bool, spec: FormatSpec, allowed: usize) -> Option<
    OutputLimit,
> {
    if existing + spec.width > allowed {
        Some(limit_error_for(existing, spec.width as int, allowed))
    } else if existing + sign_len(negative) + 1 > allowed {
        Some(limit_error_for(existing, sign_len(negative) + 1, allowed))
    } else {
        None
    }
}

/// The checks made before a finite magnitude is formatted, and the precision
/// to format it with: digits after the point for `f`, after the first digit
/// for `e` and `g`.
pub open spec fn spec_float_precision(
    existing: int,
    negative: bool,
    conversion: FloatConversion,
    spec: FormatSpec,
    allowed: usize,
) -> Result<usize, OutputLimit> {
    let sign = sign_len(negative);
    match float_prefix_error(existing, negative, spec, allowed) {
        Some(e) => Err(e),
        None => if conversion is General {
            Ok((min_int(general_requested(spec), EXACT_SIGNIFICANT_BOUND as int) - 1) as usize)
        } else {
            let precision = requested_precision(spec);
            let minimum = minimum_body(conversion, precision);
            if minimum > usize::MAX {
                Err(unsized_limit(allowed))
            } else if existing + sign + minimum > allowed {
                Err(limit_error_for(existing + sign, minimum, allowed))
            } else {
                Ok(precision as usize)
            }
        },
    }
}

/// The body of a field: the laid-out text of a finite magnitude, or `nan` or
/// `inf`.
#[verifier::opaque]
pub open spec fn float_body(
    existing: int,
    negative: bool,
    text: FloatText<'_>,
    conversion: FloatConversion,
    spec: FormatSpec,
    allowed: usize,
) -> Result<Seq<u8>, OutputLimit> {
    let sign = sign_len(negative);
    let remaining = allowed - existing - sign;
    match text {
        FloatText::Finite(t) => if conversion is General {
            if t@.len() > GENERAL_SCRATCH_BOUND {
                Err(unsized_limit(allowed))
            } else {
                let body = general_text(t@, general_requested(spec));
                if existing + sign + body.len() <= allowed {
                    Ok(body)
                } else {
                    Err(limit_error_for(existing + sign, body.len() as int, allowed))
                }
            }
        } else if t@.len() > remaining {
            Err(unsized_limit(allowed))
        } else if conversion is Fixed {
            Ok(t@)
        } else {
            let body = scientific_text(t@);
            if existing + sign + body.len() <= allowed {
                Ok(body)
            } else {
                Err(limit_error_for(existing + sign, body.len() as int, allowed))
            }
        },
        _ => if existing + sign + 3 > allowed {
            Err(limit_error_for(existing + sign, 3, allowed))
        } else if text is NotANumber {
            Ok(seq![110u8, 97u8, 110u8])
        } else {
            Ok(seq![105u8, 110u8, 102u8])
        },
    }
}

/// The field around a body: padding to the width, the sign, and zero padding
/// after the sign for finite values only.
pub open spec fn float_field(body: Seq<u8>, negative: bool, finite: bool, spec: FormatSpec) -> Seq<u8> {
    let sign = sign_len(negative);
    let content = body.len() + sign;
    let padding = max_int(spec.width as int, content) - content;
    let zeroes = finite && spec.zero_pad && !spec.left_align;
    (if !spec.left_align && !zeroes {
        repeated(32u8, padding)
    } else {
        Seq::<u8>::empty()
    }) + (if negative {
        seq![45u8]
    } else {
        Seq::<u8>::empty()
    }) + (if zeroes {
        repeated(48u8, padding)
    } else {
        Seq::<u8>::empty()
    }) + body + (if spec.left_align {
        repeated(32u8, padding)
    } else {
        Seq::<u8>::empty()
    })
}

/// The body after the early checks: those of `float_precision` for a finite
/// value, the width and sign checks otherwise.
pub open spec fn float_checked_body(
    existing: int,
    negative: bool,
    text: FloatText<'_>,
    conversion: FloatConversion,
    spec: FormatSpec,
    allowed: usize,
) -> Result<Seq<u8>, OutputLimit> {
    if text is Finite {
        match spec_float_precision(existing, negative, conversion, spec, allowed) {
            Err(e) => Err(e),
            Ok(_) => float_body(existing, negative, text, conversion, spec, allowed),
        }
    } else {
        match float_prefix_error(existing, negative, spec, allowed) {
            Some(e) => Err(e),
            None => float_body(existing, negative, text, conversion, spec, allowed),
        }
    }
}

/// What rendering a classified operand appends, or why it is rejected.
pub open spec fn spec_render_float(
    existing: int,
    negative: bool,
    text: FloatText<'_>,
    conversion: FloatConversion,
    spec: FormatSpec,
    allowed: usize,
) -> Result<Seq<u8>, OutputLimit> {
    match float_checked_body(existing, negative, text, conversion, spec, allowed) {
        Err(e) => Err(e),
        Ok(body) => {
            let field = float_field(body, negative, text is Finite, spec);
            if existing + field.len() <= allowed {
                Ok(field)
            } else {
                Err(limit_error_for(existing, field.len() as int, allowed))
            }
        },
    }
}

/// Whether the text of a finite operand has the shape its conversion needs.
pub open spec fn float_text_ok(text: FloatText<'_>, conversion: FloatConversion) -> bool {
    match text {
        FloatText::Finite(t) => !(conversion is Fixed) ==> {
            &&& is_exponent_text(t@)
            &&& conversion is General ==> drop_points(text_mantissa(t@)).len() >= 1
        },
        _ => true,
    }
}

/// The index of the first `e` in `text`, or its length.
fn find_exponent_marker(text: &[u8]) -> (marker: usize)
    ensures
        marker == exponent_marker(text@, 0),
        marker <= text.len(),
{
    let mut i: usize = 0;
    while i < text.len() && text[i] != 101
        invariant
            i <= text.len(),
            exponent_marker(text@, 0) == exponent_marker(text@, i as int),
        decreases text.len() - i,
    {
        i = i + 1;
    }
    i
}

/// A mantissa keeps a byte once its points are dropped exactly when it has
/// a byte other than a point.
proof fn lemma_drop_points_nonempty(m: Seq<u8>)
    ensures
        (drop_points(m).len() >= 1) == (exists|i: int| 0 <= i < m.len() && m[i] != 46),
    decreases m.len(),
{
    if m.len() > 0 {
        lemma_drop_points_nonempty(m.drop_last());
        if exists|i: int| 0 <= i < m.drop_last().len() && m.drop_last()[i] != 46 {
            let i = choose|i: int| 0 <= i < m.drop_last().len() && m.drop_last()[i] != 46;
            assert(m[i] != 46);
        }
        if m.last() == 46 {
            assert forall|i: int| 0 <= i < m.len() && m[i] != 46 implies 0 <= i < m.drop_last().len()
                && m.drop_last()[i] != 46 by {}
        } else {
            assert(m[m.len() - 1] != 46);
        }
    }
}

/// Whether the text of a finite operand has the shape its conversion
/// needs; a nonfinite operand always has.
pub fn is_float_text_ok(text: FloatText<'_>, conversion: FloatConversion) -> (ok: bool)
    ensures
        ok == float_text_ok(text, conversion),
{
    let t = match text {
        FloatText::Finite(t) => t,
        _ => return true,
    };
    assert(text == FloatText::Finite(t));
    if let FloatConversion::Fixed = conversion {
        return true;
    }
    assert(!(conversion is Fixed));
    let marker = find_exponent_marker(t);
    if marker >= t.len() {
        return false;
    }
    let mut start = marker + 1;
    if start < t.len() && t[start] == 45 {
        start = start + 1;
    }
    proof {
        let field = exponent_field(t@);
        assert(field =~= t@.subrange(marker + 1, t@.len() as int));
        assert(exponent_digits(t@) =~= t@.subrange(start as int, t@.len() as int));
    }
    let digit_count = t.len() - start;
    if digit_count < 1 || digit_count > 4 {
        assert(exponent_digits(t@).len() == digit_count);
        assert(!is_exponent_text(t@));
        return false;
    }
    let mut i = start;
    while i < t.len()
        invariant
            start <= i <= t.len(),
            exponent_digits(t@) =~= t@.subrange(start as int, t@.len() as int),
            forall|j: int| start <= j < i ==> is_digit(#[trigger] t@[j]),
            text == FloatText::Finite(t),
            !(conversion is Fixed),
        decreases t.len() - i,
    {
        if t[i] < 48 || t[i] > 57 {
            proof {
                assert(exponent_digits(t@)[i - start] == t@[i as int]);
            }
            return false;
        }
        i = i + 1;
    }
    assert forall|k: int| 0 <= k < exponent_digits(t@).len() implies is_digit(
        #[trigger] exponent_digits(t@)[k],
    ) by {
        assert(exponent_digits(t@)[k] == t@[start + k]);
    }
    if let FloatConversion::General = conversion {
        proof {
            lemma_drop_points_nonempty(text_mantissa(t@));
        }
        let mut j: usize = 0;
        while j < marker
            invariant
                j <= marker,
                marker < t.len(),
                marker == exponent_marker(t@, 0),
                forall|k: int| 0 <= k < j ==> t@[k] == 46,
                is_exponent_text(t@),
                text == FloatText::Finite(t),
                conversion is General,
            decreases marker - j,
        {
            if t[j] != 46 {
                proof {
                    assert(text_mantissa(t@)[j as int] != 46);
                    lemma_drop_points_nonempty(text_mantissa(t@));
                }
                return true;
            }
            j = j + 1;
        }
        assert forall|k: int| 0 <= k < text_mantissa(t@).len() implies text_mantissa(t@)[k] == 46 by {
            assert(text_mantissa(t@)[k] == t@[k]);
        }
        return false;
    }
    true
}

/// Ten to the `k`.
pub open spec fn pow10(k: nat) -> nat
    decreases k,
{
    if k == 0 {
        1
    } else {
        10 * pow10((k - 1) as nat)
    }
}

/// A number has one decimal digit exactly when it is below ten.
proof fn lemma_single_digit(n: nat)
    ensures
        (radix_digits(n, 10).len() == 1) <==> n < 10,
        radix_digits(n, 10).len() >= 1,
{
    if n >= 10 {
        assert(n / 10 < n);
        assert(radix_digits(n, 10) == radix_digits(n / 10, 10).push(digit_char(n % 10)));
        if n / 10 >= 10 {
            assert(radix_digits(n / 10, 10) == radix_digits(n / 10 / 10, 10).push(
                digit_char((n / 10) % 10),
            ));
        }
    }
}

/// The mantissa and decimal exponent of a lower-exponent text.
fn split_scientific(text: &[u8]) -> (result: (&[u8], i32))
    requires
        is_exponent_text(text@),
    ensures
        result.0@ == text_mantissa(text@),
        result.1 == text_exponent(text@),
        -9999 <= result.1 <= 9999,
{
    let mut e: usize = 0;
    while e < text.len() && text[e] != 101u8
        invariant
            e <= text@.len(),
            exponent_marker(text@, e as int) == exponent_marker(text@, 0),
        decreases text@.len() - e,
    {
        e += 1;
    }
    let mantissa = slice_subrange(text, 0, e);
    let field = slice_subrange(text, e + 1, text.len());
    assert(field@ =~= exponent_field(text@));
    let negative = field.len() > 0 && field[0] == 45u8;
    let digits = if negative {
        slice_subrange(field, 1, field.len())
    } else {
        field
    };
    assert(digits@ =~= exponent_digits(text@));
    let mut value: i32 = 0;
    let mut k: usize = 0;
    proof {
        assert(digits@.take(0) =~= Seq::<u8>::empty());
        reveal_with_fuel(pow10, 5);
    }
    while k < digits.len()
        invariant
            k <= digits@.len() <= 4,
            digits@ == exponent_digits(text@),
            forall|i: int| 0 <= i < digits@.len() ==> is_digit(#[trigger] digits@[i]),
            0 <= value,
            value == decimal_value(digits@.take(k as int)),
            value < pow10(k as nat),
            pow10(4) == 10000,
        decreases digits@.len() - k,
    {
        assert(is_digit(digits@[k as int]));
        proof {
            assert(digits@.take(k + 1).drop_last() =~= digits@.take(k as int));
            assert(pow10((k + 1) as nat) == 10 * pow10(k as nat));
            if k + 1 <= 4 {
                reveal_with_fuel(pow10, 5);
            }
        }
        value = value * 10 + (digits[k] - 48u8) as i32;
        k += 1;
    }
    proof {
        assert(digits@.take(digits@.len() as int) =~= digits@);
        reveal_with_fuel(pow10, 5);
        assert(pow10(digits@.len()) <= 10000);
    }
    (mantissa, if negative {
        -value
    } else {
        value
    })
}

/// Append `e`, the exponent's sign and at least two exponent digits.
fn append_exponent(out: &mut ByteBuffer, exponent: i32)
    requires
        -9999 <= exponent <= 9999,
        old(out)@.len() + exponent_suffix(exponent as int).len() <= usize::MAX,
    ensures
        final(out)@ == old(out)@ + exponent_suffix(exponent as int),
{
    let ghost start = out@;
    let magnitude: u64 = if exponent < 0 {
        (-exponent) as u64
    } else {
        exponent as u64
    };
    out.push_byte(101u8);
    if exponent < 0 {
        out.push_byte(45u8);
    } else {
        out.push_byte(43u8);
    }
    if magnitude < 10 {
        out.push_byte(48u8);
    }
    push_digits(out, magnitude, 10);
    proof {
        assert(out@ =~= start + exponent_suffix(exponent as int));
    }
}

/// The `e` body of a lower-exponent text, if it fits after `existing` bytes.
fn scientific_body(text: &[u8], existing: usize, allowed: usize) -> (result: Result<ByteBuffer, OutputLimit>)
    requires
        is_exponent_text(text@),
    ensures
        match result {
            Ok(body) => body@ == scientific_text(text@) && existing + body@.len() <= allowed,
            Err(e) => existing + scientific_text(text@).len() > allowed && e == limit_error_for(
                existing as int,
                scientific_text(text@).len() as int,
                allowed,
            ),
        },
{
    let (mantissa, exponent) = split_scientific(text);
    let magnitude: u64 = if exponent < 0 {
        (-exponent) as u64
    } else {
        exponent as u64
    };
    let count = digit_count(magnitude, 10);
    proof {
        lemma_single_digit(magnitude as nat);
    }
    let exponent_digits: usize = if count < 2 {
        2
    } else {
        count
    };
    assert(exponent_suffix(exponent as int).len() == 2 + exponent_digits);
    let required = match mantissa.len().checked_add(2 + exponent_digits) {
        Some(required) => required,
        None => {
            return Err(OutputLimit { required: None, allowed });
        },
    };
    match check_size(existing, required, allowed) {
        Ok(()) => {},
        Err(e) => {
            return Err(e);
        },
    }
    let mut body = ByteBuffer::new();
    body.push_bytes(mantissa);
    append_exponent(&mut body, exponent);
    Ok(body)
}

/// The `g` body of a lower-exponent text, if it fits after `existing` bytes.
fn general_body(text: &[u8], requested: usize, existing: usize, allowed: usize) -> (result: Result<
    ByteBuffer,
    OutputLimit,
>)
    requires
        is_exponent_text(text@),
        drop_points(text_mantissa(text@)).len() >= 1,
    ensures
        match result {
            Ok(body) => body@ == general_text(text@, requested as int) && existing + body@.len()
                <= allowed,
            Err(e) => existing + general_text(text@, requested as int).len() > allowed && e
                == limit_error_for(
                existing as int,
                general_text(text@, requested as int).len() as int,
                allowed,
            ),
        },
{
    let (mantissa, exponent) = split_scientific(text);
    let mut digits: Vec<u8> = Vec::new();
    let mut i: usize = 0;
    proof {
        assert(mantissa@.take(0) =~= Seq::<u8>::empty());
    }
    while i < mantissa.len()
        invariant
            i <= mantissa@.len(),
            digits@ == drop_points(mantissa@.take(i as int)),
        decreases mantissa@.len() - i,
    {
        proof {
            assert(mantissa@.take(i + 1).drop_last() =~= mantissa@.take(i as int));
        }
        if mantissa[i] != 46u8 {
            digits.push(mantissa[i]);
        }
        i += 1;
    }
    proof {
        assert(mantissa@.take(mantissa@.len() as int) =~= mantissa@);
    }
    while digits.len() > 1 && digits[digits.len() - 1] == 48u8
        invariant
            digits@.len() >= 1,
            strip_zeros(digits@) == significant_digits(text@),
        decreases digits@.len(),
    {
        proof {
            assert(digits@.drop_last() =~= digits@.subrange(0, digits@.len() - 1));
        }
        digits.pop();
    }
    let ghost d = digits@;
    let ghost g = general_text(text@, requested as int);
    assert(d == significant_digits(text@));
    let len = digits.len();
    if len == 1 && digits[0] == 48u8 {
        assert(d =~= seq![48u8]);
        match check_size(existing, 1, allowed) {
            Ok(()) => {},
            Err(e) => {
                return Err(e);
            },
        }
        let mut body = ByteBuffer::new();
        body.push_byte(48u8);
        assert(body@ =~= g);
        return Ok(body);
    }
    assert(d != seq![48u8]) by {
        if d == seq![48u8] {
            assert(d.len() == 1 && d[0] == 48);
        }
    }
    let use_fixed = exponent >= -4 && (exponent < 0 || (exponent as usize) < requested);
    assert(use_fixed == general_uses_fixed(exponent as int, requested as int));
    let magnitude: u64 = if exponent < 0 {
        (-exponent) as u64
    } else {
        exponent as u64
    };
    let count = digit_count(magnitude, 10);
    proof {
        lemma_single_digit(magnitude as nat);
    }
    let exponent_digits: usize = if count < 2 {
        2
    } else {
        count
    };
    let tail: usize = if len > 1 {
        1
    } else {
        0
    };
    let required: Option<usize> = if !use_fixed {
        len.checked_add(tail + 2 + exponent_digits)
    } else if exponent < 0 {
        len.checked_add(2 + (-exponent - 1) as usize)
    } else {
        let point = (exponent + 1) as usize;
        if point >= len {
            Some(point)
        } else {
            len.checked_add(1)
        }
    };
    let required = match required {
        Some(required) => required,
        None => {
            return Err(OutputLimit { required: None, allowed });
        },
    };
    assert(required == g.len());
    match check_size(existing, required, allowed) {
        Ok(()) => {},
        Err(e) => {
            return Err(e);
        },
    }
    let mut body = ByteBuffer::new();
    let all = digits.as_slice();
    if !use_fixed {
        body.push_byte(digits[0]);
        if len > 1 {
            body.push_byte(46u8);
            body.push_bytes(slice_subrange(all, 1, len));
        }
        append_exponent(&mut body, exponent);
    } else if exponent < 0 {
        body.push_byte(48u8);
        body.push_byte(46u8);
        body.push_repeated(48u8, (-exponent - 1) as usize);
        body.push_bytes(all);
    } else {
        let point = (exponent + 1) as usize;
        if point >= len {
            body.push_bytes(all);
            body.push_repeated(48u8, point - len);
        } else {
            body.push_bytes(slice_subrange(all, 0, point));
            body.push_byte(46u8);
            body.push_bytes(slice_subrange(all, point, len));
        }
    }
    assert(body@ =~= g);
    Ok(body)
}

/// The early checks of a floating directive, and the precision to format a
/// finite magnitude with. Call before formatting, so that output-sized
/// precision is rejected first.
pub fn float_precision(
    existing: usize,
    negative: bool,
    conversion: FloatConversion,
    spec: FormatSpec,
    allowed: usize,
) -> (result: Result<usize, OutputLimit>)
    ensures
        result == spec_float_precision(existing as int, negative, conversion, spec, allowed),
        result matches Err(e) ==> e.allowed == allowed,
{
    match check_size(existing, spec.width, allowed) {
        Ok(()) => {},
        Err(e) => {
            return Err(e);
        },
    }
    let sign: usize = if negative {
        1
    } else {
        0
    };
    match check_size(existing, sign + 1, allowed) {
        Ok(()) => {},
        Err(e) => {
            return Err(e);
        },
    }
    let precision = match spec.precision {
        Some(p) => p,
        None => 6,
    };
    match conversion {
        FloatConversion::General => {
            let requested = if precision < 1 {
                1
            } else {
                precision
            };
            let rounded = if requested < EXACT_SIGNIFICANT_BOUND {
                requested
            } else {
                EXACT_SIGNIFICANT_BOUND
            };
            Ok(rounded - 1)
        },
        _ => {
            let extra: usize = match conversion {
                FloatConversion::Fixed => 2,
                _ => 6,
            };
            let minimum: usize = if precision == 0 {
                match conversion {
                    FloatConversion::Fixed => 1,
                    _ => 5,
                }
            } else {
                match precision.checked_add(extra) {
                    Some(minimum) => minimum,
                    None => {
                        return Err(OutputLimit { required: None, allowed });
                    },
                }
            };
            match check_size(existing + sign, minimum, allowed) {
                Ok(()) => {},
                Err(e) => {
                    return Err(e);
                },
            }
            Ok(precision)
        },
    }
}

/// The body of a finite value's field, after the early checks.
fn finite_body(
    t: &[u8],
    existing: usize,
    negative: bool,
    conversion: FloatConversion,
    spec: FormatSpec,
    allowed: usize,
) -> (result: Result<ByteBuffer, OutputLimit>)
    requires
        float_text_ok(FloatText::Finite(t), conversion),
    ensures
        match float_checked_body(existing as int, negative, FloatText::Finite(t), conversion, spec, allowed) {
            Ok(body) => result matches Ok(b) && b@ == body,
            Err(e) => result == Err::<ByteBuffer, OutputLimit>(e),
        },
        result matches Ok(b) ==> existing + sign_len(negative) + b@.len() <= allowed,
        result matches Err(e) ==> e.allowed == allowed,
{
    reveal(float_body);
    match float_precision(existing, negative, conversion, spec, allowed) {
        Ok(_) => {},
        Err(e) => {
            return Err(e);
        },
    }
    let sign: usize = if negative {
        1
    } else {
        0
    };
    match conversion {
        FloatConversion::General => {
            if t.len() > GENERAL_SCRATCH_BOUND {
                return Err(OutputLimit { required: None, allowed });
            }
            let requested = match spec.precision {
                Some(p) => p,
                None => 6,
            };
            let requested = if requested < 1 {
                1
            } else {
                requested
            };
            general_body(t, requested, existing + sign, allowed)
        },
        _ => {
            let remaining = allowed - existing - sign;
            if t.len() > remaining {
                return Err(OutputLimit { required: None, allowed });
            }
            match conversion {
                FloatConversion::Fixed => {
                    let mut body = ByteBuffer::new();
                    body.push_bytes(t);
                    Ok(body)
                },
                _ => scientific_body(t, existing + sign, allowed),
            }
        },
    }
}

/// The body of a field, after the early checks.
fn checked_body(
    existing: usize,
    negative: bool,
    text: FloatText<'_>,
    conversion: FloatConversion,
    spec: FormatSpec,
    allowed: usize,
) -> (result: Result<ByteBuffer, OutputLimit>)
    requires
        float_text_ok(text, conversion),
    ensures
        match float_checked_body(existing as int, negative, text, conversion, spec, allowed) {
            Ok(body) => result matches Ok(b) && b@ == body,
            Err(e) => result == Err::<ByteBuffer, OutputLimit>(e),
        },
        result matches Ok(b) ==> existing + sign_len(negative) + b@.len() <= allowed,
        result matches Err(e) ==> e.allowed == allowed,
{
    reveal(float_body);
    let sign: usize = if negative {
        1
    } else {
        0
    };
    match text {
        FloatText::Finite(t) => finite_body(t, existing, negative, conversion, spec, allowed),
        _ => {
            match check_size(existing, spec.width, allowed) {
                Ok(()) => {},
                Err(e) => {
                    return Err(e);
                },
            }
            match check_size(existing, sign + 1, allowed) {
                Ok(()) => {},
                Err(e) => {
                    return Err(e);
                },
            }
            match check_size(existing + sign, 3, allowed) {
                Ok(()) => {},
                Err(e) => {
                    return Err(e);
                },
            }
            let mut body = ByteBuffer::new();
            match text {
                FloatText::NotANumber => {
                    body.push_byte(110u8);
                    body.push_byte(97u8);
                    body.push_byte(110u8);
                },
                _ => {
                    body.push_byte(105u8);
                    body.push_byte(110u8);
                    body.push_byte(102u8);
                },
            }
            assert(body@ =~= float_body(existing as int, negative, text, conversion, spec, allowed)->Ok_0);
            Ok(body)
        },
    }
}

/// Append the padded, signed field around a body.
fn push_float_field(out: &mut ByteBuffer, body: &[u8], negative: bool, finite: bool, spec: FormatSpec)
    requires
        old(out)@.len() + float_field(body@, negative, finite, spec).len() <= usize::MAX,
    ensures
        final(out)@ == old(out)@ + float_field(body@, negative, finite, spec),
{
    let ghost start = out@;
    let sign: usize = if negative {
        1
    } else {
        0
    };
    let content = body.len() + sign;
    let field_len = if spec.width > content {
        spec.width
    } else {
        content
    };
    let padding = field_len - content;
    let zeroes = finite && spec.zero_pad && !spec.left_align;
    if !spec.left_align && !zeroes {
        out.push_repeated(32u8, padding);
    }
    if negative {
        out.push_byte(45u8);
    }
    if zeroes {
        out.push_repeated(48u8, padding);
    }
    out.push_bytes(body);
    if spec.left_align {
        out.push_repeated(32u8, padding);
    }
    assert(out@ =~= start + float_field(body@, negative, finite, spec));
}

/// Append a floating directive's field for a classified operand: for a
/// finite value, the text of its magnitude formatted with the precision that
/// `float_precision` returns. Only this append is atomic: on any error the
/// output is unchanged.
pub fn render_float_text(
    out: &mut ByteBuffer,
    negative: bool,
    text: FloatText<'_>,
    conversion: FloatConversion,
    spec: FormatSpec,
    allowed: usize,
) -> (result: Result<(), OutputLimit>)
    requires
        float_text_ok(text, conversion),
    ensures
        match spec_render_float(old(out)@.len() as int, negative, text, conversion, spec, allowed) {
            Ok(field) => result is Ok && final(out)@ == old(out)@ + field,
            Err(e) => result == Err::<(), OutputLimit>(e) && final(out)@ == old(out)@,
        },
        result matches Err(e) ==> e.allowed == allowed,
{
    let existing = out.len();
    let sign: usize = if negative {
        1
    } else {
        0
    };
    let finite = match text {
        FloatText::Finite(_) => true,
        _ => false,
    };
    let body = match checked_body(existing, negative, text, conversion, spec, allowed) {
        Ok(body) => body,
        Err(e) => {
            return Err(e);
        },
    };
    let ghost field = float_field(body@, negative, finite, spec);
    let content = body.len() + sign;
    let field_len = if spec.width > content {
        spec.width
    } else {
        content
    };
    assert(field.len() == field_len);
    match check_size(existing, field_len, allowed) {
        Ok(()) => {},
        Err(e) => {
            return Err(e);
        },
    }
    push_float_field(out, body.as_bytes(), negative, finite, spec);
    Ok(())
}

/// A floating field is exactly as wide as the larger of its width and its
/// signed body, and a nonfinite value is padded with spaces even when the
/// zero flag is given.
pub proof fn lemma_float_field_shape(body: Seq<u8>, negative: bool, finite: bool, spec: FormatSpec)
    ensures
        float_field(body, negative, finite, spec).len() == max_int(
            spec.width as int,
            body.len() + sign_len(negative),
        ),
        !finite ==> float_field(body, negative, finite, spec) == float_field(
            body,
            negative,
            finite,
            FormatSpec {
                left_align: spec.left_align,
                zero_pad: false,
                width: spec.width,
                precision: spec.precision,
            },
        ),
{
}

} // verus!
