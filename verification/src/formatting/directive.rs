//! Appending literal bytes and admitted directives to a format result.

use crate::byte_buffer::ByteBuffer;
use crate::formatting::argument::FormatArgument;
use crate::formatting::float_render::FloatConversion;
use crate::formatting::format_parser::{Conversion, Directive, NumericParameter, SpecAnalysis};
use crate::formatting::format_types::{check_size, limit_error_for, FormatSpec, OutputLimit};
use crate::formatting::integer_bytes::{
    character_argument, character_field, integer_argument, integer_field, integer_limit_error,
    lexeme_argument, lexeme_field, render_character, render_integer, render_lexeme,
    spec_character_argument, spec_integer_argument, spec_lexeme_argument, ByteArgumentError,
    IntegerArgumentError, IntegerConversion,
};
use std::ops::Range;
use vstd::prelude::*;

verus! {

/// Why a directive could not be appended.
#[derive(Debug, PartialEq, Eq)]
pub enum DirectiveError {
    IntegerArgument(IntegerArgumentError),
    ByteArgument(ByteArgumentError),
    ExpectedNumeric(&'static str),
    /// Accepted and operand-admitted, but not a canonical render instruction.
    NonCanonical { range: Range<usize>, offset: usize, byte: u8 },
    /// Accepted and operand-admitted, but the numeric parameter cannot fit the
    /// host usize. No CLIPS diagnostic, severity or replacement is implied.
    ParameterOverflow { parameter: NumericParameter, range: Range<usize> },
    OutputLimit(OutputLimit),
}

/// The operand of a floating conversion: a FLOAT's bit pattern, or an
/// INTEGER that the renderer converts to double as CLIPS does.
#[derive(Clone, Copy, Debug, PartialEq, Eq)]
pub enum FloatOperand {
    Bits(u64),
    Integer(i64),
}

/// An operand admitted by its directive's conversion.
#[derive(Clone, Copy, Debug, PartialEq, Eq)]
pub enum PreparedArgument<'a> {
    Integer(IntegerConversion, i64),
    Float(FloatConversion, FloatOperand),
    Lexeme(&'a [u8]),
    Character(u8),
}

/// Whether a conversion is `f`, `e` or `g`.
pub open spec fn is_float_conversion(conversion: Conversion) -> bool {
    conversion is Fixed || conversion is Scientific || conversion is General
}

/// The admission of an operand by a conversion.
pub open spec fn spec_prepare_argument<'a>(conversion: Conversion, value: FormatArgument<'a>) -> Result<
    PreparedArgument<'a>,
    DirectiveError,
> {
    match conversion {
        Conversion::Decimal => spec_integer_prepared(IntegerConversion::Decimal, value),
        Conversion::Octal => spec_integer_prepared(IntegerConversion::Octal, value),
        Conversion::Hex => spec_integer_prepared(IntegerConversion::Hex, value),
        Conversion::Unsigned => spec_integer_prepared(IntegerConversion::Unsigned, value),
        Conversion::Fixed => spec_float_prepared(FloatConversion::Fixed, value),
        Conversion::Scientific => spec_float_prepared(FloatConversion::Scientific, value),
        Conversion::General => spec_float_prepared(FloatConversion::General, value),
        Conversion::Lexeme => match spec_lexeme_argument(value) {
            Ok(bytes) => Ok(PreparedArgument::Lexeme(bytes)),
            Err(e) => Err(DirectiveError::ByteArgument(e)),
        },
        Conversion::Character => match spec_character_argument(value) {
            Ok(byte) => Ok(PreparedArgument::Character(byte)),
            Err(e) => Err(DirectiveError::ByteArgument(e)),
        },
    }
}

/// The admission of an operand by an integer conversion.
pub open spec fn spec_integer_prepared<'a>(conversion: IntegerConversion, value: FormatArgument<'a>) -> Result<
    PreparedArgument<'a>,
    DirectiveError,
> {
    match spec_integer_argument(value) {
        Ok(v) => Ok(PreparedArgument::Integer(conversion, v)),
        Err(e) => Err(DirectiveError::IntegerArgument(e)),
    }
}

/// The admission of an operand by a floating conversion: a FLOAT or INTEGER.
pub open spec fn spec_float_prepared<'a>(conversion: FloatConversion, value: FormatArgument<'a>) -> Result<
    PreparedArgument<'a>,
    DirectiveError,
> {
    match value {
        FormatArgument::Float(bits) => Ok(PreparedArgument::Float(conversion, FloatOperand::Bits(bits))),
        FormatArgument::Integer(v) => Ok(
            PreparedArgument::Float(conversion, FloatOperand::Integer(v)),
        ),
        other => Err(
            DirectiveError::ExpectedNumeric(crate::formatting::argument::argument_kind_name(other)),
        ),
    }
}

/// The canonical instruction of a directive, or why it has none.
pub open spec fn spec_canonical(directive: Directive<'_>) -> Result<FormatSpec, DirectiveError> {
    match directive.spec {
        SpecAnalysis::Canonical(spec) => Ok(spec),
        SpecAnalysis::NonCanonical { offset, byte } => Err(
            DirectiveError::NonCanonical { range: directive.range, offset, byte },
        ),
        SpecAnalysis::ParameterOverflow { parameter, range } => Err(
            DirectiveError::ParameterOverflow { parameter, range },
        ),
    }
}

/// Admission first, then the canonical instruction.
pub open spec fn spec_prepare_directive<'a>(directive: Directive<'_>, value: FormatArgument<'a>) -> Result<
    (PreparedArgument<'a>, FormatSpec),
    DirectiveError,
> {
    match spec_prepare_argument(directive.conversion, value) {
        Err(e) => Err(e),
        Ok(prepared) => match spec_canonical(directive) {
            Err(e) => Err(e),
            Ok(spec) => Ok((prepared, spec)),
        },
    }
}

/// The rendered field of an admitted, non-floating operand.
pub open spec fn prepared_field(prepared: PreparedArgument<'_>, spec: FormatSpec) -> Seq<u8> {
    match prepared {
        PreparedArgument::Integer(conversion, v) => integer_field(conversion, v, spec),
        PreparedArgument::Lexeme(bytes) => lexeme_field(bytes@, spec),
        PreparedArgument::Character(byte) => character_field(byte, spec),
        PreparedArgument::Float(..) => Seq::<u8>::empty(),
    }
}

/// The rejection of an admitted, non-floating operand that does not fit.
pub open spec fn prepared_limit_error(
    existing: int,
    prepared: PreparedArgument<'_>,
    spec: FormatSpec,
    allowed: usize,
) -> OutputLimit {
    match prepared {
        PreparedArgument::Integer(conversion, v) => integer_limit_error(
            existing,
            conversion,
            v,
            spec,
            allowed,
        ),
        _ => limit_error_for(existing, prepared_field(prepared, spec).len() as int, allowed),
    }
}

/// Append literal or control bytes with the same aggregate allowance as
/// fields. On rejection the caller's output is unchanged.
pub fn append_bytes(output: &mut ByteBuffer, bytes: &[u8], allowed: usize) -> (result: Result<
    (),
    OutputLimit,
>)
    ensures
        result is Ok <==> old(output)@.len() + bytes@.len() <= allowed,
        match result {
            Ok(()) => final(output)@ == old(output)@ + bytes@,
            Err(e) => final(output)@ == old(output)@ && e == limit_error_for(
                old(output)@.len() as int,
                bytes@.len() as int,
                allowed,
            ),
        },
{
    match check_size(output.len(), bytes.len(), allowed) {
        Ok(()) => {
            output.push_bytes(bytes);
            Ok(())
        },
        Err(limit) => Err(limit),
    }
}

/// Admit an operand for a conversion.
pub fn prepare_argument<'a>(conversion: Conversion, value: FormatArgument<'a>) -> (result: Result<
    PreparedArgument<'a>,
    DirectiveError,
>)
    ensures
        result == spec_prepare_argument(conversion, value),
{
    let integer = match conversion {
        Conversion::Decimal => Some(IntegerConversion::Decimal),
        Conversion::Octal => Some(IntegerConversion::Octal),
        Conversion::Hex => Some(IntegerConversion::Hex),
        Conversion::Unsigned => Some(IntegerConversion::Unsigned),
        _ => None,
    };
    if let Some(kind) = integer {
        return match integer_argument(value) {
            Ok(v) => Ok(PreparedArgument::Integer(kind, v)),
            Err(e) => Err(DirectiveError::IntegerArgument(e)),
        };
    }
    let float = match conversion {
        Conversion::Fixed => Some(FloatConversion::Fixed),
        Conversion::Scientific => Some(FloatConversion::Scientific),
        Conversion::General => Some(FloatConversion::General),
        _ => None,
    };
    if let Some(kind) = float {
        return match value {
            FormatArgument::Float(bits) => Ok(PreparedArgument::Float(kind, FloatOperand::Bits(bits))),
            FormatArgument::Integer(v) => Ok(PreparedArgument::Float(kind, FloatOperand::Integer(v))),
            other => Err(DirectiveError::ExpectedNumeric(other.kind_name())),
        };
    }
    match conversion {
        Conversion::Lexeme => match lexeme_argument(value) {
            Ok(bytes) => Ok(PreparedArgument::Lexeme(bytes)),
            Err(e) => Err(DirectiveError::ByteArgument(e)),
        },
        _ => match character_argument(value) {
            Ok(byte) => Ok(PreparedArgument::Character(byte)),
            Err(e) => Err(DirectiveError::ByteArgument(e)),
        },
    }
}

/// The canonical instruction of a directive, or why it has none.
pub fn canonical_spec(directive: &Directive<'_>) -> (result: Result<FormatSpec, DirectiveError>)
    ensures
        result == spec_canonical(*directive),
{
    match &directive.spec {
        SpecAnalysis::Canonical(spec) => Ok(*spec),
        SpecAnalysis::NonCanonical { offset, byte } => Err(
            DirectiveError::NonCanonical {
                range: directive.range.start..directive.range.end,
                offset: *offset,
                byte: *byte,
            },
        ),
        SpecAnalysis::ParameterOverflow { parameter, range } => Err(
            DirectiveError::ParameterOverflow {
                parameter: *parameter,
                range: range.start..range.end,
            },
        ),
    }
}

/// Admit an operand for a directive and fetch its canonical instruction.
/// Admission runs before a noncanonical or overflowing spec is reported.
pub fn prepare_directive<'a>(directive: &Directive<'_>, value: FormatArgument<'a>) -> (result: Result<
    (PreparedArgument<'a>, FormatSpec),
    DirectiveError,
>)
    ensures
        result == spec_prepare_directive(*directive, value),
{
    let prepared = match prepare_argument(directive.conversion, value) {
        Ok(prepared) => prepared,
        Err(error) => {
            return Err(error);
        },
    };
    match canonical_spec(directive) {
        Ok(spec) => Ok((prepared, spec)),
        Err(error) => Err(error),
    }
}

/// Append the field of an admitted, non-floating operand. Only this append
/// is atomic: on any error the output is unchanged.
pub fn append_prepared(
    output: &mut ByteBuffer,
    prepared: PreparedArgument<'_>,
    spec: FormatSpec,
    allowed: usize,
) -> (result: Result<(), OutputLimit>)
    requires
        !(prepared is Float),
    ensures
        ({
            let field = prepared_field(prepared, spec);
            if old(output)@.len() + field.len() <= allowed {
                result is Ok && final(output)@ == old(output)@ + field
            } else {
                result == Err::<(), OutputLimit>(
                    prepared_limit_error(old(output)@.len() as int, prepared, spec, allowed),
                ) && final(output)@ == old(output)@
            }
        }),
        result matches Err(e) ==> e.allowed == allowed,
{
    match prepared {
        PreparedArgument::Integer(conversion, v) => render_integer(output, conversion, v, spec, allowed),
        PreparedArgument::Lexeme(bytes) => render_lexeme(output, bytes, spec, allowed),
        PreparedArgument::Character(byte) => render_character(output, byte, spec, allowed),
        PreparedArgument::Float(..) => {
            proof {
                assert(false);
            }
            Ok(())
        },
    }
}

/// Append one admitted directive of a non-floating conversion. Call after the
/// full scan and count validation and after evaluating exactly this operand.
/// Only this append is atomic: on any error the output is unchanged. The
/// floating conversions `f e g` are rendered from `prepare_directive`'s
/// result by `render_float_text`, once the embedding, which owns the double
/// arithmetic, has formatted the magnitude.
pub fn append_directive(
    output: &mut ByteBuffer,
    directive: &Directive<'_>,
    value: FormatArgument<'_>,
    allowed: usize,
) -> (result: Result<(), DirectiveError>)
    requires
        !is_float_conversion(directive.conversion),
    ensures
        match spec_prepare_directive(*directive, value) {
            Err(e) => result == Err::<(), DirectiveError>(e) && final(output)@ == old(output)@,
            Ok((prepared, spec)) => {
                let field = prepared_field(prepared, spec);
                if old(output)@.len() + field.len() <= allowed {
                    result is Ok && final(output)@ == old(output)@ + field
                } else {
                    result == Err::<(), DirectiveError>(
                        DirectiveError::OutputLimit(
                            prepared_limit_error(old(output)@.len() as int, prepared, spec, allowed),
                        ),
                    ) && final(output)@ == old(output)@
                }
            },
        },
{
    let (prepared, spec) = match prepare_directive(directive, value) {
        Ok(prepared) => prepared,
        Err(error) => {
            return Err(error);
        },
    };
    match append_prepared(output, prepared, spec, allowed) {
        Ok(()) => Ok(()),
        Err(limit) => Err(DirectiveError::OutputLimit(limit)),
    }
}

} // verus!
