use ferric_rules_runtime::byte_buffer::ByteBuffer;
use ferric_rules_runtime::formatting::argument::FormatArgument;
use ferric_rules_runtime::formatting::directive::{
    append_bytes, prepare_directive, DirectiveError, FloatOperand, PreparedArgument,
};
use ferric_rules_runtime::formatting::float_render::{
    float_precision, render_float_text, FloatConversion, FloatText,
};
use ferric_rules_runtime::formatting::format_parser::{
    scan_format, FormatPiece, FormatPlan, InvalidFlag, NumericParameter, OperandCountMismatch,
};
use ferric_rules_runtime::formatting::format_types::{FormatSpec, OutputLimit};
use ferric_rules_runtime::formatting::integer_bytes::{ByteArgumentError, IntegerArgumentError};
use ferric_rules_runtime::formatting::noncanonical::append_noncanonical;

const ALLOWED: usize = 8192;

const ORDINARY_DIRECTIVES: &[u8] = b"[     7|7     |  2.50|   red|red   |abc|   red]\n[%:\n:\r:\t:\x0b]\n";
const UNICODE_WIDTH_AND_PRECISION: &[u8] = b"[  \xc3\xa9|\xc3\xa9|\xc3]\n";
const INTEGER_FLAGS: &[u8] = b"[7    ]\n[-7   ]\n[7    ]\n[-7   ]\n[00007]\n[-0007]\n";
const INTEGER_PRECISION: &[u8] = b"[007]\n[-007]\n[000]\n[     007]\n[    -007]\n[     000]\n[     007]\n[    -007]\n[     000]\n[007     ]\n[-007    ]\n[000     ]\n[7]\n[-7]\n[]\n[    7]\n[   -7]\n[     ]\n[7]\n[-7]\n[]\n";
const INTEGER_BOUNDARIES: &[u8] = b"[0009223372036854775807|-009223372036854775808|0007|-007]\n";
const RADIX_DIRECTIVES: &[u8] = b"[00000101|00000041|00000065]\n[     101|     041|     065]\n[1777777777777777777777|ffffffffffffffff|18446744073709551615]\n";
const CHARACTER_EMPTY_NUL_BYTE_WIDTH_PRECISION: &[u8] = b"precision:[A|A|   A|A   ]\nempty:[|   |:end]\nzero:[|   |:end]\nbytes:[\xc3|  \xc3|\xff|\xff]\n";
const GENERAL_PRECISION_AND_CUTOVERS: &[u8] = b"g0:[1|1e+01|-0]\ng3:[999|1e+03|9.99e-05|0.0001]\ndefault:[999999|1e+06|0.0001|1e-05]\nsubnormal:[4.94066e-324|1.79769e+308]\n";
const SCIENTIFIC_EXPONENT_AND_FIXED_TIES: &[u8] = b"e:[1.234500e+04|1e+01|1.00e-05|1.00e+99|1.00e+100]\nzero:[-00.00e+00|-0000.00]\nties:[2|4|-2|-4]\nsubnormal:[4.940656e-324]\n";
const NONFINITE_FORMAT_PADDING: &[u8] = b"inf:[inf|     inf|inf     |     inf|     inf]\nnegative:[    -inf|    -inf|    -inf]\nnan:[nan|     nan|nan     |     nan|     nan]\n";

fn f(value: f64) -> FormatArgument<'static> {
    FormatArgument::Float(value.to_bits())
}

// The embedding's double arithmetic for f, e and g; every other conversion
// is appended by the library directly.
fn render_float(
    out: &mut ByteBuffer,
    value: f64,
    conversion: FloatConversion,
    spec: FormatSpec,
    allowed: usize,
) -> Result<(), OutputLimit> {
    let negative = value.is_sign_negative();
    if value.is_nan() {
        return render_float_text(out, negative, FloatText::NotANumber, conversion, spec, allowed);
    }
    if value.is_infinite() {
        return render_float_text(out, negative, FloatText::Infinite, conversion, spec, allowed);
    }
    let precision = float_precision(out.len(), negative, conversion, spec, allowed)?;
    let magnitude = value.abs();
    let text = match conversion {
        FloatConversion::Fixed => format!("{magnitude:.precision$}"),
        _ => format!("{magnitude:.precision$e}"),
    };
    render_float_text(
        out,
        negative,
        FloatText::Finite(text.as_bytes()),
        conversion,
        spec,
        allowed,
    )
}

fn append_directive(
    output: &mut ByteBuffer,
    directive: &ferric_rules_runtime::formatting::format_parser::Directive<'_>,
    value: FormatArgument<'_>,
    allowed: usize,
) -> Result<(), DirectiveError> {
    match prepare_directive(directive, value)? {
        (PreparedArgument::Float(conversion, operand), spec) => {
            let value = match operand {
                FloatOperand::Bits(bits) => f64::from_bits(bits),
                FloatOperand::Integer(v) => v as f64,
            };
            render_float(output, value, conversion, spec, allowed).map_err(DirectiveError::OutputLimit)
        }
        _ => ferric_rules_runtime::formatting::directive::append_directive(output, directive, value, allowed),
    }
}

#[derive(Debug, PartialEq, Eq)]
enum AssemblyError<'a> {
    Invalid(InvalidFlag<'a>),
    Count(OperandCountMismatch),
    Directive(DirectiveError),
    Limit(OutputLimit),
}

// Pure test orchestration of the scan/admission sequence. `visits` records
// primitive argument consumption, not runtime expression evaluation/effects.
fn assemble<'a>(
    control: &'a [u8],
    values: &[FormatArgument<'_>],
    allowed: usize,
    visits: &mut Vec<usize>,
) -> Result<Vec<u8>, AssemblyError<'a>> {
    let plan: FormatPlan<'_> = scan_format(control).map_err(AssemblyError::Invalid)?;
    plan.check_operand_count(values.len())
        .map_err(AssemblyError::Count)?;
    let mut output = ByteBuffer::new();
    let mut index = 0;
    for piece in &plan.pieces {
        match piece {
            FormatPiece::Literal { bytes, .. } => {
                append_bytes(&mut output, bytes, allowed).map_err(AssemblyError::Limit)?;
            }
            FormatPiece::Control { byte, .. } => {
                append_bytes(&mut output, &[*byte], allowed).map_err(AssemblyError::Limit)?;
            }
            FormatPiece::Directive(directive) => {
                visits.push(index);
                append_directive(&mut output, directive, values[index], allowed)
                    .map_err(AssemblyError::Directive)?;
                index += 1;
            }
        }
    }
    Ok(output.as_bytes().to_vec())
}

fn rendered(control: &[u8], values: &[FormatArgument<'_>]) -> Vec<u8> {
    let mut visits = Vec::new();
    let bytes = assemble(control, values, ALLOWED, &mut visits).unwrap();
    assert_eq!(visits, (0..values.len()).collect::<Vec<_>>());
    bytes
}

fn line(output: &mut Vec<u8>, label: &[u8], control: &[u8], values: &[FormatArgument<'_>]) {
    output.extend_from_slice(label);
    output.push(b'[');
    output.extend(rendered(control, values));
    output.extend_from_slice(b"]\n");
}

#[test]
fn parser_to_renderer_matches_sealed_ordinary_and_raw_unicode_programs() {
    let mut output = Vec::new();
    line(
        &mut output,
        b"",
        b"%6d|%-6d|%6.2f|%6s|%-6s|%.3s|%06s",
        &[
            FormatArgument::Integer(7),
            FormatArgument::Integer(7),
            f(2.5),
            FormatArgument::String(b"red"),
            FormatArgument::Symbol(b"red"),
            FormatArgument::String(b"abcdef"),
            FormatArgument::Symbol(b"red"),
        ],
    );
    line(&mut output, b"", b"%%:%n:%r:%t:%v", &[]);
    assert_eq!(
        output,
        ORDINARY_DIRECTIVES
    );
    output.clear();
    line(&mut output, b"", b"%4s|%.2s|%.1s", &[FormatArgument::String("é".as_bytes()); 3]);
    assert_eq!(
        output,
        UNICODE_WIDTH_AND_PRECISION
    );
    // Existing raw-byte host contract, not a new CLIPS invocation.
    assert_eq!(
        rendered(
            b"\xff:%.1s:%s",
            &[FormatArgument::String(b"\xc3\xa9"), FormatArgument::InstanceName(b"n\xff")]
        ),
        b"\xff:\xc3:n\xff"
    );
}

#[test]
fn parser_to_renderer_matches_sealed_integer_flags_precision_extrema_and_radices() {
    let mut output = Vec::new();
    for control in [b"%-05d".as_slice(), b"%0-5d", b"%0005d"] {
        for value in [7, -7] {
            line(&mut output, b"", control, &[FormatArgument::Integer(value)]);
        }
    }
    assert_eq!(
        output,
        INTEGER_FLAGS
    );
    output.clear();
    for control in [
        b"%.3d".as_slice(),
        b"%08.3d",
        b"%8.3d",
        b"%-08.3d",
        b"%.0d",
        b"%05.0d",
        b"%.d",
    ] {
        for value in [7, -7, 0] {
            line(&mut output, b"", control, &[FormatArgument::Integer(value)]);
        }
    }
    assert_eq!(
        output,
        INTEGER_PRECISION
    );
    output.clear();
    line(
        &mut output,
        b"",
        b"%022d|%022d|%04d|%04d",
        &[FormatArgument::Integer(i64::MAX), FormatArgument::Integer(i64::MIN), f(7.9), f(-7.9)],
    );
    assert_eq!(
        output,
        INTEGER_BOUNDARIES
    );
    output.clear();
    for (control, value) in [
        (b"%08o|%08x|%08u".as_slice(), 65),
        (b"%08.3o|%08.3x|%08.3u", 65),
        (b"%o|%x|%u", -1),
    ] {
        line(&mut output, b"", control, &[FormatArgument::Integer(value); 3]);
    }
    assert_eq!(
        output,
        RADIX_DIRECTIVES
    );
}

#[test]
fn parsed_character_precision_nul_and_high_bytes_match_sealed_program() {
    let mut output = Vec::new();
    line(
        &mut output,
        b"precision:",
        b"%.0c|%.3c|%4.0c|%-4.3c",
        &[FormatArgument::Integer(65); 4],
    );
    line(&mut output, b"empty:", b"%c|%4c|%-4c:end", &[FormatArgument::String(b""); 3]);
    line(
        &mut output,
        b"zero:",
        b"%c|%4c|%-4c:end",
        &[FormatArgument::Integer(0), FormatArgument::Integer(256), FormatArgument::Integer(0)],
    );
    line(
        &mut output,
        b"bytes:",
        b"%c|%3c|%c|%c",
        &[FormatArgument::String("é".as_bytes()), FormatArgument::String("é".as_bytes()), FormatArgument::Integer(-1), FormatArgument::Integer(255)],
    );
    assert_eq!(
        output,
        CHARACTER_EMPTY_NUL_BYTE_WIDTH_PRECISION
    );
}

#[test]
fn parsed_float_rounding_exponents_and_nonfinite_padding_match_sealed_programs() {
    let mut output = Vec::new();
    line(
        &mut output,
        b"g0:",
        b"%.0g|%.0g|%.0g",
        &[f(1.0), f(9.9), f(-0.0)],
    );
    line(
        &mut output,
        b"g3:",
        b"%.3g|%.3g|%.3g|%.3g",
        &[f(999.4), f(999.5), f(0.000_099_94), f(0.000_099_95)],
    );
    line(
        &mut output,
        b"default:",
        b"%g|%g|%g|%g",
        &[f(999_999.4), f(999_999.5), f(0.0001), f(0.00001)],
    );
    line(
        &mut output,
        b"subnormal:",
        b"%.6g|%g",
        &[f(5e-324), f(f64::MAX)],
    );
    assert_eq!(
        output,
        GENERAL_PRECISION_AND_CUTOVERS
    );
    output.clear();
    line(
        &mut output,
        b"e:",
        b"%e|%.0e|%.2e|%.2e|%.2e",
        &[f(12345.0), f(9.9), f(1e-5), f(1e99), f(1e100)],
    );
    line(&mut output, b"zero:", b"%010.2e|%08.2f", &[f(-0.0); 2]);
    line(
        &mut output,
        b"ties:",
        b"%.0f|%.0f|%.0f|%.0f",
        &[f(2.5), f(3.5), f(-2.5), f(-3.5)],
    );
    line(&mut output, b"subnormal:", b"%.6e", &[f(5e-324)]);
    assert_eq!(
        output,
        SCIENTIFIC_EXPONENT_AND_FIXED_TIES
    );
    output.clear();
    line(
        &mut output,
        b"inf:",
        b"%f|%08f|%-08f|%08e|%08g",
        &[f(f64::INFINITY); 5],
    );
    line(
        &mut output,
        b"negative:",
        b"%08f|%08e|%08g",
        &[f(f64::NEG_INFINITY); 3],
    );
    line(
        &mut output,
        b"nan:",
        b"%f|%08f|%-08f|%08e|%08g",
        &[f(f64::NAN); 5],
    );
    assert_eq!(
        output,
        NONFINITE_FORMAT_PADDING
    );
    // INTEGER -> FLOAT conversion intentionally differs from exact %d.
    assert_eq!(
        rendered(
            b"%d|%.0f",
            &[FormatArgument::Integer(9_007_199_254_740_993); 2]
        ),
        b"9007199254740993|9007199254740992"
    );
}

#[test]
fn scan_and_count_fences_precede_primitive_visitation_and_bounds_preserve_counts() {
    let mut visits = Vec::new();
    assert!(matches!(
        assemble(b"%d:%q", &[], ALLOWED, &mut visits),
        Err(AssemblyError::Invalid(_))
    ));
    assert!(visits.is_empty());
    assert!(matches!(
        assemble(b"%d", &[], ALLOWED, &mut visits),
        Err(AssemblyError::Count(_))
    ));
    assert!(visits.is_empty());
    let control = format!("%{}d", "0".repeat(74));
    assert_eq!(rendered(control.as_bytes(), &[]), control.as_bytes());
    assert!(matches!(
        assemble(
            control.as_bytes(),
            &[FormatArgument::Integer(7)],
            ALLOWED,
            &mut visits
        ),
        Err(AssemblyError::Count(_))
    ));
    assert!(visits.is_empty());
    assert_eq!(
        rendered(b"%12%04d", &[FormatArgument::Integer(7)]),
        b"%120007"
    );
    assert_eq!(rendered(b"raw\0%q", &[]), b"raw");
}

#[test]
fn noncanonical_admission_precedes_the_algorithmic_fallback() {
    for (control, expected) in [
        (b"%5-3d".as_slice(), b"%5-3lld".as_slice()),
        (b"%.2.3d", b"%.2.3lld"),
        (b"%..d", b"%.0.lld"),
        (b"%.-3d", b"%.0-3lld"),
        (b"%1.2-3d", b"%1.2-3lld"),
    ] {
        let plan = scan_format(control).unwrap();
        let FormatPiece::Directive(directive) = &plan.pieces[0] else {
            panic!("directive")
        };
        let mut output = ByteBuffer::new();
        output.push_bytes(b"prefix");
        let error = append_directive(&mut output, directive, FormatArgument::Integer(7), ALLOWED)
            .unwrap_err();
        assert!(matches!(error, DirectiveError::NonCanonical { .. }));
        assert_eq!(output.as_bytes(), b"prefix");
        append_noncanonical(&mut output, directive, ALLOWED).unwrap();
        assert_eq!(&output.as_bytes()[b"prefix".len()..], expected);
        assert_eq!(
            append_directive(
                &mut output,
                directive,
                FormatArgument::String(b"bad"),
                ALLOWED
            ),
            Err(DirectiveError::IntegerArgument(
                IntegerArgumentError::NotNumeric("STRING")
            ))
        );
    }
    let mut visits = Vec::new();
    assert!(matches!(
        assemble(
            b"%2-4f:%d",
            &[f(7.0), FormatArgument::Integer(8)],
            ALLOWED,
            &mut visits
        ),
        Err(AssemblyError::Directive(
            DirectiveError::NonCanonical { .. }
        ))
    ));
    assert_eq!(visits, [0]);
}

#[test]
fn parameter_overflow_and_float_integer_domains_do_not_choose_default_or_severity() {
    let huge = format!("%{}9d", usize::MAX);
    let mut visits = Vec::new();
    assert!(matches!(
        assemble(
            huge.as_bytes(),
            &[FormatArgument::Integer(7)],
            ALLOWED,
            &mut visits
        ),
        Err(AssemblyError::Directive(
            DirectiveError::ParameterOverflow {
                parameter: NumericParameter::Width,
                ..
            }
        ))
    ));
    assert_eq!(visits, [0]);
    for (value, error) in [
        (f64::NAN, IntegerArgumentError::NonFinite),
        (f64::INFINITY, IntegerArgumentError::NonFinite),
        (
            9_223_372_036_854_775_808.0,
            IntegerArgumentError::OutsideSignedRange,
        ),
    ] {
        visits.clear();
        assert_eq!(
            assemble(b"%d", &[f(value)], ALLOWED, &mut visits),
            Err(AssemblyError::Directive(DirectiveError::IntegerArgument(
                error
            )))
        );
        assert_eq!(visits, [0]);
    }
    visits.clear();
    assert_eq!(
        assemble(
            b"%c:%d",
            &[
                FormatArgument::InstanceName(b"x"),
                FormatArgument::Integer(7)
            ],
            ALLOWED,
            &mut visits
        ),
        Err(AssemblyError::Directive(DirectiveError::ByteArgument(
            ByteArgumentError::ExpectedCharacter("INSTANCE-NAME")
        )))
    );
    assert_eq!(visits, [0]);
}

#[test]
fn aggregate_literal_and_directive_limits_preserve_existing_bytes_atomically() {
    let mut output = ByteBuffer::new();
    append_bytes(&mut output, b"abc", 4).unwrap();
    assert_eq!(
        append_bytes(&mut output, b"de", 4),
        Err(OutputLimit {
            required: Some(5),
            allowed: 4
        })
    );
    assert_eq!(output.as_bytes(), b"abc");
    for control in [b"%4d".as_slice(), b"%4f", b"%4s", b"%4c"] {
        let plan = scan_format(control).unwrap();
        let FormatPiece::Directive(d) = &plan.pieces[0] else {
            panic!("directive")
        };
        let value = if control == b"%4s" {
            FormatArgument::String(b"x")
        } else {
            FormatArgument::Integer(7)
        };
        assert!(matches!(
            append_directive(&mut output, d, value, 4),
            Err(DirectiveError::OutputLimit(_))
        ));
        assert_eq!(output.as_bytes(), b"abc");
    }
    // Multiple individually short fields cannot bypass the aggregate allowance.
    let mut visits = Vec::new();
    assert!(matches!(
        assemble(
            b"%02d%02d",
            &[FormatArgument::Integer(7); 2],
            3,
            &mut visits
        ),
        Err(AssemblyError::Directive(DirectiveError::OutputLimit(_)))
    ));
    assert_eq!(visits, [0, 1]);
    assert_eq!(
        rendered(b"before:%-4c:after", &[FormatArgument::Integer(0)]),
        b"before::after"
    );
}
