use ferric_rules_runtime::evaluator::format::{
    checks_evaluation_error, control_prefix_len, limit_error, render_error, saturating_integer,
    FormatAction, FormatError, FormatFailure, FormatSession, Supplied, FORMAT_OUTPUT_LIMIT,
};
use ferric_rules_runtime::formatting::argument::FormatArgument;
use ferric_rules_runtime::formatting::directive::{DirectiveError, FloatOperand};
use ferric_rules_runtime::formatting::float_render::FloatConversion;
use ferric_rules_runtime::formatting::format_parser::{
    scan_format, Conversion, Directive, FormatPiece, OperandCountMismatch,
};
use ferric_rules_runtime::formatting::format_types::OutputLimit;
use ferric_rules_runtime::formatting::integer_bytes::{ByteArgumentError, IntegerArgumentError};

// The evaluator's part: operands are already evaluated, in order, and the
// magnitude of a finite floating operand is formatted with std.
fn run(control: &[u8], values: &[FormatArgument<'_>], allowed: usize) -> Result<Vec<u8>, FormatFailure> {
    let mut session = FormatSession::start(control, values.len(), allowed)?;
    let mut next = 0;
    loop {
        match session.next_step() {
            FormatAction::Appended => {}
            FormatAction::Finished => return Ok(session.output().to_vec()),
            FormatAction::Failed(failure) => return Err(failure),
            FormatAction::Operand(directive) => {
                let value = values[next];
                next += 1;
                if let Supplied::NeedsFloatText(work) = session.supply(&directive, value)? {
                    let magnitude = match work.operand {
                        FloatOperand::Bits(bits) => f64::from_bits(bits).abs(),
                        FloatOperand::Integer(v) => (v as f64).abs(),
                    };
                    let precision = work.precision;
                    let text = match work.conversion {
                        FloatConversion::Fixed => format!("{magnitude:.precision$}"),
                        _ => format!("{magnitude:.precision$e}"),
                    };
                    session.supply_float_text(work, text.as_bytes())?;
                }
            }
        }
    }
}

fn fatal(error: FormatError) -> FormatFailure {
    FormatFailure { error, fatal: true }
}

fn float(value: f64) -> FormatArgument<'static> {
    FormatArgument::Float(value.to_bits())
}

fn only_directive(source: &[u8]) -> Directive<'_> {
    let plan = scan_format(source).unwrap();
    match plan.pieces.into_iter().next().unwrap() {
        FormatPiece::Directive(directive) => directive,
        piece => panic!("expected directive, got {piece:?}"),
    }
}

#[test]
fn session_renders_literals_controls_and_every_conversion_kind() {
    let output = run(
        b"[%d|%s|%5.1f|%c|%x|%%|%e|%g]%n",
        &[
            FormatArgument::Integer(7),
            FormatArgument::Symbol(b"red"),
            float(2.5),
            FormatArgument::String(b"xyz"),
            FormatArgument::Integer(255),
            FormatArgument::Integer(12345),
            float(0.0001),
        ],
        FORMAT_OUTPUT_LIMIT,
    )
    .unwrap();
    assert_eq!(output, b"[7|red|  2.5|x|ff|%|1.234500e+04|0.0001]\n");
}

#[test]
fn control_prefix_is_bounded_before_the_first_nul_only() {
    assert_eq!(control_prefix_len(b"abcdef", 3), 6);
    assert_eq!(control_prefix_len(b"ab\0cdef", 3), 2);
    assert_eq!(control_prefix_len(b"abc", 3), 3);
    assert_eq!(control_prefix_len(b"abcd\0", 3), 5);
    assert_eq!(control_prefix_len(b"", 0), 0);
    assert_eq!(
        run(b"abcdef", &[], 3),
        Err(fatal(FormatError::ControlPrefixTooLong))
    );
    assert_eq!(run(b"ab\0%q%d", &[], 3), Ok(b"ab".to_vec()));
}

#[test]
fn whole_validation_precedes_the_count_check_and_any_operand() {
    assert_eq!(
        run(b"%d %q", &[], FORMAT_OUTPUT_LIMIT),
        Err(fatal(FormatError::InvalidFlag { flag: b'q', offset: 4 }))
    );
    assert_eq!(
        run(b"%d %d", &[FormatArgument::Integer(1)], FORMAT_OUTPUT_LIMIT),
        Err(fatal(FormatError::ArityMismatch(OperandCountMismatch {
            expected: 2,
            actual: 1
        })))
    );
}

#[test]
fn operand_type_failures_keep_their_severity() {
    assert_eq!(
        run(b"%d", &[FormatArgument::String(b"bad")], FORMAT_OUTPUT_LIMIT),
        Err(fatal(FormatError::TypeError {
            expected: "INTEGER or FLOAT",
            actual: "STRING"
        }))
    );
    assert_eq!(
        run(b"%f", &[FormatArgument::Symbol(b"bad")], FORMAT_OUTPUT_LIMIT),
        Err(fatal(FormatError::TypeError {
            expected: "INTEGER or FLOAT",
            actual: "SYMBOL"
        }))
    );
    assert_eq!(
        run(b"%s", &[FormatArgument::Integer(1)], FORMAT_OUTPUT_LIMIT),
        Err(fatal(FormatError::TypeError {
            expected: "STRING, SYMBOL, or INSTANCE-NAME",
            actual: "INTEGER"
        }))
    );
    assert_eq!(
        run(b"%c", &[float(1.5)], FORMAT_OUTPUT_LIMIT),
        Err(FormatFailure {
            error: FormatError::TypeError {
                expected: "INTEGER, STRING, or SYMBOL",
                actual: "FLOAT"
            },
            fatal: false
        })
    );
    assert_eq!(
        run(b"%d", &[float(f64::NAN)], FORMAT_OUTPUT_LIMIT),
        Err(fatal(FormatError::UnnormalizedInteger))
    );
}

#[test]
fn parameter_overflow_is_reported_after_admission() {
    let control = format!("%{}9d", usize::MAX);
    assert_eq!(
        run(control.as_bytes(), &[FormatArgument::Integer(1)], FORMAT_OUTPUT_LIMIT),
        Err(fatal(FormatError::ParameterOverflow))
    );
    assert_eq!(
        run(control.as_bytes(), &[FormatArgument::String(b"x")], FORMAT_OUTPUT_LIMIT),
        Err(fatal(FormatError::TypeError {
            expected: "INTEGER or FLOAT",
            actual: "STRING"
        }))
    );
}

#[test]
fn noncanonical_fallback_follows_admission_and_counts_toward_the_limit() {
    assert_eq!(
        run(b"<%..d>", &[FormatArgument::Integer(7)], FORMAT_OUTPUT_LIMIT),
        Ok(b"<%.0.lld>".to_vec())
    );
    assert_eq!(
        run(b"<%..d>", &[FormatArgument::Integer(7)], 8),
        Err(fatal(FormatError::OutputLimit { allowed: 8 }))
    );
    let mut invalid = only_directive(b"%..d");
    invalid.range.start = usize::MAX;
    let mut session = FormatSession::start(b"%s", 1, FORMAT_OUTPUT_LIMIT).unwrap();
    assert_eq!(
        session.supply(&invalid, FormatArgument::Integer(7)),
        Err(fatal(FormatError::InconsistentNonCanonical))
    );
    assert!(session.output().is_empty());
}

#[test]
fn output_limit_is_aggregate_and_names_the_allowance() {
    assert_eq!(run(b"abc", &[], 3), Ok(b"abc".to_vec()));
    assert_eq!(
        run(b"abcd%%", &[], 4),
        Err(fatal(FormatError::ControlPrefixTooLong))
    );
    assert_eq!(
        run(b"%5d%%", &[FormatArgument::Integer(1)], 5),
        Err(fatal(FormatError::OutputLimit { allowed: 5 }))
    );
    assert_eq!(
        run(b"ab%5d", &[FormatArgument::Integer(1)], 6),
        Err(fatal(FormatError::OutputLimit { allowed: 6 }))
    );
    assert_eq!(
        run(b"ab%5d", &[FormatArgument::Integer(1)], 7),
        Ok(b"ab    1".to_vec())
    );
    assert_eq!(
        run(b"%.2f", &[float(1e300)], 20),
        Err(fatal(FormatError::OutputLimit { allowed: 20 }))
    );
}

#[test]
fn nonfinite_floats_are_rendered_without_the_formatter() {
    let directive = only_directive(b"%5f");
    let mut session = FormatSession::start(b"%5f", 1, FORMAT_OUTPUT_LIMIT).unwrap();
    assert_eq!(
        session.supply(&directive, float(f64::NEG_INFINITY)),
        Ok(Supplied::Appended)
    );
    assert_eq!(session.output(), b" -inf");
    let work = match session.supply(&directive, FormatArgument::Integer(-3)) {
        Ok(Supplied::NeedsFloatText(work)) => work,
        other => panic!("expected float work, got {other:?}"),
    };
    assert_eq!(work.operand, FloatOperand::Integer(-3));
    assert_eq!(work.conversion, FloatConversion::Fixed);
    assert_eq!(work.precision, 6);
    assert!(work.negative);
    session.supply_float_text(work, b"3.000000").unwrap();
    assert_eq!(session.into_output().as_bytes(), b" -inf-3.000000");
}

#[test]
fn session_steps_one_piece_at_a_time() {
    let mut session = FormatSession::start(b"a%nb%d", 1, FORMAT_OUTPUT_LIMIT).unwrap();
    assert!(matches!(session.next_step(), FormatAction::Appended));
    assert_eq!(session.output(), b"a");
    assert!(matches!(session.next_step(), FormatAction::Appended));
    assert_eq!(session.output(), b"a\n");
    assert!(matches!(session.next_step(), FormatAction::Appended));
    let directive = match session.next_step() {
        FormatAction::Operand(directive) => directive,
        other => panic!("expected an operand request, got {other:?}"),
    };
    assert_eq!(directive.conversion, Conversion::Decimal);
    assert_eq!(directive.range, 4..6);
    assert_eq!(
        session.supply(&directive, FormatArgument::Integer(-12)),
        Ok(Supplied::Appended)
    );
    assert!(matches!(session.next_step(), FormatAction::Finished));
    assert!(matches!(session.next_step(), FormatAction::Finished));
    assert_eq!(session.output(), b"a\nb-12");
}

#[test]
fn render_error_maps_every_directive_error() {
    assert_eq!(
        render_error(&DirectiveError::IntegerArgument(IntegerArgumentError::NonFinite)),
        fatal(FormatError::UnnormalizedInteger)
    );
    assert_eq!(
        render_error(&DirectiveError::IntegerArgument(
            IntegerArgumentError::OutsideSignedRange
        )),
        fatal(FormatError::UnnormalizedInteger)
    );
    assert_eq!(
        render_error(&DirectiveError::NonCanonical {
            range: 0..4,
            offset: 2,
            byte: b'.'
        }),
        fatal(FormatError::UnhandledNonCanonical)
    );
    assert_eq!(
        render_error(&DirectiveError::ByteArgument(ByteArgumentError::ExpectedLexeme(
            "FLOAT"
        ))),
        fatal(FormatError::TypeError {
            expected: "STRING, SYMBOL, or INSTANCE-NAME",
            actual: "FLOAT"
        })
    );
    assert_eq!(
        render_error(&DirectiveError::ExpectedNumeric("MULTIFIELD")),
        fatal(FormatError::TypeError {
            expected: "INTEGER or FLOAT",
            actual: "MULTIFIELD"
        })
    );
    assert_eq!(
        render_error(&DirectiveError::OutputLimit(OutputLimit {
            required: None,
            allowed: 9
        })),
        fatal(FormatError::OutputLimit { allowed: 9 })
    );
    assert_eq!(
        limit_error(OutputLimit {
            required: Some(12),
            allowed: 10
        }),
        FormatError::OutputLimit { allowed: 10 }
    );
}

#[test]
fn float_operands_of_integer_conversions_saturate() {
    assert_eq!(saturating_integer(7.9f64.to_bits()), 7);
    assert_eq!(saturating_integer((-7.9f64).to_bits()), -7);
    assert_eq!(saturating_integer(f64::NAN.to_bits()), 0);
    assert_eq!(saturating_integer(f64::INFINITY.to_bits()), i64::MAX);
    assert_eq!(saturating_integer(f64::NEG_INFINITY.to_bits()), i64::MIN);
    assert_eq!(saturating_integer(1e300f64.to_bits()), i64::MAX);
    assert_eq!(saturating_integer((-1e300f64).to_bits()), i64::MIN);
    assert_eq!(saturating_integer((-9_223_372_036_854_775_808.0f64).to_bits()), i64::MIN);
    for value in [0.0, -0.0, 1.0, -1.5, 123_456.75, 9.2e18, -9.2e18, f64::NAN, f64::INFINITY] {
        assert_eq!(saturating_integer(f64::to_bits(value)), value as i64, "{value}");
    }
}

#[test]
fn only_character_directives_skip_the_inherited_error_gate() {
    assert!(!checks_evaluation_error(Conversion::Character));
    for conversion in [
        Conversion::Decimal,
        Conversion::Octal,
        Conversion::Hex,
        Conversion::Unsigned,
        Conversion::Fixed,
        Conversion::Scientific,
        Conversion::General,
        Conversion::Lexeme,
    ] {
        assert!(checks_evaluation_error(conversion));
    }
}

#[test]
fn session_output_never_exceeds_the_allowance() {
    let values = [FormatArgument::Integer(123_456), FormatArgument::String(b"abcdef")];
    for allowed in 0..24 {
        match run(b"xy%8d|%-9s", &values, allowed) {
            Ok(output) => {
                assert!(output.len() <= allowed);
                assert_eq!(output, b"xy  123456|abcdef   ");
            }
            Err(failure) if allowed < 10 => {
                assert_eq!(failure, fatal(FormatError::ControlPrefixTooLong))
            }
            Err(failure) => assert_eq!(failure, fatal(FormatError::OutputLimit { allowed })),
        }
    }
}
