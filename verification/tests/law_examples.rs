use ferric_rules_runtime::byte_buffer::ByteBuffer;
use ferric_rules_runtime::field_scanner::{FieldScanner, FieldToken, ScanPolicy, SourceKind};
use ferric_rules_runtime::formatting::format_parser::{scan_format, validate_format, FormatPiece};
use ferric_rules_runtime::formatting::format_types::FormatSpec;
use ferric_rules_runtime::formatting::integer_bytes::{render_integer, render_lexeme, IntegerConversion};

fn spec(width: usize, zero_pad: bool, left_align: bool, precision: Option<usize>) -> FormatSpec {
    FormatSpec {
        left_align,
        zero_pad,
        width,
        precision,
    }
}

#[test]
fn conversion_count_is_the_number_of_directive_pieces() {
    for source in [
        b"".as_slice(),
        b"plain",
        b"%d%s%%%n%5.2f",
        b"%..d:%-05x:%",
        b"%%%c%c\0%d",
        b"%12%04d",
    ] {
        let plan = scan_format(source).unwrap();
        let directives = plan
            .pieces
            .iter()
            .filter(|piece| matches!(piece, FormatPiece::Directive(_)))
            .count();
        assert_eq!(plan.conversion_count, directives, "{source:?}");
        let validated = validate_format(source).unwrap();
        assert_eq!(validated.conversion_count, directives);
        let mut next = 0;
        for piece in &plan.pieces {
            let range = match piece {
                FormatPiece::Literal { range, .. } | FormatPiece::Control { range, .. } => range,
                FormatPiece::Directive(directive) => &directive.range,
            };
            assert_eq!(range.start, next);
            assert!(range.end > range.start);
            next = range.end;
        }
        assert_eq!(next, plan.effective_len);
    }
}

#[test]
fn lexeme_fields_ignore_the_zero_flag_and_keep_their_bytes() {
    for (bytes, width, precision) in [
        (b"red".as_slice(), 6, None),
        (b"abcdef", 0, Some(3)),
        (b"ab\0cd", 4, None),
        (b"\xc3\xa9", 1, Some(1)),
    ] {
        let mut plain = ByteBuffer::new();
        render_lexeme(&mut plain, bytes, spec(width, false, false, precision), 64).unwrap();
        let mut zero = ByteBuffer::new();
        render_lexeme(&mut zero, bytes, spec(width, true, false, precision), 64).unwrap();
        assert_eq!(plain.as_bytes(), zero.as_bytes());
        assert!(!plain.as_bytes().contains(&b'0'));
        assert_eq!(plain.as_bytes().len(), width.max(plain.as_bytes().trim_ascii_start().len()));
    }
}

#[test]
fn integer_fields_are_never_narrower_than_their_width_or_body() {
    for (value, width) in [(0, 0), (7, 5), (-7, 1), (i64::MIN, 3), (i64::MAX, 25)] {
        for conversion in [
            IntegerConversion::Decimal,
            IntegerConversion::Octal,
            IntegerConversion::Hex,
            IntegerConversion::Unsigned,
        ] {
            let mut out = ByteBuffer::new();
            render_integer(&mut out, conversion, value, spec(width, false, false, None), 128).unwrap();
            let body = match conversion {
                IntegerConversion::Decimal => value.to_string(),
                IntegerConversion::Octal => format!("{:o}", value as u64),
                IntegerConversion::Hex => format!("{:x}", value as u64),
                IntegerConversion::Unsigned => (value as u64).to_string(),
            };
            assert_eq!(out.as_bytes().len(), width.max(body.len()));
            assert!(out.as_bytes().ends_with(body.as_bytes()));
        }
    }
}

#[test]
fn the_scanner_cursor_only_moves_forward_to_the_end() {
    let input = b" a ?x $?y \"s\\\"\" 1e5 [n] (~|&) ; c\n\x0b\x03\0rest";
    let mut scanner = FieldScanner::new(
        input,
        ScanPolicy {
            source: SourceKind::ByteStream,
            report_incomplete_string: true,
        },
    );
    let mut last = scanner.position();
    loop {
        let field = scanner.next_token();
        assert!(field.source_range.start >= last);
        assert!(field.next_offset >= field.source_range.start);
        assert_eq!(field.next_offset, scanner.position());
        assert!(scanner.position() <= input.len());
        if field.token == FieldToken::Stop(ferric_rules_runtime::field_scanner::StopReason::EndOfInput) {
            assert_eq!(field.next_offset, input.len());
            break;
        }
        assert!(field.next_offset > last);
        last = field.next_offset;
    }
}
