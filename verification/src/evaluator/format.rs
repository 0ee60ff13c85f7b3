//! Decisions of the byte-preserving CLIPS-style `format` builtin.
//!
//! A `FormatSession` holds the validated control string and the output
//! built so far. The evaluator drives it: it evaluates each operand when the
//! session asks for one and hands the value back, formats the magnitude of a
//! finite floating operand when asked, and turns a failure into its
//! diagnostic. The evaluator also owns operand effects, the Error/Halt flags
//! and the final STRING encoding; the router expression is evaluated but the
//! result is returned, not written to a router.

use crate::byte_buffer::ByteBuffer;
use crate::formatting::argument::{argument_kind_name, FormatArgument};
use crate::formatting::directive::{
    append_prepared, prepare_directive, prepared_field, spec_prepare_directive, DirectiveError,
    FloatOperand, PreparedArgument,
};
use crate::formatting::float_render::{
    float_precision, float_text_ok, render_float_text, spec_float_precision, spec_render_float,
    FloatConversion, FloatText,
};
use crate::formatting::format_parser::{
    control_prefix, first_nul_from, lemma_control_prefix_nul_free, lemma_first_nul_bounds, piece_matches, scan_outcome, scan_step,
    step_end, validate_format, Conversion, Directive, FormatPiece, FormatPieces,
    OperandCountMismatch, ScanOutcome, ScanStep,
};
use crate::formatting::format_types::{FormatSpec, OutputLimit};
use crate::formatting::integer_bytes::{
    float_exponent, float_fraction, float_negative, lemma_pow2_facts, spec_integer_argument,
    ByteArgumentError, IntegerArgumentError,
};
use crate::formatting::noncanonical::{
    append_noncanonical, noncanonical_descriptor_ok, noncanonical_spelling, NonCanonicalError,
};
use vstd::prelude::*;
use vstd::slice::slice_subrange;

verus! {

/// The per-call bound on the control prefix and on the formatted output: a
/// defense against user-controlled width and precision expansion.
pub const FORMAT_OUTPUT_LIMIT: usize = 16777216;

/// Why `format` failed, before the evaluator words its diagnostic.
#[derive(Clone, Copy, Debug, PartialEq, Eq)]
pub enum FormatError {
    /// `format` takes a router and a control string at least; this many
    /// arguments were given.
    TooFewArguments { actual: usize },
    /// An operand of the wrong type: what was expected, and what was given.
    TypeError { expected: &'static str, actual: &'static str },
    /// The directives and the data operands disagree in number.
    ArityMismatch(OperandCountMismatch),
    /// The control prefix exceeds the per-call format limit.
    ControlPrefixTooLong,
    /// An invalid format flag byte at an offset of the control string.
    InvalidFlag { flag: u8, offset: usize },
    /// The formatted output exceeds the per-call limit.
    OutputLimit { allowed: usize },
    /// A width or precision exceeds the supported size.
    ParameterOverflow,
    /// An integer operand was not normalized.
    UnnormalizedInteger,
    /// A noncanonical fragment was not handled.
    UnhandledNonCanonical,
    /// An inconsistent noncanonical format descriptor.
    InconsistentNonCanonical,
}

/// A failure and whether it is fatal: a fatal failure sets both the Error
/// and Halt flags, the other only reports a diagnostic. Either way `format`
/// returns the empty STRING.
#[derive(Clone, Copy, Debug, PartialEq, Eq)]
pub struct FormatFailure {
    pub error: FormatError,
    pub fatal: bool,
}

pub open spec fn fatal(error: FormatError) -> FormatFailure {
    FormatFailure { error, fatal: true }
}

/// The arity check that precedes every other step of `format`: it needs
/// at least its router and control-string arguments.
pub fn check_format_arity(argument_count: usize) -> (checked: Result<(), FormatFailure>)
    ensures
        argument_count >= 2 ==> checked is Ok,
        argument_count < 2 ==> checked == Err::<(), FormatFailure>(
            fatal(FormatError::TooFewArguments { actual: argument_count }),
        ),
{
    if argument_count < 2 {
        Err(FormatFailure { error: FormatError::TooFewArguments { actual: argument_count }, fatal: true })
    } else {
        Ok(())
    }
}

/// The bytes of the control operand, which must be a STRING.
pub fn control_bytes<'a>(control: FormatArgument<'a>) -> (bytes: Result<&'a [u8], FormatFailure>)
    ensures
        match control {
            FormatArgument::String(text) => bytes == Ok::<&'a [u8], FormatFailure>(text),
            _ => bytes == Err::<&'a [u8], FormatFailure>(
                fatal(FormatError::TypeError { expected: "STRING", actual: argument_kind_name(control) }),
            ),
        },
{
    match control {
        FormatArgument::String(text) => Ok(text),
        _ => Err(FormatFailure {
            error: FormatError::TypeError { expected: "STRING", actual: control.kind_name() },
            fatal: true,
        }),
    }
}

/// The failure for a directive that could not be appended. A bad `%c`
/// operand type is only a warning.
pub open spec fn spec_render_error(error: DirectiveError) -> FormatFailure {
    match error {
        DirectiveError::IntegerArgument(IntegerArgumentError::NotNumeric(actual)) => fatal(
            FormatError::TypeError { expected: "INTEGER or FLOAT", actual },
        ),
        DirectiveError::ExpectedNumeric(actual) => fatal(
            FormatError::TypeError { expected: "INTEGER or FLOAT", actual },
        ),
        DirectiveError::ByteArgument(ByteArgumentError::ExpectedLexeme(actual)) => fatal(
            FormatError::TypeError { expected: "STRING, SYMBOL, or INSTANCE-NAME", actual },
        ),
        DirectiveError::ByteArgument(ByteArgumentError::ExpectedCharacter(actual)) => FormatFailure {
            error: FormatError::TypeError { expected: "INTEGER, STRING, or SYMBOL", actual },
            fatal: false,
        },
        DirectiveError::OutputLimit(limit) => fatal(FormatError::OutputLimit { allowed: limit.allowed }),
        DirectiveError::ParameterOverflow { .. } => fatal(FormatError::ParameterOverflow),
        DirectiveError::IntegerArgument(_) => fatal(FormatError::UnnormalizedInteger),
        DirectiveError::NonCanonical { .. } => fatal(FormatError::UnhandledNonCanonical),
    }
}

/// The failure for a directive that could not be appended.
pub fn render_error(error: &DirectiveError) -> (failure: FormatFailure)
    ensures
        failure == spec_render_error(*error),
{
    match error {
        DirectiveError::IntegerArgument(IntegerArgumentError::NotNumeric(actual)) => FormatFailure {
            error: FormatError::TypeError { expected: "INTEGER or FLOAT", actual },
            fatal: true,
        },
        DirectiveError::ExpectedNumeric(actual) => FormatFailure {
            error: FormatError::TypeError { expected: "INTEGER or FLOAT", actual },
            fatal: true,
        },
        DirectiveError::ByteArgument(ByteArgumentError::ExpectedLexeme(actual)) => FormatFailure {
            error: FormatError::TypeError { expected: "STRING, SYMBOL, or INSTANCE-NAME", actual },
            fatal: true,
        },
        DirectiveError::ByteArgument(ByteArgumentError::ExpectedCharacter(actual)) => FormatFailure {
            error: FormatError::TypeError { expected: "INTEGER, STRING, or SYMBOL", actual },
            fatal: false,
        },
        DirectiveError::OutputLimit(limit) => FormatFailure { error: limit_error(*limit), fatal: true },
        DirectiveError::ParameterOverflow { .. } => FormatFailure {
            error: FormatError::ParameterOverflow,
            fatal: true,
        },
        DirectiveError::IntegerArgument(_) => FormatFailure {
            error: FormatError::UnnormalizedInteger,
            fatal: true,
        },
        DirectiveError::NonCanonical { .. } => FormatFailure {
            error: FormatError::UnhandledNonCanonical,
            fatal: true,
        },
    }
}

/// The output-limit failure, which names the per-call allowance.
pub fn limit_error(limit: OutputLimit) -> (error: FormatError)
    ensures
        error == (FormatError::OutputLimit { allowed: limit.allowed }),
{
    FormatError::OutputLimit { allowed: limit.allowed }
}

/// Where the control prefix ends: at the first NUL when that is within the
/// allowance, else at the end of the bytes. Bytes after the first NUL count
/// toward neither the bound nor the format.
pub open spec fn spec_control_prefix_len(bytes: Seq<u8>, allowed: usize) -> int {
    if first_nul_from(bytes, 0) <= allowed {
        first_nul_from(bytes, 0)
    } else {
        bytes.len() as int
    }
}

/// The length of the control prefix, looking at no more than `allowed + 1`
/// bytes for its NUL.
pub fn control_prefix_len(bytes: &[u8], allowed: usize) -> (len: usize)
    ensures
        len == spec_control_prefix_len(bytes@, allowed),
        len <= bytes@.len(),
{
    let bound: usize = if allowed < usize::MAX {
        allowed + 1
    } else {
        usize::MAX
    };
    let mut k: usize = 0;
    while k < bytes.len() && k < bound && bytes[k] != 0u8
        invariant
            k <= bytes@.len(),
            k <= bound,
            bound == (if allowed < usize::MAX {
                allowed + 1
            } else {
                usize::MAX as int
            }),
            first_nul_from(bytes@, k as int) == first_nul_from(bytes@, 0),
        decreases bytes@.len() - k,
    {
        k += 1;
    }
    proof {
        lemma_first_nul_bounds(bytes@, k as int);
        lemma_first_nul_bounds(bytes@, 0);
    }
    if k < bytes.len() && k < bound {
        k
    } else {
        bytes.len()
    }
}

/// Whether an operand is subject to the inherited-Error gate: numeric and
/// `%s` directives check the Error flag after evaluating their operand, while
/// `%c` inspects the value it was given even under Error or Halt.
pub fn checks_evaluation_error(conversion: Conversion) -> (checks: bool)
    ensures
        checks == !(conversion is Character),
{
    match conversion {
        Conversion::Character => false,
        _ => true,
    }
}

/// The value of a FLOAT operand of an integer conversion under the saturating
/// cast policy: finite fractions truncate, overflow and infinities saturate,
/// NaN is zero.
pub open spec fn spec_saturating_integer(bits: u64) -> i64 {
    match spec_integer_argument(FormatArgument::Float(bits)) {
        Ok(v) => v,
        Err(_) => if float_exponent(bits) == 2047 && float_fraction(bits) != 0 {
            0
        } else if float_negative(bits) {
            i64::MIN
        } else {
            i64::MAX
        },
    }
}

/// The INTEGER argument for a FLOAT operand of `d`, `o`, `x` or `u`.
pub fn saturating_integer(bits: u64) -> (value: i64)
    ensures
        value == spec_saturating_integer(bits),
{
    proof {
        lemma_pow2_facts();
    }
    match crate::formatting::integer_bytes::integer_argument(FormatArgument::Float(bits)) {
        Ok(v) => v,
        Err(_) => {
            let exponent = (bits / 0x10_0000_0000_0000) % 2048;
            let fraction = bits % 0x10_0000_0000_0000;
            if exponent == 2047 && fraction != 0 {
                0
            } else if bits >= 0x8000_0000_0000_0000 {
                i64::MIN
            } else {
                i64::MAX
            }
        },
    }
}

/// Whether a floating operand's sign is negative (`-0.0` and a NaN with its
/// sign bit set included).
pub open spec fn operand_negative(operand: FloatOperand) -> bool {
    match operand {
        FloatOperand::Bits(bits) => float_negative(bits),
        FloatOperand::Integer(v) => v < 0,
    }
}

/// The text of a nonfinite floating operand; none for a finite one.
pub open spec fn nonfinite_text(operand: FloatOperand) -> Option<FloatText<'static>> {
    match operand {
        FloatOperand::Bits(bits) => if float_exponent(bits) == 2047 {
            if float_fraction(bits) != 0 {
                Some(FloatText::NotANumber)
            } else {
                Some(FloatText::Infinite)
            }
        } else {
            None
        },
        FloatOperand::Integer(_) => None,
    }
}

/// The sign of a floating operand and, if it is not finite, its text.
fn classify_operand(operand: FloatOperand) -> (result: (bool, Option<FloatText<'static>>))
    ensures
        result.0 == operand_negative(operand),
        result.1 == nonfinite_text(operand),
{
    proof {
        lemma_pow2_facts();
    }
    match operand {
        FloatOperand::Bits(bits) => {
            let exponent = (bits / 0x10_0000_0000_0000) % 2048;
            let fraction = bits % 0x10_0000_0000_0000;
            let negative = bits >= 0x8000_0000_0000_0000;
            let text = if exponent == 2047 {
                if fraction != 0 {
                    Some(FloatText::NotANumber)
                } else {
                    Some(FloatText::Infinite)
                }
            } else {
                None
            };
            (negative, text)
        },
        FloatOperand::Integer(v) => (v < 0, None),
    }
}

/// The magnitude of a finite floating operand to be formatted, and how its
/// text will be laid out.
#[derive(Clone, Copy, Debug, PartialEq, Eq)]
pub struct FloatWork {
    /// The operand; an INTEGER converts to double as CLIPS does.
    pub operand: FloatOperand,
    pub conversion: FloatConversion,
    /// Digits after the point for `f`, after the first digit for `e` and `g`.
    pub precision: usize,
    /// Whether the field carries a minus sign.
    pub negative: bool,
    pub spec: FormatSpec,
}

/// What a supplied operand did.
#[derive(Clone, Copy, Debug, PartialEq, Eq)]
pub enum Supplied {
    /// Its field was appended.
    Appended,
    /// Its field needs the text of a finite magnitude: format it, then call
    /// `supply_float_text`.
    NeedsFloatText(FloatWork),
}

/// The outcome of supplying an operand, by value.
pub enum SupplyOutcome {
    Appended(Seq<u8>),
    Float { operand: FloatOperand, conversion: FloatConversion, precision: usize, negative: bool, spec: FormatSpec },
    Failed(FormatFailure),
}

/// What supplying `argument` for `directive` does after `existing` bytes of
/// output: admission first, then the canonical instruction, with the
/// deterministic fallback for a noncanonical one.
pub open spec fn spec_supply(existing: int, directive: Directive<'_>, argument: FormatArgument<'_>, allowed: usize) -> SupplyOutcome {
    let limit = fatal(FormatError::OutputLimit { allowed });
    match spec_prepare_directive(directive, argument) {
        Err(DirectiveError::NonCanonical { .. }) => if !noncanonical_descriptor_ok(directive) {
            SupplyOutcome::Failed(fatal(FormatError::InconsistentNonCanonical))
        } else if existing + noncanonical_spelling(directive).len() <= allowed {
            SupplyOutcome::Appended(noncanonical_spelling(directive))
        } else {
            SupplyOutcome::Failed(limit)
        },
        Err(e) => SupplyOutcome::Failed(spec_render_error(e)),
        Ok((prepared, spec)) => match prepared {
            PreparedArgument::Float(conversion, operand) => {
                let negative = operand_negative(operand);
                match nonfinite_text(operand) {
                    Some(text) => match spec_render_float(existing, negative, text, conversion, spec, allowed) {
                        Ok(field) => SupplyOutcome::Appended(field),
                        Err(_) => SupplyOutcome::Failed(limit),
                    },
                    None => match spec_float_precision(existing, negative, conversion, spec, allowed) {
                        Ok(precision) => SupplyOutcome::Float { operand, conversion, precision, negative, spec },
                        Err(_) => SupplyOutcome::Failed(limit),
                    },
                }
            },
            _ => if existing + prepared_field(prepared, spec).len() <= allowed {
                SupplyOutcome::Appended(prepared_field(prepared, spec))
            } else {
                SupplyOutcome::Failed(limit)
            },
        },
    }
}

/// The bytes a literal or control step appends.
pub open spec fn step_output(s: Seq<u8>, start: int, step: ScanStep) -> Seq<u8> {
    match step {
        ScanStep::Literal { end, .. } => s.subrange(start, end),
        ScanStep::Control { byte, .. } => seq![byte],
        _ => Seq::empty(),
    }
}

/// What the session asks of the evaluator after one step.
#[derive(Debug)]
pub enum FormatAction<'a> {
    /// A literal or control piece was appended.
    Appended,
    /// Evaluate the next operand, then hand it to `supply` with this
    /// directive.
    Operand(Directive<'a>),
    /// Every piece is rendered; the output is the result.
    Finished,
    Failed(FormatFailure),
}

/// One call of `format`: the validated control prefix, the output so far and
/// the per-call allowance.
#[derive(Debug)]
pub struct FormatSession<'a> {
    pieces: FormatPieces<'a>,
    output: ByteBuffer,
    allowed: usize,
}

impl<'a> FormatSession<'a> {
    /// The validated control prefix.
    pub closed spec fn source_view(self) -> Seq<u8> {
        self.pieces.source_view()
    }

    /// The offset of the next piece.
    pub closed spec fn position_view(self) -> int {
        self.pieces.position_view()
    }

    /// The output built so far.
    pub closed spec fn output_view(self) -> Seq<u8> {
        self.output@
    }

    pub closed spec fn allowed_view(self) -> usize {
        self.allowed
    }

    /// Validate the control string for `operand_count` data operands, before
    /// any of them is evaluated: bound the prefix before its first NUL, scan
    /// it whole, then compare counts.
    pub fn start(control: &'a [u8], operand_count: usize, allowed: usize) -> (result: Result<
        Self,
        FormatFailure,
    >)
        ensures
            ({
                let n = first_nul_from(control@, 0);
                let s = control_prefix(control@);
                if n > allowed {
                    result == Err::<Self, FormatFailure>(fatal(FormatError::ControlPrefixTooLong))
                } else {
                    match scan_outcome(s, 0) {
                        ScanOutcome::Invalid { flag_offset, .. } => result == Err::<Self, FormatFailure>(
                            fatal(FormatError::InvalidFlag { flag: s[flag_offset], offset: flag_offset as usize }),
                        ),
                        ScanOutcome::Valid { count } => if count == operand_count {
                            result matches Ok(session) && session.source_view() == s
                                && session.position_view() == 0 && session.output_view()
                                == Seq::<u8>::empty() && session.allowed_view() == allowed
                        } else {
                            result == Err::<Self, FormatFailure>(
                                fatal(
                                    FormatError::ArityMismatch(
                                        OperandCountMismatch { expected: count as usize, actual: operand_count },
                                    ),
                                ),
                            )
                        },
                    }
                }
            }),
    {
        let prefix_len = control_prefix_len(control, allowed);
        if prefix_len > allowed {
            return Err(FormatFailure { error: FormatError::ControlPrefixTooLong, fatal: true });
        }
        let prefix = slice_subrange(control, 0, prefix_len);
        proof {
            lemma_first_nul_bounds(control@, 0);
            lemma_control_prefix_nul_free(control@, 0);
            assert(prefix@ =~= control_prefix(control@));
            assert(control_prefix(prefix@) =~= prefix@);
        }
        let plan = match validate_format(prefix) {
            Ok(plan) => plan,
            Err(error) => {
                return Err(
                    FormatFailure {
                        error: FormatError::InvalidFlag { flag: error.flag, offset: error.flag_offset },
                        fatal: true,
                    },
                );
            },
        };
        match plan.check_operand_count(operand_count) {
            Ok(()) => {},
            Err(mismatch) => {
                return Err(FormatFailure { error: FormatError::ArityMismatch(mismatch), fatal: true });
            },
        }
        Ok(FormatSession { pieces: plan.pieces(), output: ByteBuffer::new(), allowed })
    }

    /// Render the next literal or control piece, or ask for the next operand.
    pub fn next_step(&mut self) -> (action: FormatAction<'a>)
        ensures
            final(self).source_view() == old(self).source_view(),
            final(self).allowed_view() == old(self).allowed_view(),
            ({
                let s = old(self).source_view();
                let p = old(self).position_view();
                if p >= s.len() {
                    &&& action is Finished
                    &&& final(self).position_view() == p
                    &&& final(self).output_view() == old(self).output_view()
                } else {
                    let step = scan_step(s, p);
                    let bytes = step_output(s, p, step);
                    &&& final(self).position_view() == step_end(s, step)
                    &&& if step is Directive {
                        &&& action matches FormatAction::Operand(d)
                        &&& piece_matches(FormatPiece::Directive(d), s, p, step)
                        &&& final(self).output_view() == old(self).output_view()
                    } else if old(self).output_view().len() + bytes.len() <= old(self).allowed_view() {
                        &&& action is Appended
                        &&& final(self).output_view() == old(self).output_view() + bytes
                    } else {
                        &&& action matches FormatAction::Failed(f)
                        &&& f == fatal(FormatError::OutputLimit { allowed: old(self).allowed_view() })
                        &&& final(self).output_view() == old(self).output_view()
                    }
                }
            }),
    {
        match self.pieces.next() {
            None => FormatAction::Finished,
            Some(FormatPiece::Directive(directive)) => FormatAction::Operand(directive),
            Some(FormatPiece::Literal { bytes, .. }) => {
                match crate::formatting::directive::append_bytes(&mut self.output, bytes, self.allowed) {
                    Ok(()) => FormatAction::Appended,
                    Err(limit) => FormatAction::Failed(FormatFailure { error: limit_error(limit), fatal: true }),
                }
            },
            Some(FormatPiece::Control { byte, .. }) => {
                let one = [byte];
                match crate::formatting::directive::append_bytes(&mut self.output, &one, self.allowed) {
                    Ok(()) => FormatAction::Appended,
                    Err(limit) => FormatAction::Failed(FormatFailure { error: limit_error(limit), fatal: true }),
                }
            },
        }
    }

    /// Append the field of an evaluated operand for its directive. On failure
    /// the output is unchanged.
    pub fn supply(&mut self, directive: &Directive<'a>, argument: FormatArgument<'_>) -> (result: Result<
        Supplied,
        FormatFailure,
    >)
        ensures
            final(self).source_view() == old(self).source_view(),
            final(self).position_view() == old(self).position_view(),
            final(self).allowed_view() == old(self).allowed_view(),
            match spec_supply(old(self).output_view().len() as int, *directive, argument, old(self).allowed_view()) {
                SupplyOutcome::Appended(bytes) => result == Ok::<Supplied, FormatFailure>(Supplied::Appended)
                    && final(self).output_view() == old(self).output_view() + bytes,
                SupplyOutcome::Float { operand, conversion, precision, negative, spec } => {
                    &&& result matches Ok(Supplied::NeedsFloatText(work))
                    &&& work.operand == operand && work.conversion == conversion && work.precision == precision
                    &&& work.negative == negative && work.spec == spec
                    &&& final(self).output_view() == old(self).output_view()
                },
                SupplyOutcome::Failed(f) => result == Err::<Supplied, FormatFailure>(f)
                    && final(self).output_view() == old(self).output_view(),
            },
    {
        let allowed = self.allowed;
        let (prepared, spec) = match prepare_directive(directive, argument) {
            Ok(prepared) => prepared,
            Err(DirectiveError::NonCanonical { .. }) => {
                return match append_noncanonical(&mut self.output, directive, allowed) {
                    Ok(()) => Ok(Supplied::Appended),
                    Err(NonCanonicalError::OutputLimit(limit)) => Err(
                        FormatFailure { error: limit_error(limit), fatal: true },
                    ),
                    Err(_) => Err(FormatFailure { error: FormatError::InconsistentNonCanonical, fatal: true }),
                };
            },
            Err(error) => {
                return Err(render_error(&error));
            },
        };
        match prepared {
            PreparedArgument::Float(conversion, operand) => {
                let (negative, nonfinite) = classify_operand(operand);
                match nonfinite {
                    Some(text) => match render_float_text(&mut self.output, negative, text, conversion, spec, allowed) {
                        Ok(()) => Ok(Supplied::Appended),
                        Err(limit) => Err(FormatFailure { error: limit_error(limit), fatal: true }),
                    },
                    None => match float_precision(self.output.len(), negative, conversion, spec, allowed) {
                        Ok(precision) => Ok(
                            Supplied::NeedsFloatText(FloatWork { operand, conversion, precision, negative, spec }),
                        ),
                        Err(limit) => Err(FormatFailure { error: limit_error(limit), fatal: true }),
                    },
                }
            },
            _ => match append_prepared(&mut self.output, prepared, spec, allowed) {
                Ok(()) => Ok(Supplied::Appended),
                Err(limit) => Err(FormatFailure { error: limit_error(limit), fatal: true }),
            },
        }
    }

    /// Append a floating field from the text of its finite magnitude,
    /// formatted with the work's precision. On failure the output is
    /// unchanged.
    pub fn supply_float_text(&mut self, work: FloatWork, text: &[u8]) -> (result: Result<(), FormatFailure>)
        requires
            float_text_ok(FloatText::Finite(text), work.conversion),
        ensures
            final(self).source_view() == old(self).source_view(),
            final(self).position_view() == old(self).position_view(),
            final(self).allowed_view() == old(self).allowed_view(),
            match spec_render_float(
                old(self).output_view().len() as int,
                work.negative,
                FloatText::Finite(text),
                work.conversion,
                work.spec,
                old(self).allowed_view(),
            ) {
                Ok(field) => result is Ok && final(self).output_view() == old(self).output_view() + field,
                Err(_) => result == Err::<(), FormatFailure>(
                    fatal(FormatError::OutputLimit { allowed: old(self).allowed_view() }),
                ) && final(self).output_view() == old(self).output_view(),
            },
    {
        match render_float_text(
            &mut self.output,
            work.negative,
            FloatText::Finite(text),
            work.conversion,
            work.spec,
            self.allowed,
        ) {
            Ok(()) => Ok(()),
            Err(limit) => Err(FormatFailure { error: limit_error(limit), fatal: true }),
        }
    }

    /// The output built so far.
    pub fn output(&self) -> (bytes: &[u8])
        ensures
            bytes@ == self.output_view(),
    {
        self.output.as_bytes()
    }

    /// The finished output.
    pub fn into_output(self) -> (output: ByteBuffer)
        ensures
            output@ == self.output_view(),
    {
        self.output
    }
}

/// Whatever an operand appends keeps the output within the per-call
/// allowance.
pub proof fn lemma_supply_within_allowance(
    existing: int,
    directive: Directive<'_>,
    argument: FormatArgument<'_>,
    allowed: usize,
)
    requires
        0 <= existing <= allowed,
    ensures
        spec_supply(existing, directive, argument, allowed) matches SupplyOutcome::Appended(bytes)
            ==> existing + bytes.len() <= allowed,
{
}

/// Bytes after the first NUL of a control string contribute to neither the
/// prefix bound nor the format: strings with the same prefix start alike.
pub proof fn lemma_control_after_nul_ignored(a: Seq<u8>, b: Seq<u8>)
    requires
        control_prefix(a) == control_prefix(b),
    ensures
        first_nul_from(a, 0) == first_nul_from(b, 0),
{
    lemma_first_nul_bounds(a, 0);
    lemma_first_nul_bounds(b, 0);
    assert(control_prefix(a).len() == first_nul_from(a, 0));
    assert(control_prefix(b).len() == first_nul_from(b, 0));
}

} // verus!
