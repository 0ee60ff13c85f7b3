//! A byte scanner for the CLIPS 6.30 `format` control string.
//!
//! Scanning and counting deliberately precede operand evaluation. The
//! scanner's digits/dot/minus admission is broader than canonical printf
//! syntax, so an accepted directive can carry a noncanonical modifier
//! analysis. It still consumes one operand. No rendering, evaluator state or
//! output-limit policy belongs in this module.

use crate::formatting::format_types::FormatSpec;
use std::ops::Range;
use vstd::prelude::*;
use vstd::slice::slice_subrange;

verus! {

/// `FLAG_MAX - 5` in CLIPS. The leading percent already occupies one byte.
pub const FRAGMENT_CAPACITY: usize = 75;

/// The data conversions of a format directive.
#[derive(Clone, Copy, Debug, PartialEq, Eq)]
pub enum Conversion {
    Decimal,
    Octal,
    Hex,
    Unsigned,
    Character,
    Lexeme,
    Scientific,
    Fixed,
    General,
}

/// The conversion named by a byte, if any.
pub open spec fn conversion_of(byte: u8) -> Option<Conversion> {
    if byte == 100 {
        Some(Conversion::Decimal)
    } else if byte == 111 {
        Some(Conversion::Octal)
    } else if byte == 120 {
        Some(Conversion::Hex)
    } else if byte == 117 {
        Some(Conversion::Unsigned)
    } else if byte == 99 {
        Some(Conversion::Character)
    } else if byte == 115 {
        Some(Conversion::Lexeme)
    } else if byte == 101 {
        Some(Conversion::Scientific)
    } else if byte == 102 {
        Some(Conversion::Fixed)
    } else if byte == 103 {
        Some(Conversion::General)
    } else {
        None
    }
}

/// The source byte spelling a conversion (`d o x u c s e f g`).
pub open spec fn conversion_byte(conversion: Conversion) -> u8 {
    match conversion {
        Conversion::Decimal => 100,
        Conversion::Octal => 111,
        Conversion::Hex => 120,
        Conversion::Unsigned => 117,
        Conversion::Character => 99,
        Conversion::Lexeme => 115,
        Conversion::Scientific => 101,
        Conversion::Fixed => 102,
        Conversion::General => 103,
    }
}

/// Integer and radix conversions, to which CLIPS inserts `ll`.
pub open spec fn is_integer_conversion(conversion: Conversion) -> bool {
    conversion is Decimal || conversion is Octal || conversion is Hex || conversion is Unsigned
}

impl Conversion {
    /// Decode a conversion byte.
    pub fn from_byte(byte: u8) -> (result: Option<Self>)
        ensures
            result == conversion_of(byte),
    {
        if byte == 100u8 {
            Some(Conversion::Decimal)
        } else if byte == 111u8 {
            Some(Conversion::Octal)
        } else if byte == 120u8 {
            Some(Conversion::Hex)
        } else if byte == 117u8 {
            Some(Conversion::Unsigned)
        } else if byte == 99u8 {
            Some(Conversion::Character)
        } else if byte == 115u8 {
            Some(Conversion::Lexeme)
        } else if byte == 101u8 {
            Some(Conversion::Scientific)
        } else if byte == 102u8 {
            Some(Conversion::Fixed)
        } else if byte == 103u8 {
            Some(Conversion::General)
        } else {
            None
        }
    }

    /// The source byte of this conversion.
    pub fn as_byte(self) -> (byte: u8)
        ensures
            byte == conversion_byte(self),
            conversion_of(byte) == Some(self),
    {
        match self {
            Conversion::Decimal => 100u8,
            Conversion::Octal => 111u8,
            Conversion::Hex => 120u8,
            Conversion::Unsigned => 117u8,
            Conversion::Character => 99u8,
            Conversion::Lexeme => 115u8,
            Conversion::Scientific => 101u8,
            Conversion::Fixed => 102u8,
            Conversion::General => 103u8,
        }
    }

    /// Whether this is one of the integer/radix conversions `d o x u`.
    pub fn is_integer(self) -> (result: bool)
        ensures
            result == is_integer_conversion(self),
    {
        matches!(self, Conversion::Decimal | Conversion::Octal | Conversion::Hex | Conversion::Unsigned)
    }
}

/// Which numeric parameter of a directive is meant.
#[derive(Clone, Copy, Debug, PartialEq, Eq)]
pub enum NumericParameter {
    Width,
    Precision,
}

/// The modifier analysis of an accepted directive.
#[derive(Debug, PartialEq, Eq)]
pub enum SpecAnalysis {
    Canonical(FormatSpec),
    /// The scanner admitted the bytes, but the ordinary flags/width/precision
    /// grammar did not. `offset` is absolute in the caller's control string.
    NonCanonical { offset: usize, byte: u8 },
    /// The canonical spelling represents a number larger than `usize::MAX`.
    /// This is a resource classification, not a CLIPS invalid-flag error.
    ParameterOverflow { parameter: NumericParameter, range: Range<usize> },
}

/// One data directive, borrowing its modifier bytes from the control string.
#[derive(Debug, PartialEq, Eq)]
pub struct Directive<'a> {
    /// Includes the initial percent and final conversion, in source bytes.
    pub range: Range<usize>,
    pub raw_modifiers: &'a [u8],
    pub conversion: Conversion,
    pub spec: SpecAnalysis,
}

/// Why an unfinished percent fragment became a literal.
#[derive(Clone, Copy, Debug, PartialEq, Eq)]
pub enum IncompleteReason {
    End,
    Percent,
    ModifierBound,
}

/// A plain literal run, or an unfinished percent fragment kept as literal.
#[derive(Clone, Copy, Debug, PartialEq, Eq)]
pub enum LiteralKind {
    Plain,
    Incomplete(IncompleteReason),
}

/// One piece of a control string.
#[derive(Debug, PartialEq, Eq)]
pub enum FormatPiece<'a> {
    Literal { range: Range<usize>, bytes: &'a [u8], kind: LiteralKind },
    /// Immediate `%n`, `%r`, `%t`, `%v` and `%%` consume no operand.
    Control { range: Range<usize>, byte: u8 },
    Directive(Directive<'a>),
}

/// An invalid flag byte inside a percent fragment.
#[derive(Debug, PartialEq, Eq)]
pub struct InvalidFlag<'a> {
    pub percent_offset: usize,
    pub flag_offset: usize,
    pub flag: u8,
    /// Source bytes from percent through the offending byte, inclusive.
    pub fragment: &'a [u8],
}

/// A mismatch between the directive count and the number of data operands.
#[derive(Clone, Copy, Debug, PartialEq, Eq)]
pub struct OperandCountMismatch {
    pub expected: usize,
    pub actual: usize,
}

// ---------------------------------------------------------------------------
// The byte grammar.
// ---------------------------------------------------------------------------

/// An ASCII decimal digit.
pub open spec fn is_digit(byte: u8) -> bool {
    48 <= byte <= 57
}

/// A byte the scanner admits between the percent and the conversion.
pub open spec fn is_modifier(byte: u8) -> bool {
    is_digit(byte) || byte == 46 || byte == 45
}

/// The byte produced by an immediate no-data control (`%n %r %t %v %%`).
pub open spec fn control_of(byte: u8) -> Option<u8> {
    if byte == 110 {
        Some(10u8)
    } else if byte == 114 {
        Some(13u8)
    } else if byte == 116 {
        Some(9u8)
    } else if byte == 118 {
        Some(11u8)
    } else if byte == 37 {
        Some(37u8)
    } else {
        None
    }
}

/// The index of the first NUL at or after `i`, or the length.
pub open spec fn first_nul_from(s: Seq<u8>, i: int) -> int
    decreases s.len() - i,
{
    if 0 <= i < s.len() && s[i] != 0 {
        first_nul_from(s, i + 1)
    } else {
        i
    }
}

/// The first-NUL-delimited prefix of a control string.
pub open spec fn control_prefix(s: Seq<u8>) -> Seq<u8> {
    s.take(first_nul_from(s, 0))
}

/// The index of the first percent at or after `i`, or the length.
pub open spec fn next_percent(s: Seq<u8>, i: int) -> int
    decreases s.len() - i,
{
    if 0 <= i < s.len() && s[i] != 37 {
        next_percent(s, i + 1)
    } else {
        i
    }
}

/// One scanner step, without the borrowed bytes.
pub enum ScanStep {
    Literal { end: int, kind: LiteralKind },
    Control { end: int, byte: u8 },
    Directive { end: int, conversion: Conversion },
    Invalid { flag_offset: int },
}

/// Where the scanner resumes after a step.
pub open spec fn step_end(s: Seq<u8>, step: ScanStep) -> int {
    match step {
        ScanStep::Literal { end, .. } => end,
        ScanStep::Control { end, .. } => end,
        ScanStep::Directive { end, .. } => end,
        ScanStep::Invalid { .. } => s.len() as int,
    }
}

/// Scan the modifier run of the percent fragment starting at `start`,
/// currently at `p`.
pub open spec fn scan_tail(s: Seq<u8>, start: int, p: int) -> ScanStep
    decreases s.len() - p,
{
    if 0 <= p < s.len() && s[p] != 37 && p - start < FRAGMENT_CAPACITY {
        match conversion_of(s[p]) {
            Some(conversion) => ScanStep::Directive { end: p + 1, conversion },
            None => if !is_modifier(s[p]) {
                ScanStep::Invalid { flag_offset: p }
            } else {
                scan_tail(s, start, p + 1)
            },
        }
    } else {
        ScanStep::Literal {
            end: p,
            kind: LiteralKind::Incomplete(
                if p >= s.len() {
                    IncompleteReason::End
                } else if s[p] == 37 {
                    IncompleteReason::Percent
                } else {
                    IncompleteReason::ModifierBound
                },
            ),
        }
    }
}

/// The piece that starts at `start` (which must be inside `s`).
pub open spec fn scan_step(s: Seq<u8>, start: int) -> ScanStep {
    if s[start] != 37 {
        ScanStep::Literal { end: next_percent(s, start + 1), kind: LiteralKind::Plain }
    } else if start + 1 < s.len() && control_of(s[start + 1]) is Some {
        ScanStep::Control { end: start + 2, byte: control_of(s[start + 1])->0 }
    } else {
        scan_tail(s, start, start + 1)
    }
}

/// The result of scanning a whole control string from `start`.
pub enum ScanOutcome {
    Valid { count: nat },
    Invalid { percent: int, flag_offset: int },
}

/// Count the directives from `start`, or find the first invalid flag.
pub open spec fn scan_outcome(s: Seq<u8>, start: int) -> ScanOutcome
    decreases s.len() - start,
{
    if start < 0 || start >= s.len() {
        ScanOutcome::Valid { count: 0 }
    } else {
        let step = scan_step(s, start);
        match step {
            ScanStep::Invalid { flag_offset } => ScanOutcome::Invalid { percent: start, flag_offset },
            _ => {
                let end = step_end(s, step);
                if start < end <= s.len() {
                    match scan_outcome(s, end) {
                        ScanOutcome::Valid { count } => ScanOutcome::Valid {
                            count: count + if step is Directive {
                                1nat
                            } else {
                                0nat
                            },
                        },
                        other => other,
                    }
                } else {
                    ScanOutcome::Valid { count: 0 }
                }
            },
        }
    }
}

/// Add `k` directives found before `outcome`.
pub open spec fn add_count(outcome: ScanOutcome, k: nat) -> ScanOutcome {
    match outcome {
        ScanOutcome::Valid { count } => ScanOutcome::Valid { count: count + k },
        other => other,
    }
}

// ---------------------------------------------------------------------------
// Modifier analysis.
// ---------------------------------------------------------------------------

/// End of the leading run of `-`/`0` flags at or after `i`.
pub open spec fn flag_run_end(m: Seq<u8>, i: int) -> int
    decreases m.len() - i,
{
    if 0 <= i < m.len() && (m[i] == 45 || m[i] == 48) {
        flag_run_end(m, i + 1)
    } else {
        i
    }
}

/// End of the run of decimal digits at or after `i`.
pub open spec fn digit_run_end(m: Seq<u8>, i: int) -> int
    decreases m.len() - i,
{
    if 0 <= i < m.len() && is_digit(m[i]) {
        digit_run_end(m, i + 1)
    } else {
        i
    }
}

/// Whether `byte` occurs in `m[lo..hi]`.
pub open spec fn has_byte(m: Seq<u8>, lo: int, hi: int, byte: u8) -> bool {
    exists|j: int| lo <= j < hi && m[j] == byte
}

/// The value of a run of decimal digits.
pub open spec fn decimal_value(digits: Seq<u8>) -> nat
    decreases digits.len(),
{
    if digits.len() == 0 {
        0
    } else {
        10 * decimal_value(digits.drop_last()) + (digits.last() - 48) as nat
    }
}

/// Where the precision digits start and end, if a `.` follows the width.
pub open spec fn precision_run(m: Seq<u8>) -> Option<(int, int)> {
    let w = digit_run_end(m, flag_run_end(m, 0));
    if w < m.len() && m[w] == 46 {
        Some((w + 1, digit_run_end(m, w + 1)))
    } else {
        None
    }
}

/// The classification of a directive's modifier bytes, which start at the
/// absolute offset `abs` of the control string.
pub open spec fn spec_analysis(m: Seq<u8>, abs: int) -> SpecAnalysis {
    let f = flag_run_end(m, 0);
    let w = digit_run_end(m, f);
    let end = match precision_run(m) {
        Some((_, pe)) => pe,
        None => w,
    };
    if end < m.len() {
        SpecAnalysis::NonCanonical { offset: (abs + end) as usize, byte: m[end] }
    } else if decimal_value(m.subrange(f, w)) > usize::MAX {
        SpecAnalysis::ParameterOverflow {
            parameter: NumericParameter::Width,
            range: Range { start: (abs + f) as usize, end: (abs + w) as usize },
        }
    } else {
        match precision_run(m) {
            Some((ps, pe)) => if decimal_value(m.subrange(ps, pe)) > usize::MAX {
                SpecAnalysis::ParameterOverflow {
                    parameter: NumericParameter::Precision,
                    range: Range { start: (abs + ps) as usize, end: (abs + pe) as usize },
                }
            } else {
                SpecAnalysis::Canonical(
                    FormatSpec {
                        left_align: has_byte(m, 0, f, 45),
                        zero_pad: has_byte(m, 0, f, 48),
                        width: decimal_value(m.subrange(f, w)) as usize,
                        precision: Some(decimal_value(m.subrange(ps, pe)) as usize),
                    },
                )
            },
            None => SpecAnalysis::Canonical(
                FormatSpec {
                    left_align: has_byte(m, 0, f, 45),
                    zero_pad: has_byte(m, 0, f, 48),
                    width: decimal_value(m.subrange(f, w)) as usize,
                    precision: None,
                },
            ),
        }
    }
}

// ---------------------------------------------------------------------------
// Relating borrowed pieces to the grammar.
// ---------------------------------------------------------------------------

/// A directive as scanned from `s` between `start` and `end`.
pub open spec fn directive_matches(
    d: Directive<'_>,
    s: Seq<u8>,
    start: int,
    end: int,
    conversion: Conversion,
) -> bool {
    &&& d.range.start == start
    &&& d.range.end == end
    &&& d.raw_modifiers@ == s.subrange(start + 1, end - 1)
    &&& d.conversion == conversion
    &&& d.spec == spec_analysis(s.subrange(start + 1, end - 1), start + 1)
}

/// A borrowed piece that is the scanner step at `start` of `s`.
pub open spec fn piece_matches(piece: FormatPiece<'_>, s: Seq<u8>, start: int, step: ScanStep) -> bool {
    match step {
        ScanStep::Literal { end, kind } => piece matches FormatPiece::Literal {
            range,
            bytes,
            kind: k,
        } && range.start == start && range.end == end && bytes@ == s.subrange(start, end) && k
            == kind,
        ScanStep::Control { end, byte } => piece matches FormatPiece::Control { range, byte: b }
            && range.start == start && range.end == end && b == byte,
        ScanStep::Directive { end, conversion } => piece matches FormatPiece::Directive(d)
            && directive_matches(d, s, start, end, conversion),
        ScanStep::Invalid { .. } => false,
    }
}

/// An invalid-flag report for the fragment at `percent` of `s`.
pub open spec fn invalid_matches(e: InvalidFlag<'_>, s: Seq<u8>, percent: int, flag_offset: int) -> bool {
    &&& e.percent_offset == percent
    &&& e.flag_offset == flag_offset
    &&& e.flag == s[flag_offset]
    &&& e.fragment@ == s.subrange(percent, flag_offset + 1)
}

/// `pieces` are exactly the scanner steps of `s` from `start` up to `stop`.
pub open spec fn pieces_between(pieces: Seq<FormatPiece<'_>>, s: Seq<u8>, start: int, stop: int) -> bool
    decreases pieces.len(),
{
    if pieces.len() == 0 {
        start == stop
    } else {
        let step = pieces_last_step(pieces, s, start, stop);
        &&& 0 <= start < s.len()
        &&& pieces_between(pieces.drop_last(), s, start, piece_start(pieces.last()))
        &&& 0 <= piece_start(pieces.last()) < s.len()
        &&& piece_matches(pieces.last(), s, piece_start(pieces.last()), step)
        &&& step_end(s, step) == stop
    }
}

/// The scanner step at the start of the last piece.
pub open spec fn pieces_last_step(pieces: Seq<FormatPiece<'_>>, s: Seq<u8>, start: int, stop: int) -> ScanStep {
    scan_step(s, piece_start(pieces.last()))
}

/// The source offset at which a piece begins.
pub open spec fn piece_start(piece: FormatPiece<'_>) -> int {
    match piece {
        FormatPiece::Literal { range, .. } => range.start as int,
        FormatPiece::Control { range, .. } => range.start as int,
        FormatPiece::Directive(d) => d.range.start as int,
    }
}

// ---------------------------------------------------------------------------
// Lemmas about the grammar.
// ---------------------------------------------------------------------------

proof fn lemma_next_percent_bounds(s: Seq<u8>, i: int)
    requires
        0 <= i <= s.len(),
    ensures
        i <= next_percent(s, i) <= s.len(),
        next_percent(s, i) < s.len() ==> s[next_percent(s, i)] == 37,
        forall|j: int| i <= j < next_percent(s, i) ==> s[j] != 37,
    decreases s.len() - i,
{
    if i < s.len() && s[i] != 37 {
        lemma_next_percent_bounds(s, i + 1);
    }
}

pub(crate) proof fn lemma_first_nul_bounds(s: Seq<u8>, i: int)
    requires
        0 <= i <= s.len(),
    ensures
        i <= first_nul_from(s, i) <= s.len(),
        first_nul_from(s, i) < s.len() ==> s[first_nul_from(s, i)] == 0,
        forall|j: int| i <= j < first_nul_from(s, i) ==> s[j] != 0,
    decreases s.len() - i,
{
    if i < s.len() && s[i] != 0 {
        lemma_first_nul_bounds(s, i + 1);
    }
}

/// The bytes before the first NUL contain none, so the control prefix of a
/// control prefix is itself.
pub(crate) proof fn lemma_control_prefix_nul_free(s: Seq<u8>, i: int)
    requires
        0 <= i <= first_nul_from(s, 0),
        first_nul_from(s, 0) <= s.len(),
        forall|j: int| 0 <= j < first_nul_from(s, 0) ==> s[j] != 0,
    ensures
        first_nul_from(control_prefix(s), i) == first_nul_from(s, 0),
    decreases first_nul_from(s, 0) - i,
{
    if i < first_nul_from(s, 0) {
        lemma_control_prefix_nul_free(s, i + 1);
    }
}

proof fn lemma_scan_tail_bounds(s: Seq<u8>, start: int, p: int)
    requires
        0 <= start < p <= s.len(),
    ensures
        match scan_tail(s, start, p) {
            ScanStep::Literal { end, .. } => p <= end <= s.len() && end > start,
            ScanStep::Directive { end, conversion } => p < end <= s.len() && s[end - 1]
                == conversion_byte(conversion) && conversion_of(s[end - 1]) == Some(conversion),
            ScanStep::Invalid { flag_offset } => p <= flag_offset < s.len(),
            ScanStep::Control { .. } => false,
        },
    decreases s.len() - p,
{
    if p < s.len() && s[p] != 37 && p - start < FRAGMENT_CAPACITY {
        if conversion_of(s[p]) is None && is_modifier(s[p]) {
            lemma_scan_tail_bounds(s, start, p + 1);
        }
    }
}

/// Every step starting inside `s` makes progress and stays inside `s`.
pub proof fn lemma_scan_step_bounds(s: Seq<u8>, start: int)
    requires
        0 <= start < s.len(),
    ensures
        match scan_step(s, start) {
            ScanStep::Literal { end, .. } => start < end <= s.len(),
            ScanStep::Control { end, .. } => end == start + 2 && end <= s.len(),
            ScanStep::Directive { end, .. } => start + 2 <= end <= s.len(),
            ScanStep::Invalid { flag_offset } => start < flag_offset < s.len(),
        },
{
    if s[start] != 37 {
        lemma_next_percent_bounds(s, start + 1);
    } else if start + 1 < s.len() && control_of(s[start + 1]) is Some {
    } else {
        lemma_scan_tail_bounds(s, start, start + 1);
    }
}

/// The outcome from `start` is the outcome of the next step combined with the
/// outcome from where that step ends.
proof fn lemma_scan_outcome_unfold(s: Seq<u8>, start: int)
    requires
        0 <= start < s.len(),
        !(scan_step(s, start) is Invalid),
    ensures
        scan_outcome(s, start) == add_count(
            scan_outcome(s, step_end(s, scan_step(s, start))),
            if scan_step(s, start) is Directive {
                1nat
            } else {
                0nat
            },
        ),
{
    lemma_scan_step_bounds(s, start);
}

/// A validated control string is infallible to iterate: at every offset
/// before its end the scanner yields a piece that ends past its start and
/// leaves a valid rest, and the directive count splits across the pieces.
pub proof fn lemma_valid_prefix_steps(s: Seq<u8>, p: int)
    requires
        0 <= p < s.len(),
        scan_outcome(s, p) is Valid,
    ensures
        !(scan_step(s, p) is Invalid),
        p < step_end(s, scan_step(s, p)) <= s.len(),
        scan_outcome(s, step_end(s, scan_step(s, p))) is Valid,
        scan_outcome(s, p)->count == scan_outcome(s, step_end(s, scan_step(s, p)))->count + (
        if scan_step(s, p) is Directive {
            1nat
        } else {
            0nat
        }),
{
    lemma_scan_step_bounds(s, p);
}

/// The number of directive pieces in a piece list.
pub open spec fn directive_pieces(pieces: Seq<FormatPiece<'_>>) -> nat
    decreases pieces.len(),
{
    if pieces.len() == 0 {
        0
    } else {
        directive_pieces(pieces.drop_last()) + if pieces.last() is Directive {
            1nat
        } else {
            0nat
        }
    }
}

/// The conversion count is the number of directive pieces: the pieces of a
/// prefix up to `stop` account for every directive the scan counts before
/// `stop`. So a collected plan and a validated streaming pass agree.
pub proof fn lemma_count_is_directive_pieces(pieces: Seq<FormatPiece<'_>>, s: Seq<u8>, stop: int)
    requires
        pieces_between(pieces, s, 0, stop),
    ensures
        scan_outcome(s, 0) == add_count(scan_outcome(s, stop), directive_pieces(pieces)),
    decreases pieces.len(),
{
    if pieces.len() == 0 {
        assert(stop == 0);
        match scan_outcome(s, 0) {
            ScanOutcome::Valid { count } => {},
            ScanOutcome::Invalid { .. } => {},
        }
    } else {
        let mid = piece_start(pieces.last());
        lemma_count_is_directive_pieces(pieces.drop_last(), s, mid);
        let step = scan_step(s, mid);
        lemma_scan_outcome_unfold(s, mid);
        assert(step_end(s, step) == stop);
        assert((pieces.last() is Directive) == (step is Directive));
    }
}

/// Extending a matched piece list by the next step.
proof fn lemma_pieces_between_push(
    pieces: Seq<FormatPiece<'_>>,
    piece: FormatPiece<'_>,
    s: Seq<u8>,
    start: int,
    mid: int,
)
    requires
        pieces_between(pieces, s, start, mid),
        0 <= start <= mid < s.len(),
        piece_start(piece) == mid,
        piece_matches(piece, s, mid, scan_step(s, mid)),
    ensures
        pieces_between(pieces.push(piece), s, start, step_end(s, scan_step(s, mid))),
{
    let ps = pieces.push(piece);
    assert(ps.drop_last() =~= pieces);
    assert(ps.last() == piece);
}

/// The source offset at which a piece ends.
pub open spec fn piece_end(piece: FormatPiece<'_>) -> int {
    match piece {
        FormatPiece::Literal { range, .. } => range.end as int,
        FormatPiece::Control { range, .. } => range.end as int,
        FormatPiece::Directive(d) => d.range.end as int,
    }
}

/// A piece list that starts at `start` and is not empty covers a
/// nonempty stretch.
proof fn lemma_pieces_between_order(pieces: Seq<FormatPiece<'_>>, s: Seq<u8>, start: int, stop: int)
    requires
        pieces_between(pieces, s, start, stop),
    ensures
        start <= stop,
        pieces.len() > 0 ==> start < stop,
    decreases pieces.len(),
{
    if pieces.len() > 0 {
        let mid = piece_start(pieces.last());
        lemma_pieces_between_order(pieces.drop_last(), s, start, mid);
        lemma_scan_step_bounds(s, mid);
    }
}

/// A nonempty piece list's first piece is the step at its start, and the
/// rest is the piece list from where that step ends.
proof fn lemma_pieces_between_first(pieces: Seq<FormatPiece<'_>>, s: Seq<u8>, start: int, stop: int)
    requires
        pieces_between(pieces, s, start, stop),
        pieces.len() > 0,
    ensures
        piece_start(pieces[0]) == start,
        0 <= start < s.len(),
        piece_matches(pieces[0], s, start, scan_step(s, start)),
        piece_end(pieces[0]) == step_end(s, scan_step(s, start)),
        pieces_between(pieces.drop_first(), s, piece_end(pieces[0]), stop),
    decreases pieces.len(),
{
    let mid = piece_start(pieces.last());
    let step = scan_step(s, mid);
    lemma_scan_step_bounds(s, mid);
    if pieces.len() == 1 {
        reveal_with_fuel(pieces_between, 2);
        assert(pieces.drop_last().len() == 0);
        assert(pieces[0] == pieces.last());
        assert(pieces.drop_first().len() == 0);
    } else {
        let front = pieces.drop_last();
        lemma_pieces_between_first(front, s, start, mid);
        assert(front[0] == pieces[0]);
        let rest = pieces.drop_first();
        assert(rest.drop_last() =~= front.drop_first());
        assert(rest.last() == pieces.last());
        lemma_pieces_between_order(front.drop_first(), s, piece_end(pieces[0]), mid);
    }
}

/// The pieces of a validated control string partition it: in order, each
/// piece is nonempty and starts where the previous one ended, the first at
/// zero and the last at the end; a literal holds its source bytes, a
/// control starts at a percent, and a directive holds the modifiers between
/// its percent and its conversion byte, which ends it.
pub proof fn lemma_pieces_partition(pieces: Seq<FormatPiece<'_>>, s: Seq<u8>)
    requires
        pieces_between(pieces, s, 0, s.len() as int),
    ensures
        (pieces.len() == 0) == (s.len() == 0),
        pieces.len() > 0 ==> piece_start(pieces[0]) == 0 && piece_end(pieces.last()) == s.len(),
        forall|i: int| 0 <= i < pieces.len() ==> piece_start(#[trigger] pieces[i]) < piece_end(pieces[i]),
        forall|i: int| 0 <= i < pieces.len() - 1 ==> piece_end(#[trigger] pieces[i]) == piece_start(pieces[i + 1]),
        forall|i: int| 0 <= i < pieces.len() ==> match #[trigger] pieces[i] {
            FormatPiece::Literal { range, bytes, .. } => bytes@ == s.subrange(range.start as int, range.end as int),
            FormatPiece::Control { range, .. } => s[range.start as int] == 37,
            FormatPiece::Directive(d) => d.raw_modifiers@ == s.subrange(d.range.start + 1, d.range.end - 1)
                && s[d.range.end - 1] == conversion_byte(d.conversion),
        },
{
    lemma_pieces_between_order(pieces, s, 0, s.len() as int);
    lemma_partition_from(pieces, s, 0, s.len() as int);
}

proof fn lemma_partition_from(pieces: Seq<FormatPiece<'_>>, s: Seq<u8>, start: int, stop: int)
    requires
        pieces_between(pieces, s, start, stop),
    ensures
        pieces.len() > 0 ==> piece_start(pieces[0]) == start && piece_end(pieces.last()) == stop,
        forall|i: int| 0 <= i < pieces.len() ==> piece_start(#[trigger] pieces[i]) < piece_end(pieces[i]),
        forall|i: int| 0 <= i < pieces.len() - 1 ==> piece_end(#[trigger] pieces[i]) == piece_start(pieces[i + 1]),
        forall|i: int| 0 <= i < pieces.len() ==> match #[trigger] pieces[i] {
            FormatPiece::Literal { range, bytes, .. } => bytes@ == s.subrange(range.start as int, range.end as int),
            FormatPiece::Control { range, .. } => s[range.start as int] == 37,
            FormatPiece::Directive(d) => d.raw_modifiers@ == s.subrange(d.range.start + 1, d.range.end - 1)
                && s[d.range.end - 1] == conversion_byte(d.conversion),
        },
    decreases pieces.len(),
{
    if pieces.len() > 0 {
        lemma_pieces_between_first(pieces, s, start, stop);
        let rest = pieces.drop_first();
        let end0 = piece_end(pieces[0]);
        lemma_partition_from(rest, s, end0, stop);
        lemma_scan_step_bounds(s, start);
        if s[start] == 37 && !(start + 1 < s.len() && control_of(s[start + 1]) is Some) {
            lemma_scan_tail_bounds(s, start, start + 1);
        }
        if rest.len() == 0 {
            assert(pieces.last() == pieces[0]);
            assert(end0 == stop);
        } else {
            assert(pieces.last() == rest.last());
        }
        assert forall|i: int| 0 <= i < pieces.len() implies piece_start(#[trigger] pieces[i]) < piece_end(pieces[i]) by {
            if i > 0 {
                assert(pieces[i] == rest[i - 1]);
            }
        }
        assert forall|i: int| 0 <= i < pieces.len() - 1 implies piece_end(#[trigger] pieces[i]) == piece_start(pieces[i + 1]) by {
            if i > 0 {
                assert(pieces[i] == rest[i - 1]);
                assert(pieces[i + 1] == rest[i]);
            } else {
                assert(pieces[1] == rest[0]);
            }
        }
        assert forall|i: int| 0 <= i < pieces.len() implies match #[trigger] pieces[i] {
            FormatPiece::Literal { range, bytes, .. } => bytes@ == s.subrange(range.start as int, range.end as int),
            FormatPiece::Control { range, .. } => s[range.start as int] == 37,
            FormatPiece::Directive(d) => d.raw_modifiers@ == s.subrange(d.range.start + 1, d.range.end - 1)
                && s[d.range.end - 1] == conversion_byte(d.conversion),
        } by {
            if i > 0 {
                assert(pieces[i] == rest[i - 1]);
            }
        }
    }
}

/// The pieces of a stretch are determined by the bytes: two piece lists over
/// the same stretch are equal, so two passes over one validated control
/// string yield the same pieces.
pub proof fn lemma_pieces_unique(first: Seq<FormatPiece<'_>>, second: Seq<FormatPiece<'_>>, s: Seq<u8>, start: int, stop: int)
    requires
        pieces_between(first, s, start, stop),
        pieces_between(second, s, start, stop),
    ensures
        first == second,
    decreases first.len(),
{
    lemma_pieces_between_order(first, s, start, stop);
    lemma_pieces_between_order(second, s, start, stop);
    if first.len() > 0 && second.len() > 0 {
        lemma_pieces_between_first(first, s, start, stop);
        lemma_pieces_between_first(second, s, start, stop);
        let a = first[0];
        let b = second[0];
        match scan_step(s, start) {
            ScanStep::Literal { .. } => {
                if let (FormatPiece::Literal { bytes: x, .. }, FormatPiece::Literal { bytes: y, .. }) = (a, b) {
                    assert(x@ =~= y@);
                    assert(x == y);
                }
            },
            ScanStep::Directive { .. } => {
                if let (FormatPiece::Directive(x), FormatPiece::Directive(y)) = (a, b) {
                    assert(x.raw_modifiers@ =~= y.raw_modifiers@);
                    assert(x.raw_modifiers == y.raw_modifiers);
                }
            },
            _ => {},
        }
        assert(a == b);
        lemma_pieces_unique(first.drop_first(), second.drop_first(), s, piece_end(a), stop);
        assert(first =~= seq![a] + first.drop_first());
        assert(second =~= seq![b] + second.drop_first());
    } else {
        assert(first.len() == second.len());
        assert(first =~= second);
    }
}

// ---------------------------------------------------------------------------
// Executable scanning.
// ---------------------------------------------------------------------------

fn is_digit_byte(byte: u8) -> (result: bool)
    ensures
        result == is_digit(byte),
{
    48u8 <= byte && byte <= 57u8
}

fn control_byte(byte: u8) -> (result: Option<u8>)
    ensures
        result == control_of(byte),
{
    if byte == 110u8 {
        Some(10u8)
    } else if byte == 114u8 {
        Some(13u8)
    } else if byte == 116u8 {
        Some(9u8)
    } else if byte == 118u8 {
        Some(0x0b)
    } else if byte == 37u8 {
        Some(37u8)
    } else {
        None
    }
}

proof fn lemma_decimal_value_prefix_monotone(s: Seq<u8>, i: int, j: int)
    requires
        0 <= i <= j <= s.len(),
    ensures
        decimal_value(s.take(i)) <= decimal_value(s.take(j)),
    decreases j - i,
{
    if i < j {
        lemma_decimal_value_prefix_monotone(s, i, j - 1);
        assert(s.take(j).drop_last() =~= s.take(j - 1));
    }
}

/// Parse a run of decimal digits, rejecting values above `usize::MAX`.
pub fn checked_decimal(digits: &[u8]) -> (result: Option<usize>)
    requires
        forall|i: int| 0 <= i < digits@.len() ==> is_digit(#[trigger] digits@[i]),
    ensures
        result == if decimal_value(digits@) <= usize::MAX {
            Some(decimal_value(digits@) as usize)
        } else {
            None::<usize>
        },
{
    let mut value: usize = 0;
    let mut i: usize = 0;
    while i < digits.len()
        invariant
            i <= digits@.len(),
            forall|k: int| 0 <= k < digits@.len() ==> is_digit(#[trigger] digits@[k]),
            value == decimal_value(digits@.take(i as int)),
        decreases digits@.len() - i,
    {
        let digit = digits[i];
        assert(digits@.take(i + 1).drop_last() =~= digits@.take(i as int));
        match value.checked_mul(10) {
            Some(scaled) => match scaled.checked_add((digit - 48u8) as usize) {
                Some(next) => {
                    value = next;
                },
                None => {
                    proof {
                        lemma_decimal_value_prefix_monotone(digits@, i + 1, digits@.len() as int);
                        assert(digits@.take(digits@.len() as int) =~= digits@);
                    }
                    return None;
                },
            },
            None => {
                proof {
                    lemma_decimal_value_prefix_monotone(digits@, i + 1, digits@.len() as int);
                    assert(digits@.take(digits@.len() as int) =~= digits@);
                }
                return None;
            },
        }
        i += 1;
    }
    assert(digits@.take(digits@.len() as int) =~= digits@);
    Some(value)
}

/// Classify the modifier bytes of an accepted directive whose first modifier
/// byte is at `absolute_start` of the control string.
pub fn analyze_spec(modifiers: &[u8], absolute_start: usize) -> (result: SpecAnalysis)
    requires
        absolute_start + modifiers@.len() <= usize::MAX,
    ensures
        result == spec_analysis(modifiers@, absolute_start as int),
{
    let ghost m = modifiers@;
    let len = modifiers.len();
    let mut position: usize = 0;
    let mut left_align = false;
    let mut zero_pad = false;
    while position < len && (modifiers[position] == 45u8 || modifiers[position] == 48u8)
        invariant
            len == m.len(),
            m == modifiers@,
            position <= len,
            flag_run_end(m, 0) == flag_run_end(m, position as int),
            left_align == has_byte(m, 0, position as int, 45),
            zero_pad == has_byte(m, 0, position as int, 48),
        decreases len - position,
    {
        if modifiers[position] == 45u8 {
            left_align = true;
        } else {
            zero_pad = true;
        }
        assert(has_byte(m, 0, position + 1, 45) == (has_byte(m, 0, position as int, 45) || m[position as int] == 45));
        assert(has_byte(m, 0, position + 1, 48) == (has_byte(m, 0, position as int, 48) || m[position as int] == 48));
        position += 1;
    }
    let width_start = position;
    assert(flag_run_end(m, 0) == width_start);
    while position < len && is_digit_byte(modifiers[position])
        invariant
            len == m.len(),
            m == modifiers@,
            width_start <= position <= len,
            digit_run_end(m, width_start as int) == digit_run_end(m, position as int),
            forall|k: int| width_start <= k < position ==> is_digit(#[trigger] m[k]),
        decreases len - position,
    {
        position += 1;
    }
    let width_end = position;
    let mut precision_range: Option<(usize, usize)> = None;
    if position < len && modifiers[position] == 46u8 {
        position += 1;
        let start = position;
        while position < len && is_digit_byte(modifiers[position])
            invariant
                len == m.len(),
                m == modifiers@,
            m == modifiers@,
                start <= position <= len,
                digit_run_end(m, start as int) == digit_run_end(m, position as int),
                forall|k: int| start <= k < position ==> is_digit(#[trigger] m[k]),
            decreases len - position,
        {
            position += 1;
        }
        precision_range = Some((start, position));
    }
    assert(precision_run(m) == match precision_range {
        Some((a, b)) => Some((a as int, b as int)),
        None => None::<(int, int)>,
    });
    if position < len {
        return SpecAnalysis::NonCanonical { offset: absolute_start + position, byte: modifiers[position] };
    }
    let width_digits = slice_subrange(modifiers, width_start, width_end);
    let width = match checked_decimal(width_digits) {
        Some(width) => width,
        None => {
            return SpecAnalysis::ParameterOverflow {
                parameter: NumericParameter::Width,
                range: (absolute_start + width_start)..(absolute_start + width_end),
            };
        },
    };
    let precision = match precision_range {
        Some((start, end)) => {
            let digits = slice_subrange(modifiers, start, end);
            match checked_decimal(digits) {
                Some(precision) => Some(precision),
                None => {
                    return SpecAnalysis::ParameterOverflow {
                        parameter: NumericParameter::Precision,
                        range: (absolute_start + start)..(absolute_start + end),
                    };
                },
            }
        },
        None => None,
    };
    SpecAnalysis::Canonical(FormatSpec { left_align, zero_pad, width, precision })
}

/// The result of scanning the piece at `start` of `s`: the piece, or the
/// invalid flag, as the grammar defines it.
pub open spec fn scanned_as(
    result: Result<FormatPiece<'_>, InvalidFlag<'_>>,
    s: Seq<u8>,
    start: int,
) -> bool {
    match scan_step(s, start) {
        ScanStep::Invalid { flag_offset } => result matches Err(e) && invalid_matches(
            e,
            s,
            start,
            flag_offset,
        ),
        step => result matches Ok(piece) && piece_matches(piece, s, start, step) && piece_start(
            piece,
        ) == start,
    }
}

/// Scan the piece that begins at `start`, returning it (or the invalid flag)
/// together with the offset at which scanning resumes.
pub fn scan_piece<'a>(source: &'a [u8], start: usize) -> (result: (
    Result<FormatPiece<'a>, InvalidFlag<'a>>,
    usize,
))
    requires
        start < source@.len(),
    ensures
        scanned_as(result.0, source@, start as int),
        result.1 == step_end(source@, scan_step(source@, start as int)),
        start < result.1 <= source@.len(),
{
    let ghost s = source@;
    let len = source.len();
    proof {
        lemma_scan_step_bounds(s, start as int);
    }
    let mut position = start;
    if source[position] != 37u8 {
        position += 1;
        while position < len && source[position] != 37u8
            invariant
                len == s.len(),
                s == source@,
                start < position <= len,
                next_percent(s, start + 1) == next_percent(s, position as int),
            decreases len - position,
        {
            position += 1;
        }
        let piece = FormatPiece::Literal {
            range: start..position,
            bytes: slice_subrange(source, start, position),
            kind: LiteralKind::Plain,
        };
        return (Ok(piece), position);
    }
    position += 1;
    let control = if position < len {
        control_byte(source[position])
    } else {
        None
    };
    if let Some(byte) = control {
        position += 1;
        return (Ok(FormatPiece::Control { range: start..position, byte }), position);
    }
    while position < len && source[position] != 37u8 && position - start < FRAGMENT_CAPACITY
        invariant
            len == s.len(),
            s == source@,
            start < position <= len,
            s[start as int] == 37,
            scan_step(s, start as int) == scan_tail(s, start as int, position as int),
        decreases len - position,
    {
        let byte = source[position];
        position += 1;
        if let Some(conversion) = Conversion::from_byte(byte) {
            let raw_modifiers = slice_subrange(source, start + 1, position - 1);
            let spec = analyze_spec(raw_modifiers, start + 1);
            let directive = Directive { range: start..position, raw_modifiers, conversion, spec };
            return (Ok(FormatPiece::Directive(directive)), position);
        }
        if !(is_digit_byte(byte) || byte == 46u8 || byte == 45u8) {
            let invalid = InvalidFlag {
                percent_offset: start,
                flag_offset: position - 1,
                flag: byte,
                fragment: slice_subrange(source, start, position),
            };
            return (Err(invalid), len);
        }
    }
    let reason = if position == len {
        IncompleteReason::End
    } else if source[position] == 37u8 {
        IncompleteReason::Percent
    } else {
        IncompleteReason::ModifierBound
    };
    let piece = FormatPiece::Literal {
        range: start..position,
        bytes: slice_subrange(source, start, position),
        kind: LiteralKind::Incomplete(reason),
    };
    (Ok(piece), position)
}

/// The shared single-piece scanner. A lexical error ends it permanently.
#[derive(Debug)]
pub struct PieceScanner<'a> {
    source: &'a [u8],
    position: usize,
}

impl<'a> PieceScanner<'a> {
    #[verifier::type_invariant]
    spec fn inv(self) -> bool {
        self.position <= self.source@.len()
    }

    /// The bytes being scanned.
    pub closed spec fn source_view(self) -> Seq<u8> {
        self.source@
    }

    /// The offset of the next piece.
    pub closed spec fn position_view(self) -> int {
        self.position as int
    }

    /// A scanner at the start of `source`.
    pub fn new(source: &'a [u8]) -> (scanner: Self)
        ensures
            scanner.source_view() == source@,
            scanner.position_view() == 0,
    {
        PieceScanner { source, position: 0 }
    }

    /// The offset of the next piece.
    pub fn position(&self) -> (position: usize)
        ensures
            position == self.position_view(),
            position <= self.source_view().len(),
    {
        proof {
            use_type_invariant(self);
        }
        self.position
    }

    /// Scan the next piece. `None` at the end; an invalid flag is reported once
    /// and ends the scan.
    pub fn next_piece(&mut self) -> (result: Option<Result<FormatPiece<'a>, InvalidFlag<'a>>>)
        ensures
            final(self).source_view() == old(self).source_view(),
            final(self).position_view() <= final(self).source_view().len(),
            old(self).position_view() >= old(self).source_view().len() ==> result is None
                && final(self).position_view() == old(self).position_view(),
            old(self).position_view() < old(self).source_view().len() ==> {
                &&& result matches Some(r)
                &&& scanned_as(r, old(self).source_view(), old(self).position_view())
                &&& final(self).position_view() == step_end(
                    old(self).source_view(),
                    scan_step(old(self).source_view(), old(self).position_view()),
                )
            },
    {
        proof {
            use_type_invariant(&*self);
        }
        if self.position == self.source.len() {
            return None;
        }
        let (result, next) = scan_piece(self.source, self.position);
        self.position = next;
        Some(result)
    }
}

/// A fully validated control prefix, with no stored piece list. Its size does
/// not grow with the number of literals or conversions.
#[derive(Clone, Copy, Debug, PartialEq, Eq)]
pub struct ValidatedFormat<'a> {
    /// The validated control prefix, borrowed from the caller's source.
    pub source: &'a [u8],
    /// The number of directives in the prefix.
    pub conversion_count: usize,
}

impl<'a> ValidatedFormat<'a> {
    /// The validated, NUL-free control prefix.
    pub open spec fn source_view(self) -> Seq<u8> {
        self.source@
    }

    /// The number of directives in the prefix, the public `conversion_count`.
    pub open spec fn count_view(self) -> usize {
        self.conversion_count
    }

    /// The prefix scans without an invalid flag and has `conversion_count`
    /// directives.
    pub closed spec fn wf(self) -> bool {
        scan_outcome(self.source_view(), 0) == (ScanOutcome::Valid {
            count: self.conversion_count as nat,
        })
    }

    /// Call after whole-format validation, before evaluating any data operand.
    pub fn check_operand_count(&self, actual: usize) -> (result: Result<(), OperandCountMismatch>)
        ensures
            result == check_count_result(self.count_view(), actual),
    {
        check_operand_count(self.conversion_count, actual)
    }

    /// The validated control prefix, borrowed from the caller's source.
    pub fn source(&self) -> (source: &'a [u8])
        ensures
            source@ == self.source_view(),
    {
        self.source
    }

    /// Length of the source prefix before the first NUL, in bytes.
    pub fn effective_len(&self) -> (len: usize)
        ensures
            len == self.source_view().len(),
    {
        self.source.len()
    }

    /// Every piece of a fresh pass, in order.
    pub fn collect_pieces(&self) -> (pieces: Vec<FormatPiece<'a>>)
        requires
            self.wf(),
        ensures
            pieces_between(pieces@, self.source_view(), 0, self.source_view().len() as int),
            directive_pieces(pieces@) == self.count_view(),
    {
        let ghost s = self.source_view();
        let mut pass = self.pieces();
        let mut pieces: Vec<FormatPiece<'a>> = Vec::new();
        while pass.position() < self.source.len()
            invariant
                s == self.source_view(),
                s.len() == self.source@.len(),
                pass.source_view() == s,
                0 <= pass.position_view() <= s.len(),
                pieces_between(pieces@, s, 0, pass.position_view()),
            decreases s.len() - pass.position_view(),
        {
            let ghost p = pass.position_view();
            let piece = pass.next();
            proof {
                lemma_scan_step_bounds(s, p);
            }
            match piece {
                Some(piece) => {
                    proof {
                        lemma_pieces_between_push(pieces@, piece, s, 0, p);
                    }
                    pieces.push(piece);
                },
                None => {},
            }
        }
        proof {
            lemma_count_is_directive_pieces(pieces@, s, s.len() as int);
        }
        pieces
    }

    /// Start a fresh pass over the validated bytes.
    pub fn pieces(&self) -> (pieces: FormatPieces<'a>)
        requires
            self.wf(),
        ensures
            pieces.source_view() == self.source_view(),
            pieces.position_view() == 0,
    {
        FormatPieces { source: self.source, position: 0 }
    }
}

/// The result of comparing the directive count with the operand count.
pub open spec fn check_count_result(expected: usize, actual: usize) -> Result<(), OperandCountMismatch> {
    if actual == expected {
        Ok(())
    } else {
        Err(OperandCountMismatch { expected, actual })
    }
}

/// Compare the directive count with the operand count.
pub fn check_operand_count(expected: usize, actual: usize) -> (result: Result<(), OperandCountMismatch>)
    ensures
        result == check_count_result(expected, actual),
{
    if actual == expected {
        Ok(())
    } else {
        Err(OperandCountMismatch { expected, actual })
    }
}

/// Infallible piece iteration over a validated control prefix. Each yielded
/// piece borrows its literal/modifier bytes from the caller.
#[derive(Debug)]
pub struct FormatPieces<'a> {
    source: &'a [u8],
    position: usize,
}

impl<'a> FormatPieces<'a> {
    #[verifier::type_invariant]
    spec fn inv(self) -> bool {
        &&& self.position <= self.source@.len()
        &&& scan_outcome(self.source@, self.position as int) is Valid
    }

    /// The bytes being scanned.
    pub closed spec fn source_view(self) -> Seq<u8> {
        self.source@
    }

    /// The offset of the next piece.
    pub closed spec fn position_view(self) -> int {
        self.position as int
    }

    /// The offset of the next piece.
    pub fn position(&self) -> (position: usize)
        ensures
            position == self.position_view(),
    {
        self.position
    }

    /// The next piece, or `None` at the end of the validated prefix.
    pub fn next(&mut self) -> (result: Option<FormatPiece<'a>>)
        ensures
            final(self).source_view() == old(self).source_view(),
            final(self).position_view() <= final(self).source_view().len(),
            old(self).position_view() >= old(self).source_view().len() ==> result is None
                && final(self).position_view() == old(self).position_view(),
            old(self).position_view() < old(self).source_view().len() ==> {
                let s = old(self).source_view();
                let p = old(self).position_view();
                &&& !(scan_step(s, p) is Invalid)
                &&& result matches Some(piece)
                &&& piece_matches(piece, s, p, scan_step(s, p))
                &&& piece_start(piece) == p
                &&& final(self).position_view() == step_end(s, scan_step(s, p))
            },
    {
        proof {
            use_type_invariant(&*self);
        }
        if self.position == self.source.len() {
            return None;
        }
        proof {
            lemma_scan_step_bounds(self.source@, self.position as int);
        }
        let (result, next) = scan_piece(self.source, self.position);
        match result {
            Ok(piece) => {
                self.position = next;
                Some(piece)
            },
            Err(_) => {
                proof {
                    assert(false);
                }
                None
            },
        }
    }
}

/// Validate the entire first-NUL-delimited control string before the caller
/// checks the operand count or evaluates data. Only the borrowed prefix and
/// its conversion count survive this pass; no piece collection is allocated.
pub fn validate_format<'a>(source: &'a [u8]) -> (result: Result<ValidatedFormat<'a>, InvalidFlag<'a>>)
    ensures
        match scan_outcome(control_prefix(source@), 0) {
            ScanOutcome::Valid { count } => result matches Ok(v) && v.source_view()
                == control_prefix(source@) && v.count_view() == count && v.conversion_count == count
                && v.wf(),
            ScanOutcome::Invalid { percent, flag_offset } => result matches Err(e)
                && invalid_matches(e, control_prefix(source@), percent, flag_offset),
        },
{
    let len = source.len();
    let mut end: usize = 0;
    while end < len && source[end] != 0
        invariant
            len == source@.len(),
            end <= len,
            first_nul_from(source@, 0) == first_nul_from(source@, end as int),
        decreases len - end,
    {
        end += 1;
    }
    let prefix = slice_subrange(source, 0, end);
    let ghost s = prefix@;
    assert(s == control_prefix(source@));
    let mut position: usize = 0;
    let mut count: usize = 0;
    while position < end
        invariant
            end == s.len(),
            s == prefix@,
            s == control_prefix(source@),
            position <= end,
            count <= position,
            add_count(scan_outcome(s, position as int), count as nat) == scan_outcome(s, 0),
        decreases end - position,
    {
        proof {
            lemma_scan_step_bounds(s, position as int);
        }
        let (piece, next) = scan_piece(prefix, position);
        match piece {
            Ok(piece) => {
                proof {
                    lemma_scan_outcome_unfold(s, position as int);
                }
                if let FormatPiece::Directive(_) = piece {
                    count += 1;
                }
                position = next;
            },
            Err(error) => {
                proof {
                    let fo = choose|fo: int| scan_step(s, position as int) == (ScanStep::Invalid { flag_offset: fo });
                    assert(scan_outcome(s, position as int) == (ScanOutcome::Invalid {
                        percent: position as int,
                        flag_offset: fo,
                    }));
                }
                return Err(error);
            },
        }
    }
    Ok(ValidatedFormat { source: prefix, conversion_count: count })
}

/// A collected view of the pieces of a control string.
#[derive(Debug, PartialEq, Eq)]
pub struct FormatPlan<'a> {
    pub pieces: Vec<FormatPiece<'a>>,
    pub conversion_count: usize,
    pub effective_len: usize,
}

impl FormatPlan<'_> {
    /// Compare the directive count with the operand count.
    pub fn check_operand_count(&self, actual: usize) -> (result: Result<(), OperandCountMismatch>)
        ensures
            result == check_count_result(self.conversion_count, actual),
    {
        check_operand_count(self.conversion_count, actual)
    }
}

/// Validate a control string and collect all of its pieces.
pub fn scan_format<'a>(source: &'a [u8]) -> (result: Result<FormatPlan<'a>, InvalidFlag<'a>>)
    ensures
        match scan_outcome(control_prefix(source@), 0) {
            ScanOutcome::Valid { count } => result matches Ok(plan) && plan.conversion_count
                == count && plan.effective_len == control_prefix(source@).len() && pieces_between(
                plan.pieces@,
                control_prefix(source@),
                0,
                control_prefix(source@).len() as int,
            ),
            ScanOutcome::Invalid { percent, flag_offset } => result matches Err(e)
                && invalid_matches(e, control_prefix(source@), percent, flag_offset),
        },
{
    let validated = match validate_format(source) {
        Ok(validated) => validated,
        Err(error) => {
            return Err(error);
        },
    };
    let ghost s = validated.source_view();
    let effective_len = validated.effective_len();
    let mut pieces_iter = validated.pieces();
    let mut pieces: Vec<FormatPiece<'a>> = Vec::new();
    loop
        invariant
            pieces_iter.source_view() == s,
            effective_len == s.len(),
            0 <= pieces_iter.position_view() <= s.len(),
            pieces_between(pieces@, s, 0, pieces_iter.position_view()),
        ensures
            pieces_between(pieces@, s, 0, s.len() as int),
        decreases s.len() - pieces_iter.position_view(),
    {
        let ghost before = pieces_iter.position_view();
        match pieces_iter.next() {
            Some(piece) => {
                proof {
                    lemma_scan_step_bounds(s, before);
                    lemma_pieces_between_push(pieces@, piece, s, 0, before);
                }
                pieces.push(piece);
            },
            None => {
                break;
            },
        }
    }
    Ok(FormatPlan { pieces, conversion_count: validated.conversion_count, effective_len })
}

impl Directive<'_> {
    /// Reconstruct CLIPS's small intermediate printf fragment, including its
    /// inserted `ll` for integer/radix conversions. This is source spelling,
    /// not a rendered-result fallback.
    pub fn clips_printf_fragment(&self) -> (fragment: Vec<u8>)
        ensures
            fragment@ == seq![37u8] + self.raw_modifiers@ + (if is_integer_conversion(
                self.conversion,
            ) {
                seq![108u8, 108u8]
            } else {
                Seq::<u8>::empty()
            }) + seq![conversion_byte(self.conversion)],
    {
        let mut fragment: Vec<u8> = Vec::new();
        fragment.push(37u8);
        fragment.extend_from_slice(self.raw_modifiers);
        if self.conversion.is_integer() {
            fragment.push(108u8);
            fragment.push(108u8);
        }
        fragment.push(self.conversion.as_byte());
        proof {
            assert(fragment@ =~= seq![37u8] + self.raw_modifiers@ + (if is_integer_conversion(
                self.conversion,
            ) {
                seq![108u8, 108u8]
            } else {
                Seq::<u8>::empty()
            }) + seq![conversion_byte(self.conversion)]);
        }
        fragment
    }
}

} // verus!
