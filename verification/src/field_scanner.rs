//! Incremental byte field scanning for CLIPS runtime string and router
//! consumers.
//!
//! The byte grammar is the CLIPS 6.30 field grammar, and a quoted backspace
//! erases as CLIPS string expansion does. The caller owns value
//! construction, diagnostics, evaluator flags and builtin-specific
//! STOP/UNKNOWN handling. A FLOAT token carries its decimal spelling; the
//! embedding converts it to a double.

use crate::formatting::format_parser::{control_prefix, decimal_value, first_nul_from, is_digit};
use std::ops::Range;
use vstd::prelude::*;
use vstd::slice::{slice_subrange, slice_to_vec};
use vstd::std_specs::cmp::PartialEqSpecImpl;
use vstd::string::StringSliceAdditionalSpecFns;

verus! {

/// Distinguishes a CLIPS string source, which ends at its first NUL, from a
/// router byte stream.
#[derive(Clone, Copy, Debug, PartialEq, Eq)]
pub enum SourceKind {
    ClipsString,
    ByteStream,
}

/// How a scanner reads its input.
#[derive(Clone, Copy, Debug, PartialEq, Eq)]
pub struct ScanPolicy {
    pub source: SourceKind,
    pub report_incomplete_string: bool,
}

impl Default for ScanPolicy {
    fn default() -> (policy: Self)
        ensures
            policy == (ScanPolicy { source: SourceKind::ClipsString, report_incomplete_string: true }),
    {
        ScanPolicy { source: SourceKind::ClipsString, report_incomplete_string: true }
    }
}

/// Token bytes: a slice of the scanned input, or bytes that decoding produced.
/// Equal when the bytes are, wherever they live.
#[derive(Debug, Eq)]
pub enum TokenBytes<'a> {
    Borrowed(&'a [u8]),
    Owned(Vec<u8>),
}

impl<'a> View for TokenBytes<'a> {
    type V = Seq<u8>;

    open spec fn view(&self) -> Seq<u8> {
        match self {
            TokenBytes::Borrowed(bytes) => bytes@,
            TokenBytes::Owned(bytes) => bytes@,
        }
    }
}

impl<'a> TokenBytes<'a> {
    /// The bytes, wherever they live.
    pub fn as_slice(&self) -> (bytes: &[u8])
        ensures
            bytes@ == self@,
    {
        match self {
            TokenBytes::Borrowed(bytes) => bytes,
            TokenBytes::Owned(bytes) => bytes.as_slice(),
        }
    }

    /// The same bytes, owned, so that they outlive the input.
    pub fn into_owned(self) -> (owned: TokenBytes<'static>)
        ensures
            owned@ == self@,
            owned is Owned,
    {
        match self {
            TokenBytes::Borrowed(bytes) => TokenBytes::Owned(slice_to_vec(bytes)),
            TokenBytes::Owned(bytes) => TokenBytes::Owned(bytes),
        }
    }
}

impl<'a> PartialEq for TokenBytes<'a> {
    fn eq(&self, other: &Self) -> (equal: bool) {
        let a = self.as_slice();
        let b = other.as_slice();
        if a.len() != b.len() {
            return false;
        }
        let mut i: usize = 0;
        while i < a.len()
            invariant
                a@.len() == b@.len(),
                a@ == self@,
                b@ == other@,
                i <= a@.len(),
                forall|j: int| 0 <= j < i ==> a@[j] == b@[j],
            decreases a@.len() - i,
        {
            if a[i] != b[i] {
                return false;
            }
            i += 1;
        }
        assert(a@ =~= b@);
        true
    }
}

impl<'a> PartialEqSpecImpl for TokenBytes<'a> {
    open spec fn obeys_eq_spec() -> bool {
        true
    }

    open spec fn eq_spec(&self, other: &Self) -> bool {
        self@ == other@
    }
}

/// One scanned field, with where it came from.
#[derive(Debug, PartialEq)]
pub struct ScannedField<'a> {
    pub token: FieldToken<'a>,
    /// Excludes leading whitespace and comments and any peeked delimiter.
    pub source_range: Range<usize>,
    pub next_offset: usize,
    /// These notices do not imply an evaluator error or halt.
    pub notices: Vec<ScanNotice>,
}

#[derive(Debug, PartialEq)]
pub enum FieldToken<'a> {
    Integer(i64),
    /// The decimal spelling of a FLOAT.
    Float(TokenBytes<'a>),
    Symbol(TokenBytes<'a>),
    String(TokenBytes<'a>),
    /// The exact name payload without its outer brackets.
    InstanceName(TokenBytes<'a>),
    Variable {
        kind: VariableKind,
        /// Global names omit the two `*` delimiters as well as the prefix.
        name: TokenBytes<'a>,
        spelling: TokenBytes<'a>,
    },
    Wildcard(WildcardKind),
    Punctuation(PunctuationKind),
    Unknown { byte: u8 },
    Stop(StopReason),
}

#[derive(Clone, Copy, Debug, PartialEq, Eq)]
pub enum VariableKind {
    Single,
    Multifield,
    Global,
    MultifieldGlobal,
}

#[derive(Clone, Copy, Debug, PartialEq, Eq)]
pub enum WildcardKind {
    Single,
    Multifield,
}

#[derive(Clone, Copy, Debug, PartialEq, Eq)]
pub enum PunctuationKind {
    LeftParen,
    RightParen,
    Not,
    Or,
    And,
}

#[derive(Clone, Copy, Debug, PartialEq, Eq)]
pub enum StopReason {
    EndOfInput,
    Nul,
    EndOfText,
}

#[derive(Clone, Copy, Debug, PartialEq, Eq)]
pub enum RangeDirection {
    AboveMaximum,
    BelowMinimum,
}

#[derive(Clone, Copy, Debug, PartialEq, Eq)]
pub enum ScanNoticeChannel {
    Warning,
    Error,
}

/// A recoverable scanner notice.
#[derive(Debug, PartialEq, Eq)]
pub enum ScanNotice {
    IntegerRange { direction: RangeDirection, range: Range<usize> },
    UnterminatedString { range: Range<usize>, escaped_eof: bool },
}

/// A token with its byte payloads taken by value.
pub enum TokenView {
    Integer(i64),
    Float(Seq<u8>),
    Symbol(Seq<u8>),
    String(Seq<u8>),
    InstanceName(Seq<u8>),
    Variable { kind: VariableKind, name: Seq<u8>, spelling: Seq<u8> },
    Wildcard(WildcardKind),
    Punctuation(PunctuationKind),
    Unknown { byte: u8 },
    Stop(StopReason),
}

impl<'a> View for FieldToken<'a> {
    type V = TokenView;

    open spec fn view(&self) -> TokenView {
        match self {
            FieldToken::Integer(v) => TokenView::Integer(*v),
            FieldToken::Float(b) => TokenView::Float(b@),
            FieldToken::Symbol(b) => TokenView::Symbol(b@),
            FieldToken::String(b) => TokenView::String(b@),
            FieldToken::InstanceName(b) => TokenView::InstanceName(b@),
            FieldToken::Variable { kind, name, spelling } => TokenView::Variable {
                kind: *kind,
                name: name@,
                spelling: spelling@,
            },
            FieldToken::Wildcard(k) => TokenView::Wildcard(*k),
            FieldToken::Punctuation(k) => TokenView::Punctuation(*k),
            FieldToken::Unknown { byte } => TokenView::Unknown { byte: *byte },
            FieldToken::Stop(r) => TokenView::Stop(*r),
        }
    }
}

/// Whether a token's byte payloads other than a string's are slices of the
/// scanned input: only string decoding produces owned bytes.
pub open spec fn borrows_input(token: FieldToken<'_>) -> bool {
    match token {
        FieldToken::Float(b) => b is Borrowed,
        FieldToken::Symbol(b) => b is Borrowed,
        FieldToken::InstanceName(b) => b is Borrowed,
        FieldToken::Variable { name, spelling, .. } => name is Borrowed && spelling is Borrowed,
        _ => true,
    }
}

/// Whether every byte payload of a token is owned, independent of the input.
pub open spec fn owns_payloads(token: FieldToken<'_>) -> bool {
    match token {
        FieldToken::Float(b) => b is Owned,
        FieldToken::Symbol(b) => b is Owned,
        FieldToken::String(b) => b is Owned,
        FieldToken::InstanceName(b) => b is Owned,
        FieldToken::Variable { name, spelling, .. } => name is Owned && spelling is Owned,
        _ => true,
    }
}

// ---------------------------------------------------------------------------
// Byte classes.

#[verifier::allow_in_spec]
pub fn is_alphabetic(byte: u8) -> bool
    returns
        (65 <= byte <= 90) || (97 <= byte <= 122),
{
    (65 <= byte && byte <= 90) || (97 <= byte && byte <= 122)
}

#[verifier::allow_in_spec]
pub fn is_graphic(byte: u8) -> bool
    returns
        33 <= byte <= 126,
{
    33 <= byte && byte <= 126
}

#[verifier::allow_in_spec]
pub fn is_utf8_start(byte: u8) -> bool
    returns
        0xc0 <= byte <= 0xf7,
{
    0xc0 <= byte && byte <= 0xf7
}

#[verifier::allow_in_spec]
pub fn is_utf8_continuation(byte: u8) -> bool
    returns
        0x80 <= byte <= 0xbf,
{
    0x80 <= byte && byte <= 0xbf
}

/// `< " ( ) & | ~`, space and `;`: bytes that end a symbol.
pub open spec fn is_field_delimiter(byte: u8) -> bool {
    byte == 60 || byte == 34 || byte == 40 || byte == 41 || byte == 38 || byte == 124 || byte
        == 126 || byte == 32 || byte == 59
}

#[verifier::allow_in_spec]
pub fn is_symbol_continuation(byte: u8) -> bool
    returns
        !is_field_delimiter(byte) && (is_graphic(byte) || is_utf8_start(byte)
            || is_utf8_continuation(byte)),
{
    !(byte == 60 || byte == 34 || byte == 40 || byte == 41 || byte == 38 || byte == 124 || byte
        == 126 || byte == 32 || byte == 59) && (is_graphic(byte) || is_utf8_start(byte)
        || is_utf8_continuation(byte))
}

/// Space, newline, form feed, carriage return and tab.
pub open spec fn is_whitespace(byte: u8) -> bool {
    byte == 32 || byte == 10 || byte == 12 || byte == 13 || byte == 9
}

// ---------------------------------------------------------------------------
// The grammar.

/// Where a scanner over `input` stops reading.
pub open spec fn source_end(input: Seq<u8>, source: SourceKind) -> int {
    match source {
        SourceKind::ClipsString => first_nul_from(input, 0),
        SourceKind::ByteStream => input.len() as int,
    }
}

/// The position after whitespace and `;` comments, which end after a line
/// break or at the end.
pub open spec fn skip_from(s: Seq<u8>, i: int, end: int, in_comment: bool) -> int
    decreases end - i,
{
    if i < end {
        if in_comment {
            skip_from(s, i + 1, end, !(s[i] == 10 || s[i] == 13))
        } else if is_whitespace(s[i]) {
            skip_from(s, i + 1, end, false)
        } else if s[i] == 59 {
            skip_from(s, i + 1, end, true)
        } else {
            i
        }
    } else {
        i
    }
}

/// The end of the run of symbol bytes at `i`.
pub open spec fn symbol_end(s: Seq<u8>, i: int, end: int) -> int
    decreases end - i,
{
    if i < end && is_symbol_continuation(s[i]) {
        symbol_end(s, i + 1, end)
    } else {
        i
    }
}

/// A token, where the scan resumes, and the notices it raised.
pub struct FieldModel {
    pub token: TokenView,
    pub next: int,
    pub notices: Seq<ScanNotice>,
}

pub open spec fn plain_field(token: TokenView, next: int) -> FieldModel {
    FieldModel { token, next, notices: Seq::empty() }
}

/// `[name]` of at least three bytes is an instance name, else a symbol.
pub open spec fn bracketed_or_symbol(s: Seq<u8>, start: int, stop: int) -> TokenView {
    let spelling = s.subrange(start, stop);
    if spelling.len() > 2 && spelling[0] == 91 && spelling.last() == 93 {
        TokenView::InstanceName(s.subrange(start + 1, stop - 1))
    } else {
        TokenView::Symbol(spelling)
    }
}

pub open spec fn variable_kind(multifield: bool, global: bool) -> VariableKind {
    if multifield {
        if global {
            VariableKind::MultifieldGlobal
        } else {
            VariableKind::Multifield
        }
    } else if global {
        VariableKind::Global
    } else {
        VariableKind::Single
    }
}

/// A variable or wildcard whose prefix `?` or `$?` ends at `i`.
pub open spec fn variable_field(s: Seq<u8>, start: int, i: int, end: int, multifield: bool) -> FieldModel {
    if !(i < end && (is_alphabetic(s[i]) || is_utf8_start(s[i]) || s[i] == 42)) {
        plain_field(
            TokenView::Wildcard(
                if multifield {
                    WildcardKind::Multifield
                } else {
                    WildcardKind::Single
                },
            ),
            i,
        )
    } else {
        let stop = symbol_end(s, i, end);
        let name = s.subrange(i, stop);
        let global = name.len() > 1 && name[0] == 42 && name.last() == 42;
        plain_field(
            TokenView::Variable {
                kind: variable_kind(multifield, global),
                name: if global {
                    s.subrange(i + 1, stop - 1)
                } else {
                    name
                },
                spelling: s.subrange(start, stop),
            },
            stop,
        )
    }
}

/// The states of the numeric phase machine.
#[derive(Clone, Copy, Debug, PartialEq, Eq, Structural)]
pub enum NumberPhase {
    Sign,
    Integral,
    Decimal,
    ExponentStart,
    ExponentValue,
}

/// Whether a numeric spelling ends before `byte` in `phase`.
#[verifier::allow_in_spec]
pub fn number_delimiter(byte: Option<u8>, phase: NumberPhase) -> bool
    returns
        match byte {
            None => true,
            Some(b) => is_field_delimiter(b) || (!is_graphic(b) && (phase is Sign
                || !is_utf8_start(b))),
        },
{
    match byte {
        None => true,
        Some(b) => (b == 60 || b == 34 || b == 40 || b == 41 || b == 38 || b == 124 || b == 126
            || b == 32 || b == 59) || (!is_graphic(b) && (matches!(phase, NumberPhase::Sign)
            || !is_utf8_start(b))),
    }
}

/// How the numeric phase machine ended.
pub enum NumberWalk {
    /// A delimiter at `stop`; `mantissa` says a mantissa digit was seen and
    /// no exponent was left without digits.
    Delimited { stop: int, mantissa: bool, floating: bool },
    /// A byte at `at` makes the spelling a symbol.
    Fallback { at: int },
}

pub open spec fn delimited_walk(s: Seq<u8>, i: int, phase: NumberPhase, mantissa: bool, floating: bool) -> NumberWalk {
    let dangling = phase is ExponentStart || (phase is ExponentValue && (s[i - 1] == 43 || s[i
        - 1] == 45));
    NumberWalk::Delimited { stop: i, mantissa: mantissa && !dangling, floating }
}

pub open spec fn number_walk(s: Seq<u8>, i: int, end: int, phase: NumberPhase, mantissa: bool, floating: bool) -> NumberWalk
    decreases end - i,
{
    if i < end {
        let b = s[i];
        if phase is Sign && (b == 43 || b == 45) {
            number_walk(s, i + 1, end, NumberPhase::Integral, mantissa, floating)
        } else if (phase is Sign || phase is Integral) && is_digit(b) {
            number_walk(s, i + 1, end, NumberPhase::Integral, true, floating)
        } else if (phase is Sign || phase is Integral) && b == 46 {
            number_walk(s, i + 1, end, NumberPhase::Decimal, mantissa, true)
        } else if phase is Decimal && is_digit(b) {
            number_walk(s, i + 1, end, NumberPhase::Decimal, true, floating)
        } else if (phase is Sign || phase is Integral || phase is Decimal) && (b == 101 || b == 69) {
            number_walk(s, i + 1, end, NumberPhase::ExponentStart, mantissa, true)
        } else if phase is ExponentStart && (is_digit(b) || b == 43 || b == 45) {
            number_walk(s, i + 1, end, NumberPhase::ExponentValue, mantissa, floating)
        } else if phase is ExponentValue && is_digit(b) {
            number_walk(s, i + 1, end, NumberPhase::ExponentValue, mantissa, floating)
        } else if number_delimiter(Some(b), phase) {
            delimited_walk(s, i, phase, mantissa, floating)
        } else {
            NumberWalk::Fallback { at: i }
        }
    } else {
        delimited_walk(s, i, phase, mantissa, floating)
    }
}

/// A decimal INTEGER spelling's value, saturated to the 64-bit range, with
/// the direction of any saturation.
pub open spec fn integer_value(bytes: Seq<u8>) -> (i64, Option<RangeDirection>) {
    let negative = bytes.len() > 0 && bytes[0] == 45;
    let signed = bytes.len() > 0 && (bytes[0] == 43 || bytes[0] == 45);
    let magnitude = decimal_value(
        if signed {
            bytes.skip(1)
        } else {
            bytes
        },
    );
    if negative {
        if magnitude > 0x8000_0000_0000_0000 {
            (i64::MIN, Some(RangeDirection::BelowMinimum))
        } else {
            ((-magnitude) as i64, None)
        }
    } else if magnitude > 0x7fff_ffff_ffff_ffff {
        (i64::MAX, Some(RangeDirection::AboveMaximum))
    } else {
        (magnitude as i64, None)
    }
}

/// The signed decimal value of an INTEGER spelling: an optional sign and
/// decimal digits.
pub open spec fn signed_decimal(bytes: Seq<u8>) -> int {
    let negative = bytes.len() > 0 && bytes[0] == 45;
    let signed = bytes.len() > 0 && (bytes[0] == 43 || bytes[0] == 45);
    let magnitude = decimal_value(if signed { bytes.skip(1) } else { bytes });
    if negative { -magnitude } else { magnitude as int }
}

/// `v` clamped to the 64-bit range.
pub open spec fn clamp_i64(v: int) -> int {
    if v > i64::MAX { i64::MAX as int } else if v < i64::MIN { i64::MIN as int } else { v }
}

/// The side of the 64-bit range that `v` falls off, if any.
pub open spec fn range_direction(v: int) -> Option<RangeDirection> {
    if v > i64::MAX {
        Some(RangeDirection::AboveMaximum)
    } else if v < i64::MIN {
        Some(RangeDirection::BelowMinimum)
    } else {
        None
    }
}

/// A field that starts with a digit, sign or dot.
pub open spec fn number_field(s: Seq<u8>, start: int, end: int) -> FieldModel {
    match number_walk(s, start, end, NumberPhase::Sign, false, false) {
        NumberWalk::Fallback { at } => {
            let stop = symbol_end(s, at + 1, end);
            plain_field(bracketed_or_symbol(s, start, stop), stop)
        },
        NumberWalk::Delimited { stop, mantissa, floating } => {
            let bytes = s.subrange(start, stop);
            if !mantissa {
                plain_field(TokenView::Symbol(bytes), stop)
            } else if floating {
                plain_field(TokenView::Float(bytes), stop)
            } else {
                let (value, direction) = integer_value(bytes);
                FieldModel {
                    token: TokenView::Integer(value),
                    next: stop,
                    notices: match direction {
                        Some(direction) => seq![
                            ScanNotice::IntegerRange {
                                direction,
                                range: Range { start: start as usize, end: stop as usize },
                            },
                        ],
                        None => Seq::empty(),
                    },
                }
            }
        },
    }
}

/// A backspace erases the last byte together with the UTF-8 continuation
/// bytes before it, but never the first byte through a continuation run.
pub open spec fn erase_last(out: Seq<u8>) -> Seq<u8>
    decreases out.len(),
{
    if out.len() > 1 && is_utf8_continuation(out.last()) {
        erase_last(out.drop_last())
    } else if out.len() == 0 {
        out
    } else {
        out.drop_last()
    }
}

pub open spec fn string_byte_appended(out: Seq<u8>, byte: u8) -> Seq<u8> {
    if byte == 8 {
        erase_last(out)
    } else {
        out.push(byte)
    }
}

/// How a quoted string's bytes were read.
pub struct StringWalk {
    pub terminated: bool,
    /// The closing quote, or the end of the input.
    pub stop: int,
    pub escaped_eof: bool,
    pub decoded: Seq<u8>,
    /// Whether a backslash or backspace made the value differ from a slice.
    pub transformed: bool,
}

pub open spec fn string_walk(s: Seq<u8>, i: int, end: int, acc: Seq<u8>, transformed: bool, escaped: bool) -> StringWalk
    decreases end - i,
{
    if i < end {
        if s[i] == 34 {
            StringWalk { terminated: true, stop: i, escaped_eof: escaped, decoded: acc, transformed }
        } else if s[i] == 92 {
            if i + 1 < end {
                string_walk(s, i + 2, end, string_byte_appended(acc, s[i + 1]), true, escaped)
            } else {
                string_walk(s, i + 1, end, string_byte_appended(acc, 255), true, true)
            }
        } else {
            string_walk(s, i + 1, end, string_byte_appended(acc, s[i]), transformed || s[i] == 8, escaped)
        }
    } else {
        StringWalk { terminated: false, stop: i, escaped_eof: escaped, decoded: acc, transformed }
    }
}

/// The walk of the string whose opening quote is at `start`.
pub open spec fn string_walk_at(s: Seq<u8>, start: int, end: int) -> StringWalk {
    string_walk(s, start + 1, end, Seq::empty(), false, false)
}

/// A quoted string: its value ends at the first NUL it decoded.
pub open spec fn string_field(s: Seq<u8>, start: int, end: int, report: bool) -> FieldModel {
    let w = string_walk_at(s, start, end);
    FieldModel {
        token: TokenView::String(control_prefix(w.decoded)),
        next: if w.terminated {
            w.stop + 1
        } else {
            w.stop
        },
        notices: if !w.terminated && report {
            seq![
                ScanNotice::UnterminatedString {
                    range: Range { start: start as usize, end: w.stop as usize },
                    escaped_eof: w.escaped_eof,
                },
            ]
        } else {
            Seq::empty()
        },
    }
}

pub open spec fn punctuation_of(byte: u8) -> Option<PunctuationKind> {
    if byte == 40 {
        Some(PunctuationKind::LeftParen)
    } else if byte == 41 {
        Some(PunctuationKind::RightParen)
    } else if byte == 126 {
        Some(PunctuationKind::Not)
    } else if byte == 124 {
        Some(PunctuationKind::Or)
    } else if byte == 38 {
        Some(PunctuationKind::And)
    } else {
        None
    }
}

/// The field that starts at `start`, which is past whitespace and comments.
pub open spec fn field_at(s: Seq<u8>, start: int, end: int, report: bool) -> FieldModel {
    if start < end {
        let b = s[start];
        if is_alphabetic(b) || is_utf8_start(b) {
            let stop = symbol_end(s, start, end);
            plain_field(TokenView::Symbol(s.subrange(start, stop)), stop)
        } else if is_digit(b) || b == 45 || b == 43 || b == 46 {
            number_field(s, start, end)
        } else if b == 34 {
            string_field(s, start, end, report)
        } else if b == 63 {
            variable_field(s, start, start + 1, end, false)
        } else if b == 36 {
            if start + 1 < end && s[start + 1] == 63 {
                variable_field(s, start, start + 2, end, true)
            } else {
                let stop = symbol_end(s, start + 1, end);
                plain_field(TokenView::Symbol(s.subrange(start, stop)), stop)
            }
        } else if b == 60 {
            let stop = symbol_end(s, start + 1, end);
            plain_field(TokenView::Symbol(s.subrange(start, stop)), stop)
        } else if punctuation_of(b) is Some {
            plain_field(TokenView::Punctuation(punctuation_of(b)->0), start + 1)
        } else if b == 0 {
            plain_field(TokenView::Stop(StopReason::Nul), start + 1)
        } else if b == 3 {
            plain_field(TokenView::Stop(StopReason::EndOfText), start + 1)
        } else if is_graphic(b) {
            let stop = symbol_end(s, start, end);
            plain_field(bracketed_or_symbol(s, start, stop), stop)
        } else {
            plain_field(TokenView::Unknown { byte: b }, start + 1)
        }
    } else {
        plain_field(TokenView::Stop(StopReason::EndOfInput), start)
    }
}

// ---------------------------------------------------------------------------
// Scanning.

/// The index of the first NUL in `bytes`, or its length.
fn first_nul(bytes: &[u8]) -> (k: usize)
    ensures
        k == first_nul_from(bytes@, 0),
        k <= bytes@.len(),
{
    let mut k: usize = 0;
    while k < bytes.len() && bytes[k] != 0u8
        invariant
            k <= bytes@.len(),
            first_nul_from(bytes@, k as int) == first_nul_from(bytes@, 0),
        decreases bytes@.len() - k,
    {
        k += 1;
    }
    k
}

/// The saturated value of a decimal INTEGER spelling: an optional sign and
/// decimal digits.
pub fn scan_integer(bytes: &[u8]) -> (result: (i64, Option<RangeDirection>))
    requires
        forall|j: int|
            0 <= j < bytes@.len() ==> is_digit(#[trigger] bytes@[j]) || (j == 0 && (bytes@[j] == 43
                || bytes@[j] == 45)),
    ensures
        result == integer_value(bytes@),
        result.0 == clamp_i64(signed_decimal(bytes@)),
        result.1 == range_direction(signed_decimal(bytes@)),
{
    proof {
        lemma_integer_value_saturates(bytes@);
    }
    let negative = bytes.len() > 0 && bytes[0] == 45u8;
    let signed = bytes.len() > 0 && (bytes[0] == 43u8 || bytes[0] == 45u8);
    let first: usize = if signed {
        1
    } else {
        0
    };
    let limit: u64 = if negative {
        0x8000_0000_0000_0000
    } else {
        0x7fff_ffff_ffff_ffff
    };
    let ghost digits = if signed {
        bytes@.skip(1)
    } else {
        bytes@
    };
    let mut magnitude: u64 = 0;
    let mut overflow = false;
    let mut k: usize = first;
    proof {
        assert(digits.take(0) =~= Seq::<u8>::empty());
    }
    while k < bytes.len()
        invariant
            first <= k <= bytes@.len(),
            first == (if signed {
                1int
            } else {
                0int
            }),
            digits =~= bytes@.skip(first as int),
            signed ==> bytes@.len() > 0,
            forall|j: int|
                0 <= j < bytes@.len() ==> is_digit(#[trigger] bytes@[j]) || (j == 0 && (bytes@[j]
                    == 43 || bytes@[j] == 45)),
            !signed ==> bytes@.len() == 0 || !(bytes@[0] == 43 || bytes@[0] == 45),
            !overflow ==> magnitude == decimal_value(digits.take(k - first)) && magnitude <= limit,
            overflow ==> decimal_value(digits.take(k - first)) > limit,
        decreases bytes@.len() - k,
    {
        assert(is_digit(bytes@[k as int]));
        let d: u64 = (bytes[k] - 48u8) as u64;
        proof {
            let n = k - first;
            assert(digits.take(n + 1).drop_last() =~= digits.take(n));
            assert(digits.take(n + 1).last() == bytes@[k as int]);
            assert(decimal_value(digits.take(n + 1)) == 10 * decimal_value(digits.take(n)) + d);
        }
        let next: Option<u64> = match magnitude.checked_mul(10) {
            Some(m) => m.checked_add(d),
            None => None,
        };
        match next {
            Some(v) => {
                if v <= limit {
                    magnitude = v;
                } else {
                    overflow = true;
                }
            },
            None => {
                overflow = true;
            },
        }
        k += 1;
    }
    proof {
        assert(digits.take(bytes@.len() - first) =~= digits);
    }
    if overflow {
        if negative {
            (i64::MIN, Some(RangeDirection::BelowMinimum))
        } else {
            (i64::MAX, Some(RangeDirection::AboveMaximum))
        }
    } else if negative && magnitude == 0x8000_0000_0000_0000 {
        (i64::MIN, None)
    } else {
        let value = magnitude as i64;
        (
            if negative {
                -value
            } else {
                value
            },
            None,
        )
    }
}

/// Append one decoded string byte; a backspace erases instead.
pub fn append_string_byte(output: &mut Vec<u8>, byte: u8)
    ensures
        final(output)@ == string_byte_appended(old(output)@, byte),
        byte != 8 ==> final(output)@ == old(output)@.push(byte),
        byte == 8 && old(output)@.len() == 0 ==> final(output)@ == old(output)@,
        byte == 8 && old(output)@.len() > 0 ==> exists|kept: int|
            0 <= kept < old(output)@.len() && (kept == 0 || !is_utf8_continuation(old(output)@[kept]))
                && (forall|i: int| kept < i < old(output)@.len() ==> is_utf8_continuation(#[trigger] old(output)@[i]))
                && final(output)@ == #[trigger] old(output)@.take(kept),
{
    proof {
        lemma_string_byte_appended(old(output)@, byte);
    }
    if byte == 8u8 {
        while output.len() > 1 && is_utf8_continuation(output[output.len() - 1])
            invariant
                erase_last(output@) == erase_last(old(output)@),
            decreases output@.len(),
        {
            proof {
                assert(output@.drop_last() =~= output@.subrange(0, output@.len() - 1));
            }
            output.pop();
        }
        proof {
            assert(output@.drop_last() =~= output@.subrange(0, output@.len() - 1));
        }
        output.pop();
    } else {
        output.push(byte);
    }
}

/// Skip whitespace and `;` comments from `cursor`.
fn skip_whitespace_and_comments(input: &[u8], cursor: usize, end: usize) -> (next: usize)
    requires
        cursor <= end <= input@.len(),
    ensures
        next == skip_from(input@, cursor as int, end as int, false),
        cursor <= next <= end,
{
    let mut i = cursor;
    let mut in_comment = false;
    while i < end
        invariant
            cursor <= i <= end <= input@.len(),
            skip_from(input@, i as int, end as int, in_comment) == skip_from(
                input@,
                cursor as int,
                end as int,
                false,
            ),
        decreases end - i,
    {
        let byte = input[i];
        if in_comment {
            i += 1;
            if byte == 10u8 || byte == 13u8 {
                in_comment = false;
            }
        } else if byte == 32u8 || byte == 10u8 || byte == 12u8 || byte == 13u8 || byte == 9u8 {
            i += 1;
        } else if byte == 59u8 {
            i += 1;
            in_comment = true;
        } else {
            return i;
        }
    }
    i
}

/// The end of the run of symbol bytes at `cursor`.
fn consume_symbol_suffix(input: &[u8], cursor: usize, end: usize) -> (stop: usize)
    requires
        cursor <= end <= input@.len(),
    ensures
        stop == symbol_end(input@, cursor as int, end as int),
        cursor <= stop <= end,
{
    let mut i = cursor;
    while i < end && is_symbol_continuation(input[i])
        invariant
            cursor <= i <= end <= input@.len(),
            symbol_end(input@, i as int, end as int) == symbol_end(input@, cursor as int, end as int),
        decreases end - i,
    {
        i += 1;
    }
    i
}

/// An instance name if the spelling is bracketed, else a symbol.
fn symbol_or_instance<'a>(input: &'a [u8], start: usize, stop: usize) -> (token: FieldToken<'a>)
    requires
        start <= stop <= input@.len(),
    ensures
        token@ == bracketed_or_symbol(input@, start as int, stop as int),
        borrows_input(token),
{
    let spelling = slice_subrange(input, start, stop);
    if spelling.len() > 2 && spelling[0] == 91u8 && spelling[spelling.len() - 1] == 93u8 {
        let name = slice_subrange(spelling, 1, spelling.len() - 1);
        assert(name@ =~= input@.subrange(start + 1, stop - 1));
        FieldToken::InstanceName(TokenBytes::Borrowed(name))
    } else {
        FieldToken::Symbol(TokenBytes::Borrowed(spelling))
    }
}

/// A variable whose `?` or `$?` prefix ends at `cursor`, or a wildcard.
fn scan_variable<'a>(input: &'a [u8], start: usize, cursor: usize, end: usize, multifield: bool) -> (result: (
    FieldToken<'a>,
    usize,
))
    requires
        start < cursor <= end <= input@.len(),
    ensures
        result.0@ == variable_field(input@, start as int, cursor as int, end as int, multifield).token,
        result.1 == variable_field(input@, start as int, cursor as int, end as int, multifield).next,
        cursor <= result.1 <= end,
        borrows_input(result.0),
{
    if !(cursor < end && (is_alphabetic(input[cursor]) || is_utf8_start(input[cursor]) || input[cursor]
        == 42u8)) {
        let kind = if multifield {
            WildcardKind::Multifield
        } else {
            WildcardKind::Single
        };
        return (FieldToken::Wildcard(kind), cursor);
    }
    let stop = consume_symbol_suffix(input, cursor, end);
    let name = slice_subrange(input, cursor, stop);
    let global = name.len() > 1 && name[0] == 42u8 && name[name.len() - 1] == 42u8;
    let kind = if multifield {
        if global {
            VariableKind::MultifieldGlobal
        } else {
            VariableKind::Multifield
        }
    } else if global {
        VariableKind::Global
    } else {
        VariableKind::Single
    };
    let name_bytes = if global {
        let inner = slice_subrange(name, 1, name.len() - 1);
        assert(inner@ =~= input@.subrange(cursor + 1, stop - 1));
        inner
    } else {
        name
    };
    let spelling = slice_subrange(input, start, stop);
    (
        FieldToken::Variable {
            kind,
            name: TokenBytes::Borrowed(name_bytes),
            spelling: TokenBytes::Borrowed(spelling),
        },
        stop,
    )
}

/// A quoted string whose opening quote is at `start`.
fn scan_string<'a>(
    input: &'a [u8],
    start: usize,
    end: usize,
    report: bool,
    notices: &mut Vec<ScanNotice>,
) -> (result: (FieldToken<'a>, usize))
    requires
        start < end <= input@.len(),
        input@[start as int] == 34,
    ensures
        result.0@ == string_field(input@, start as int, end as int, report).token,
        result.1 == string_field(input@, start as int, end as int, report).next,
        start < result.1 <= end,
        final(notices)@ == old(notices)@ + string_field(input@, start as int, end as int, report).notices,
        result.0 matches FieldToken::String(value) && (value is Borrowed <==> !string_walk_at(
            input@,
            start as int,
            end as int,
        ).transformed),
{
    let ghost s = input@;
    let content_start = start + 1;
    let mut cursor = content_start;
    let mut decoded: Vec<u8> = Vec::new();
    let mut transformed = false;
    let mut escaped_eof = false;
    proof {
        assert(s.subrange(content_start as int, content_start as int) =~= Seq::<u8>::empty());
    }
    while cursor < end && input[cursor] != 34u8
        invariant
            content_start <= cursor <= end <= s.len(),
            content_start == start + 1,
            s == input@,
            string_walk(
                s,
                cursor as int,
                end as int,
                if transformed {
                    decoded@
                } else {
                    s.subrange(content_start as int, cursor as int)
                },
                transformed,
                escaped_eof,
            ) == string_walk_at(s, start as int, end as int),
        decreases end - cursor,
    {
        let byte = input[cursor];
        let ghost c = cursor as int;
        let ghost acc = if transformed {
            decoded@
        } else {
            s.subrange(content_start as int, c)
        };
        let mut appended = byte;
        if (byte == 92u8 || byte == 8u8) && !transformed {
            decoded = slice_to_vec(slice_subrange(input, content_start, cursor));
            transformed = true;
        }
        cursor += 1;
        if byte == 92u8 {
            if cursor < end {
                appended = input[cursor];
                cursor += 1;
            } else {
                appended = 255u8;
                escaped_eof = true;
            }
        }
        if transformed {
            append_string_byte(&mut decoded, appended);
        }
        proof {
            if !transformed {
                assert(s.subrange(content_start as int, c + 1) =~= acc.push(byte));
            }
        }
    }
    let terminated = cursor < end;
    let content_end = cursor;
    let next = if terminated {
        cursor + 1
    } else {
        cursor
    };
    if !terminated && report {
        let notice = ScanNotice::UnterminatedString { range: start..content_end, escaped_eof };
        notices.push(notice);
    }
    proof {
        assert(old(notices)@ + string_field(s, start as int, end as int, report).notices =~= notices@);
    }
    let value = if transformed {
        let nul = first_nul(decoded.as_slice());
        decoded.truncate(nul);
        proof {
            let w = string_walk_at(s, start as int, end as int);
            assert(decoded@ =~= control_prefix(w.decoded));
        }
        TokenBytes::Owned(decoded)
    } else {
        let bytes = slice_subrange(input, content_start, content_end);
        let nul = first_nul(bytes);
        let prefix = slice_subrange(bytes, 0, nul);
        proof {
            assert(prefix@ =~= control_prefix(bytes@));
        }
        TokenBytes::Borrowed(prefix)
    };
    (FieldToken::String(value), next)
}

/// A field that starts with a digit, sign or dot: an INTEGER, a FLOAT
/// spelling, or a symbol where the numeric grammar fails.
fn scan_number<'a>(input: &'a [u8], start: usize, end: usize, notices: &mut Vec<ScanNotice>) -> (result: (
    FieldToken<'a>,
    usize,
))
    requires
        start < end <= input@.len(),
    ensures
        result.0@ == number_field(input@, start as int, end as int).token,
        result.1 == number_field(input@, start as int, end as int).next,
        start <= result.1 <= end,
        final(notices)@ == old(notices)@ + number_field(input@, start as int, end as int).notices,
        borrows_input(result.0),
{
    let ghost s = input@;
    let ghost target = number_walk(s, start as int, end as int, NumberPhase::Sign, false, false);
    let mut phase = NumberPhase::Sign;
    let mut mantissa = false;
    let mut floating = false;
    let mut cursor = start;
    loop
        invariant
            start <= cursor <= end <= s.len(),
            s == input@,
            notices@ == old(notices)@,
            target == number_walk(s, start as int, end as int, NumberPhase::Sign, false, false),
            number_walk(s, cursor as int, end as int, phase, mantissa, floating) == target,
            (phase == NumberPhase::Sign) == (cursor == start),
            !floating ==> (phase == NumberPhase::Sign || phase == NumberPhase::Integral),
            !floating ==> forall|j: int|
                start <= j < cursor ==> is_digit(#[trigger] s[j]) || (j == start && (s[j] == 43
                    || s[j] == 45)),
        ensures
            start <= cursor <= end,
            notices@ == old(notices)@,
            target == delimited_walk(s, cursor as int, phase, mantissa, floating),
            (phase == NumberPhase::Sign) == (cursor == start),
            !floating ==> forall|j: int|
                start <= j < cursor ==> is_digit(#[trigger] s[j]) || (j == start && (s[j] == 43
                    || s[j] == 45)),
        decreases end - cursor,
    {
        let has = cursor < end;
        let b: u8 = if has {
            input[cursor]
        } else {
            0
        };
        let byte: Option<u8> = if has {
            Some(b)
        } else {
            None
        };
        let signs = phase == NumberPhase::Sign;
        let integral = signs || phase == NumberPhase::Integral;
        let digit = 48u8 <= b && b <= 57u8;
        if has && signs && (b == 43u8 || b == 45u8) {
            phase = NumberPhase::Integral;
        } else if has && integral && digit {
            phase = NumberPhase::Integral;
            mantissa = true;
        } else if has && integral && b == 46u8 {
            phase = NumberPhase::Decimal;
            floating = true;
        } else if has && phase == NumberPhase::Decimal && digit {
            mantissa = true;
        } else if has && (integral || phase == NumberPhase::Decimal) && (b == 101u8 || b == 69u8) {
            phase = NumberPhase::ExponentStart;
            floating = true;
        } else if has && phase == NumberPhase::ExponentStart && (digit || b == 43u8 || b == 45u8) {
            phase = NumberPhase::ExponentValue;
        } else if has && phase == NumberPhase::ExponentValue && digit {
        } else if number_delimiter(byte, phase) {
            break ;
        } else {
            // The offending byte belongs to the symbol prefix already read;
            // the symbol's suffix follows it.
            let stop = consume_symbol_suffix(input, cursor + 1, end);
            proof {
                assert(old(notices)@ + Seq::<ScanNotice>::empty() =~= notices@);
            }
            return (symbol_or_instance(input, start, stop), stop);
        }
        cursor += 1;
    }
    let dangling = phase == NumberPhase::ExponentStart || (phase == NumberPhase::ExponentValue && (
    input[cursor - 1] == 43u8 || input[cursor - 1] == 45u8));
    let mantissa = mantissa && !dangling;
    let bytes = slice_subrange(input, start, cursor);
    if !mantissa {
        proof {
            assert(old(notices)@ + Seq::<ScanNotice>::empty() =~= notices@);
        }
        return (FieldToken::Symbol(TokenBytes::Borrowed(bytes)), cursor);
    }
    if floating {
        proof {
            assert(old(notices)@ + Seq::<ScanNotice>::empty() =~= notices@);
        }
        return (FieldToken::Float(TokenBytes::Borrowed(bytes)), cursor);
    }
    proof {
        assert forall|j: int|
            0 <= j < bytes@.len() implies is_digit(#[trigger] bytes@[j]) || (j == 0 && (bytes@[j]
                == 43 || bytes@[j] == 45)) by {
            assert(bytes@[j] == s[start + j]);
        }
    }
    let (value, direction) = scan_integer(bytes);
    match direction {
        Some(direction) => {
            let notice = ScanNotice::IntegerRange { direction, range: start..cursor };
            notices.push(notice);
        },
        None => {},
    }
    proof {
        assert(old(notices)@ + number_field(s, start as int, end as int).notices =~= notices@);
    }
    (FieldToken::Integer(value), cursor)
}

/// The field at `start`, which is past whitespace and comments.
fn scan_field<'a>(input: &'a [u8], start: usize, end: usize, report: bool) -> (result: (
    FieldToken<'a>,
    usize,
    Vec<ScanNotice>,
))
    requires
        start <= end <= input@.len(),
    ensures
        result.0@ == field_at(input@, start as int, end as int, report).token,
        result.1 == field_at(input@, start as int, end as int, report).next,
        result.2@ == field_at(input@, start as int, end as int, report).notices,
        start <= result.1 <= end,
        borrows_input(result.0),
        result.0 matches FieldToken::String(value) ==> (value is Borrowed <==> !string_walk_at(
            input@,
            start as int,
            end as int,
        ).transformed),
{
    let mut notices: Vec<ScanNotice> = Vec::new();
    if start >= end {
        return (FieldToken::Stop(StopReason::EndOfInput), start, notices);
    }
    let byte = input[start];
    if is_alphabetic(byte) || is_utf8_start(byte) {
        let stop = consume_symbol_suffix(input, start, end);
        (FieldToken::Symbol(TokenBytes::Borrowed(slice_subrange(input, start, stop))), stop, notices)
    } else if (48u8 <= byte && byte <= 57u8) || byte == 45u8 || byte == 43u8 || byte == 46u8 {
        let (token, next) = scan_number(input, start, end, &mut notices);
        assert(notices@ =~= field_at(input@, start as int, end as int, report).notices);
        (token, next, notices)
    } else if byte == 34u8 {
        let (token, next) = scan_string(input, start, end, report, &mut notices);
        assert(notices@ =~= field_at(input@, start as int, end as int, report).notices);
        (token, next, notices)
    } else if byte == 63u8 {
        let (token, next) = scan_variable(input, start, start + 1, end, false);
        (token, next, notices)
    } else if byte == 36u8 {
        if start + 1 < end && input[start + 1] == 63u8 {
            let (token, next) = scan_variable(input, start, start + 2, end, true);
            (token, next, notices)
        } else {
            let stop = consume_symbol_suffix(input, start + 1, end);
            (FieldToken::Symbol(TokenBytes::Borrowed(slice_subrange(input, start, stop))), stop, notices)
        }
    } else if byte == 60u8 {
        let stop = consume_symbol_suffix(input, start + 1, end);
        (FieldToken::Symbol(TokenBytes::Borrowed(slice_subrange(input, start, stop))), stop, notices)
    } else if byte == 40u8 {
        (FieldToken::Punctuation(PunctuationKind::LeftParen), start + 1, notices)
    } else if byte == 41u8 {
        (FieldToken::Punctuation(PunctuationKind::RightParen), start + 1, notices)
    } else if byte == 126u8 {
        (FieldToken::Punctuation(PunctuationKind::Not), start + 1, notices)
    } else if byte == 124u8 {
        (FieldToken::Punctuation(PunctuationKind::Or), start + 1, notices)
    } else if byte == 38u8 {
        (FieldToken::Punctuation(PunctuationKind::And), start + 1, notices)
    } else if byte == 0u8 {
        (FieldToken::Stop(StopReason::Nul), start + 1, notices)
    } else if byte == 3u8 {
        (FieldToken::Stop(StopReason::EndOfText), start + 1, notices)
    } else if is_graphic(byte) {
        let stop = consume_symbol_suffix(input, start, end);
        (symbol_or_instance(input, start, stop), stop, notices)
    } else {
        (FieldToken::Unknown { byte }, start + 1, notices)
    }
}

/// A cursor into one complete input buffer. Byte offsets never split
/// ownership; a partial input buffer must not be presented as its end.
#[derive(Debug)]
pub struct FieldScanner<'a> {
    input: &'a [u8],
    cursor: usize,
    end: usize,
    policy: ScanPolicy,
}

impl<'a> FieldScanner<'a> {
    #[verifier::type_invariant]
    spec fn inv(self) -> bool {
        &&& self.cursor <= self.end <= self.input@.len()
        &&& self.end == source_end(self.input@, self.policy.source)
    }

    /// The bytes being scanned.
    pub closed spec fn input_view(self) -> Seq<u8> {
        self.input@
    }

    /// Where the next field scan starts.
    pub closed spec fn cursor_view(self) -> int {
        self.cursor as int
    }

    /// Where reading stops.
    pub closed spec fn end_view(self) -> int {
        self.end as int
    }

    pub closed spec fn policy_view(self) -> ScanPolicy {
        self.policy
    }

    /// A scanner at the start of `input`. A CLIPS string source ends at its
    /// first NUL; computing that limit scans nothing.
    pub fn new(input: &'a [u8], policy: ScanPolicy) -> (scanner: Self)
        ensures
            scanner.input_view() == input@,
            scanner.cursor_view() == 0,
            scanner.end_view() == source_end(input@, policy.source),
            scanner.policy_view() == policy,
    {
        let end = match policy.source {
            SourceKind::ClipsString => first_nul(input),
            SourceKind::ByteStream => input.len(),
        };
        FieldScanner { input, cursor: 0, end, policy }
    }

    /// A scanner over a CLIPS string with the default policy.
    pub fn clips_string(input: &'a [u8]) -> (scanner: Self)
        ensures
            scanner.input_view() == input@,
            scanner.cursor_view() == 0,
            scanner.end_view() == first_nul_from(input@, 0),
            scanner.policy_view() == (ScanPolicy {
                source: SourceKind::ClipsString,
                report_incomplete_string: true,
            }),
    {
        Self::new(input, ScanPolicy::default())
    }

    /// Where the next field scan starts.
    pub fn position(&self) -> (position: usize)
        ensures
            position == self.cursor_view(),
            position <= self.end_view() <= self.input_view().len(),
    {
        proof {
            use_type_invariant(self);
        }
        self.cursor
    }

    /// The unread bytes before the end.
    pub fn remaining(&self) -> (rest: &'a [u8])
        ensures
            rest@ == self.input_view().subrange(self.cursor_view(), self.end_view()),
    {
        proof {
            use_type_invariant(self);
        }
        slice_subrange(self.input, self.cursor, self.end)
    }

    /// Scan the next field, past whitespace and comments.
    pub fn next_token(&mut self) -> (field: ScannedField<'a>)
        ensures
            final(self).input_view() == old(self).input_view(),
            final(self).end_view() == old(self).end_view(),
            final(self).policy_view() == old(self).policy_view(),
            ({
                let s = old(self).input_view();
                let start = skip_from(s, old(self).cursor_view(), old(self).end_view(), false);
                let m = field_at(s, start, old(self).end_view(), old(self).policy_view().report_incomplete_string);
                &&& field.token@ == m.token
                &&& field.source_range == (Range { start: start as usize, end: m.next as usize })
                &&& field.next_offset == m.next
                &&& field.notices@ == m.notices
                &&& final(self).cursor_view() == m.next
                &&& borrows_input(field.token)
                &&& field.token matches FieldToken::String(value) ==> (value is Borrowed
                    <==> !string_walk_at(s, start, old(self).end_view()).transformed)
            }),
    {
        proof {
            use_type_invariant(&*self);
        }
        let start = skip_whitespace_and_comments(self.input, self.cursor, self.end);
        let (token, next, notices) = scan_field(
            self.input,
            start,
            self.end,
            self.policy.report_incomplete_string,
        );
        self.cursor = next;
        ScannedField { token, source_range: start..next, next_offset: next, notices }
    }
}

/// The diagnostic channel of a notice.
pub open spec fn notice_channel(notice: ScanNotice) -> ScanNoticeChannel {
    match notice {
        ScanNotice::IntegerRange { .. } => ScanNoticeChannel::Warning,
        ScanNotice::UnterminatedString { .. } => ScanNoticeChannel::Error,
    }
}

/// The CLIPS message text of a notice.
pub open spec fn notice_message(notice: ScanNotice) -> &'static str {
    match notice {
        ScanNotice::IntegerRange { .. } => "Over or underflow of long long integer.",
        ScanNotice::UnterminatedString { .. } => "Encountered End-Of-File while scanning a string",
    }
}

/// The exact bytes the CLIPS router prints for a notice, with its
/// distinct newline conventions.
pub open spec fn notice_router_text(notice: ScanNotice) -> Seq<u8> {
    match notice {
        ScanNotice::IntegerRange { .. } => "[SCANNER1] WARNING: Over or underflow of long long integer.\n".spec_bytes(),
        ScanNotice::UnterminatedString { .. } => "\n[SCANNER1] Encountered End-Of-File while scanning a string\n".spec_bytes(),
    }
}

pub open spec fn notice_range(notice: ScanNotice) -> Range<usize> {
    match notice {
        ScanNotice::IntegerRange { range, .. } => range,
        ScanNotice::UnterminatedString { range, .. } => range,
    }
}

impl ScanNotice {
    /// The CLIPS diagnostic code, shared by both notices.
    pub fn code(&self) -> (code: &'static str)
        ensures
            code == "SCANNER1",
    {
        "SCANNER1"
    }

    pub fn channel(&self) -> (channel: ScanNoticeChannel)
        ensures
            channel == notice_channel(*self),
    {
        match self {
            ScanNotice::IntegerRange { .. } => ScanNoticeChannel::Warning,
            ScanNotice::UnterminatedString { .. } => ScanNoticeChannel::Error,
        }
    }

    pub fn message(&self) -> (message: &'static str)
        ensures
            message == notice_message(*self),
    {
        match self {
            ScanNotice::IntegerRange { .. } => "Over or underflow of long long integer.",
            ScanNotice::UnterminatedString { .. } => "Encountered End-Of-File while scanning a string",
        }
    }

    /// Exact CLIPS router bytes, including its distinct newline
    /// conventions.
    pub fn router_bytes(&self) -> (bytes: &'static [u8])
        ensures
            bytes@ == notice_router_text(*self),
    {
        match self {
            ScanNotice::IntegerRange { .. } => "[SCANNER1] WARNING: Over or underflow of long long integer.\n".as_bytes(),
            ScanNotice::UnterminatedString { .. } => "\n[SCANNER1] Encountered End-Of-File while scanning a string\n".as_bytes(),
        }
    }

    pub fn range(&self) -> (range: &Range<usize>)
        ensures
            *range == notice_range(*self),
    {
        match self {
            ScanNotice::IntegerRange { range, .. } => range,
            ScanNotice::UnterminatedString { range, .. } => range,
        }
    }
}

/// The print form that string-to-field, explode$ and read use for a
/// non-atomic token; atomic tokens have none.
pub open spec fn print_form(token: TokenView) -> Option<Seq<u8>> {
    match token {
        TokenView::Variable { spelling, .. } => Some(spelling),
        TokenView::Wildcard(WildcardKind::Single) => Some("?".spec_bytes()),
        TokenView::Wildcard(WildcardKind::Multifield) => Some("$?".spec_bytes()),
        TokenView::Punctuation(PunctuationKind::LeftParen) => Some("(".spec_bytes()),
        TokenView::Punctuation(PunctuationKind::RightParen) => Some(")".spec_bytes()),
        TokenView::Punctuation(PunctuationKind::Not) => Some("~".spec_bytes()),
        TokenView::Punctuation(PunctuationKind::Or) => Some("|".spec_bytes()),
        TokenView::Punctuation(PunctuationKind::And) => Some("&".spec_bytes()),
        TokenView::Unknown { .. } => Some("<<<unprintable character>>>".spec_bytes()),
        TokenView::Stop(_) => Some("".spec_bytes()),
        _ => None,
    }
}

impl<'a> FieldToken<'a> {
    /// Owns only the selected token, never its unscanned input suffix.
    pub fn into_owned(self) -> (owned: FieldToken<'static>)
        ensures
            owned@ == self@,
            owns_payloads(owned),
    {
        match self {
            FieldToken::Integer(value) => FieldToken::Integer(value),
            FieldToken::Float(value) => FieldToken::Float(value.into_owned()),
            FieldToken::Symbol(value) => FieldToken::Symbol(value.into_owned()),
            FieldToken::String(value) => FieldToken::String(value.into_owned()),
            FieldToken::InstanceName(value) => FieldToken::InstanceName(value.into_owned()),
            FieldToken::Variable { kind, name, spelling } => FieldToken::Variable {
                kind,
                name: name.into_owned(),
                spelling: spelling.into_owned(),
            },
            FieldToken::Wildcard(kind) => FieldToken::Wildcard(kind),
            FieldToken::Punctuation(kind) => FieldToken::Punctuation(kind),
            FieldToken::Unknown { byte } => FieldToken::Unknown { byte },
            FieldToken::Stop(reason) => FieldToken::Stop(reason),
        }
    }

    /// Print forms for non-atomic tokens. Atomic tokens are converted to
    /// typed runtime values, whose presentation belongs elsewhere.
    pub fn non_atomic_print_form(&self) -> (form: Option<&[u8]>)
        ensures
            match print_form(self@) {
                Some(bytes) => form matches Some(f) && f@ == bytes,
                None => form is None,
            },
    {
        match self {
            FieldToken::Variable { spelling, .. } => Some(spelling.as_slice()),
            FieldToken::Wildcard(WildcardKind::Single) => Some("?".as_bytes()),
            FieldToken::Wildcard(WildcardKind::Multifield) => Some("$?".as_bytes()),
            FieldToken::Punctuation(PunctuationKind::LeftParen) => Some("(".as_bytes()),
            FieldToken::Punctuation(PunctuationKind::RightParen) => Some(")".as_bytes()),
            FieldToken::Punctuation(PunctuationKind::Not) => Some("~".as_bytes()),
            FieldToken::Punctuation(PunctuationKind::Or) => Some("|".as_bytes()),
            FieldToken::Punctuation(PunctuationKind::And) => Some("&".as_bytes()),
            FieldToken::Unknown { .. } => Some("<<<unprintable character>>>".as_bytes()),
            FieldToken::Stop(_) => Some("".as_bytes()),
            _ => None,
        }
    }
}

// ---------------------------------------------------------------------------
// Laws.

proof fn lemma_skip_bounds(s: Seq<u8>, i: int, end: int, in_comment: bool)
    requires
        i <= end,
    ensures
        i <= skip_from(s, i, end, in_comment) <= end,
        skip_from(s, i, end, in_comment) < end ==> s[skip_from(s, i, end, in_comment)] != 59
            && !is_whitespace(s[skip_from(s, i, end, in_comment)]),
    decreases end - i,
{
    if i < end {
        if in_comment {
            lemma_skip_bounds(s, i + 1, end, !(s[i] == 10 || s[i] == 13));
        } else if is_whitespace(s[i]) {
            lemma_skip_bounds(s, i + 1, end, false);
        } else if s[i] == 59 {
            lemma_skip_bounds(s, i + 1, end, true);
        }
    }
}

proof fn lemma_symbol_end_bounds(s: Seq<u8>, i: int, end: int)
    requires
        i <= end,
    ensures
        i <= symbol_end(s, i, end) <= end,
    decreases end - i,
{
    if i < end && is_symbol_continuation(s[i]) {
        lemma_symbol_end_bounds(s, i + 1, end);
    }
}

proof fn lemma_number_walk_bounds(s: Seq<u8>, i: int, end: int, phase: NumberPhase, mantissa: bool, floating: bool)
    requires
        i <= end,
    ensures
        match number_walk(s, i, end, phase, mantissa, floating) {
            NumberWalk::Delimited { stop, .. } => i <= stop <= end,
            NumberWalk::Fallback { at } => i <= at < end,
        },
    decreases end - i,
{
    if i < end {
        let b = s[i];
        if phase is Sign && (b == 43 || b == 45) {
            lemma_number_walk_bounds(s, i + 1, end, NumberPhase::Integral, mantissa, floating);
        } else if (phase is Sign || phase is Integral) && is_digit(b) {
            lemma_number_walk_bounds(s, i + 1, end, NumberPhase::Integral, true, floating);
        } else if (phase is Sign || phase is Integral) && b == 46 {
            lemma_number_walk_bounds(s, i + 1, end, NumberPhase::Decimal, mantissa, true);
        } else if phase is Decimal && is_digit(b) {
            lemma_number_walk_bounds(s, i + 1, end, NumberPhase::Decimal, true, floating);
        } else if (phase is Sign || phase is Integral || phase is Decimal) && (b == 101 || b == 69) {
            lemma_number_walk_bounds(s, i + 1, end, NumberPhase::ExponentStart, mantissa, true);
        } else if phase is ExponentStart && (is_digit(b) || b == 43 || b == 45) {
            lemma_number_walk_bounds(s, i + 1, end, NumberPhase::ExponentValue, mantissa, floating);
        } else if phase is ExponentValue && is_digit(b) {
            lemma_number_walk_bounds(s, i + 1, end, NumberPhase::ExponentValue, mantissa, floating);
        }
    }
}

proof fn lemma_string_walk_bounds(s: Seq<u8>, i: int, end: int, acc: Seq<u8>, transformed: bool, escaped: bool)
    requires
        i <= end,
    ensures
        i <= string_walk(s, i, end, acc, transformed, escaped).stop <= end,
        string_walk(s, i, end, acc, transformed, escaped).terminated ==> string_walk(
            s,
            i,
            end,
            acc,
            transformed,
            escaped,
        ).stop < end,
    decreases end - i,
{
    if i < end && s[i] != 34 {
        if s[i] == 92 {
            if i + 1 < end {
                lemma_string_walk_bounds(s, i + 2, end, string_byte_appended(acc, s[i + 1]), true, escaped);
            } else {
                lemma_string_walk_bounds(s, i + 1, end, string_byte_appended(acc, 255), true, true);
            }
        } else {
            lemma_string_walk_bounds(
                s,
                i + 1,
                end,
                string_byte_appended(acc, s[i]),
                transformed || s[i] == 8,
                escaped,
            );
        }
    }
}

/// Every field makes progress except at the actual end: a field that starts
/// before the end, past comments, ends after its start and no later than the
/// end, and at the end the scanner answers end-of-input without moving,
/// every time.
pub proof fn lemma_field_progress(s: Seq<u8>, start: int, end: int, report: bool)
    requires
        0 <= start <= end <= s.len(),
        start < end ==> s[start] != 59,
    ensures
        start < end ==> start < field_at(s, start, end, report).next <= end,
        start == end ==> field_at(s, start, end, report).next == start && field_at(
            s,
            start,
            end,
            report,
        ).token == TokenView::Stop(StopReason::EndOfInput),
{
    if start < end {
        let b = s[start];
        lemma_symbol_end_bounds(s, start, end);
        lemma_symbol_end_bounds(s, start + 1, end);
        if is_alphabetic(b) || is_utf8_start(b) {
            assert(is_symbol_continuation(b));
        } else if is_digit(b) || b == 45 || b == 43 || b == 46 {
            lemma_number_walk_bounds(s, start + 1, end, NumberPhase::Integral, false, false);
            lemma_number_walk_bounds(s, start + 1, end, NumberPhase::Integral, true, false);
            lemma_number_walk_bounds(s, start + 1, end, NumberPhase::Decimal, false, true);
            match number_walk(s, start, end, NumberPhase::Sign, false, false) {
                NumberWalk::Fallback { at } => {
                    lemma_symbol_end_bounds(s, at + 1, end);
                },
                NumberWalk::Delimited { .. } => {},
            }
        } else if b == 34 {
            lemma_string_walk_bounds(s, start + 1, end, Seq::empty(), false, false);
        } else if b == 63 {
            lemma_symbol_end_bounds(s, start + 1, end);
        } else if b == 36 {
            if start + 1 < end && s[start + 1] == 63 {
                lemma_symbol_end_bounds(s, start + 2, end);
            }
        } else if is_graphic(b) && punctuation_of(b) is None && b != 0 && b != 3 && b != 60 {
            assert(is_symbol_continuation(b));
        }
    }
}

/// Each call of `next_token` consumes at least one byte until the end, and
/// at the end answers end-of-input without moving: the field that follows
/// the skipped whitespace and comments is end-of-input exactly when the
/// skip reached the end, every other field ends after it starts, and a
/// scan from the end skips nothing and finds end-of-input again.
pub proof fn lemma_next_token_progress(s: Seq<u8>, cursor: int, end: int, report: bool)
    requires
        0 <= cursor <= end <= s.len(),
    ensures
        ({
            let start = skip_from(s, cursor, end, false);
            let m = field_at(s, start, end, report);
            &&& cursor <= start <= m.next <= end
            &&& (m.token == TokenView::Stop(StopReason::EndOfInput)) == (start == end)
            &&& m.token != TokenView::Stop(StopReason::EndOfInput) ==> start < m.next
            &&& m.token == TokenView::Stop(StopReason::EndOfInput) ==> {
                &&& m.next == end
                &&& skip_from(s, m.next, end, false) == m.next
                &&& field_at(s, m.next, end, report) == m
            }
        }),
{
    let start = skip_from(s, cursor, end, false);
    lemma_skip_bounds(s, cursor, end, false);
    lemma_field_progress(s, start, end, report);
    if start < end {
        lemma_field_not_end_of_input(s, start, end, report);
    }
}

/// A field that starts before the end is never end-of-input.
proof fn lemma_field_not_end_of_input(s: Seq<u8>, start: int, end: int, report: bool)
    requires
        0 <= start < end <= s.len(),
    ensures
        field_at(s, start, end, report).token != TokenView::Stop(StopReason::EndOfInput),
{
}

/// An INTEGER field's value is its signed decimal value clamped to the
/// 64-bit range, and a range notice comes exactly when the clamp changed
/// it, naming the side it fell off.
pub proof fn lemma_integer_value_saturates(bytes: Seq<u8>)
    ensures
        integer_value(bytes).0 == clamp_i64(signed_decimal(bytes)),
        integer_value(bytes).1 == range_direction(signed_decimal(bytes)),
{
}

/// A decoded backspace erases the last byte of a string value together with
/// the UTF-8 continuation bytes that end it, but never reaches through the
/// first byte; on an empty value it erases nothing. Every other byte is
/// appended.
pub proof fn lemma_string_byte_appended(out: Seq<u8>, byte: u8)
    ensures
        byte != 8 ==> string_byte_appended(out, byte) == out.push(byte),
        byte == 8 && out.len() == 0 ==> string_byte_appended(out, byte) == out,
        byte == 8 && out.len() > 0 ==> exists|kept: int|
            0 <= kept < out.len() && (kept == 0 || !is_utf8_continuation(out[kept])) && (forall|i: int|
                kept < i < out.len() ==> is_utf8_continuation(#[trigger] out[i]))
                && string_byte_appended(out, byte) == #[trigger] out.take(kept),
{
    if byte == 8 && out.len() > 0 {
        let kept = lemma_erase_last_run(out);
        assert(string_byte_appended(out, byte) == out.take(kept));
    }
}

proof fn lemma_erase_last_run(out: Seq<u8>) -> (kept: int)
    requires
        out.len() > 0,
    ensures
        0 <= kept < out.len(),
        kept == 0 || !is_utf8_continuation(out[kept]),
        forall|i: int| kept < i < out.len() ==> is_utf8_continuation(#[trigger] out[i]),
        erase_last(out) == out.take(kept),
    decreases out.len(),
{
    if out.len() > 1 && is_utf8_continuation(out.last()) {
        let kept = lemma_erase_last_run(out.drop_last());
        assert(out.drop_last().take(kept) =~= out.take(kept));
        assert(out[kept] == out.drop_last()[kept]);
        assert forall|i: int| kept < i < out.len() implies is_utf8_continuation(#[trigger] out[i]) by {
            if i < out.len() - 1 {
                assert(out[i] == out.drop_last()[i]);
            }
        }
        kept
    } else {
        assert(out.drop_last() =~= out.take(out.len() - 1));
        out.len() - 1
    }
}

/// The exponent marker is case-insensitive: writing a spelling's `e` as `E`
/// changes nothing about how the numeric phase machine reads it, from any
/// position and phase.
pub proof fn lemma_exponent_marker_case(
    s: Seq<u8>,
    k: int,
    i: int,
    end: int,
    phase: NumberPhase,
    mantissa: bool,
    floating: bool,
)
    requires
        0 <= k < s.len(),
        s[k] == 101,
        0 <= i <= end <= s.len(),
        phase is ExponentValue ==> i > 0,
    ensures
        number_walk(s.update(k, 69), i, end, phase, mantissa, floating) == number_walk(s, i, end, phase, mantissa, floating),
    decreases end - i,
{
    let t = s.update(k, 69);
    if i < end {
        let b = s[i];
        assert(t[i] == b || (i == k && b == 101 && t[i] == 69));
        assert(number_delimiter(Some(t[i]), phase) == number_delimiter(Some(b), phase));
        if phase is Sign && (b == 43 || b == 45) {
            lemma_exponent_marker_case(s, k, i + 1, end, NumberPhase::Integral, mantissa, floating);
        } else if (phase is Sign || phase is Integral) && is_digit(b) {
            lemma_exponent_marker_case(s, k, i + 1, end, NumberPhase::Integral, true, floating);
        } else if (phase is Sign || phase is Integral) && b == 46 {
            lemma_exponent_marker_case(s, k, i + 1, end, NumberPhase::Decimal, mantissa, true);
        } else if phase is Decimal && is_digit(b) {
            lemma_exponent_marker_case(s, k, i + 1, end, NumberPhase::Decimal, true, floating);
        } else if (phase is Sign || phase is Integral || phase is Decimal) && (b == 101 || b == 69) {
            lemma_exponent_marker_case(s, k, i + 1, end, NumberPhase::ExponentStart, mantissa, true);
        } else if phase is ExponentStart && (is_digit(b) || b == 43 || b == 45) {
            lemma_exponent_marker_case(s, k, i + 1, end, NumberPhase::ExponentValue, mantissa, floating);
        } else if phase is ExponentValue && is_digit(b) {
            lemma_exponent_marker_case(s, k, i + 1, end, NumberPhase::ExponentValue, mantissa, floating);
        }
        if i > 0 {
            assert(t[i - 1] == 43 <==> s[i - 1] == 43);
            assert(t[i - 1] == 45 <==> s[i - 1] == 45);
        }
    } else if i > 0 {
        assert(t[i - 1] == 43 <==> s[i - 1] == 43);
        assert(t[i - 1] == 45 <==> s[i - 1] == 45);
    }
}

/// A number field stays a FLOAT, or stays not one, when an `e` in it is
/// written `E`: `6.02E23` is a FLOAT exactly as `6.02e23` is, and the field
/// ends at the same place.
pub proof fn lemma_float_exponent_case(s: Seq<u8>, k: int, start: int, end: int, report: bool)
    requires
        0 <= start < end <= s.len(),
        0 <= k < s.len(),
        s[k] == 101,
        is_digit(s[start]) || s[start] == 43 || s[start] == 45 || s[start] == 46,
    ensures
        (field_at(s.update(k, 69), start, end, report).token is Float) == (field_at(s, start, end, report).token is Float),
        field_at(s.update(k, 69), start, end, report).next == field_at(s, start, end, report).next,
{
    let t = s.update(k, 69);
    assert(t[start] == s[start]);
    lemma_exponent_marker_case(s, k, start, end, NumberPhase::Sign, false, false);
    match number_walk(s, start, end, NumberPhase::Sign, false, false) {
        NumberWalk::Fallback { at } => {
            lemma_number_walk_bounds(s, start, end, NumberPhase::Sign, false, false);
            lemma_symbol_end_case(s, k, at + 1, end);
        },
        NumberWalk::Delimited { .. } => {},
    }
}

proof fn lemma_symbol_end_case(s: Seq<u8>, k: int, i: int, end: int)
    requires
        0 <= k < s.len(),
        s[k] == 101,
        0 <= i <= end <= s.len(),
    ensures
        symbol_end(s.update(k, 69), i, end) == symbol_end(s, i, end),
    decreases end - i,
{
    if i < end && is_symbol_continuation(s[i]) {
        lemma_symbol_end_case(s, k, i + 1, end);
    }
}

proof fn lemma_walk_digit_run(s: Seq<u8>, i: int, j: int, end: int, phase: NumberPhase, floating: bool)
    requires
        0 <= i <= j <= end <= s.len(),
        phase is Integral || phase is ExponentValue,
        forall|t: int| i <= t < j ==> is_digit(#[trigger] s[t]),
    ensures
        number_walk(s, i, end, phase, true, floating) == number_walk(s, j, end, phase, true, floating),
    decreases j - i,
{
    if i < j {
        lemma_walk_digit_run(s, i + 1, j, end, phase, floating);
    }
}

/// A spelling of digits, an exponent marker `e` or `E`, and digits, ended
/// by a delimiter or the end of the input, is a FLOAT field with exactly
/// that spelling.
pub proof fn lemma_exponent_spelling_is_float(s: Seq<u8>, start: int, m: int, stop: int, end: int, report: bool)
    requires
        0 <= start < m,
        m + 1 < stop <= end <= s.len(),
        forall|t: int| start <= t < m ==> is_digit(#[trigger] s[t]),
        s[m] == 101 || s[m] == 69,
        forall|t: int| m + 1 <= t < stop ==> is_digit(#[trigger] s[t]),
        stop == end || is_field_delimiter(s[stop]),
    ensures
        field_at(s, start, end, report).token == TokenView::Float(s.subrange(start, stop)),
        field_at(s, start, end, report).next == stop,
{
    assert(is_digit(s[start]));
    assert(number_walk(s, start, end, NumberPhase::Sign, false, false) == number_walk(
        s,
        start + 1,
        end,
        NumberPhase::Integral,
        true,
        false,
    ));
    lemma_walk_digit_run(s, start + 1, m, end, NumberPhase::Integral, false);
    assert(!is_digit(s[m]) && s[m] != 46);
    assert(number_walk(s, m, end, NumberPhase::Integral, true, false) == number_walk(
        s,
        m + 1,
        end,
        NumberPhase::ExponentStart,
        true,
        true,
    ));
    assert(is_digit(s[m + 1]));
    assert(number_walk(s, m + 1, end, NumberPhase::ExponentStart, true, true) == number_walk(
        s,
        m + 2,
        end,
        NumberPhase::ExponentValue,
        true,
        true,
    ));
    lemma_walk_digit_run(s, m + 2, stop, end, NumberPhase::ExponentValue, true);
    assert(is_digit(s[stop - 1]));
    if stop < end {
        let b = s[stop];
        assert(!is_digit(b) && b != 43 && b != 45 && b != 46 && b != 101 && b != 69);
        assert(number_delimiter(Some(b), NumberPhase::ExponentValue));
    }
    assert(number_walk(s, stop, end, NumberPhase::ExponentValue, true, true) == (NumberWalk::Delimited {
        stop,
        mantissa: true,
        floating: true,
    }));
    assert(!is_alphabetic(s[start]) && !is_utf8_start(s[start]));
}

/// A scanner's cursor never moves backwards and never passes its end.
pub proof fn lemma_next_token_bounds(s: Seq<u8>, cursor: int, end: int, report: bool)
    requires
        0 <= cursor <= end <= s.len(),
    ensures
        ({
            let start = skip_from(s, cursor, end, false);
            &&& cursor <= start <= field_at(s, start, end, report).next <= end
        }),
{
    lemma_skip_bounds(s, cursor, end, false);
    lemma_field_progress(s, skip_from(s, cursor, end, false), end, report);
}

/// A quoted string's value holds no NUL: it ends at the first NUL it
/// decoded, as CLIPS interns a C string.
pub proof fn lemma_string_value_has_no_nul(s: Seq<u8>, start: int, end: int, report: bool)
    requires
        0 <= start < end <= s.len(),
        s[start] == 34,
    ensures
        field_at(s, start, end, report).token matches TokenView::String(value) && forall|i: int|
            0 <= i < value.len() ==> value[i] != 0,
{
    let d = string_walk_at(s, start, end).decoded;
    crate::formatting::format_parser::lemma_first_nul_bounds(d, 0);
}

} // verus!
