//! Deterministic fallback for scanner-admitted noncanonical modifiers. CLIPS
//! echoes INTEGER directives this way; the extensions to the other
//! conversions are explicit engine policy, not a claim about all libc printf
//! implementations.

use crate::byte_buffer::ByteBuffer;
use crate::formatting::format_parser::{
    conversion_byte, digit_run_end, Conversion, flag_run_end, has_byte, is_digit, is_integer_conversion, is_modifier,
    Directive, SpecAnalysis,
};
use crate::formatting::format_types::{check_size, limit_error_for, OutputLimit};
use vstd::prelude::*;
use vstd::slice::slice_subrange;

verus! {

/// Why the fallback was not applied.
#[derive(Clone, Copy, Debug, PartialEq, Eq)]
pub enum NonCanonicalError {
    /// Canonical instructions and parameter overflows use their own paths.
    NotNonCanonical,
    /// A manually constructed descriptor disagrees with scanner invariants.
    InvalidDescriptor,
    OutputLimit(OutputLimit),
}

/// The lexical normal form of a digit run: leading zeros removed, and a
/// run of only zeros (or none) spelled `0`.
pub open spec fn decimal_spelling(digits: Seq<u8>) -> Seq<u8> {
    let first = first_nonzero_from(digits, 0);
    if first == digits.len() {
        seq![48u8]
    } else {
        digits.subrange(first, digits.len() as int)
    }
}

/// The index of the first byte other than `0` at or after `i`, or the length.
pub open spec fn first_nonzero_from(s: Seq<u8>, i: int) -> int
    decreases s.len() - i,
{
    if 0 <= i < s.len() && s[i] == 48 {
        first_nonzero_from(s, i + 1)
    } else {
        i
    }
}

/// Where the valid canonical prefix of the modifiers ends.
pub open spec fn canonical_prefix_end(raw: Seq<u8>) -> int {
    let w = digit_run_end(raw, flag_run_end(raw, 0));
    if w < raw.len() && raw[w] == 46 {
        digit_run_end(raw, w + 1)
    } else {
        w
    }
}

/// Whether a directive's descriptor agrees with what the scanner produces for
/// a noncanonical modifier run.
pub open spec fn noncanonical_descriptor_ok(d: Directive<'_>) -> bool {
    let raw = d.raw_modifiers@;
    let p = canonical_prefix_end(raw);
    match d.spec {
        SpecAnalysis::NonCanonical { offset, byte } => {
            &&& raw.len() <= 73
            &&& forall|i: int| 0 <= i < raw.len() ==> is_modifier(#[trigger] raw[i])
            &&& p < raw.len()
            &&& raw[p] == byte
            &&& d.range.start + p + 1 == offset
            &&& d.range.start + raw.len() + 2 == d.range.end
        },
        _ => false,
    }
}

/// The normalized modifiers: folded flags (left alignment wins over zero
/// fill), the width digits, the normalized precision and the untouched tail
/// from the first noncanonical byte.
pub open spec fn normalized_modifiers(raw: Seq<u8>) -> Seq<u8> {
    let f = flag_run_end(raw, 0);
    let w = digit_run_end(raw, f);
    let left = has_byte(raw, 0, f, 45);
    let zero = has_byte(raw, 0, f, 48) && !left;
    let p = canonical_prefix_end(raw);
    (if left {
        seq![45u8]
    } else {
        Seq::<u8>::empty()
    }) + (if zero {
        seq![48u8]
    } else {
        Seq::<u8>::empty()
    }) + raw.subrange(f, w) + (if w < raw.len() && raw[w] == 46 {
        seq![46u8] + decimal_spelling(raw.subrange(w + 1, p))
    } else {
        Seq::<u8>::empty()
    }) + raw.subrange(p, raw.len() as int)
}

/// The `ll` CLIPS inserts before an integer conversion.
pub open spec fn ll_bytes(conversion: Conversion) -> Seq<u8> {
    if is_integer_conversion(conversion) {
        seq![108u8, 108u8]
    } else {
        Seq::<u8>::empty()
    }
}

/// The spelling appended for a noncanonical directive.
pub open spec fn noncanonical_spelling(d: Directive<'_>) -> Seq<u8> {
    seq![37u8] + normalized_modifiers(d.raw_modifiers@) + ll_bytes(d.conversion) + seq![
        conversion_byte(d.conversion),
    ]
}

/// The split of the modifiers: flags, width, normalized precision digits
/// (with `is_zero` when they normalize to a single `0`) and the tail.
struct Prefix<'a> {
    left: bool,
    zero: bool,
    width: &'a [u8],
    precision: Option<(&'a [u8], bool)>,
    tail: &'a [u8],
}

/// Skip leading zeros of a digit run, reporting whether only zeros remained.
fn decimal_tail(bytes: &[u8]) -> (result: (&[u8], bool))
    ensures
        decimal_spelling(bytes@) == if result.1 {
            seq![48u8]
        } else {
            result.0@
        },
        result.1 ==> result.0@.len() == 0,
        result.0@.len() <= bytes@.len(),
{
    let len = bytes.len();
    let mut first: usize = 0;
    while first < len && bytes[first] == 48u8
        invariant
            len == bytes@.len(),
            first <= len,
            first_nonzero_from(bytes@, 0) == first_nonzero_from(bytes@, first as int),
        decreases len - first,
    {
        first += 1;
    }
    (slice_subrange(bytes, first, len), first == len)
}

/// Check the descriptor and split its modifiers.
fn split_prefix<'a>(directive: &Directive<'a>) -> (result: Result<Prefix<'a>, NonCanonicalError>)
    ensures
        !(directive.spec is NonCanonical) ==> result == Err::<Prefix<'a>, NonCanonicalError>(
            NonCanonicalError::NotNonCanonical,
        ),
        directive.spec is NonCanonical && !noncanonical_descriptor_ok(*directive) ==> result
            == Err::<Prefix<'a>, NonCanonicalError>(NonCanonicalError::InvalidDescriptor),
        noncanonical_descriptor_ok(*directive) ==> {
            &&& result matches Ok(prefix)
            &&& prefix_spelling(prefix) == normalized_modifiers(directive.raw_modifiers@)
        },
        result matches Ok(prefix) ==> prefix.width@.len() + prefix.tail@.len() + match prefix.precision {
            Some((digits, _)) => digits@.len() as int,
            None => 0int,
        } <= 73,
{
    let (offset, byte) = match directive.spec {
        SpecAnalysis::NonCanonical { offset, byte } => (offset, byte),
        _ => {
            return Err(NonCanonicalError::NotNonCanonical);
        },
    };
    let raw = directive.raw_modifiers;
    let ghost r = raw@;
    let len = raw.len();
    if len > 73 {
        return Err(NonCanonicalError::InvalidDescriptor);
    }
    let mut i: usize = 0;
    while i < len
        invariant
            len == r.len(),
            r == raw@,
            r == directive.raw_modifiers@,
            directive.spec == (SpecAnalysis::NonCanonical { offset, byte }),
            len <= 73,
            i <= len,
            forall|k: int| 0 <= k < i ==> is_modifier(#[trigger] r[k]),
        decreases len - i,
    {
        let b = raw[i];
        if !((48u8 <= b && b <= 57u8) || b == 46u8 || b == 45u8) {
            return Err(NonCanonicalError::InvalidDescriptor);
        }
        i += 1;
    }
    let mut position: usize = 0;
    let mut left = false;
    let mut zero = false;
    while position < len && (raw[position] == 45u8 || raw[position] == 48u8)
        invariant
            len == r.len(),
            r == raw@,
            r == directive.raw_modifiers@,
            directive.spec == (SpecAnalysis::NonCanonical { offset, byte }),
            len <= 73,
            position <= len,
            flag_run_end(r, 0) == flag_run_end(r, position as int),
            left == has_byte(r, 0, position as int, 45),
            zero == has_byte(r, 0, position as int, 48),
        decreases len - position,
    {
        if raw[position] == 45u8 {
            left = true;
        } else {
            zero = true;
        }
        assert(has_byte(r, 0, position + 1, 45) == (has_byte(r, 0, position as int, 45) || r[position as int] == 45));
        assert(has_byte(r, 0, position + 1, 48) == (has_byte(r, 0, position as int, 48) || r[position as int] == 48));
        position += 1;
    }
    let width_start = position;
    while position < len && 48u8 <= raw[position] && raw[position] <= 57u8
        invariant
            len == r.len(),
            r == raw@,
            r == directive.raw_modifiers@,
            directive.spec == (SpecAnalysis::NonCanonical { offset, byte }),
            len <= 73,
            width_start <= position <= len,
            digit_run_end(r, width_start as int) == digit_run_end(r, position as int),
        decreases len - position,
    {
        position += 1;
    }
    let width = slice_subrange(raw, width_start, position);
    let mut precision = None;
    if position < len && raw[position] == 46u8 {
        position += 1;
        let start = position;
        while position < len && 48u8 <= raw[position] && raw[position] <= 57u8
            invariant
                len == r.len(),
                r == raw@,
                r == directive.raw_modifiers@,
                directive.spec == (SpecAnalysis::NonCanonical { offset, byte }),
                len <= 73,
                forall|k: int| 0 <= k < len ==> is_modifier(#[trigger] r[k]),
                start <= position <= len,
                digit_run_end(r, start as int) == digit_run_end(r, position as int),
            decreases len - position,
        {
            position += 1;
        }
        precision = Some(decimal_tail(slice_subrange(raw, start, position)));
    }
    assert(position == canonical_prefix_end(r));
    if position >= len || raw[position] != byte {
        return Err(NonCanonicalError::InvalidDescriptor);
    }
    match directive.range.start.checked_add(position + 1) {
        Some(at) => if at != offset {
            return Err(NonCanonicalError::InvalidDescriptor);
        },
        None => {
            return Err(NonCanonicalError::InvalidDescriptor);
        },
    }
    match directive.range.start.checked_add(len + 2) {
        Some(end) => if end != directive.range.end {
            return Err(NonCanonicalError::InvalidDescriptor);
        },
        None => {
            return Err(NonCanonicalError::InvalidDescriptor);
        },
    }
    let prefix = Prefix {
        left,
        zero: zero && !left,
        width,
        precision,
        tail: slice_subrange(raw, position, len),
    };
    proof {
        assert(prefix_spelling(prefix) =~= normalized_modifiers(r));
    }
    Ok(prefix)
}

/// The bytes a split prefix spells between the percent and the `ll`.
spec fn prefix_spelling(prefix: Prefix<'_>) -> Seq<u8> {
    (if prefix.left {
        seq![45u8]
    } else {
        Seq::<u8>::empty()
    }) + (if prefix.zero {
        seq![48u8]
    } else {
        Seq::<u8>::empty()
    }) + prefix.width@ + (match prefix.precision {
        Some((digits, is_zero)) => seq![46u8] + if is_zero {
            seq![48u8]
        } else {
            digits@
        },
        None => Seq::<u8>::empty(),
    }) + prefix.tail@
}

/// The length of a split prefix's spelling.
fn prefix_len(prefix: &Prefix<'_>) -> (len: usize)
    requires
        prefix.width@.len() + prefix.tail@.len() + match prefix.precision {
            Some((digits, _)) => digits@.len() as int,
            None => 0int,
        } <= 73,
    ensures
        len == prefix_spelling(*prefix).len(),
        len <= 78,
{
    let precision_len: usize = match prefix.precision {
        Some((digits, is_zero)) => if is_zero {
            2
        } else {
            digits.len() + 1
        },
        None => 0,
    };
    let flags: usize = (if prefix.left {
        1
    } else {
        0
    }) + (if prefix.zero {
        1
    } else {
        0
    });
    flags + prefix.width.len() + precision_len + prefix.tail.len()
}

/// Append the spelling of a split prefix.
fn push_prefix(output: &mut ByteBuffer, prefix: &Prefix<'_>)
    requires
        old(output)@.len() + prefix_spelling(*prefix).len() <= usize::MAX,
    ensures
        final(output)@ == old(output)@ + prefix_spelling(*prefix),
{
    let ghost start = output@;
    if prefix.left {
        output.push_byte(45u8);
    }
    if prefix.zero {
        output.push_byte(48u8);
    }
    output.push_bytes(prefix.width);
    match prefix.precision {
        Some((digits, is_zero)) => {
            output.push_byte(46u8);
            if is_zero {
                output.push_byte(48u8);
            } else {
                output.push_bytes(digits);
            }
        },
        None => {},
    }
    output.push_bytes(prefix.tail);
    proof {
        assert(output@ =~= start + prefix_spelling(*prefix));
    }
}

/// Append a normalized valid prefix followed by the untouched invalid tail.
///
/// Call only after the directive's operand was evaluated and admitted. Width
/// and precision digits are normalized lexically, never parsed or expanded
/// into padding. A failed append leaves all prior output unchanged.
pub fn append_noncanonical(output: &mut ByteBuffer, directive: &Directive<'_>, allowed: usize) -> (result:
    Result<(), NonCanonicalError>)
    ensures
        !(directive.spec is NonCanonical) ==> result == Err::<(), NonCanonicalError>(
            NonCanonicalError::NotNonCanonical,
        ),
        directive.spec is NonCanonical && !noncanonical_descriptor_ok(*directive) ==> result
            == Err::<(), NonCanonicalError>(NonCanonicalError::InvalidDescriptor),
        noncanonical_descriptor_ok(*directive) ==> {
            let spelling = noncanonical_spelling(*directive);
            if old(output)@.len() + spelling.len() <= allowed {
                result is Ok && final(output)@ == old(output)@ + spelling
            } else {
                result == Err::<(), NonCanonicalError>(
                    NonCanonicalError::OutputLimit(
                        limit_error_for(old(output)@.len() as int, spelling.len() as int, allowed),
                    ),
                )
            }
        },
        result is Err ==> final(output)@ == old(output)@,
{
    let prefix = match split_prefix(directive) {
        Ok(prefix) => prefix,
        Err(error) => {
            return Err(error);
        },
    };
    let integer = directive.conversion.is_integer();
    let conversion = directive.conversion.as_byte();
    let length: usize = 1 + prefix_len(&prefix) + (if integer {
        2
    } else {
        0
    }) + 1;
    assert(length == noncanonical_spelling(*directive).len());
    match check_size(output.len(), length, allowed) {
        Ok(()) => {},
        Err(limit) => {
            return Err(NonCanonicalError::OutputLimit(limit));
        },
    }
    let ghost start = output@;
    output.push_byte(37u8);
    push_prefix(output, &prefix);
    if integer {
        output.push_byte(108u8);
        output.push_byte(108u8);
    }
    output.push_byte(conversion);
    proof {
        assert(output@ =~= start + noncanonical_spelling(*directive));
    }
    Ok(())
}

// ---------------------------------------------------------------------------
// Laws.

proof fn lemma_flag_run_bounds(m: Seq<u8>, i: int)
    requires
        0 <= i <= m.len(),
    ensures
        i <= flag_run_end(m, i) <= m.len(),
        forall|j: int| i <= j < flag_run_end(m, i) ==> m[j] == 45 || m[j] == 48,
        flag_run_end(m, i) < m.len() ==> !(m[flag_run_end(m, i)] == 45 || m[flag_run_end(m, i)] == 48),
    decreases m.len() - i,
{
    if i < m.len() && (m[i] == 45 || m[i] == 48) {
        lemma_flag_run_bounds(m, i + 1);
    }
}

proof fn lemma_digit_run_bounds(m: Seq<u8>, i: int)
    requires
        0 <= i <= m.len(),
    ensures
        i <= digit_run_end(m, i) <= m.len(),
        forall|j: int| i <= j < digit_run_end(m, i) ==> crate::formatting::format_parser::is_digit(m[j]),
        digit_run_end(m, i) < m.len() ==> !crate::formatting::format_parser::is_digit(m[digit_run_end(m, i)]),
    decreases m.len() - i,
{
    if i < m.len() && crate::formatting::format_parser::is_digit(m[i]) {
        lemma_digit_run_bounds(m, i + 1);
    }
}

proof fn lemma_first_nonzero_bounds(s: Seq<u8>, i: int)
    requires
        0 <= i <= s.len(),
    ensures
        i <= first_nonzero_from(s, i) <= s.len(),
        forall|j: int| i <= j < first_nonzero_from(s, i) ==> s[j] == 48,
        first_nonzero_from(s, i) < s.len() ==> s[first_nonzero_from(s, i)] != 48,
    decreases s.len() - i,
{
    if i < s.len() && s[i] == 48 {
        lemma_first_nonzero_bounds(s, i + 1);
    }
}

/// A digit run's normal form is never longer than the run, except that an
/// empty run is spelled `0`.
pub proof fn lemma_decimal_spelling_len(digits: Seq<u8>)
    ensures
        decimal_spelling(digits).len() <= if digits.len() == 0 {
            1
        } else {
            digits.len() as int
        },
        decimal_spelling(digits).len() >= 1,
{
    lemma_first_nonzero_bounds(digits, 0);
}

/// The fallback is lexical: it never expands a width or precision into
/// padding. Its spelling starts with `%`, ends with the conversion byte after
/// the `ll` of an integer conversion, keeps the modifiers from the first
/// noncanonical byte verbatim just before them, and is at most three bytes
/// longer than the directive's own bytes.
pub proof fn lemma_noncanonical_spelling_is_lexical(d: Directive<'_>)
    requires
        noncanonical_descriptor_ok(d),
    ensures
        ({
            let raw = d.raw_modifiers@;
            let spelling = noncanonical_spelling(d);
            let tail = raw.subrange(canonical_prefix_end(raw), raw.len() as int) + ll_bytes(
                d.conversion,
            ) + seq![conversion_byte(d.conversion)];
            &&& spelling.len() <= raw.len() + 5
            &&& spelling[0] == 37
            &&& tail.is_suffix_of(spelling)
        }),
{
    let raw = d.raw_modifiers@;
    let f = flag_run_end(raw, 0);
    lemma_flag_run_bounds(raw, 0);
    let w = digit_run_end(raw, f);
    lemma_digit_run_bounds(raw, f);
    let p = canonical_prefix_end(raw);
    if w < raw.len() && raw[w] == 46 {
        lemma_digit_run_bounds(raw, w + 1);
        lemma_decimal_spelling_len(raw.subrange(w + 1, p));
    }
    let left = has_byte(raw, 0, f, 45);
    let zero = has_byte(raw, 0, f, 48) && !left;
    if left {
        let j = choose|j: int| 0 <= j < f && raw[j] == 45;
        assert(f >= 1);
    }
    if zero {
        let j = choose|j: int| 0 <= j < f && raw[j] == 48;
        assert(f >= 1);
    }
    let spelling = noncanonical_spelling(d);
    let tail = raw.subrange(p, raw.len() as int) + ll_bytes(d.conversion) + seq![
        conversion_byte(d.conversion),
    ];
    let head = seq![37u8] + (if left {
        seq![45u8]
    } else {
        Seq::<u8>::empty()
    }) + (if zero {
        seq![48u8]
    } else {
        Seq::<u8>::empty()
    }) + raw.subrange(f, w) + (if w < raw.len() && raw[w] == 46 {
        seq![46u8] + decimal_spelling(raw.subrange(w + 1, p))
    } else {
        Seq::<u8>::empty()
    });
    assert(spelling =~= head + tail);
    assert(tail =~= spelling.subrange(spelling.len() - tail.len(), spelling.len() as int));
}

/// How the modifiers of a noncanonical directive split: the leading `-`/`0`
/// flags end at `f`, the width digits at `w`; when a `.` follows the width,
/// the precision digits run to `p` and their leading zeros to `k`
/// (otherwise `k == p == w`); `p` is the first noncanonical byte.
pub open spec fn modifier_split(raw: Seq<u8>, f: int, w: int, p: int, k: int) -> bool {
    &&& 0 <= f <= w <= p < raw.len()
    &&& forall|j: int| 0 <= j < f ==> raw[j] == 45 || raw[j] == 48
    &&& !(raw[f] == 45 || raw[f] == 48)
    &&& forall|j: int| f <= j < w ==> is_digit(raw[j])
    &&& !is_digit(raw[w])
    &&& if raw[w] == 46 {
        &&& w + 1 <= k <= p
        &&& forall|j: int| w + 1 <= j < k ==> raw[j] == 48
        &&& k < p ==> raw[k] != 48
        &&& forall|j: int| w + 1 <= j < p ==> is_digit(raw[j])
        &&& !is_digit(raw[p])
    } else {
        k == p && p == w
    }
}

/// The spelling assembled from a split: `%`, a `-` when the flags hold one,
/// a `0` when they hold one and no `-`, the width digits verbatim, a `.` and
/// the precision digits without their leading zeros (`0` when none is
/// left) when a `.` follows the width, the rest of the modifiers verbatim,
/// `ll` before an integer conversion, and the conversion byte.
pub open spec fn assembled_spelling(raw: Seq<u8>, f: int, w: int, p: int, k: int, conversion: Conversion) -> Seq<u8> {
    let left = exists|j: int| 0 <= j < f && raw[j] == 45;
    let zero = (exists|j: int| 0 <= j < f && raw[j] == 48) && !left;
    seq![37u8] + (if left { seq![45u8] } else { Seq::<u8>::empty() }) + (if zero {
        seq![48u8]
    } else {
        Seq::<u8>::empty()
    }) + raw.subrange(f, w) + (if raw[w] == 46 {
        seq![46u8] + (if k == p { seq![48u8] } else { raw.subrange(k, p) })
    } else {
        Seq::<u8>::empty()
    }) + raw.subrange(p, raw.len() as int) + ll_bytes(conversion) + seq![conversion_byte(conversion)]
}

/// The spelling of a noncanonical directive, in the words of its rule: the
/// modifiers split into flags, width, precision and the noncanonical rest,
/// and the spelling is assembled from those parts without any padding.
/// `append_noncanonical` appends exactly this spelling when it fits.
pub proof fn lemma_noncanonical_spelling_parts(d: Directive<'_>)
    requires
        noncanonical_descriptor_ok(d),
    ensures
        exists|f: int, w: int, p: int, k: int| #[trigger] modifier_split(d.raw_modifiers@, f, w, p, k)
            && noncanonical_spelling(d) == assembled_spelling(d.raw_modifiers@, f, w, p, k, d.conversion)
            && p == canonical_prefix_end(d.raw_modifiers@),
{
    let raw = d.raw_modifiers@;
    let f = flag_run_end(raw, 0);
    lemma_flag_run_bounds(raw, 0);
    let w = digit_run_end(raw, f);
    lemma_digit_run_bounds(raw, f);
    let p = canonical_prefix_end(raw);
    let k = if w < raw.len() && raw[w] == 46 {
        lemma_digit_run_bounds(raw, w + 1);
        let sub = raw.subrange(w + 1, p);
        lemma_first_nonzero_bounds(sub, 0);
        let first = first_nonzero_from(sub, 0);
        assert forall|j: int| w + 1 <= j < w + 1 + first implies raw[j] == 48 by {
            assert(raw[j] == sub[j - (w + 1)]);
        }
        if first < sub.len() {
            assert(raw[w + 1 + first] == sub[first]);
            assert(sub.subrange(first, sub.len() as int) =~= raw.subrange(w + 1 + first, p));
        }
        w + 1 + first
    } else {
        p
    };
    assert(p < raw.len());
    assert(modifier_split(raw, f, w, p, k));
    let left = has_byte(raw, 0, f, 45);
    assert(left == (exists|j: int| 0 <= j < f && raw[j] == 45));
    assert(has_byte(raw, 0, f, 48) == (exists|j: int| 0 <= j < f && raw[j] == 48));
    assert(noncanonical_spelling(d) =~= assembled_spelling(raw, f, w, p, k, d.conversion));
}

} // verus!
