//! Decisions of `read` and `readline` over the host-framed stdin queue.
//!
//! The queue holds whole frames; each selected frame is discarded in full.
//! `read` skips frames whose first field is a scanner STOP; `readline`
//! returns exactly one whole frame, an empty one included. The evaluator owns
//! the queue, value construction and diagnostics.

use crate::field_scanner::{field_at, skip_from, FieldModel, FieldScanner, FieldToken, ScanNotice, TokenView};
use crate::formatting::format_parser::{
    control_prefix, first_nul_from, lemma_control_prefix_nul_free, lemma_first_nul_bounds,
};
use vstd::prelude::*;

verus! {

/// An input logical-name operand, once the evaluator resolved it.
#[derive(Clone, Copy, Debug, PartialEq, Eq)]
pub enum LogicalName<'a> {
    /// A STRING, SYMBOL or INSTANCE-NAME: its bytes and its type name.
    Lexeme { bytes: &'a [u8], kind: &'static str },
    /// An INTEGER or FLOAT. CLIPS admits numeric logical names, but none of
    /// them names the stdin router.
    Numeric(&'static str),
    /// Any other value, or a symbol that did not resolve: the type name.
    Illegal(&'static str),
}

/// Why an input logical name was refused.
#[derive(Clone, Copy, Debug, PartialEq, Eq)]
pub enum RouterRefusal {
    /// Not a logical-name type; the actual type.
    IllegalType(&'static str),
    /// Not a registered input router: only stdin is available. The type of
    /// the operand.
    Unavailable(&'static str),
}

/// `t`, `T` or `stdin`, up to the first NUL.
pub open spec fn names_stdin(name: Seq<u8>) -> bool {
    let p = control_prefix(name);
    p == seq![116u8] || p == seq![84u8] || p == seq![115u8, 116u8, 100u8, 105u8, 110u8]
}

/// Whether a logical name, up to its first NUL, is an alias of stdin.
pub fn is_stdin_alias(bytes: &[u8]) -> (alias: bool)
    ensures
        alias == names_stdin(bytes@),
{
    let mut end: usize = 0;
    while end < bytes.len() && bytes[end] != 0u8
        invariant
            end <= bytes@.len(),
            first_nul_from(bytes@, end as int) == first_nul_from(bytes@, 0),
        decreases bytes@.len() - end,
    {
        end += 1;
    }
    let ghost p = control_prefix(bytes@);
    assert(p =~= bytes@.subrange(0, end as int));
    assert(p.len() == end);
    if end == 1 {
        let b = bytes[0];
        assert(p[0] == b);
        assert(p == seq![116u8] <==> b == 116u8) by {
            if b == 116u8 {
                assert(p =~= seq![116u8]);
            }
        }
        assert(p == seq![84u8] <==> b == 84u8) by {
            if b == 84u8 {
                assert(p =~= seq![84u8]);
            }
        }
        b == 116u8 || b == 84u8
    } else if end == 5 {
        let stdin = bytes[0] == 115u8 && bytes[1] == 116u8 && bytes[2] == 100u8 && bytes[3] == 105u8
            && bytes[4] == 110u8;
        assert(stdin <==> p == seq![115u8, 116u8, 100u8, 105u8, 110u8]) by {
            if stdin {
                assert(p =~= seq![115u8, 116u8, 100u8, 105u8, 110u8]);
            }
            if p == seq![115u8, 116u8, 100u8, 105u8, 110u8] {
                assert(p[0] == 115u8 && p[1] == 116u8 && p[2] == 100u8 && p[3] == 105u8 && p[4]
                    == 110u8);
            }
        }
        stdin
    } else {
        false
    }
}

pub open spec fn spec_stdin_router(name: LogicalName<'_>) -> Result<(), RouterRefusal> {
    match name {
        LogicalName::Lexeme { bytes, kind } => if names_stdin(bytes@) {
            Ok(())
        } else {
            Err(RouterRefusal::Unavailable(kind))
        },
        LogicalName::Numeric(kind) => Err(RouterRefusal::Unavailable(kind)),
        LogicalName::Illegal(kind) => Err(RouterRefusal::IllegalType(kind)),
    }
}

/// Admit an input logical name: only the stdin aliases are available. No
/// output router is looked up: an output buffer is not an input source.
pub fn stdin_router(name: LogicalName<'_>) -> (result: Result<(), RouterRefusal>)
    ensures
        result == spec_stdin_router(name),
{
    match name {
        LogicalName::Lexeme { bytes, kind } => if is_stdin_alias(bytes) {
            Ok(())
        } else {
            Err(RouterRefusal::Unavailable(kind))
        },
        LogicalName::Numeric(kind) => Err(RouterRefusal::Unavailable(kind)),
        LogicalName::Illegal(kind) => Err(RouterRefusal::IllegalType(kind)),
    }
}

/// The first field of a frame, scanned as a CLIPS string.
pub open spec fn first_field(frame: Seq<u8>) -> FieldModel {
    let end = first_nul_from(frame, 0);
    field_at(frame, skip_from(frame, 0, end, false), end, true)
}

/// What `read` yields.
#[derive(Debug, PartialEq)]
pub enum ReadField<'a> {
    /// The queue held no frame with a field.
    EndOfInput,
    /// The first field was an unknown byte: a silent, nonfatal read error.
    ReadError,
    /// The first field of the selected frame.
    Token(FieldToken<'a>),
}

/// A yield of `read`, by value.
pub enum ReadView {
    EndOfInput,
    ReadError,
    Token(TokenView),
}

impl<'a> View for ReadField<'a> {
    type V = ReadView;

    open spec fn view(&self) -> ReadView {
        match self {
            ReadField::EndOfInput => ReadView::EndOfInput,
            ReadField::ReadError => ReadView::ReadError,
            ReadField::Token(t) => ReadView::Token(t@),
        }
    }
}

/// What `read` does to the queue, by value.
pub struct ReadModel {
    pub consumed: int,
    pub field: ReadView,
    pub notices: Seq<ScanNotice>,
}

/// `read` from frame `i` on: frames whose first field is a STOP are consumed
/// and skipped; their notices are still reported.
pub open spec fn read_from(frames: Seq<&[u8]>, i: int) -> ReadModel
    decreases frames.len() - i,
{
    if i < 0 || i >= frames.len() {
        ReadModel { consumed: frames.len() as int, field: ReadView::EndOfInput, notices: Seq::empty() }
    } else {
        let m = first_field(frames[i]@);
        if m.token is Stop {
            let rest = read_from(frames, i + 1);
            ReadModel { consumed: rest.consumed, field: rest.field, notices: m.notices + rest.notices }
        } else if m.token is Unknown {
            ReadModel { consumed: i + 1, field: ReadView::ReadError, notices: m.notices }
        } else {
            ReadModel { consumed: i + 1, field: ReadView::Token(m.token), notices: m.notices }
        }
    }
}

/// The result of `read` over the queued frames.
#[derive(Debug, PartialEq)]
pub struct ReadOutcome<'a> {
    /// How many frames, from the front, the read discards.
    pub consumed: usize,
    pub field: ReadField<'a>,
    /// The scanner notices of every consumed frame, in order.
    pub notices: Vec<ScanNotice>,
}

/// `read` over the queued frames, front first. A frame belongs to the
/// host's line protocol: embedded line breaks are not split, and no suffix
/// of a frame is kept or scanned.
pub fn read_field<'a>(frames: &[&'a [u8]]) -> (outcome: ReadOutcome<'a>)
    ensures
        outcome.consumed == read_from(frames@, 0).consumed,
        outcome.field@ == read_from(frames@, 0).field,
        outcome.notices@ == read_from(frames@, 0).notices,
{
    let mut notices: Vec<ScanNotice> = Vec::new();
    let mut i: usize = 0;
    while i < frames.len()
        invariant
            i <= frames@.len(),
            read_from(frames@, 0) == (ReadModel {
                consumed: read_from(frames@, i as int).consumed,
                field: read_from(frames@, i as int).field,
                notices: notices@ + read_from(frames@, i as int).notices,
            }),
        decreases frames@.len() - i,
    {
        let frame = frames[i];
        let mut scanner = FieldScanner::clips_string(frame);
        let scanned = scanner.next_token();
        let ghost m = first_field(frame@);
        let ghost before = notices@;
        let mut frame_notices = scanned.notices;
        notices.append(&mut frame_notices);
        match scanned.token {
            FieldToken::Stop(_) => {
                proof {
                    assert(before + (m.notices + read_from(frames@, i + 1).notices) =~= notices@
                        + read_from(frames@, i + 1).notices);
                }
                i += 1;
            },
            FieldToken::Unknown { .. } => {
                proof {
                    assert(before + m.notices =~= notices@);
                }
                return ReadOutcome { consumed: i + 1, field: ReadField::ReadError, notices };
            },
            token => {
                proof {
                    assert(before + m.notices =~= notices@);
                }
                return ReadOutcome { consumed: i + 1, field: ReadField::Token(token), notices };
            },
        }
    }
    proof {
        assert(notices@ + Seq::<ScanNotice>::empty() =~= notices@);
    }
    ReadOutcome { consumed: frames.len(), field: ReadField::EndOfInput, notices }
}

/// `read` discards through the selected frame and no further: every frame
/// it consumes before the selected one had a STOP first field, and it reports
/// end of input only when every frame was consumed that way.
pub proof fn lemma_read_consumption(frames: Seq<&[u8]>, i: int)
    requires
        0 <= i <= frames.len(),
    ensures
        i <= read_from(frames, i).consumed <= frames.len(),
        forall|j: int|
            i <= j < read_from(frames, i).consumed - (if read_from(frames, i).field is EndOfInput {
                0int
            } else {
                1int
            }) ==> #[trigger] first_field(frames[j]@).token is Stop,
        read_from(frames, i).field is EndOfInput ==> read_from(frames, i).consumed == frames.len(),
        !(read_from(frames, i).field is EndOfInput) ==> read_from(frames, i).consumed > i && !(
        first_field(frames[read_from(frames, i).consumed - 1]@).token is Stop),
    decreases frames.len() - i,
{
    if i < frames.len() {
        if first_field(frames[i]@).token is Stop {
            lemma_read_consumption(frames, i + 1);
        }
    }
}

/// Bytes after the first NUL of a logical name never matter.
pub proof fn lemma_alias_ignores_after_nul(name: Seq<u8>)
    ensures
        names_stdin(name) == names_stdin(control_prefix(name)),
{
    let p = control_prefix(name);
    lemma_first_nul_bounds(name, 0);
    lemma_control_prefix_nul_free(name, 0);
    assert(control_prefix(p) =~= p);
}

} // verus!
