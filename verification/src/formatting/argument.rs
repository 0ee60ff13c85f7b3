//! Borrowed primitive operand view, built by the evaluator after evaluating
//! and validating ownership of one format operand.

use vstd::prelude::*;

verus! {

/// One evaluated `format` operand. A FLOAT is carried as its IEEE-754
/// binary64 bit pattern.
#[derive(Clone, Copy, Debug, PartialEq, Eq)]
pub enum FormatArgument<'a> {
    Integer(i64),
    Float(u64),
    String(&'a [u8]),
    Symbol(&'a [u8]),
    InstanceName(&'a [u8]),
    Other(&'static str),
}

/// The CLIPS type name of an operand.
pub open spec fn argument_kind_name(value: FormatArgument<'_>) -> &'static str {
    match value {
        FormatArgument::Integer(_) => "INTEGER",
        FormatArgument::Float(_) => "FLOAT",
        FormatArgument::String(_) => "STRING",
        FormatArgument::Symbol(_) => "SYMBOL",
        FormatArgument::InstanceName(_) => "INSTANCE-NAME",
        FormatArgument::Other(name) => name,
    }
}

impl FormatArgument<'_> {
    /// The CLIPS type name of this operand.
    pub fn kind_name(self) -> (name: &'static str)
        ensures
            name == argument_kind_name(self),
    {
        match self {
            FormatArgument::Integer(_) => "INTEGER",
            FormatArgument::Float(_) => "FLOAT",
            FormatArgument::String(_) => "STRING",
            FormatArgument::Symbol(_) => "SYMBOL",
            FormatArgument::InstanceName(_) => "INSTANCE-NAME",
            FormatArgument::Other(name) => name,
        }
    }
}

} // verus!
