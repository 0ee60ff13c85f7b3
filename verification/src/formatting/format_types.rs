//! Shared directive and output-allowance types for numeric and byte renderers.

use vstd::prelude::*;

verus! {

/// Canonical printf-style flags, width and precision of one directive.
#[derive(Clone, Copy, Debug, Default, PartialEq, Eq)]
pub struct FormatSpec {
    pub left_align: bool,
    pub zero_pad: bool,
    pub width: usize,
    pub precision: Option<usize>,
}

/// A rejected append: the size the output would have reached, and the allowance.
#[derive(Clone, Copy, Debug, PartialEq, Eq)]
pub struct OutputLimit {
    /// `None` denotes arithmetic overflow or a rejected formatting stream whose
    /// complete final size was intentionally not computed.
    pub required: Option<usize>,
    pub allowed: usize,
}

/// The limit error for an output of `existing` bytes extended by `extra` bytes.
pub open spec fn limit_error_for(existing: int, extra: int, allowed: usize) -> OutputLimit {
    OutputLimit {
        required: if existing + extra <= usize::MAX {
            Some((existing + extra) as usize)
        } else {
            None
        },
        allowed,
    }
}

/// `count` copies of `byte`.
pub open spec fn repeated(byte: u8, count: int) -> Seq<u8> {
    Seq::new(count as nat, |_i: int| byte)
}

/// The smaller of two integers.
pub open spec fn min_int(a: int, b: int) -> int {
    if a <= b {
        a
    } else {
        b
    }
}

/// The larger of two integers.
pub open spec fn max_int(a: int, b: int) -> int {
    if a >= b {
        a
    } else {
        b
    }
}

/// Check that `amount` more bytes fit the allowance after `existing` bytes.
pub fn check_size(existing: usize, amount: usize, allowed: usize) -> (result: Result<
    (),
    OutputLimit,
>)
    ensures
        result is Ok <==> existing + amount <= allowed,
        result matches Err(e) ==> e == limit_error_for(existing as int, amount as int, allowed),
{
    match existing.checked_add(amount) {
        Some(required) => {
            if required <= allowed {
                Ok(())
            } else {
                Err(OutputLimit { required: Some(required), allowed })
            }
        },
        None => Err(OutputLimit { required: None, allowed }),
    }
}

} // verus!
