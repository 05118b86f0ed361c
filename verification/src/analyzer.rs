//! The analyzer as the bridge sees it: a value that is carried, the error
//! it reports, and the tokens it yields for a text.

use crate::common::SQLITE_INTERNAL;
use libc::c_int;
use lindera::error::LinderaError;
use lindera::tokenizer::Tokenizer;
use vstd::prelude::*;

verus! {

/// The morphological analyzer, which this library only carries.
#[verifier::external_type_specification]
#[verifier::external_body]
pub struct ExTokenizer(Tokenizer);

/// The error the analyzer reports; only the fact of a failure is used.
#[verifier::external_type_specification]
#[verifier::external_body]
pub struct ExLinderaError(LinderaError);

/// One segmented unit of a text: its surface and the span of bytes of the
/// input text that it covers.
#[derive(Debug)]
pub struct Token {
    pub surface: String,
    pub byte_start: usize,
    pub byte_end: usize,
}

impl Token {
    /// Whether the span lies inside a text of `text_len` bytes:
    /// `0 <= byte_start <= byte_end <= text_len`.
    pub open spec fn in_bounds(&self, text_len: int) -> bool {
        self.byte_start <= self.byte_end && self.byte_end <= text_len
    }
}

/// Whether `tokens` is a sequence an analyzer may yield for a text of
/// `text_len` bytes: every span lies inside the text, and the spans start
/// in non-decreasing order.
pub open spec fn well_formed(tokens: Seq<Token>, text_len: int) -> bool {
    &&& forall|i: int| 0 <= i < tokens.len() ==> (#[trigger] tokens[i]).in_bounds(text_len)
    &&& forall|i: int, j: int|
        0 <= i <= j < tokens.len() ==> (#[trigger] tokens[i]).byte_start <= (
        #[trigger] tokens[j]).byte_start
}

/// Replaces the analyzer's error by the status the host is given for it.
pub fn internal_on_failure<T>(outcome: Result<T, LinderaError>) -> (r: Result<T, c_int>)
    ensures
        r == match outcome {
            Ok(value) => Ok::<T, c_int>(value),
            Err(_) => Err::<T, c_int>(SQLITE_INTERNAL),
        },
{
    match outcome {
        Ok(value) => Ok(value),
        Err(_) => Err(SQLITE_INTERNAL),
    }
}

} // verus!
