//! A tokenizer module for a database's full-text search that delegates word
//! segmentation to a morphological analyzer.
//!
//! The library holds the bridge between the two: loading the module into the
//! host ([`extension`]), building and destroying the per-table instance, and
//! turning the host's byte buffer into tokens handed back through the host's
//! callback ([`tokenize`]), optionally in normal form ([`normalizer`]).
//! Every request to the host and every invocation of its callback is
//! recorded, and the contracts say which are made, in what order, and what
//! is returned for each answer.

pub mod analyzer;
pub mod common;
pub mod extension;
pub mod normalizer;
pub mod tokenize;

pub use crate::analyzer::{internal_on_failure, Token};
pub use crate::common::{cast_usize_to_c_int, ffi_panic_boundary};
pub use crate::common::{Fts5Tokenizer, TokenCallback};
pub use crate::common::{SQLITE_INTERNAL, SQLITE_MISUSE, SQLITE_OK};
pub use crate::extension::{
    ensure_fts5_api_version, fts5_delete_lindera_tokenizer, instance_for,
    lindera_fts5_tokenizer_init, lindera_fts_tokenizer_internal_init, register_lindera_tokenizer,
};
pub use crate::extension::{HostCall, PreparedStatement, SqliteApi};
pub use crate::extension::{
    FTS5_API_PARAMETER, FTS5_API_POINTER_TYPE, FTS5_API_QUERY, FTS5_API_VERSION,
    MINIMUM_SQLITE_VERSION, TOKENIZER_NAME,
};
pub use crate::normalizer::{normalize, strip_and_fold};
pub use crate::tokenize::{
    buffer_len, emit_tokens, lindera_fts5_tokenize, lindera_fts5_tokenize_internal,
    tokenize_answer, tokenize_text,
};
