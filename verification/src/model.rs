//! The request and response values of the execution engine.

use vstd::prelude::*;
use crate::lang::LanguageId;

verus! {

/// One submitted snippet: the source text and its language. Immutable, one
/// per API call.
pub struct ExecutionRequest {
    pub source: String,
    pub language: LanguageId,
}

/// What a compile request yields. `output` carries the sandboxed program's
/// classified output — which may itself be a formatted `Error:` body when
/// the program failed — while `error` is reserved for infrastructure-level
/// failures. `elapsed_ms` is wall-clock time; `from_cache` says whether the
/// result was served from the result cache.
pub struct ExecutionResult {
    pub output: String,
    pub error: Option<String>,
    pub elapsed_ms: u64,
    pub from_cache: bool,
}

/// The view of an optional string.
pub open spec fn opt_view(o: Option<String>) -> Option<Seq<char>> {
    match o {
        Some(s) => Some(s@),
        None => None,
    }
}

} // verus!
