//! A request-scoped evaluator for the Vector Remap Language.
//!
//! A request names a program text and, optionally, a document. The program
//! is compiled, or found compiled in a bounded cache that remembers failures
//! as well as successes, and run against the document. The outcome is the
//! value of the program's last expression beside the document as the program
//! left it, or the message of the error that stopped it.
//!
//! The cache and the orchestration round it are verified with Verus. The
//! cache's storage and the values of the language come from the `lru` and
//! `vrl` crates, behind contracts that Verus takes on trust: see `storage`
//! and `engine`. The compiler and the runtime of the language are handed in
//! by the caller, and the contracts say what is done with whatever they give.

pub mod cache;
pub mod context;
pub mod document;
pub mod engine;
pub mod laws;
pub mod recency;
pub mod resolve;
pub mod storage;

pub use cache::{CompilationCache, DEFAULT_CAPACITY};
pub use context::{
    execution_time_zone, report, time_zone_named, zone_or_local, ExecutionContext,
    CONFIGURED_ZONE,
};
pub use document::{document_or_empty, fresh_side_channels, Input, Outcome, RequestError};
pub use resolve::{resolve_compiled, resolve_with};
pub use storage::{Compiled, Stored};
