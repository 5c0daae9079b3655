//! Drive an external line-oriented regex-search engine and reassemble its
//! structured output.
//!
//! The crate has two verified halves. The invocation builder turns a
//! [`SearchOptions`] value into the exact argument vector the engine expects,
//! validating the depth bound on the way. The result assembler decodes the
//! engine's newline-delimited JSON event stream, keeps the match and context
//! events, and returns the records sorted by file path and line number.

pub mod assemble;
pub mod builder;
pub mod decimal;
pub mod events;
pub mod lines;
pub mod options;
pub mod order;
pub mod sort;

pub use assemble::assemble;
pub use assemble::search_outcome;
pub use builder::build;
pub use decimal::u32_to_string;
pub use options::DecodeError;
pub use options::SearchError;
pub use options::SearchOptions;
pub use options::SearchOptionsView;
pub use options::SearchResult;
pub use options::SearchResultView;
pub use options::ValidationError;
pub use sort::sort_results;
