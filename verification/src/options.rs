//! The option and record types of the search pipeline, their mathematical
//! views, and the error taxonomy.

use vstd::prelude::*;

verus! {

/// A declarative description of one search request.
///
/// `pattern` and `directory` are handed to the external engine verbatim as
/// positional arguments; the engine owns their interpretation. `max_depth`
/// must lie in `[1, 10]`; every other field is passed through permissively.
#[derive(Debug, Clone, PartialEq, Eq)]
pub struct SearchOptions {
    pub pattern: String,
    pub directory: String,
    pub case_sensitive: bool,
    pub search_hidden: bool,
    pub max_depth: u32,
    pub file_type: Option<String>,
    pub include_globs: Vec<String>,
    pub exclude_globs: Vec<String>,
    pub context_lines: u32,
}

/// The mathematical view of a [`SearchOptions`] value.
pub struct SearchOptionsView {
    pub pattern: Seq<char>,
    pub directory: Seq<char>,
    pub case_sensitive: bool,
    pub search_hidden: bool,
    pub max_depth: nat,
    pub file_type: Option<Seq<char>>,
    pub include_globs: Seq<Seq<char>>,
    pub exclude_globs: Seq<Seq<char>>,
    pub context_lines: nat,
}

impl View for SearchOptions {
    type V = SearchOptionsView;

    open spec fn view(&self) -> SearchOptionsView {
        SearchOptionsView {
            pattern: self.pattern@,
            directory: self.directory@,
            case_sensitive: self.case_sensitive,
            search_hidden: self.search_hidden,
            max_depth: self.max_depth as nat,
            file_type: match self.file_type {
                Some(t) => Some(t@),
                None => None,
            },
            include_globs: self.include_globs.deep_view(),
            exclude_globs: self.exclude_globs.deep_view(),
            context_lines: self.context_lines as nat,
        }
    }
}

/// One line of the assembled result: a match line, or a context line that
/// lies within the requested window around a match.
#[derive(Debug, Clone, PartialEq, Eq)]
pub struct SearchResult {
    pub path: String,
    pub line_number: u64,
    pub content: String,
    pub is_match: bool,
}

/// The mathematical view of a [`SearchResult`] record.
pub struct SearchResultView {
    pub path: Seq<char>,
    pub line_number: nat,
    pub content: Seq<char>,
    pub is_match: bool,
}

impl View for SearchResult {
    type V = SearchResultView;

    open spec fn view(&self) -> SearchResultView {
        SearchResultView {
            path: self.path@,
            line_number: self.line_number as nat,
            content: self.content@,
            is_match: self.is_match,
        }
    }
}

impl DeepView for SearchResult {
    type V = SearchResultView;

    open spec fn deep_view(&self) -> SearchResultView {
        self.view()
    }
}

/// Rejection of a [`SearchOptions`] value before any process is involved.
#[derive(Debug, Clone, Copy, PartialEq, Eq, Structural)]
pub enum ValidationError {
    /// `max_depth` is 0 or exceeds 10.
    DepthOutOfRange,
}

/// Failure to read the captured engine output as text.
#[derive(Debug, Clone, Copy, PartialEq, Eq, Structural)]
pub enum DecodeError {
    /// The captured bytes are not well-formed UTF-8.
    InvalidEncoding,
}

/// The caller-facing failure taxonomy of one whole search request.
#[derive(Debug, Clone, Copy, PartialEq, Eq, Structural)]
pub enum SearchError {
    /// The options failed validation; no process was spawned.
    InvalidOptions,
    /// The execution collaborator could not launch the engine at all.
    ProcessSpawnFailed,
    /// The engine ran, but its captured output is not valid text.
    OutputDecodeFailed,
}

} // verus!
