//! The error type of the library.

use proc_macro2::Span;
use vstd::prelude::*;

verus! {

/// `proc_macro2::Span`, a region of source code. The library only carries
/// spans from its callers into its errors.
#[verifier::external_type_specification]
#[verifier::external_body]
pub struct ExSpan(proc_macro2::Span);

/// What went wrong.
#[derive(Clone, Copy, Debug, PartialEq, Eq, Hash, Structural)]
pub enum ErrorKind {
    /// The configuration text is malformed, or cannot be read as structured
    /// text at all.
    ConfigParse,
    /// The configuration is well formed but breaks a rule.
    Validation,
    /// A template was found in none of the places searched.
    NotFound,
    /// A file could not be read.
    Io,
}

/// An error, with the configuration file and the source span it stems from
/// where they are known.
#[derive(Clone, Debug)]
pub struct CompileError {
    pub kind: ErrorKind,
    pub msg: String,
    /// Path of the configuration file that the error is about.
    pub file: Option<String>,
    pub span: Option<Span>,
}

/// An error with its texts as sequences of characters.
pub struct CompileErrorView {
    pub kind: ErrorKind,
    pub msg: Seq<char>,
    pub file: Option<Seq<char>>,
    pub span: Option<Span>,
}

impl View for CompileError {
    type V = CompileErrorView;

    open spec fn view(&self) -> CompileErrorView {
        CompileErrorView {
            kind: self.kind,
            msg: self.msg@,
            file: self.file.deep_view(),
            span: self.span,
        }
    }
}

impl CompileError {
    /// An error without a span.
    pub fn new(kind: ErrorKind, msg: String, file: Option<String>) -> (err: CompileError)
        ensures
            err == (CompileError { kind, msg, file, span: None }),
    {
        CompileError { kind, msg, file, span: None }
    }

    /// An error that points at a span.
    pub fn new_with_span(
        kind: ErrorKind,
        msg: String,
        file: Option<String>,
        span: Option<Span>,
    ) -> (err: CompileError)
        ensures
            err == (CompileError { kind, msg, file, span }),
    {
        CompileError { kind, msg, file, span }
    }

    /// An error that names no configuration file.
    pub fn no_file_info(kind: ErrorKind, msg: String, span: Option<Span>) -> (err: CompileError)
        ensures
            err == (CompileError { kind, msg, file: None, span }),
    {
        CompileError { kind, msg, file: None, span }
    }
}

} // verus!
