//! The error taxonomy of the extraction pipeline.

use vstd::prelude::*;

verus! {

/// Spec-level value of a [`KojiError`]: the same variants over `Seq<char>`
/// payloads, so that contracts can speak of errors extensionally.
pub enum ErrorView {
    Network(Seq<char>),
    Decode(Seq<char>),
    HtmlParse,
    QueryCompile(Seq<char>),
    BadCaptureShape,
    MissingField(Seq<char>),
    UnsupportedMethod(Seq<char>),
    MalformedIdentity(Seq<char>),
    InconsistentChildState,
}

/// Why an extraction failed.
///
/// Each extractor-level failure carries enough context (label, method name,
/// filename) to diagnose the page without re-fetching it.  None of these is
/// retried internally; retry policy belongs to the caller.
#[derive(Clone, Debug, PartialEq)]
pub enum KojiError {
    /// The transport failed before a page body was obtained.
    NetworkError(String),
    /// The response body was not usable text.
    DecodeError(String),
    /// The grammar could not produce any syntax tree at all.
    HtmlParseError,
    /// A tree pattern did not compile: a programmer error, never expected
    /// for the fixed set of queries.
    QueryCompileError(String),
    /// A query matched, but the captures were not shaped as the caller
    /// expects: the source markup has drifted from the known schema.
    BadCaptureShape,
    /// A labeled row or a required parameter entry was absent; the payload
    /// is the exact missing label.
    MissingField(String),
    /// The task's method is not `buildArch`; the payload is the method found.
    UnsupportedMethod(String),
    /// The source-package filename could not be split into
    /// name-version-release; the payload is the filename.
    MalformedIdentity(String),
    /// A child task reported a failed state inside an aggregate that was
    /// reported successful.
    InconsistentChildState,
}

impl View for KojiError {
    type V = ErrorView;

    open spec fn view(&self) -> ErrorView {
        match self {
            KojiError::NetworkError(s) => ErrorView::Network(s@),
            KojiError::DecodeError(s) => ErrorView::Decode(s@),
            KojiError::HtmlParseError => ErrorView::HtmlParse,
            KojiError::QueryCompileError(s) => ErrorView::QueryCompile(s@),
            KojiError::BadCaptureShape => ErrorView::BadCaptureShape,
            KojiError::MissingField(s) => ErrorView::MissingField(s@),
            KojiError::UnsupportedMethod(s) => ErrorView::UnsupportedMethod(s@),
            KojiError::MalformedIdentity(s) => ErrorView::MalformedIdentity(s@),
            KojiError::InconsistentChildState => ErrorView::InconsistentChildState,
        }
    }
}

} // verus!
