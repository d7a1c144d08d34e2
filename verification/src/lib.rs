//! Compact coverage gap analyzer for `llvm.coverage.json.export` data.
//!
//! Takes the JSON that `cargo llvm-cov --json` prints and reports, in a few
//! greppable lines, which lines, regions and branches no test reached.

use vstd::prelude::*;

pub mod analysis;
pub mod ascending;
pub mod command;
pub mod decode;
pub mod format;
pub mod json;
pub mod model;
pub mod ranges;
pub mod spans;
pub mod views;

use analysis::{analysis, AnalysisError, AnalysisResult, AnalysisResultView};
use decode::{decode_error_text, decoded, DecodeError, DecodeErrorView};
use format::report;

verus! {

/// Errors that can occur in `llvm-cov-easy`.
#[derive(Debug, Clone, PartialEq, Eq)]
pub enum Error {
    /// Failed to parse the coverage JSON.
    Json(DecodeError),
    /// Coverage analysis failed.
    Analysis(AnalysisError),
}

/// The view of `Error`.
pub ghost enum ErrorView {
    Json(DecodeErrorView),
    Analysis(AnalysisError),
}

impl View for Error {
    type V = ErrorView;

    open spec fn view(&self) -> ErrorView {
        match self {
            Error::Json(error) => ErrorView::Json(error@),
            Error::Analysis(error) => ErrorView::Analysis(*error),
        }
    }
}

/// What went wrong, in words.
pub open spec fn error_text(error: ErrorView) -> Seq<char> {
    match error {
        ErrorView::Json(error) => "failed to parse coverage JSON: "@ + decode_error_text(error),
        ErrorView::Analysis(_) => "coverage data is empty (no data entries)"@,
    }
}

impl Error {
    /// What went wrong, in words.
    pub fn message(&self) -> (text: String)
        ensures
            text@ == error_text(self@),
    {
        match self {
            Error::Json(error) => {
                let mut text = String::from_str("failed to parse coverage JSON: ");
                let detail = error.message();
                text.append(detail.as_str());
                text
            },
            Error::Analysis(error) => error.message(),
        }
    }
}

/// What the analysis of a JSON text gives: the analysis of the export that
/// the text decodes to, or the error of the step that failed.
pub open spec fn analyzed(text: Seq<char>) -> Result<AnalysisResultView, ErrorView> {
    match decoded(text) {
        Err(error) => Err(ErrorView::Json(error)),
        Ok(export) => match analysis(export) {
            Ok(result) => Ok(result),
            Err(error) => Err(ErrorView::Analysis(error)),
        },
    }
}

/// What a JSON text is reported as: the report of its analysis, or the error
/// of the step that failed.
pub open spec fn reported(text: Seq<char>) -> Result<Seq<char>, ErrorView> {
    match analyzed(text) {
        Ok(result) => Ok(report(result)),
        Err(error) => Err(error),
    }
}

/// Whether `outcome` is what `text` is reported as.
pub open spec fn is_report_of(text: Seq<char>, outcome: Result<String, Error>) -> bool {
    match outcome {
        Ok(output) => reported(text) == Ok::<Seq<char>, ErrorView>(output@),
        Err(error) => reported(text) == Err::<Seq<char>, ErrorView>(error@),
    }
}

/// Whether two outcomes are the same: the same output, character by
/// character, or the same error.
pub open spec fn same_outcome(first: Result<String, Error>, second: Result<String, Error>) -> bool {
    match (first, second) {
        (Ok(first), Ok(second)) => first@ == second@,
        (Err(first), Err(second)) => first@ == second@,
        _ => false,
    }
}

/// The report depends on the text alone: whatever two runs of
/// `analyze_and_format` on one text return is the same output, or the same
/// error.
pub proof fn lemma_same_text_same_report(
    text: Seq<char>,
    first: Result<String, Error>,
    second: Result<String, Error>,
)
    requires
        is_report_of(text, first),
        is_report_of(text, second),
    ensures
        same_outcome(first, second),
{
}

/// Parses coverage JSON from a string and analyzes it for coverage gaps.
///
/// This is the main entry point for the library. It decodes the JSON, runs
/// coverage gap analysis, and returns the result.
///
/// # Errors
///
/// Returns an error if the JSON is malformed or the coverage data is empty.
pub fn analyze_json(json: &str) -> (outcome: Result<AnalysisResult, Error>)
    ensures
        match outcome {
            Ok(result) => analyzed(json@) == Ok::<AnalysisResultView, ErrorView>(result@),
            Err(error) => analyzed(json@) == Err::<AnalysisResultView, ErrorView>(error@),
        },
{
    let export = match decode::decode(json) {
        Ok(export) => export,
        Err(error) => {
            return Err(Error::Json(error));
        },
    };
    match analysis::analyze(&export) {
        Ok(result) => Ok(result),
        Err(error) => Err(Error::Analysis(error)),
    }
}

/// Parses coverage JSON and returns formatted compact output.
///
/// Convenience function that combines parsing, analysis, and formatting. The
/// output depends on the text alone: the same text gives the same output.
///
/// # Errors
///
/// Returns an error if the JSON is malformed or the coverage data is empty.
pub fn analyze_and_format(json: &str) -> (outcome: Result<String, Error>)
    ensures
        is_report_of(json@, outcome),
{
    match analyze_json(json) {
        Ok(result) => Ok(format::format_result(&result)),
        Err(error) => Err(error),
    }
}

} // verus!
